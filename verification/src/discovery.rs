//! The discovery engine: the inventory of installed applications and the
//! inventory of autostarted applications, from the descriptor files that
//! the caller has read.

use vstd::prelude::*;
use crate::descriptor::{ApplicationDescriptor, DescriptorView, descriptor_views, read, read_descriptor};
use crate::scope::Environment;
use crate::text::{
    views, opt_view, same_text, precedes, text_before, lemma_precedes_irreflexive,
    lemma_precedes_transitive, lemma_precedes_total,
};

verus! {

/// A descriptor file as the caller read it: where it lies and what it
/// holds.
#[derive(Debug)]
pub struct DescriptorFile {
    pub path: String,
    pub text: String,
}

/// Files as pairs of path and content.
pub open spec fn file_views(v: Seq<DescriptorFile>) -> Seq<(Seq<char>, Seq<char>)> {
    Seq::new(v.len(), |i: int| (v[i].path@, v[i].text@))
}

/// The descriptors of the first `n` files, in the order of the files;
/// a file that the decoder rejects contributes nothing.
pub open spec fn read_all(
    files: Seq<(Seq<char>, Seq<char>)>,
    locales: Seq<Seq<char>>,
    n: nat,
) -> Seq<DescriptorView>
    decreases n,
{
    if n == 0 {
        Seq::empty()
    } else {
        let before = read_all(files, locales, (n - 1) as nat);
        match read(files[n - 1].0, files[n - 1].1, locales) {
            Some(d) => before.push(d),
            None => before,
        }
    }
}

/// Whether the installed-application inventory may hold `d`: it has a
/// command, is no applet, and, where the session's desktop is known, that
/// desktop shows it.
pub open spec fn launchable(d: DescriptorView, desktop: Option<Seq<char>>) -> bool {
    &&& d.exec_command is Some
    &&& !d.is_applet
    &&& desktop matches Some(name) ==> d.visible_in(name)
}

/// Whether `entries[i]` is the first launchable descriptor of its
/// identifier.
pub open spec fn kept(entries: Seq<DescriptorView>, desktop: Option<Seq<char>>, i: int) -> bool {
    &&& launchable(entries[i], desktop)
    &&& forall|j: int|
        0 <= j < i && launchable(#[trigger] entries[j], desktop) ==> entries[j].id
            != entries[i].id
}

/// The installed-application inventory of the first `n` entries: the kept
/// ones, in discovery order.
pub open spec fn installed(
    entries: Seq<DescriptorView>,
    desktop: Option<Seq<char>>,
    n: nat,
) -> Seq<DescriptorView>
    decreases n,
{
    if n == 0 {
        Seq::empty()
    } else {
        let before = installed(entries, desktop, (n - 1) as nat);
        if kept(entries, desktop, n - 1) {
            before.push(entries[n - 1])
        } else {
            before
        }
    }
}

/// Whether one of `inventory` has the identifier `id`.
pub open spec fn has_id(inventory: Seq<DescriptorView>, id: Seq<char>) -> bool {
    exists|k: int| 0 <= k < inventory.len() && (#[trigger] inventory[k]).id == id
}

/// Whether one of the first `n` entries is launchable and has the
/// identifier `id`.
pub open spec fn offers(
    entries: Seq<DescriptorView>,
    desktop: Option<Seq<char>>,
    n: nat,
    id: Seq<char>,
) -> bool {
    exists|j: int| 0 <= j < n && launchable(#[trigger] entries[j], desktop) && entries[j].id == id
}

/// The inventory has an identifier exactly where a launchable entry
/// offers it.
pub proof fn lemma_installed_ids(
    entries: Seq<DescriptorView>,
    desktop: Option<Seq<char>>,
    n: nat,
    id: Seq<char>,
)
    requires
        n <= entries.len(),
    ensures
        has_id(installed(entries, desktop, n), id) <==> offers(entries, desktop, n, id),
    decreases n,
{
    if n > 0 {
        let m = (n - 1) as nat;
        let before = installed(entries, desktop, m);
        let now = installed(entries, desktop, n);
        lemma_installed_ids(entries, desktop, m, id);
        if has_id(now, id) {
            let k = choose|k: int| 0 <= k < now.len() && (#[trigger] now[k]).id == id;
            if k < before.len() {
                assert(before[k].id == id);
                let j = choose|j: int|
                    0 <= j < m && launchable(#[trigger] entries[j], desktop) && entries[j].id
                        == id;
                assert(0 <= j < n && launchable(entries[j], desktop) && entries[j].id == id);
            } else {
                assert(launchable(entries[n - 1], desktop) && entries[n - 1].id == id);
            }
        }
        if offers(entries, desktop, n, id) {
            let j = choose|j: int|
                0 <= j < n && launchable(#[trigger] entries[j], desktop) && entries[j].id == id;
            if j < m {
                assert(offers(entries, desktop, m, id));
                let k = choose|k: int| 0 <= k < before.len() && (#[trigger] before[k]).id == id;
                assert(now[k].id == id);
            } else if kept(entries, desktop, n - 1) {
                assert(now[now.len() - 1].id == id);
            } else {
                let i = choose|i: int|
                    0 <= i < n - 1 && launchable(#[trigger] entries[i], desktop) && entries[i].id
                        == entries[n - 1].id;
                assert(offers(entries, desktop, m, id));
                let k = choose|k: int| 0 <= k < before.len() && (#[trigger] before[k]).id == id;
                assert(now[k].id == id);
            }
        }
    }
}

/// Every descriptor of the inventory is an entry that was kept: it is
/// launchable, and no launchable entry before it has its identifier.
pub proof fn lemma_installed_from_kept(
    entries: Seq<DescriptorView>,
    desktop: Option<Seq<char>>,
    n: nat,
    k: int,
) -> (i: int)
    requires
        n <= entries.len(),
        0 <= k < installed(entries, desktop, n).len(),
    ensures
        0 <= i < n,
        kept(entries, desktop, i),
        installed(entries, desktop, n)[k] == entries[i],
    decreases n,
{
    let before = installed(entries, desktop, (n - 1) as nat);
    if k < before.len() {
        lemma_installed_from_kept(entries, desktop, (n - 1) as nat, k)
    } else {
        n - 1
    }
}

/// No two descriptors of the inventory share an identifier.
pub proof fn lemma_installed_distinct(
    entries: Seq<DescriptorView>,
    desktop: Option<Seq<char>>,
    n: nat,
    a: int,
    b: int,
)
    requires
        n <= entries.len(),
        0 <= a < b < installed(entries, desktop, n).len(),
    ensures
        installed(entries, desktop, n)[a].id != installed(entries, desktop, n)[b].id,
    decreases n,
{
    let m = (n - 1) as nat;
    let before = installed(entries, desktop, m);
    if b < before.len() {
        lemma_installed_distinct(entries, desktop, m, a, b);
    } else {
        lemma_installed_ids(entries, desktop, m, entries[n - 1].id);
        if before[a].id == entries[n - 1].id {
            assert(has_id(before, entries[n - 1].id));
            let j = choose|j: int|
                0 <= j < m && launchable(#[trigger] entries[j], desktop) && entries[j].id
                    == entries[n - 1].id;
            assert(false);
        }
    }
}

/// Every launchable entry is represented in the inventory by the first
/// launchable entry of its identifier.
pub proof fn lemma_installed_complete(
    entries: Seq<DescriptorView>,
    desktop: Option<Seq<char>>,
    n: nat,
    i: int,
)
    requires
        n <= entries.len(),
        0 <= i < n,
        kept(entries, desktop, i),
    ensures
        installed(entries, desktop, n).contains(entries[i]),
    decreases n,
{
    let m = (n - 1) as nat;
    let before = installed(entries, desktop, m);
    let now = installed(entries, desktop, n);
    if i < m {
        lemma_installed_complete(entries, desktop, m, i);
        let k = choose|k: int| 0 <= k < before.len() && before[k] == entries[i];
        assert(now[k] == entries[i]);
    } else {
        assert(now[now.len() - 1] == entries[i]);
    }
}

/// Every descriptor of the inventory has a command, is no applet and,
/// where the session's desktop is known, is shown there.
pub proof fn lemma_installed_launchable(
    entries: Seq<DescriptorView>,
    desktop: Option<Seq<char>>,
    n: nat,
    k: int,
)
    requires
        n <= entries.len(),
        0 <= k < installed(entries, desktop, n).len(),
    ensures
        launchable(installed(entries, desktop, n)[k], desktop),
{
    lemma_installed_from_kept(entries, desktop, n, k);
}

/// Every file that decodes has its descriptor among those read.
pub proof fn lemma_read_all_holds(
    files: Seq<(Seq<char>, Seq<char>)>,
    locales: Seq<Seq<char>>,
    n: nat,
    i: int,
)
    requires
        0 <= i < n <= files.len(),
        read(files[i].0, files[i].1, locales) is Some,
    ensures
        read_all(files, locales, n).contains(read(files[i].0, files[i].1, locales)->Some_0),
    decreases n,
{
    let m = (n - 1) as nat;
    let before = read_all(files, locales, m);
    let now = read_all(files, locales, n);
    let d = read(files[i].0, files[i].1, locales)->Some_0;
    if i < m {
        lemma_read_all_holds(files, locales, m, i);
        let k = choose|k: int| 0 <= k < before.len() && before[k] == d;
        assert(now[k] == d);
    } else {
        assert(now[now.len() - 1] == d);
    }
}

/// Every descriptor that was read is the descriptor of one of the files.
pub proof fn lemma_read_all_from_file(
    files: Seq<(Seq<char>, Seq<char>)>,
    locales: Seq<Seq<char>>,
    n: nat,
    k: int,
) -> (i: int)
    requires
        n <= files.len(),
        0 <= k < read_all(files, locales, n).len(),
    ensures
        0 <= i < n,
        read(files[i].0, files[i].1, locales) == Some(read_all(files, locales, n)[k]),
    decreases n,
{
    let before = read_all(files, locales, (n - 1) as nat);
    if k < before.len() {
        lemma_read_all_from_file(files, locales, (n - 1) as nat, k)
    } else {
        n - 1
    }
}

/// Whether `inventory` is in ascending order of display name.
pub open spec fn ordered_by_name(inventory: Seq<DescriptorView>, locales: Seq<Seq<char>>) -> bool {
    forall|a: int, b: int|
        0 <= a < b < inventory.len() ==> !precedes(
            (#[trigger] inventory[b]).display_name(locales),
            (#[trigger] inventory[a]).display_name(locales),
        )
}

/// Whether `order` names the entry at `e`.
pub open spec fn names_entry(order: Seq<int>, e: int) -> bool {
    exists|k: int| 0 <= k < order.len() && #[trigger] order[k] == e
}

/// Whether `order` arranges `entries` into `inventory`: it names, position
/// by position, the entry that stands there, and names every entry once.
pub open spec fn arranges(
    order: Seq<int>,
    entries: Seq<DescriptorView>,
    inventory: Seq<DescriptorView>,
) -> bool {
    &&& order.len() == entries.len()
    &&& order.len() == inventory.len()
    &&& forall|k: int|
        0 <= k < order.len() ==> 0 <= #[trigger] order[k] < entries.len() && inventory[k]
            == entries[order[k]]
    &&& forall|a: int, b: int|
        0 <= a < b < order.len() ==> #[trigger] order[a] != #[trigger] order[b]
    &&& forall|e: int| 0 <= e < entries.len() ==> #[trigger] names_entry(order, e)
}

/// Whether `order` leaves entries of one display name in the order in
/// which they came.
pub open spec fn keeps_ties(
    order: Seq<int>,
    entries: Seq<DescriptorView>,
    locales: Seq<Seq<char>>,
) -> bool {
    forall|a: int, b: int|
        0 <= a < b < order.len() && entries[#[trigger] order[a]].display_name(locales)
            == entries[#[trigger] order[b]].display_name(locales) ==> order[a] < order[b]
}

/// Whether `inventory` is `entries` sorted by display name: in ascending
/// order, each entry once, entries of one name in the order in which they
/// came.
pub open spec fn sorted_from(
    inventory: Seq<DescriptorView>,
    entries: Seq<DescriptorView>,
    locales: Seq<Seq<char>>,
) -> bool {
    &&& ordered_by_name(inventory, locales)
    &&& exists|order: Seq<int>|
        #[trigger] arranges(order, entries, inventory) && keeps_ties(order, entries, locales)
}

/// Two orders that sort the same entries agree on their first `k`
/// positions.
proof fn lemma_orders_agree(
    entries: Seq<DescriptorView>,
    locales: Seq<Seq<char>>,
    x: Seq<DescriptorView>,
    y: Seq<DescriptorView>,
    ox: Seq<int>,
    oy: Seq<int>,
    k: nat,
)
    requires
        ordered_by_name(x, locales),
        ordered_by_name(y, locales),
        arranges(ox, entries, x),
        arranges(oy, entries, y),
        keeps_ties(ox, entries, locales),
        keeps_ties(oy, entries, locales),
        k <= entries.len(),
    ensures
        forall|j: int| 0 <= j < k ==> ox[j] == oy[j],
    decreases k,
{
    if k > 0 {
        lemma_orders_agree(entries, locales, x, y, ox, oy, (k - 1) as nat);
        let j = k - 1;
        let e = ox[j];
        let f = oy[j];
        if e != f {
            assert(names_entry(oy, e));
            assert(names_entry(ox, f));
            let m = choose|m: int| 0 <= m < oy.len() && #[trigger] oy[m] == e;
            let n = choose|n: int| 0 <= n < ox.len() && #[trigger] ox[n] == f;
            if m < j {
                assert(ox[m] == oy[m]);
                assert(false);
            }
            if n < j {
                assert(oy[n] == ox[n]);
                assert(false);
            }
            assert(x[j] == entries[e] && x[n] == entries[f]);
            assert(y[j] == entries[f] && y[m] == entries[e]);
            assert(!precedes(x[n].display_name(locales), x[j].display_name(locales)));
            assert(!precedes(y[m].display_name(locales), y[j].display_name(locales)));
            lemma_precedes_total(
                entries[e].display_name(locales),
                entries[f].display_name(locales),
            );
            assert(ox[j] < ox[n]);
            assert(oy[j] < oy[m]);
            assert(false);
        }
    }
}

/// Sorting has one result: two inventories that are both `entries` sorted
/// by display name are the same.
pub proof fn lemma_sorted_unique(
    entries: Seq<DescriptorView>,
    locales: Seq<Seq<char>>,
    x: Seq<DescriptorView>,
    y: Seq<DescriptorView>,
)
    requires
        sorted_from(x, entries, locales),
        sorted_from(y, entries, locales),
    ensures
        x == y,
{
    let ox = choose|order: Seq<int>|
        #[trigger] arranges(order, entries, x) && keeps_ties(order, entries, locales);
    let oy = choose|order: Seq<int>|
        #[trigger] arranges(order, entries, y) && keeps_ties(order, entries, locales);
    lemma_orders_agree(entries, locales, x, y, ox, oy, entries.len());
    assert forall|k: int| 0 <= k < x.len() implies x[k] == y[k] by {
        assert(ox[k] == oy[k]);
    }
    assert(x =~= y);
}

/// The autostart inventory holds the descriptor of every file that
/// decodes: nothing is filtered.
pub proof fn lemma_startup_holds_file(
    files: Seq<(Seq<char>, Seq<char>)>,
    locales: Seq<Seq<char>>,
    inventory: Seq<DescriptorView>,
    i: int,
)
    requires
        sorted_from(inventory, read_all(files, locales, files.len()), locales),
        0 <= i < files.len(),
        read(files[i].0, files[i].1, locales) is Some,
    ensures
        inventory.contains(read(files[i].0, files[i].1, locales)->Some_0),
{
    let all = read_all(files, locales, files.len());
    let d = read(files[i].0, files[i].1, locales)->Some_0;
    lemma_read_all_holds(files, locales, files.len(), i);
    let order = choose|order: Seq<int>|
        #[trigger] arranges(order, all, inventory) && keeps_ties(order, all, locales);
    let j = choose|j: int| 0 <= j < all.len() && all[j] == d;
    assert(names_entry(order, j));
    let k = choose|k: int| 0 <= k < order.len() && #[trigger] order[k] == j;
    assert(inventory[k] == d);
}

/// The autostart inventory holds nothing but descriptors of the files: each
/// of its descriptors was read from one of them.
pub proof fn lemma_startup_from_file(
    files: Seq<(Seq<char>, Seq<char>)>,
    locales: Seq<Seq<char>>,
    inventory: Seq<DescriptorView>,
    k: int,
) -> (i: int)
    requires
        sorted_from(inventory, read_all(files, locales, files.len()), locales),
        0 <= k < inventory.len(),
    ensures
        0 <= i < files.len(),
        read(files[i].0, files[i].1, locales) == Some(inventory[k]),
{
    let all = read_all(files, locales, files.len());
    let order = choose|order: Seq<int>|
        #[trigger] arranges(order, all, inventory) && keeps_ties(order, all, locales);
    lemma_read_all_from_file(files, locales, files.len(), order[k])
}

/// Whether the file at `i` decodes to a descriptor of the identifier `id`.
pub open spec fn file_has_id(
    files: Seq<(Seq<char>, Seq<char>)>,
    locales: Seq<Seq<char>>,
    i: int,
    id: Seq<char>,
) -> bool {
    read(files[i].0, files[i].1, locales) matches Some(d) && d.id == id
}

/// Where one of the files of a scope decodes to a descriptor of the
/// identifier `id`, as the target does once `id` was enabled, the autostart
/// inventory holds that identifier.
pub proof fn lemma_startup_has_id(
    files: Seq<(Seq<char>, Seq<char>)>,
    locales: Seq<Seq<char>>,
    inventory: Seq<DescriptorView>,
    i: int,
    id: Seq<char>,
)
    requires
        sorted_from(inventory, read_all(files, locales, files.len()), locales),
        0 <= i < files.len(),
        file_has_id(files, locales, i, id),
    ensures
        has_id(inventory, id),
{
    lemma_startup_holds_file(files, locales, inventory, i);
    let d = read(files[i].0, files[i].1, locales)->Some_0;
    let k = choose|k: int| 0 <= k < inventory.len() && inventory[k] == d;
    assert(inventory[k].id == id);
}

/// Where none of the files of a scope decodes to a descriptor of the
/// identifier `id`, the autostart inventory does not hold that identifier.
pub proof fn lemma_startup_lacks_id(
    files: Seq<(Seq<char>, Seq<char>)>,
    locales: Seq<Seq<char>>,
    inventory: Seq<DescriptorView>,
    id: Seq<char>,
)
    requires
        sorted_from(inventory, read_all(files, locales, files.len()), locales),
        forall|i: int| 0 <= i < files.len() ==> !file_has_id(files, locales, i, id),
    ensures
        !has_id(inventory, id),
{
    if has_id(inventory, id) {
        let k = choose|k: int| 0 <= k < inventory.len() && (#[trigger] inventory[k]).id == id;
        let i = lemma_startup_from_file(files, locales, inventory, k);
        assert(file_has_id(files, locales, i, id));
    }
}

/// Tests whether one of `inventory` has the identifier `id`.
pub fn contains_id(inventory: &Vec<ApplicationDescriptor>, id: &str) -> (r: bool)
    ensures
        r == has_id(descriptor_views(inventory@), id@),
{
    let mut i: usize = 0;
    while i < inventory.len()
        invariant
            i <= inventory.len(),
            forall|j: int| 0 <= j < i ==> inventory@[j].id@ != id@,
        decreases inventory.len() - i,
    {
        if same_text(inventory[i].id.as_str(), id) {
            assert(descriptor_views(inventory@)[i as int].id == id@);
            return true;
        }
        i += 1;
    }
    assert forall|k: int| 0 <= k < descriptor_views(inventory@).len() implies (
    #[trigger] descriptor_views(inventory@)[k]).id != id@ by {
        assert(descriptor_views(inventory@)[k].id == inventory@[k].id@);
    }
    false
}

/// Tests whether the installed-application inventory may hold `d`.
pub fn is_launchable(d: &ApplicationDescriptor, desktop: &Option<String>) -> (r: bool)
    ensures
        r == launchable(d@, opt_view(*desktop)),
{
    if d.exec_command.is_none() || d.is_applet {
        return false;
    }
    match desktop {
        Some(name) => d.visible_in(name.as_str()),
        None => true,
    }
}

/// Reads every file that decodes, in the order of the files.
pub fn read_descriptors(files: &Vec<DescriptorFile>, locales: &Vec<String>) -> (r: Vec<
    ApplicationDescriptor,
>)
    ensures
        descriptor_views(r@) == read_all(file_views(files@), views(locales@), files@.len()),
{
    let mut r: Vec<ApplicationDescriptor> = Vec::new();
    let mut i: usize = 0;
    assert(descriptor_views(r@) =~= Seq::<DescriptorView>::empty());
    while i < files.len()
        invariant
            i <= files.len(),
            descriptor_views(r@) == read_all(file_views(files@), views(locales@), i as nat),
        decreases files.len() - i,
    {
        let ghost before = descriptor_views(r@);
        assert(file_views(files@)[i as int] == (files@[i as int].path@, files@[i as int].text@));
        match read_descriptor(files[i].path.as_str(), files[i].text.as_str(), locales) {
            Ok(d) => {
                r.push(d);
                assert(descriptor_views(r@) =~= before.push(d@));
            },
            Err(_) => {},
        }
        i += 1;
    }
    r
}

/// The installed-application inventory of `entries`: the launchable ones,
/// the first of each identifier, in discovery order.
pub fn select_installed(entries: &Vec<ApplicationDescriptor>, desktop: &Option<String>) -> (r: Vec<
    ApplicationDescriptor,
>)
    ensures
        descriptor_views(r@) == installed(
            descriptor_views(entries@),
            opt_view(*desktop),
            entries@.len(),
        ),
{
    let ghost all = descriptor_views(entries@);
    let ghost session = opt_view(*desktop);
    let mut r: Vec<ApplicationDescriptor> = Vec::new();
    let mut i: usize = 0;
    assert(descriptor_views(r@) =~= Seq::<DescriptorView>::empty());
    while i < entries.len()
        invariant
            i <= entries.len(),
            all == descriptor_views(entries@),
            session == opt_view(*desktop),
            descriptor_views(r@) == installed(all, session, i as nat),
        decreases entries.len() - i,
    {
        let ghost before = descriptor_views(r@);
        let entry = &entries[i];
        assert(all[i as int] == entry@);
        let keep = is_launchable(entry, desktop) && !contains_id(&r, entry.id.as_str());
        proof {
            lemma_installed_ids(all, session, i as nat, entry@.id);
            if offers(all, session, i as nat, entry@.id) {
                let j = choose|j: int|
                    0 <= j < i && launchable(#[trigger] all[j], session) && all[j].id
                        == entry@.id;
                assert(!kept(all, session, i as int));
            }
            assert(keep == kept(all, session, i as int));
        }
        if keep {
            let copy = entry.clone();
            r.push(copy);
            assert(descriptor_views(r@) =~= before.push(entry@));
        }
        i += 1;
    }
    r
}

/// The installed-application inventory of the descriptor files found in
/// the search directories, given in search order, for the desktop session
/// that the environment names. No sort is imposed.
pub fn get_installed_applications(
    files: &Vec<DescriptorFile>,
    locales: &Vec<String>,
    env: &Environment,
) -> (r: Vec<ApplicationDescriptor>)
    ensures
        descriptor_views(r@) == installed(
            read_all(file_views(files@), views(locales@), files@.len()),
            env@.session_desktop,
            read_all(file_views(files@), views(locales@), files@.len()).len(),
        ),
{
    let entries = read_descriptors(files, locales);
    select_installed(&entries, &env.session_desktop)
}

/// The descriptors of `entries` in ascending order of display name, by the
/// code points of the name's characters: upper-case Latin letters come
/// before lower-case ones. Entries of one name keep their order.
pub fn sort_by_name(entries: &Vec<ApplicationDescriptor>, locales: &Vec<String>) -> (r: Vec<
    ApplicationDescriptor,
>)
    ensures
        sorted_from(descriptor_views(r@), descriptor_views(entries@), views(locales@)),
{
    let ghost all = descriptor_views(entries@);
    let ghost langs = views(locales@);
    let mut r: Vec<ApplicationDescriptor> = Vec::new();
    let mut names: Vec<String> = Vec::new();
    let ghost mut order: Seq<int> = Seq::empty();
    let mut i: usize = 0;
    while i < entries.len()
        invariant
            i <= entries.len(),
            order.len() == i,
            r@.len() == i,
            forall|k: int|
                0 <= k < i ==> 0 <= #[trigger] order[k] < i && r@[k]@ == all[order[k]],
            forall|a: int, b: int| 0 <= a < b < i ==> #[trigger] order[a] != #[trigger] order[b],
            forall|e: int| 0 <= e < i ==> #[trigger] names_entry(order, e),
            forall|a: int, b: int|
                0 <= a < b < i && r@[a]@.display_name(langs) == r@[b]@.display_name(langs)
                    ==> #[trigger] order[a] < #[trigger] order[b],
            all == descriptor_views(entries@),
            langs == views(locales@),
            names@.len() == r@.len(),
            forall|k: int| 0 <= k < r@.len() ==> names@[k]@ == r@[k]@.display_name(langs),
            ordered_by_name(descriptor_views(r@), langs),
        decreases entries.len() - i,
    {
        let entry = entries[i].clone();
        let name = entry.display_name(locales);
        assert(all[i as int] == entry@);
        let mut p: usize = 0;
        let mut found = false;
        while p < names.len() && !found
            invariant
                p <= names@.len(),
                forall|q: int| 0 <= q < p ==> !precedes(name@, names@[q]@),
                found ==> p < names@.len() && precedes(name@, names@[p as int]@),
            decreases names@.len() - p + (if found { 0int } else { 1int }),
        {
            if text_before(name.as_str(), names[p].as_str()) {
                found = true;
            } else {
                p += 1;
            }
        }
        let ghost before = descriptor_views(r@);
        let ghost old_names = names@;
        assert forall|q: int| 0 <= q < before.len() implies (#[trigger] before[q]).display_name(
            langs,
        ) == old_names[q]@ by {
            assert(before[q] == r@[q]@);
        }
        let ghost old_order = order;
        let ghost old_r = r@;
        r.insert(p, entry);
        names.insert(p, name);
        proof {
            order = old_order.insert(p as int, i as int);
            assert forall|k: int| 0 <= k < i + 1 implies 0 <= #[trigger] order[k] < i + 1
                && r@[k]@ == all[order[k]] by {
                if k < p {
                    assert(order[k] == old_order[k] && r@[k] == old_r[k]);
                } else if k > p {
                    assert(order[k] == old_order[k - 1] && r@[k] == old_r[k - 1]);
                }
            }
            assert forall|a: int, b: int| 0 <= a < b < i + 1 implies #[trigger] order[a]
                != #[trigger] order[b] by {
                let a0 = if a < p { a } else { a - 1 };
                let b0 = if b < p { b } else { b - 1 };
                if a != p && b != p {
                    assert(order[a] == old_order[a0] && order[b] == old_order[b0]);
                } else if a == p {
                    assert(order[b] == old_order[b0]);
                } else {
                    assert(order[a] == old_order[a0]);
                }
            }
            assert forall|e: int| 0 <= e < i + 1 implies #[trigger] names_entry(order, e) by {
                if e < i {
                    assert(names_entry(old_order, e));
                    let k = choose|k: int| 0 <= k < old_order.len() && #[trigger] old_order[k] == e;
                    let k1 = if k < p { k } else { k + 1 };
                    assert(order[k1] == e);
                } else {
                    assert(order[p as int] == e);
                }
            }
            assert forall|a: int, b: int|
                0 <= a < b < i + 1 && r@[a]@.display_name(langs) == r@[b]@.display_name(
                    langs,
                ) implies #[trigger] order[a] < #[trigger] order[b] by {
                let a0 = if a < p { a } else { a - 1 };
                let b0 = if b < p { b } else { b - 1 };
                if a != p && b != p {
                    assert(order[a] == old_order[a0] && order[b] == old_order[b0]);
                    assert(r@[a] == old_r[a0] && r@[b] == old_r[b0]);
                } else if b == p {
                    assert(order[a] == old_order[a0]);
                } else {
                    assert(r@[b] == old_r[b - 1]);
                    assert(before[b - 1] == old_r[b - 1]@);
                    assert(before[p as int].display_name(langs) == old_names[p as int]@);
                    assert(precedes(name@, old_names[p as int]@));
                    lemma_precedes_irreflexive(name@);
                    if b - 1 > p {
                        assert(!precedes(
                            before[b - 1].display_name(langs),
                            before[p as int].display_name(langs),
                        ));
                    }
                    assert(false);
                }
            }
            let now = descriptor_views(r@);
            assert(now =~= before.insert(p as int, entry@));
            assert forall|a: int, b: int| 0 <= a < b < now.len() implies !precedes(
                (#[trigger] now[b]).display_name(langs),
                (#[trigger] now[a]).display_name(langs),
            ) by {
                let na = now[a].display_name(langs);
                let nb = now[b].display_name(langs);
                if a < p && b < p {
                    assert(now[a] == before[a] && now[b] == before[b]);
                } else if a < p && b == p {
                    assert(now[a] == before[a]);
                    assert(na == old_names[a]@);
                } else if a < p {
                    assert(now[a] == before[a] && now[b] == before[b - 1]);
                } else if a == p {
                    assert(now[b] == before[b - 1]);
                    assert(precedes(name@, old_names[p as int]@));
                    assert(before[p as int].display_name(langs) == old_names[p as int]@);
                    if precedes(nb, na) {
                        lemma_precedes_transitive(nb, na, old_names[p as int]@);
                        lemma_precedes_irreflexive(nb);
                        if b - 1 > p {
                            assert(!precedes(
                                before[b - 1].display_name(langs),
                                before[p as int].display_name(langs),
                            ));
                        }
                    }
                } else {
                    assert(now[a] == before[a - 1] && now[b] == before[b - 1]);
                }
            }
        }
        i += 1;
    }
    proof {
        let inventory = descriptor_views(r@);
        assert forall|a: int, b: int|
            0 <= a < b < order.len() && all[#[trigger] order[a]].display_name(langs)
                == all[#[trigger] order[b]].display_name(langs) implies order[a] < order[b] by {
            assert(inventory[a] == r@[a]@ && inventory[b] == r@[b]@);
        }
        assert(arranges(order, all, inventory));
        assert(keeps_ties(order, all, langs));
    }
    r
}

/// The autostart inventory of the descriptor files found in a scope's
/// directories: every file that decodes, without filtering, in ascending
/// order of display name.
pub fn get_startup_applications(files: &Vec<DescriptorFile>, locales: &Vec<String>) -> (r: Vec<
    ApplicationDescriptor,
>)
    ensures
        sorted_from(
            descriptor_views(r@),
            read_all(file_views(files@), views(locales@), files@.len()),
            views(locales@),
        ),
{
    let entries = read_descriptors(files, locales);
    sort_by_name(&entries, locales)
}

} // verus!
