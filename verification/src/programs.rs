//! Programs: the launchable applications as a launcher wants them, and the
//! selection of those that a list of settings asks for.

use vstd::prelude::*;
use crate::descriptor::{ApplicationDescriptor, DescriptorView, descriptor_views, read};
use crate::discovery::{DescriptorFile, file_views, read_all, read_descriptors};
use crate::text::{views, holds, same_text, contains_text, copy_strings, or_empty};

verus! {

/// How to launch one program.
#[derive(Debug)]
pub struct ProgramSettings {
    pub command: String,
    pub args: Vec<String>,
    pub app_id: String,
}

/// One launchable program.
#[derive(Debug)]
pub struct Program {
    pub name: String,
    pub icon: String,
    pub settings: ProgramSettings,
}

/// The mathematical content of a `ProgramSettings`.
pub ghost struct SettingsView {
    pub command: Seq<char>,
    pub args: Seq<Seq<char>>,
    pub app_id: Seq<char>,
}

/// The mathematical content of a `Program`.
pub ghost struct ProgramView {
    pub name: Seq<char>,
    pub icon: Seq<char>,
    pub settings: SettingsView,
}

impl View for ProgramSettings {
    type V = SettingsView;

    open spec fn view(&self) -> SettingsView {
        SettingsView { command: self.command@, args: views(self.args@), app_id: self.app_id@ }
    }
}

impl View for Program {
    type V = ProgramView;

    open spec fn view(&self) -> ProgramView {
        ProgramView { name: self.name@, icon: self.icon@, settings: self.settings@ }
    }
}

impl Clone for ProgramSettings {
    fn clone(&self) -> (r: Self)
        ensures
            r@ == self@,
    {
        ProgramSettings {
            command: self.command.clone(),
            args: copy_strings(&self.args),
            app_id: self.app_id.clone(),
        }
    }
}

impl Clone for Program {
    fn clone(&self) -> (r: Self)
        ensures
            r@ == self@,
    {
        Program {
            name: self.name.clone(),
            icon: self.icon.clone(),
            settings: self.settings.clone(),
        }
    }
}

/// The views of a list of programs.
pub open spec fn program_views(v: Seq<Program>) -> Seq<ProgramView> {
    Seq::new(v.len(), |i: int| v[i]@)
}

/// The views of a list of settings.
pub open spec fn settings_views(v: Seq<ProgramSettings>) -> Seq<SettingsView> {
    Seq::new(v.len(), |i: int| v[i]@)
}

/// The program of a descriptor: its unlocalized name, marked where the
/// application is sandboxed, its icon and command, and no arguments.
pub open spec fn program_of(d: DescriptorView) -> ProgramView {
    ProgramView {
        name: if d.is_sandboxed {
            d.display_name(Seq::empty()) + " (Flatpak)"@
        } else {
            d.display_name(Seq::empty())
        },
        icon: or_empty(d.icon_name),
        settings: SettingsView {
            command: or_empty(d.exec_command),
            args: Seq::empty(),
            app_id: d.id,
        },
    }
}

/// Whether no entry before `entries[i]` has its identifier.
pub open spec fn first_of_id(entries: Seq<DescriptorView>, i: int) -> bool {
    forall|j: int| 0 <= j < i ==> (#[trigger] entries[j]).id != entries[i].id
}

/// Whether one of the first `n` entries has the identifier `id`.
pub open spec fn names_id(entries: Seq<DescriptorView>, n: int, id: Seq<char>) -> bool {
    exists|j: int| 0 <= j < n && (#[trigger] entries[j]).id == id
}

/// The programs of the first `n` entries: of each identifier the first
/// entry counts, and it gives a program where it has a command.
pub open spec fn programs_of(entries: Seq<DescriptorView>, n: nat) -> Seq<ProgramView>
    decreases n,
{
    if n == 0 {
        Seq::empty()
    } else {
        let before = programs_of(entries, (n - 1) as nat);
        if first_of_id(entries, n - 1) && entries[n - 1].exec_command is Some {
            before.push(program_of(entries[n - 1]))
        } else {
            before
        }
    }
}

/// The installed program with the arguments that `wanted` asks for.
pub open spec fn configured(p: ProgramView, wanted: SettingsView) -> ProgramView {
    ProgramView {
        name: p.name,
        icon: p.icon,
        settings: SettingsView { command: p.settings.command, args: wanted.args, app_id: wanted.app_id },
    }
}

/// What the first `j` of `wanted` select of the installed program `p`: one
/// configured program for each that names its identifier.
pub open spec fn selected_of(p: ProgramView, wanted: Seq<SettingsView>, j: nat) -> Seq<
    ProgramView,
>
    decreases j,
{
    if j == 0 {
        Seq::empty()
    } else {
        let before = selected_of(p, wanted, (j - 1) as nat);
        if wanted[j - 1].app_id == p.settings.app_id {
            before.push(configured(p, wanted[j - 1]))
        } else {
            before
        }
    }
}

/// What `wanted` selects of the first `i` installed programs, in the order
/// of the installed programs and, for each, of `wanted`.
pub open spec fn selected(installed: Seq<ProgramView>, wanted: Seq<SettingsView>, i: nat) -> Seq<
    ProgramView,
>
    decreases i,
{
    if i == 0 {
        Seq::empty()
    } else {
        selected(installed, wanted, (i - 1) as nat) + selected_of(
            installed[i - 1],
            wanted,
            wanted.len(),
        )
    }
}

/// Builds the program of a descriptor.
pub fn program_from(d: &ApplicationDescriptor) -> (r: Program)
    ensures
        r@ == program_of(d@),
{
    let none: Vec<String> = Vec::new();
    assert(views(none@) =~= Seq::<Seq<char>>::empty());
    let mut name = d.display_name(&none);
    if d.is_sandboxed {
        name.append(" (Flatpak)");
    }
    let icon = match &d.icon_name {
        Some(icon) => icon.clone(),
        None => String::new(),
    };
    let command = match &d.exec_command {
        Some(command) => command.clone(),
        None => String::new(),
    };
    let args: Vec<String> = Vec::new();
    assert(views(args@) =~= Seq::<Seq<char>>::empty());
    Program { name, icon, settings: ProgramSettings { command, args, app_id: d.id.clone() } }
}

/// The programs of `entries`, in their order.
pub fn programs_from(entries: &Vec<ApplicationDescriptor>) -> (r: Vec<Program>)
    ensures
        program_views(r@) == programs_of(descriptor_views(entries@), entries@.len()),
{
    let ghost all = descriptor_views(entries@);
    let mut r: Vec<Program> = Vec::new();
    let mut seen: Vec<String> = Vec::new();
    let mut i: usize = 0;
    assert(program_views(r@) =~= Seq::<ProgramView>::empty());
    while i < entries.len()
        invariant
            i <= entries.len(),
            all == descriptor_views(entries@),
            program_views(r@) == programs_of(all, i as nat),
            forall|j: int| 0 <= j < i ==> holds(views(seen@), (#[trigger] all[j]).id),
            forall|k: int| 0 <= k < seen@.len() ==> names_id(all, i as int, #[trigger] seen@[k]@),
        decreases entries.len() - i,
    {
        let entry = &entries[i];
        assert(all[i as int] == entry@);
        let ghost before = program_views(r@);
        let ghost ids = views(seen@);
        let ghost old_seen = seen@;
        let known = contains_text(&seen, entry.id.as_str());
        proof {
            if known {
                let k = choose|k: int| 0 <= k < ids.len() && ids[k] == entry@.id;
                assert(ids[k] == seen@[k]@);
                assert(names_id(all, i as int, seen@[k]@));
                let j = choose|j: int| 0 <= j < i && (#[trigger] all[j]).id == seen@[k]@;
                assert(all[j].id == all[i as int].id);
                assert(!first_of_id(all, i as int));
            } else {
                assert forall|j: int| 0 <= j < i implies (#[trigger] all[j]).id != all[i as int].id by {
                    assert(holds(ids, all[j].id));
                }
            }
            assert(known == !first_of_id(all, i as int));
        }
        if !known {
            seen.push(entry.id.clone());
            proof {
                let now = views(seen@);
                assert(now =~= ids.push(entry@.id));
                assert forall|j: int| 0 <= j < i + 1 implies holds(now, (#[trigger] all[j]).id) by {
                    if j < i {
                        let k = choose|k: int| 0 <= k < ids.len() && ids[k] == all[j].id;
                        assert(now[k] == all[j].id);
                    } else {
                        assert(now[now.len() - 1] == all[j].id);
                    }
                }
                assert forall|k: int| 0 <= k < seen@.len() implies names_id(
                    all,
                    i + 1,
                    #[trigger] seen@[k]@,
                ) by {
                    if k < ids.len() {
                        assert(ids[k] == seen@[k]@);
                        assert(names_id(all, i as int, old_seen[k]@));
                        let j = choose|j: int| 0 <= j < i && (#[trigger] all[j]).id == ids[k];
                        assert(0 <= j < i + 1 && all[j].id == seen@[k]@);
                    } else {
                        assert(all[i as int].id == seen@[k]@);
                    }
                }
            }
            if entry.exec_command.is_some() {
                r.push(program_from(entry));
                assert(program_views(r@) =~= before.push(program_of(entry@)));
            }
        } else {
            proof {
                assert forall|j: int| 0 <= j < i + 1 implies holds(ids, (#[trigger] all[j]).id) by {
                    if j == i {
                        assert(holds(ids, entry@.id));
                    }
                }
                assert forall|k: int| 0 <= k < seen@.len() implies names_id(
                    all,
                    i + 1,
                    #[trigger] seen@[k]@,
                ) by {
                    assert(names_id(all, i as int, seen@[k]@));
                    let j = choose|j: int| 0 <= j < i && (#[trigger] all[j]).id == seen@[k]@;
                    assert(0 <= j < i + 1 && all[j].id == seen@[k]@);
                }
            }
        }
        i += 1;
    }
    r
}

/// The installed programs of the descriptor files found in the search
/// directories, given in search order.
pub fn get_installed_programs(files: &Vec<DescriptorFile>, locales: &Vec<String>) -> (r: Vec<
    Program,
>)
    ensures
        program_views(r@) == programs_of(
            read_all(file_views(files@), views(locales@), files@.len()),
            read_all(file_views(files@), views(locales@), files@.len()).len(),
        ),
{
    let entries = read_descriptors(files, locales);
    programs_from(&entries)
}

/// The installed programs that `programs` asks for, each with the
/// arguments asked for.
pub fn get_program_list(installed: &Vec<Program>, programs: &Vec<ProgramSettings>) -> (res: Vec<
    Program,
>)
    ensures
        program_views(res@) == selected(
            program_views(installed@),
            settings_views(programs@),
            installed@.len(),
        ),
{
    let ghost all = program_views(installed@);
    let ghost wanted = settings_views(programs@);
    let mut res: Vec<Program> = Vec::new();
    let mut i: usize = 0;
    assert(program_views(res@) =~= Seq::<ProgramView>::empty());
    while i < installed.len()
        invariant
            i <= installed.len(),
            all == program_views(installed@),
            wanted == settings_views(programs@),
            program_views(res@) == selected(all, wanted, i as nat),
        decreases installed.len() - i,
    {
        let program = &installed[i];
        assert(all[i as int] == program@);
        let ghost done = program_views(res@);
        let mut j: usize = 0;
        assert(done + Seq::<ProgramView>::empty() =~= done);
        while j < programs.len()
            invariant
                j <= programs.len(),
                wanted == settings_views(programs@),
                program_views(res@) == done + selected_of(program@, wanted, j as nat),
            decreases programs.len() - j,
        {
            let search = &programs[j];
            assert(wanted[j as int] == search@);
            let ghost row = selected_of(program@, wanted, j as nat);
            if same_text(search.app_id.as_str(), program.settings.app_id.as_str()) {
                let found = Program {
                    name: program.name.clone(),
                    icon: program.icon.clone(),
                    settings: ProgramSettings {
                        command: program.settings.command.clone(),
                        args: copy_strings(&search.args),
                        app_id: search.app_id.clone(),
                    },
                };
                assert(found@ == configured(program@, search@));
                let ghost so_far = program_views(res@);
                res.push(found);
                assert(program_views(res@) =~= so_far.push(found@));
                assert(so_far.push(found@) =~= done + row.push(found@));
            }
            j += 1;
        }
        i += 1;
    }
    res
}

} // verus!
