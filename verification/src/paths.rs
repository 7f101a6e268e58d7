//! Paths as strings: the final component, the containing directory, and the
//! search for a component.

use vstd::prelude::*;
use crate::text::{starts_with, same_text};

verus! {

/// The position of the last separator of `path`, or -1 where there is none.
pub open spec fn last_slash(path: Seq<char>) -> int
    decreases path.len(),
{
    if path.len() == 0 {
        -1
    } else if path.last() == '/' {
        path.len() - 1
    } else {
        last_slash(path.drop_last())
    }
}

/// The separator's position lies in the path, and a separator stands there.
pub proof fn lemma_last_slash(path: Seq<char>)
    ensures
        -1 <= last_slash(path) < path.len(),
        last_slash(path) >= 0 ==> path[last_slash(path)] == '/',
        forall|j: int| last_slash(path) < j < path.len() ==> path[j] != '/',
    decreases path.len(),
{
    if path.len() > 0 && path.last() != '/' {
        let shorter = path.drop_last();
        lemma_last_slash(shorter);
        assert forall|j: int| last_slash(path) < j < path.len() implies path[j] != '/' by {
            if j < shorter.len() {
                assert(shorter[j] == path[j]);
            }
        }
    }
}

/// The final component: what follows the last separator.
pub open spec fn file_name(path: Seq<char>) -> Seq<char> {
    path.subrange(last_slash(path) + 1, path.len() as int)
}

/// The containing directory: what precedes the last separator.
pub open spec fn parent(path: Seq<char>) -> Seq<char> {
    if last_slash(path) < 0 {
        Seq::empty()
    } else {
        path.subrange(0, last_slash(path))
    }
}

/// Whether a final component can name a file.
pub open spec fn names_file(name: Seq<char>) -> bool {
    name.len() > 0 && name != "."@ && name != ".."@
}

/// Whether the component `name` of `path` starts at `k`: a separator stands
/// before it and the path ends or goes on with a separator after it.
pub open spec fn component_at(path: Seq<char>, name: Seq<char>, k: int) -> bool {
    &&& 1 <= k
    &&& k + name.len() <= path.len()
    &&& path[k - 1] == '/'
    &&& path.subrange(k, k + name.len()) == name
    &&& (k + name.len() == path.len() || path[k + name.len()] == '/')
}

/// The start of the first component `name` of `path` at or after `from`, or
/// -1 where there is none.
pub open spec fn component_start(path: Seq<char>, name: Seq<char>, from: int) -> int
    decreases path.len() - from + 1,
{
    if from < 1 || from + name.len() > path.len() {
        -1
    } else if component_at(path, name, from) {
        from
    } else {
        component_start(path, name, from + 1)
    }
}

/// A component that was found lies within the path.
pub proof fn lemma_component_start(path: Seq<char>, name: Seq<char>, from: int)
    ensures
        component_start(path, name, from) == -1 || from <= component_start(path, name, from)
            <= path.len() - name.len(),
    decreases path.len() - from + 1,
{
    if !(from < 1 || from + name.len() > path.len()) && !component_at(path, name, from) {
        lemma_component_start(path, name, from + 1);
    }
}

/// Finds the last separator of `path`.
pub fn find_last_slash(path: &str) -> (r: Option<usize>)
    ensures
        match r {
            Some(i) => last_slash(path@) == i,
            None => last_slash(path@) == -1,
        },
{
    let n = path.unicode_len();
    let mut i: usize = n;
    assert(path@.take(n as int) =~= path@);
    while i > 0
        invariant
            i <= n,
            n == path@.len(),
            last_slash(path@) == last_slash(path@.take(i as int)),
        decreases i,
    {
        if path.get_char(i - 1) == '/' {
            return Some(i - 1);
        }
        assert(path@.take(i as int).drop_last() =~= path@.take(i - 1));
        i -= 1;
    }
    None
}

/// The final component of `path`.
pub fn file_name_of(path: &str) -> (r: String)
    ensures
        r@ == file_name(path@),
{
    let n = path.unicode_len();
    proof {
        lemma_last_slash(path@);
    }
    match find_last_slash(path) {
        Some(i) => String::from_str(path.substring_char(i + 1, n)),
        None => {
            assert(path@.subrange(0, n as int) =~= path@);
            String::from_str(path)
        },
    }
}

/// The containing directory of `path`.
pub fn parent_of(path: &str) -> (r: String)
    ensures
        r@ == parent(path@),
{
    proof {
        lemma_last_slash(path@);
    }
    match find_last_slash(path) {
        Some(i) => String::from_str(path.substring_char(0, i)),
        None => String::new(),
    }
}

/// Tests whether a final component can name a file.
pub fn is_file_name(name: &str) -> (r: bool)
    ensures
        r == names_file(name@),
{
    name.unicode_len() > 0 && !same_text(name, ".") && !same_text(name, "..")
}

/// Tests whether the component `name` of `path` starts at `k`.
fn is_component_at(path: &str, name: &str, k: usize) -> (r: bool)
    requires
        1 <= k,
        k + name@.len() <= path@.len(),
    ensures
        r == component_at(path@, name@, k as int),
{
    let n = path.unicode_len();
    let m = name.unicode_len();
    let rest = path.substring_char(k, n);
    proof {
        assert(rest@.subrange(0, m as int) =~= path@.subrange(k as int, k + m));
    }
    path.get_char(k - 1) == '/' && starts_with(rest, name) && (k + m == n || path.get_char(k + m)
        == '/')
}

/// Finds the first component `name` of `path`.
pub fn find_component(path: &str, name: &str) -> (r: Option<usize>)
    ensures
        match r {
            Some(k) => component_start(path@, name@, 1) == k,
            None => component_start(path@, name@, 1) == -1,
        },
{
    let n = path.unicode_len();
    let m = name.unicode_len();
    if m >= n {
        return None;
    }
    let last = n - m;
    let mut k: usize = 1;
    while k < last
        invariant
            1 <= k <= last,
            last == n - m,
            n == path@.len(),
            m == name@.len(),
            component_start(path@, name@, 1) == component_start(path@, name@, k as int),
        decreases last - k,
    {
        if is_component_at(path, name, k) {
            return Some(k);
        }
        k += 1;
    }
    if is_component_at(path, name, k) {
        return Some(k);
    }
    assert(component_start(path@, name@, k + 1) == -1);
    None
}

} // verus!
