//! The reconciliation engine: what to change in an autostart directory so
//! that it holds what the user asked for. The engine plans; the caller
//! probes and changes the file system and reports back.

use vstd::prelude::*;
use crate::descriptor::{ApplicationDescriptor, DescriptorView};
use crate::discovery::{
    file_has_id, has_id, read_all, sorted_from, lemma_startup_has_id, lemma_startup_lacks_id,
};
use crate::error::EngineError;
use crate::paths::{
    file_name, parent, names_file, component_start, file_name_of, parent_of, is_file_name,
    find_component, lemma_component_start,
};
use crate::scope::{DirectoryType, Environment, resolved, joined, under, join, is_under};
use crate::text::{views, opt_view};

verus! {

/// One change to the file system.
#[derive(Debug)]
pub enum Action {
    /// Create a symbolic link at `target` that points at `source`.
    Link { source: String, target: String },
    /// Copy the file `source` to `target`.
    Copy { source: String, target: String },
    /// Add the execute permission for owner, group and others.
    MakeExecutable { path: String },
    /// Remove the file.
    Remove { path: String },
    /// Write a file with this content.
    Write { path: String, text: String },
}

/// The mathematical content of an `Action`.
pub ghost enum ActionView {
    Link { source: Seq<char>, target: Seq<char> },
    Copy { source: Seq<char>, target: Seq<char> },
    MakeExecutable { path: Seq<char> },
    Remove { path: Seq<char> },
    Write { path: Seq<char>, text: Seq<char> },
}

impl View for Action {
    type V = ActionView;

    open spec fn view(&self) -> ActionView {
        match *self {
            Action::Link { source, target } => ActionView::Link { source: source@, target: target@ },
            Action::Copy { source, target } => ActionView::Copy { source: source@, target: target@ },
            Action::MakeExecutable { path } => ActionView::MakeExecutable { path: path@ },
            Action::Remove { path } => ActionView::Remove { path: path@ },
            Action::Write { path, text } => ActionView::Write { path: path@, text: text@ },
        }
    }
}

/// The views of a plan's actions.
pub open spec fn action_views(plan: Seq<Action>) -> Seq<ActionView> {
    Seq::new(plan.len(), |i: int| plan[i]@)
}

/// The files that exist once `action` has succeeded on `files`.
pub open spec fn after(action: ActionView, files: Set<Seq<char>>) -> Set<Seq<char>> {
    match action {
        ActionView::Link { source, target } => files.insert(target),
        ActionView::Copy { source, target } => files.insert(target),
        ActionView::MakeExecutable { path } => files,
        ActionView::Remove { path } => files.remove(path),
        ActionView::Write { path, text } => files.insert(path),
    }
}

/// The files that exist once every action of `plan` has succeeded in turn.
pub open spec fn after_all(plan: Seq<ActionView>, files: Set<Seq<char>>) -> Set<Seq<char>>
    decreases plan.len(),
{
    if plan.len() == 0 {
        files
    } else {
        after_all(plan.drop_first(), after(plan[0], files))
    }
}

/// The descriptor file of the name `stem` in a scope's canonical directory,
/// the first of `dirs`.
pub open spec fn target_path(dirs: Seq<Seq<char>>, stem: Seq<char>) -> Seq<char> {
    joined(dirs[0], stem + ".desktop"@)
}

/// What enabling does: nothing where the target exists, else one link to
/// the descriptor's file, or one copy of it where links would not be
/// visible across the sandbox.
pub open spec fn enable_plan(
    source: Seq<char>,
    target: Seq<char>,
    exists: bool,
    sandboxed: bool,
) -> Seq<ActionView> {
    if exists {
        Seq::empty()
    } else if sandboxed {
        seq![ActionView::Copy { source, target }]
    } else {
        seq![ActionView::Link { source, target }]
    }
}

/// What disabling does: one removal where the target exists, else nothing.
pub open spec fn disable_plan(target: Seq<char>, exists: bool) -> Seq<ActionView> {
    if exists {
        seq![ActionView::Remove { path: target }]
    } else {
        Seq::empty()
    }
}

/// `s` with a backslash before every double quote and backslash.
pub open spec fn escaped(s: Seq<char>) -> Seq<char>
    decreases s.len(),
{
    if s.len() == 0 {
        Seq::empty()
    } else if s.last() == '"' || s.last() == '\\' {
        escaped(s.drop_last()) + "\\"@ + seq![s.last()]
    } else {
        escaped(s.drop_last()) + seq![s.last()]
    }
}

/// `s` as one double-quoted word of a command line.
pub open spec fn quoted(s: Seq<char>) -> Seq<char> {
    "\""@ + escaped(s) + "\""@
}

/// The command that runs the copy of a script in the user's autostart
/// directory, by its conventional location.
pub open spec fn sandbox_command(name: Seq<char>) -> Seq<char> {
    "sh -c '~/.config/autostart/"@ + name + "'"@
}

/// The minimal descriptor document: type, name and command.
pub open spec fn document(name: Seq<char>, command: Seq<char>) -> Seq<char> {
    "[Desktop Entry]\nType=Application\nName="@ + name + "\nExec="@ + command
}

/// What registering the script at `script` does in the canonical directory
/// `dir`: it writes the descriptor; in a sandbox it first copies the script
/// beside it and makes the copy executable.
pub open spec fn script_plan(dir: Seq<char>, script: Seq<char>, sandboxed: bool) -> Seq<
    ActionView,
> {
    let name = file_name(script);
    let entry = joined(dir, name + ".desktop"@);
    if sandboxed {
        seq![
            ActionView::Copy { source: script, target: joined(dir, name) },
            ActionView::MakeExecutable { path: joined(dir, name) },
            ActionView::Write { path: entry, text: document(name, sandbox_command(name)) },
        ]
    } else {
        seq![ActionView::Write { path: entry, text: document(name, quoted(script)) }]
    }
}

/// The path to show in the file manager for the descriptor file at `path`:
/// none where the path names no file; in a sandbox, for a file below the
/// per-application tree of a home directory, the file of that name in the
/// host's autostart directory; else the path itself.
pub open spec fn revealed(path: Seq<char>, sandboxed: bool) -> Option<Seq<char>> {
    let dir = parent(path);
    let start = component_start(dir, ".var"@, 1);
    if !names_file(file_name(path)) {
        None
    } else if sandboxed && under(dir, "/home"@) && start >= 0 {
        Some(dir.subrange(0, start) + ".config/autostart/"@ + file_name(path))
    } else {
        Some(path)
    }
}

/// Enabling once leaves the target and every file that was there; enabling
/// again plans nothing and changes nothing.
pub proof fn lemma_enable_idempotent(
    source: Seq<char>,
    target: Seq<char>,
    sandboxed: bool,
    files: Set<Seq<char>>,
)
    ensures
        ({
            let first = enable_plan(source, target, files.contains(target), sandboxed);
            let once = after_all(first, files);
            let second = enable_plan(source, target, once.contains(target), sandboxed);
            &&& once == files.insert(target)
            &&& second == Seq::<ActionView>::empty()
            &&& after_all(second, once) == once
        }),
{
    let first = enable_plan(source, target, files.contains(target), sandboxed);
    if first.len() > 0 {
        assert(first.drop_first().len() == 0);
        assert(after_all(first, files) == after_all(first.drop_first(), after(first[0], files)));
    } else {
        assert(files.insert(target) =~= files);
    }
}

/// Disabling what is absent plans nothing and changes nothing.
pub proof fn lemma_disable_absent(target: Seq<char>, files: Set<Seq<char>>)
    requires
        !files.contains(target),
    ensures
        disable_plan(target, files.contains(target)) == Seq::<ActionView>::empty(),
        after_all(disable_plan(target, files.contains(target)), files) == files,
{
}

/// After disabling, the target does not exist, and every other file is
/// as before.
pub proof fn lemma_disable_removes(target: Seq<char>, files: Set<Seq<char>>)
    ensures
        after_all(disable_plan(target, files.contains(target)), files) == files.remove(target),
{
    let plan = disable_plan(target, files.contains(target));
    if plan.len() > 0 {
        assert(plan.drop_first().len() == 0);
        assert(after_all(plan, files) == after_all(plan.drop_first(), after(plan[0], files)));
    } else {
        assert(files.remove(target) =~= files);
    }
}

/// Enabling, then listing: where the listing shows every file that exists
/// after enabling, and the target's file decodes to a descriptor of the
/// identifier, the autostart inventory holds that identifier.
pub proof fn lemma_enable_then_listed(
    source: Seq<char>,
    target: Seq<char>,
    sandboxed: bool,
    existing: Set<Seq<char>>,
    files: Seq<(Seq<char>, Seq<char>)>,
    locales: Seq<Seq<char>>,
    inventory: Seq<DescriptorView>,
    id: Seq<char>,
)
    requires
        forall|path: Seq<char>|
            after_all(
                enable_plan(source, target, existing.contains(target), sandboxed),
                existing,
            ).contains(path) ==> exists|i: int|
                0 <= i < files.len() && (#[trigger] files[i]).0 == path,
        forall|i: int|
            0 <= i < files.len() && (#[trigger] files[i]).0 == target ==> file_has_id(
                files,
                locales,
                i,
                id,
            ),
        sorted_from(inventory, read_all(files, locales, files.len()), locales),
    ensures
        has_id(inventory, id),
{
    lemma_enable_idempotent(source, target, sandboxed, existing);
    assert(existing.insert(target).contains(target));
    let i = choose|i: int| 0 <= i < files.len() && (#[trigger] files[i]).0 == target;
    lemma_startup_has_id(files, locales, inventory, i, id);
}

/// Disabling, then listing: where the listing shows only files that exist
/// after disabling, and no file but the target decodes to a descriptor of
/// the identifier, the autostart inventory does not hold that identifier.
pub proof fn lemma_disable_then_unlisted(
    target: Seq<char>,
    existing: Set<Seq<char>>,
    files: Seq<(Seq<char>, Seq<char>)>,
    locales: Seq<Seq<char>>,
    inventory: Seq<DescriptorView>,
    id: Seq<char>,
)
    requires
        forall|i: int|
            0 <= i < files.len() ==> after_all(
                disable_plan(target, existing.contains(target)),
                existing,
            ).contains((#[trigger] files[i]).0),
        forall|i: int|
            0 <= i < files.len() && file_has_id(files, locales, i, id) ==> (#[trigger] files[i]).0
                == target,
        sorted_from(inventory, read_all(files, locales, files.len()), locales),
    ensures
        !has_id(inventory, id),
{
    lemma_disable_removes(target, existing);
    assert forall|i: int| 0 <= i < files.len() implies !file_has_id(files, locales, i, id) by {
        assert(existing.remove(target).contains(files[i].0));
    }
    lemma_startup_lacks_id(files, locales, inventory, id);
}

/// After registering a script, its descriptor file exists.
pub proof fn lemma_script_registered(
    dir: Seq<char>,
    script: Seq<char>,
    sandboxed: bool,
    files: Set<Seq<char>>,
)
    ensures
        after_all(script_plan(dir, script, sandboxed), files).contains(
            joined(dir, file_name(script) + ".desktop"@),
        ),
{
    let plan = script_plan(dir, script, sandboxed);
    if sandboxed {
        let copied = after(plan[0], files);
        let rest = plan.drop_first();
        let marked = after(rest[0], copied);
        let last = rest.drop_first();
        let written = after(last[0], marked);
        assert(last.drop_first().len() == 0);
        assert(after_all(last, marked) == after_all(last.drop_first(), written));
        assert(after_all(rest, copied) == after_all(last, marked));
        assert(after_all(plan, files) == after_all(rest, copied));
    } else {
        assert(plan.drop_first().len() == 0);
        assert(after_all(plan, files) == after_all(plan.drop_first(), after(plan[0], files)));
    }
}

/// The two strings, one after the other.
pub fn chain(a: &str, b: &str) -> (r: String)
    ensures
        r@ == a@ + b@,
{
    let mut r = String::from_str(a);
    r.append(b);
    r
}

/// The descriptor file of the name `stem` in the canonical directory of
/// `scope`.
pub fn descriptor_target(scope: DirectoryType, env: &Environment, stem: &str) -> (r: Result<
    String,
    EngineError,
>)
    ensures
        match resolved(scope, env@) {
            Some(dirs) => r is Ok && r->Ok_0@ == target_path(dirs, stem@),
            None => r == Err::<String, EngineError>(EngineError::ConfigDirUnavailable),
        },
{
    match scope.directories(env) {
        Ok(dirs) => {
            assert(views(dirs@)[0] == dirs@[0]@);
            let name = chain(stem, ".desktop");
            Ok(join(dirs[0].as_str(), name.as_str()))
        },
        Err(_) => Err(EngineError::ConfigDirUnavailable),
    }
}

/// Plans enabling `descriptor` in `scope`. `probe` is what the caller found
/// when it asked whether `descriptor_target(scope, env, id)` exists: `None`
/// where the probe itself failed.
pub fn enable(
    scope: DirectoryType,
    env: &Environment,
    descriptor: &ApplicationDescriptor,
    probe: Option<bool>,
) -> (r: Result<Vec<Action>, EngineError>)
    ensures
        match (resolved(scope, env@), probe) {
            (None, _) => r == Err::<Vec<Action>, EngineError>(EngineError::ConfigDirUnavailable),
            (Some(_), None) => r == Err::<Vec<Action>, EngineError>(EngineError::IoFailure),
            (Some(dirs), Some(exists)) => r is Ok && action_views(r->Ok_0@) == enable_plan(
                descriptor@.source_path,
                target_path(dirs, descriptor@.id),
                exists,
                env@.sandboxed,
            ),
        },
{
    let target = match descriptor_target(scope, env, descriptor.id.as_str()) {
        Ok(target) => target,
        Err(_) => {
            return Err(EngineError::ConfigDirUnavailable);
        },
    };
    let exists = match probe {
        Some(exists) => exists,
        None => {
            return Err(EngineError::IoFailure);
        },
    };
    let mut plan: Vec<Action> = Vec::new();
    if !exists {
        let source = descriptor.source_path.clone();
        if env.sandboxed {
            plan.push(Action::Copy { source, target });
        } else {
            plan.push(Action::Link { source, target });
        }
    }
    assert(action_views(plan@) =~= enable_plan(
        descriptor@.source_path,
        target_path(resolved(scope, env@)->Some_0, descriptor@.id),
        exists,
        env@.sandboxed,
    ));
    Ok(plan)
}

/// Plans disabling `descriptor` in `scope`. `probe` is as for `enable`.
pub fn disable(
    scope: DirectoryType,
    env: &Environment,
    descriptor: &ApplicationDescriptor,
    probe: Option<bool>,
) -> (r: Result<Vec<Action>, EngineError>)
    ensures
        match (resolved(scope, env@), probe) {
            (None, _) => r == Err::<Vec<Action>, EngineError>(EngineError::ConfigDirUnavailable),
            (Some(_), None) => r == Err::<Vec<Action>, EngineError>(EngineError::IoFailure),
            (Some(dirs), Some(exists)) => r is Ok && action_views(r->Ok_0@) == disable_plan(
                target_path(dirs, descriptor@.id),
                exists,
            ),
        },
{
    let target = match descriptor_target(scope, env, descriptor.id.as_str()) {
        Ok(target) => target,
        Err(_) => {
            return Err(EngineError::ConfigDirUnavailable);
        },
    };
    let exists = match probe {
        Some(exists) => exists,
        None => {
            return Err(EngineError::IoFailure);
        },
    };
    let mut plan: Vec<Action> = Vec::new();
    if exists {
        plan.push(Action::Remove { path: target });
    }
    assert(action_views(plan@) =~= disable_plan(
        target_path(resolved(scope, env@)->Some_0, descriptor@.id),
        exists,
    ));
    Ok(plan)
}

/// Escapes the double quotes and backslashes of `s`.
pub fn escape(s: &str) -> (r: String)
    ensures
        r@ == escaped(s@),
{
    let n = s.unicode_len();
    let mut r = String::new();
    let mut i: usize = 0;
    while i < n
        invariant
            i <= n,
            n == s@.len(),
            r@ == escaped(s@.take(i as int)),
        decreases n - i,
    {
        let c = s.get_char(i);
        assert(s@.take(i + 1).drop_last() =~= s@.take(i as int));
        assert(s@.take(i + 1).last() == c);
        if c == '"' || c == '\\' {
            r.append("\\");
        }
        let one = s.substring_char(i, i + 1);
        assert(one@ =~= seq![c]);
        r.append(one);
        i += 1;
    }
    assert(s@.take(n as int) =~= s@);
    r
}

/// The descriptor document of a name and a command.
pub fn write_document(name: &str, command: &str) -> (r: String)
    ensures
        r@ == document(name@, command@),
{
    let mut r = String::from_str("[Desktop Entry]\nType=Application\nName=");
    r.append(name);
    r.append("\nExec=");
    r.append(command);
    r
}

/// Plans registering the script at `script_path` in `scope`. The path must
/// have a final component that can name a file.
pub fn register_script(scope: DirectoryType, env: &Environment, script_path: &str) -> (r: Result<
    Vec<Action>,
    EngineError,
>)
    ensures
        if !names_file(file_name(script_path@)) {
            r == Err::<Vec<Action>, EngineError>(EngineError::InvalidPath)
        } else {
            match resolved(scope, env@) {
                None => r == Err::<Vec<Action>, EngineError>(EngineError::ConfigDirUnavailable),
                Some(dirs) => r is Ok && action_views(r->Ok_0@) == script_plan(
                    dirs[0],
                    script_path@,
                    env@.sandboxed,
                ),
            }
        },
{
    let name = file_name_of(script_path);
    if !is_file_name(name.as_str()) {
        return Err(EngineError::InvalidPath);
    }
    let dirs = match scope.directories(env) {
        Ok(dirs) => dirs,
        Err(_) => {
            return Err(EngineError::ConfigDirUnavailable);
        },
    };
    assert(views(dirs@)[0] == dirs@[0]@);
    let dir = dirs[0].as_str();
    let entry_name = chain(name.as_str(), ".desktop");
    let entry = join(dir, entry_name.as_str());
    let mut plan: Vec<Action> = Vec::new();
    if env.sandboxed {
        let mut command = String::from_str("sh -c '~/.config/autostart/");
        command.append(name.as_str());
        command.append("'");
        let text = write_document(name.as_str(), command.as_str());
        plan.push(Action::Copy { source: String::from_str(script_path), target: join(dir, name.as_str()) });
        plan.push(Action::MakeExecutable { path: join(dir, name.as_str()) });
        plan.push(Action::Write { path: entry, text });
    } else {
        let mut command = String::from_str("\"");
        command.append(escape(script_path).as_str());
        command.append("\"");
        let text = write_document(name.as_str(), command.as_str());
        plan.push(Action::Write { path: entry, text });
    }
    assert(action_views(plan@) =~= script_plan(dirs@[0]@, script_path@, env@.sandboxed));
    Ok(plan)
}

/// What the caller does next while it carries out a plan.
#[derive(Clone, Copy, Debug, PartialEq, Eq, Structural)]
pub enum Step {
    /// Carry out the action at this position of the plan.
    Perform(usize),
    /// Every action succeeded.
    Completed,
    /// An action failed; the actions after it are not attempted.
    Failed(EngineError),
}

/// The next step after `done` actions of a plan of `len` actions, of which
/// the last `succeeded`: a failure ends the run at once with `IoFailure`.
pub fn next_step(len: usize, done: usize, succeeded: bool) -> (r: Step)
    ensures
        r == if !succeeded {
            Step::Failed(EngineError::IoFailure)
        } else if done < len {
            Step::Perform(done)
        } else {
            Step::Completed
        },
{
    if !succeeded {
        Step::Failed(EngineError::IoFailure)
    } else if done < len {
        Step::Perform(done)
    } else {
        Step::Completed
    }
}

/// The permission bits of a file that `MakeExecutable` leaves: the old ones
/// and execute for owner, group and others.
pub fn executable_mode(mode: u32) -> (r: u32)
    ensures
        r == mode | 0o111,
{
    mode | 0o111
}

/// The path to show in the file manager for `descriptor`.
pub fn reveal_path(descriptor: &ApplicationDescriptor, sandboxed: bool) -> (r: Option<String>)
    ensures
        opt_view(r) == revealed(descriptor@.source_path, sandboxed),
{
    let path = descriptor.source_path.as_str();
    let name = file_name_of(path);
    if !is_file_name(name.as_str()) {
        return None;
    }
    if sandboxed {
        let dir = parent_of(path);
        if is_under(dir.as_str(), "/home") {
            match find_component(dir.as_str(), ".var") {
                Some(start) => {
                    proof {
                        lemma_component_start(dir@, ".var"@, 1);
                    }
                    let mut shown = String::from_str(dir.as_str().substring_char(0, start));
                    shown.append(".config/autostart/");
                    shown.append(name.as_str());
                    return Some(shown);
                },
                None => {},
            }
        }
    }
    Some(descriptor.source_path.clone())
}

} // verus!
