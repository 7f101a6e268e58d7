//! The path resolver: from a scope to the ordered autostart directories.

use vstd::prelude::*;
use crate::error::EngineError;
use crate::text::{views, opt_view, split_on, split, starts_with, same_text};

verus! {

/// Which set of autostart directories an operation targets.
#[derive(Clone, Copy, Debug, PartialEq, Eq, Hash, Structural)]
pub enum DirectoryType {
    /// Directory for the current user
    User,
    /// System directories
    System,
}

/// What the process environment says, read once by the caller and handed to
/// every engine function as plain values.
#[derive(Debug)]
pub struct Environment {
    /// The user's configuration root, where it could be determined.
    pub config_root: Option<String>,
    /// The colon-separated system configuration search path, where set.
    pub config_dirs: Option<String>,
    /// The identifier of the running desktop session, where set.
    pub session_desktop: Option<String>,
    /// Whether the process sees the host's files through a sandbox.
    pub sandboxed: bool,
}

/// The mathematical content of an `Environment`.
pub ghost struct EnvironmentView {
    pub config_root: Option<Seq<char>>,
    pub config_dirs: Option<Seq<char>>,
    pub session_desktop: Option<Seq<char>>,
    pub sandboxed: bool,
}

impl View for Environment {
    type V = EnvironmentView;

    open spec fn view(&self) -> EnvironmentView {
        EnvironmentView {
            config_root: opt_view(self.config_root),
            config_dirs: opt_view(self.config_dirs),
            session_desktop: opt_view(self.session_desktop),
            sandboxed: self.sandboxed,
        }
    }
}

/// `base` extended by the relative `name`, with one separator between them.
pub open spec fn joined(base: Seq<char>, name: Seq<char>) -> Seq<char> {
    if base.len() == 0 {
        name
    } else if base.last() == '/' {
        base + name
    } else {
        base + "/"@ + name
    }
}

/// Whether `path` is `root` or lies below it.
pub open spec fn under(path: Seq<char>, root: Seq<char>) -> bool {
    path == root || (root + "/"@).is_prefix_of(path)
}

/// Whether `path` belongs to the host system's trees, which a sandbox
/// shows elsewhere.
pub open spec fn host_owned(path: Seq<char>) -> bool {
    under(path, "/etc"@) || under(path, "/usr"@)
}

/// Where a sandboxed process finds the host's `path`.
pub open spec fn host_visible(path: Seq<char>) -> Seq<char> {
    if host_owned(path) {
        "/run/host"@ + path
    } else {
        path
    }
}

/// Where this process finds `path`.
pub open spec fn placed(path: Seq<char>, sandboxed: bool) -> Seq<char> {
    if sandboxed {
        host_visible(path)
    } else {
        path
    }
}

/// The system configuration roots: the entries of the search path, or the
/// conventional root where the search path is unset or empty.
pub open spec fn system_roots(config_dirs: Option<Seq<char>>) -> Seq<Seq<char>> {
    match config_dirs {
        Some(value) => if value.len() > 0 {
            split_on(value, ':')
        } else {
            seq!["/etc/xdg"@]
        },
        None => seq!["/etc/xdg"@],
    }
}

/// The autostart directory of each configuration root, in the same order.
pub open spec fn autostart_dirs(roots: Seq<Seq<char>>, sandboxed: bool) -> Seq<Seq<char>> {
    Seq::new(roots.len(), |k: int| placed(joined(roots[k], "autostart"@), sandboxed))
}

/// The directories of a scope in search order, or `None` where the user
/// scope has no configuration root.
pub open spec fn resolved(scope: DirectoryType, env: EnvironmentView) -> Option<Seq<Seq<char>>> {
    match scope {
        DirectoryType::User => match env.config_root {
            Some(root) => Some(autostart_dirs(seq![root], env.sandboxed)),
            None => None,
        },
        DirectoryType::System => Some(
            autostart_dirs(system_roots(env.config_dirs), env.sandboxed),
        ),
    }
}

/// Every scope that resolves has a first directory: the one that
/// reconciliation writes to.
pub proof fn lemma_resolved_nonempty(scope: DirectoryType, env: EnvironmentView)
    requires
        resolved(scope, env) is Some,
    ensures
        resolved(scope, env)->Some_0.len() >= 1,
{
}

/// Joins a directory and a relative name.
pub fn join(base: &str, name: &str) -> (r: String)
    ensures
        r@ == joined(base@, name@),
{
    let n = base.unicode_len();
    let mut r = String::from_str(base);
    if n > 0 && base.get_char(n - 1) != '/' {
        r.append("/");
    }
    r.append(name);
    assert(r@ =~= joined(base@, name@));
    r
}

/// Tests whether `path` is `root` or lies below it.
pub fn is_under(path: &str, root: &str) -> (r: bool)
    ensures
        r == under(path@, root@),
{
    if same_text(path, root) {
        true
    } else {
        let mut prefix = String::from_str(root);
        prefix.append("/");
        starts_with(path, prefix.as_str())
    }
}

/// Rewrites a path for a process that may run in a sandbox: a path of the
/// host's system trees moves under the host mount, any other stays.
pub fn place(path: &str, sandboxed: bool) -> (r: String)
    ensures
        r@ == placed(path@, sandboxed),
{
    if sandboxed && (is_under(path, "/etc") || is_under(path, "/usr")) {
        let mut r = String::from_str("/run/host");
        r.append(path);
        r
    } else {
        String::from_str(path)
    }
}

/// The system configuration roots named by the search path.
pub fn roots_of(config_dirs: &Option<String>) -> (roots: Vec<String>)
    ensures
        views(roots@) == system_roots(opt_view(*config_dirs)),
{
    match config_dirs {
        Some(value) => {
            if value.as_str().unicode_len() > 0 {
                return split(value.as_str(), ':');
            }
        },
        None => {},
    }
    let mut fallback: Vec<String> = Vec::new();
    fallback.push(String::from_str("/etc/xdg"));
    assert(views(fallback@) =~= seq!["/etc/xdg"@]);
    fallback
}

/// The autostart directory of each root, placed for this process.
pub fn autostart_of(roots: &Vec<String>, sandboxed: bool) -> (dirs: Vec<String>)
    ensures
        views(dirs@) == autostart_dirs(views(roots@), sandboxed),
{
    let mut dirs: Vec<String> = Vec::new();
    let mut i: usize = 0;
    while i < roots.len()
        invariant
            i <= roots.len(),
            dirs@.len() == i,
            forall|k: int|
                0 <= k < i ==> dirs@[k]@ == placed(
                    joined(roots@[k]@, "autostart"@),
                    sandboxed,
                ),
        decreases roots.len() - i,
    {
        let dir = join(roots[i].as_str(), "autostart");
        dirs.push(place(dir.as_str(), sandboxed));
        i += 1;
    }
    assert(views(dirs@) =~= autostart_dirs(views(roots@), sandboxed));
    dirs
}

impl DirectoryType {
    /// The directories of this scope, in search order. The first is the
    /// one that reconciliation writes to. The user scope fails where the
    /// configuration root is unknown; the system scope never fails.
    pub fn directories(&self, env: &Environment) -> (r: Result<Vec<String>, EngineError>)
        ensures
            match resolved(*self, env@) {
                Some(dirs) => r is Ok && views(r->Ok_0@) == dirs && r->Ok_0@.len() >= 1,
                None => r == Err::<Vec<String>, EngineError>(EngineError::ConfigDirUnavailable),
            },
    {
        proof {
            if resolved(*self, env@) is Some {
                lemma_resolved_nonempty(*self, env@);
            }
        }
        match self {
            DirectoryType::User => match &env.config_root {
                Some(root) => {
                    let mut roots: Vec<String> = Vec::new();
                    roots.push(root.clone());
                    assert(views(roots@) =~= seq![root@]);
                    Ok(autostart_of(&roots, env.sandboxed))
                },
                None => Err(EngineError::ConfigDirUnavailable),
            },
            DirectoryType::System => {
                let roots = roots_of(&env.config_dirs);
                Ok(autostart_of(&roots, env.sandboxed))
            },
        }
    }
}

/// Each of `paths` as this process finds it, in the same order.
pub open spec fn placed_all(paths: Seq<Seq<char>>, sandboxed: bool) -> Seq<Seq<char>> {
    Seq::new(paths.len(), |k: int| placed(paths[k], sandboxed))
}

/// The directories to search for installed applications, in search order:
/// the platform's, as this process finds them, and in a sandbox also the
/// user's own and the system's snap directory. `None` where a sandboxed
/// process does not know the home directory.
pub open spec fn application_dirs(
    defaults: Seq<Seq<char>>,
    home: Option<Seq<char>>,
    sandboxed: bool,
) -> Option<Seq<Seq<char>>> {
    if !sandboxed {
        Some(defaults)
    } else {
        match home {
            Some(home) => Some(
                placed_all(defaults, true) + seq![
                    joined(home, ".local/share/applications"@),
                    "/var/lib/snapd/desktop/applications"@,
                ],
            ),
            None => None,
        }
    }
}

/// The trees below which each sandboxed application has a directory.
pub open spec fn sandbox_roots(home: Seq<char>) -> Seq<Seq<char>> {
    seq![joined(home, ".local/share/flatpak/app"@), "/var/lib/flatpak/app"@]
}

/// The folder of exported descriptors of each application directory.
pub open spec fn export_dirs(app_dirs: Seq<Seq<char>>) -> Seq<Seq<char>> {
    Seq::new(
        app_dirs.len(),
        |k: int| joined(app_dirs[k], "current/active/export/share/applications/"@),
    )
}

/// Resolves the directories to search for installed applications from the
/// platform's default directories.
pub fn application_directories(
    defaults: &Vec<String>,
    home: &Option<String>,
    sandboxed: bool,
) -> (r: Result<Vec<String>, EngineError>)
    ensures
        match application_dirs(views(defaults@), opt_view(*home), sandboxed) {
            Some(dirs) => r is Ok && views(r->Ok_0@) == dirs,
            None => r == Err::<Vec<String>, EngineError>(EngineError::HomeDirUnavailable),
        },
{
    if !sandboxed {
        return Ok(crate::text::copy_strings(defaults));
    }
    let home = match home {
        Some(home) => home,
        None => {
            return Err(EngineError::HomeDirUnavailable);
        },
    };
    let mut dirs: Vec<String> = Vec::new();
    let mut i: usize = 0;
    while i < defaults.len()
        invariant
            i <= defaults.len(),
            dirs@.len() == i,
            forall|k: int| 0 <= k < i ==> dirs@[k]@ == placed(defaults@[k]@, true),
        decreases defaults.len() - i,
    {
        dirs.push(place(defaults[i].as_str(), true));
        i += 1;
    }
    dirs.push(join(home.as_str(), ".local/share/applications"));
    dirs.push(String::from_str("/var/lib/snapd/desktop/applications"));
    assert(views(dirs@) =~= application_dirs(views(defaults@), Some(home@), true)->Some_0);
    Ok(dirs)
}

/// The trees below which each sandboxed application has a directory; the
/// caller lists their subdirectories and skips a tree that does not exist.
pub fn sandbox_application_roots(home: &str) -> (r: Vec<String>)
    ensures
        views(r@) == sandbox_roots(home@),
{
    let mut r: Vec<String> = Vec::new();
    r.push(join(home, ".local/share/flatpak/app"));
    r.push(String::from_str("/var/lib/flatpak/app"));
    assert(views(r@) =~= sandbox_roots(home@));
    r
}

/// The folder of exported descriptors of each application directory.
pub fn export_directories(app_dirs: &Vec<String>) -> (r: Vec<String>)
    ensures
        views(r@) == export_dirs(views(app_dirs@)),
{
    let mut r: Vec<String> = Vec::new();
    let mut i: usize = 0;
    while i < app_dirs.len()
        invariant
            i <= app_dirs.len(),
            r@.len() == i,
            forall|k: int|
                0 <= k < i ==> r@[k]@ == joined(
                    app_dirs@[k]@,
                    "current/active/export/share/applications/"@,
                ),
        decreases app_dirs.len() - i,
    {
        r.push(join(app_dirs[i].as_str(), "current/active/export/share/applications/"));
        i += 1;
    }
    assert(views(r@) =~= export_dirs(views(app_dirs@)));
    r
}

} // verus!
