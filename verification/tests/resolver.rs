use autostart_manager::error::EngineError;
use autostart_manager::paths::{file_name_of, find_component, find_last_slash, is_file_name, parent_of};
use autostart_manager::scope::{
    application_directories, export_directories, is_under, join, place, sandbox_application_roots,
    DirectoryType, Environment,
};
use autostart_manager::text::{
    contains_text, copy_strings, occurs, same_text, split, starts_with, text_before, trim,
};

fn env(root: Option<&str>, dirs: Option<&str>, sandboxed: bool) -> Environment {
    Environment {
        config_root: root.map(String::from),
        config_dirs: dirs.map(String::from),
        session_desktop: None,
        sandboxed,
    }
}

fn strings(v: &[&str]) -> Vec<String> {
    v.iter().map(|s| s.to_string()).collect()
}

#[test]
fn user_scope_is_one_directory_below_the_config_root() {
    let dirs = DirectoryType::User.directories(&env(Some("/home/u/.config"), None, false));
    assert_eq!(dirs, Ok(strings(&["/home/u/.config/autostart"])));
}

#[test]
fn user_scope_without_config_root_fails() {
    let dirs = DirectoryType::User.directories(&env(None, Some("/etc/xdg"), false));
    assert_eq!(dirs, Err(EngineError::ConfigDirUnavailable));
}

#[test]
fn system_scope_has_one_directory_per_entry_in_order() {
    let dirs = DirectoryType::System.directories(&env(None, Some("/etc/xdg:/opt/xdg/:local"), false));
    assert_eq!(
        dirs,
        Ok(strings(&["/etc/xdg/autostart", "/opt/xdg/autostart", "local/autostart"]))
    );
}

#[test]
fn system_scope_falls_back_when_unset_or_empty() {
    let unset = DirectoryType::System.directories(&env(None, None, false));
    assert_eq!(unset, Ok(strings(&["/etc/xdg/autostart"])));
    let empty = DirectoryType::System.directories(&env(None, Some(""), false));
    assert_eq!(empty, Ok(strings(&["/etc/xdg/autostart"])));
}

#[test]
fn system_scope_keeps_empty_entries() {
    let dirs = DirectoryType::System.directories(&env(None, Some("/a::/b"), false));
    assert_eq!(dirs, Ok(strings(&["/a/autostart", "autostart", "/b/autostart"])));
}

#[test]
fn sandbox_moves_host_trees_under_the_host_mount() {
    let dirs = DirectoryType::System.directories(&env(None, Some("/etc/xdg:/usr/etc:/opt/x:/etc"), true));
    assert_eq!(
        dirs,
        Ok(strings(&[
            "/run/host/etc/xdg/autostart",
            "/run/host/usr/etc/autostart",
            "/opt/x/autostart",
            "/run/host/etc/autostart",
        ]))
    );
    let fallback = DirectoryType::System.directories(&env(None, None, true));
    assert_eq!(fallback, Ok(strings(&["/run/host/etc/xdg/autostart"])));
}

#[test]
fn sandbox_leaves_the_home_directory_alone() {
    let dirs = DirectoryType::User.directories(&env(Some("/home/u/.var/app/x/config"), None, true));
    assert_eq!(dirs, Ok(strings(&["/home/u/.var/app/x/config/autostart"])));
}

#[test]
fn place_rewrites_only_host_trees() {
    assert_eq!(place("/usr/share/applications", true), "/run/host/usr/share/applications");
    assert_eq!(place("/usr", true), "/run/host/usr");
    assert_eq!(place("/usrlocal/share", true), "/usrlocal/share");
    assert_eq!(place("/etcetera", true), "/etcetera");
    assert_eq!(place("/home/u/etc", true), "/home/u/etc");
    assert_eq!(place("/usr/share/applications", false), "/usr/share/applications");
}

#[test]
fn join_puts_one_separator() {
    assert_eq!(join("/a", "b"), "/a/b");
    assert_eq!(join("/a/", "b"), "/a/b");
    assert_eq!(join("", "b"), "b");
    assert_eq!(join("/", "b"), "/b");
}

#[test]
fn is_under_goes_by_components() {
    assert!(is_under("/home/u", "/home"));
    assert!(is_under("/home", "/home"));
    assert!(!is_under("/homes/u", "/home"));
    assert!(!is_under("/var/home", "/home"));
}

#[test]
fn application_directories_outside_a_sandbox_are_the_defaults() {
    let defaults = strings(&["/home/u/.local/share/applications", "/usr/share/applications"]);
    assert_eq!(application_directories(&defaults, &None, false), Ok(defaults.clone()));
}

#[test]
fn application_directories_in_a_sandbox() {
    let defaults = strings(&["/home/u/.var/data/applications", "/usr/share/applications"]);
    let home = Some("/home/u".to_string());
    assert_eq!(
        application_directories(&defaults, &home, true),
        Ok(strings(&[
            "/home/u/.var/data/applications",
            "/run/host/usr/share/applications",
            "/home/u/.local/share/applications",
            "/var/lib/snapd/desktop/applications",
        ]))
    );
    assert_eq!(
        application_directories(&defaults, &None, true),
        Err(EngineError::HomeDirUnavailable)
    );
}

#[test]
fn sandboxed_application_trees_and_their_export_folders() {
    assert_eq!(
        sandbox_application_roots("/home/u"),
        strings(&["/home/u/.local/share/flatpak/app", "/var/lib/flatpak/app"])
    );
    let apps = strings(&["/var/lib/flatpak/app/org.x.Y", "/var/lib/flatpak/app/org.z.W/"]);
    assert_eq!(
        export_directories(&apps),
        strings(&[
            "/var/lib/flatpak/app/org.x.Y/current/active/export/share/applications/",
            "/var/lib/flatpak/app/org.z.W/current/active/export/share/applications/",
        ])
    );
    assert_eq!(export_directories(&Vec::new()), Vec::<String>::new());
}

#[test]
fn split_gives_one_more_piece_than_separators() {
    assert_eq!(split("a:b", ':'), strings(&["a", "b"]));
    assert_eq!(split("", ':'), strings(&[""]));
    assert_eq!(split("a:", ':'), strings(&["a", ""]));
    assert_eq!(split(":", ':'), strings(&["", ""]));
    assert_eq!(split("GNOME;KDE;", ';'), strings(&["GNOME", "KDE", ""]));
    assert_eq!(split("é:ü", ':'), strings(&["é", "ü"]));
}

#[test]
fn starts_with_and_same_text() {
    assert!(starts_with("/etc/xdg", "/etc/"));
    assert!(starts_with("abc", ""));
    assert!(!starts_with("/et", "/etc"));
    assert!(!starts_with("/opt/etc", "/etc"));
    assert!(same_text("abc", "abc"));
    assert!(!same_text("abc", "abd"));
    assert!(!same_text("abc", "ab"));
    assert!(contains_text(&strings(&["a", "b"]), "b"));
    assert!(!contains_text(&strings(&["a", "b"]), "c"));
}

#[test]
fn text_before_orders_by_code_point() {
    assert!(text_before("Beta", "Zeta"));
    assert!(text_before("Zeta", "alpha"));
    assert!(!text_before("alpha", "Zeta"));
    assert!(text_before("", "a"));
    assert!(!text_before("a", ""));
    assert!(!text_before("same", "same"));
    assert!(text_before("ab", "abc"));
    assert!(text_before("z", "é"));
    for (a, b) in [("Beta", "alpha"), ("a", "B"), ("x", "x"), ("é", "z"), ("ab", "a")] {
        assert_eq!(text_before(a, b), a < b);
    }
}

#[test]
fn final_component_and_parent() {
    assert_eq!(file_name_of("/home/u/run.sh"), "run.sh");
    assert_eq!(file_name_of("run.sh"), "run.sh");
    assert_eq!(file_name_of("/home/u/"), "");
    assert_eq!(parent_of("/home/u/run.sh"), "/home/u");
    assert_eq!(parent_of("run.sh"), "");
    assert_eq!(parent_of("/run.sh"), "");
    assert_eq!(find_last_slash("/a/b"), Some(2));
    assert_eq!(find_last_slash("ab"), None);
    assert!(is_file_name("run.sh"));
    assert!(!is_file_name(""));
    assert!(!is_file_name("."));
    assert!(!is_file_name(".."));
}

#[test]
fn find_component_wants_whole_components() {
    assert_eq!(find_component("/home/u/.var/app/x", ".var"), Some(8));
    assert_eq!(find_component("/home/u/.var", ".var"), Some(8));
    assert_eq!(find_component("/home/u/.various/.var/app", ".var"), Some(17));
    assert_eq!(find_component("/home/u/x.var/app", ".var"), None);
    assert_eq!(find_component(".var/app", ".var"), None);
    assert_eq!(find_component("/a", ".var"), None);
}

#[test]
fn occurs_finds_runs_of_characters() {
    assert!(occurs("fox", "firefox"));
    assert!(occurs("fire", "firefox"));
    assert!(occurs("ref", "firefox"));
    assert!(occurs("", "firefox"));
    assert!(occurs("", ""));
    assert!(occurs("firefox", "firefox"));
    assert!(!occurs("firefoxes", "firefox"));
    assert!(!occurs("fx", "firefox"));
    assert!(!occurs("x", ""));
    assert!(occurs("é", "café au lait"));
}

#[test]
fn trim_removes_surrounding_white_space() {
    assert_eq!(trim("  fire fox \t\n"), "fire fox");
    assert_eq!(trim("firefox"), "firefox");
    assert_eq!(trim(" x"), "x");
    assert_eq!(trim("x "), "x");
    assert_eq!(trim("   "), "");
    assert_eq!(trim(""), "");
    assert_eq!(trim("\u{2003}wide\u{a0}"), "wide");
    for text in [" a b ", "\n", "é ", " \u{3000}x"] {
        assert_eq!(trim(text), text.trim());
    }
}

#[test]
fn copy_strings_copies() {
    assert_eq!(copy_strings(&strings(&["a", "", "c"])), strings(&["a", "", "c"]));
}
