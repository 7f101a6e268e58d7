use autostart_manager::descriptor::read_descriptor;
use autostart_manager::descriptor::ApplicationDescriptor;
use autostart_manager::discovery::{get_startup_applications, DescriptorFile};
use autostart_manager::error::EngineError;
use autostart_manager::reconcile::{
    chain, descriptor_target, disable, enable, escape, executable_mode, next_step,
    register_script, reveal_path, write_document, Action, Step,
};
use autostart_manager::scope::{DirectoryType, Environment};
use autostart_manager::ui::{
    found, hits, needle, toggle_context_page, toggle_popover, AppModel, ContextPage, Effect,
    Message, PopoverMessage, Section,
};

fn env(sandboxed: bool) -> Environment {
    Environment {
        config_root: Some("/home/u/.config".to_string()),
        config_dirs: Some("/etc/xdg:/opt/xdg".to_string()),
        session_desktop: None,
        sandboxed,
    }
}

fn no_root() -> Environment {
    Environment { config_root: None, config_dirs: None, session_desktop: None, sandboxed: false }
}

fn firefox() -> ApplicationDescriptor {
    read_descriptor(
        "/usr/share/applications/firefox.desktop",
        "[Desktop Entry]\nName=Firefox\nExec=firefox\n",
        &Vec::new(),
    )
    .unwrap()
}

fn at(path: &str) -> ApplicationDescriptor {
    read_descriptor(path, "[Desktop Entry]\nName=X\nExec=x\n", &Vec::new()).unwrap()
}

/// The files that exist after the plan, where every action succeeds.
fn apply(plan: &[Action], files: &mut Vec<String>) {
    for action in plan {
        match action {
            Action::Link { target, .. } | Action::Copy { target, .. } => {
                if !files.contains(target) {
                    files.push(target.clone());
                }
            }
            Action::Write { path, .. } => {
                if !files.contains(path) {
                    files.push(path.clone());
                }
            }
            Action::Remove { path } => files.retain(|f| f != path),
            Action::MakeExecutable { .. } => {}
        }
    }
}

fn describe_plan(plan: &[Action]) -> Vec<String> {
    plan.iter().map(|a| format!("{:?}", a)).collect()
}

#[test]
fn target_is_in_the_first_directory_of_the_scope() {
    assert_eq!(
        descriptor_target(DirectoryType::User, &env(false), "firefox"),
        Ok("/home/u/.config/autostart/firefox.desktop".to_string())
    );
    assert_eq!(
        descriptor_target(DirectoryType::System, &env(false), "firefox"),
        Ok("/etc/xdg/autostart/firefox.desktop".to_string())
    );
    assert_eq!(
        descriptor_target(DirectoryType::System, &env(true), "firefox"),
        Ok("/run/host/etc/xdg/autostart/firefox.desktop".to_string())
    );
    assert_eq!(
        descriptor_target(DirectoryType::User, &no_root(), "firefox"),
        Err(EngineError::ConfigDirUnavailable)
    );
}

#[test]
fn enable_links_to_the_source() {
    let plan = enable(DirectoryType::User, &env(false), &firefox(), Some(false)).unwrap();
    assert_eq!(plan.len(), 1);
    match &plan[0] {
        Action::Link { source, target } => {
            assert_eq!(source, "/usr/share/applications/firefox.desktop");
            assert_eq!(target, "/home/u/.config/autostart/firefox.desktop");
        }
        other => panic!("unexpected action {:?}", other),
    }
}

#[test]
fn enable_copies_in_a_sandbox() {
    let plan = enable(DirectoryType::User, &env(true), &firefox(), Some(false)).unwrap();
    assert_eq!(plan.len(), 1);
    match &plan[0] {
        Action::Copy { source, target } => {
            assert_eq!(source, "/usr/share/applications/firefox.desktop");
            assert_eq!(target, "/home/u/.config/autostart/firefox.desktop");
        }
        other => panic!("unexpected action {:?}", other),
    }
}

#[test]
fn enable_twice_is_enable_once() {
    let target = descriptor_target(DirectoryType::User, &env(false), "firefox").unwrap();
    let mut files: Vec<String> = vec!["/home/u/.config/autostart/other.desktop".to_string()];
    let first = enable(DirectoryType::User, &env(false), &firefox(), Some(files.contains(&target))).unwrap();
    apply(&first, &mut files);
    let once = files.clone();
    let second = enable(DirectoryType::User, &env(false), &firefox(), Some(files.contains(&target))).unwrap();
    assert!(second.is_empty());
    apply(&second, &mut files);
    assert_eq!(files, once);
    assert_eq!(once.iter().filter(|f| **f == target).count(), 1);
    assert_eq!(once.len(), 2);
}

#[test]
fn disable_removes_what_is_there_and_nothing_else() {
    let plan = disable(DirectoryType::User, &env(false), &firefox(), Some(true)).unwrap();
    assert_eq!(
        describe_plan(&plan),
        vec!["Remove { path: \"/home/u/.config/autostart/firefox.desktop\" }"]
    );
    let absent = disable(DirectoryType::User, &env(false), &firefox(), Some(false)).unwrap();
    assert!(absent.is_empty());
}

#[test]
fn enable_then_disable_round_trip() {
    let locales: Vec<String> = Vec::new();
    let target = descriptor_target(DirectoryType::User, &env(true), "firefox").unwrap();
    let mut files: Vec<String> = Vec::new();
    let plan = enable(DirectoryType::User, &env(true), &firefox(), Some(false)).unwrap();
    apply(&plan, &mut files);
    assert_eq!(files, vec![target.clone()]);
    let listing: Vec<DescriptorFile> = files
        .iter()
        .map(|p| DescriptorFile { path: p.clone(), text: "[Desktop Entry]\nName=Firefox\nExec=firefox\n".to_string() })
        .collect();
    let inventory = get_startup_applications(&listing, &locales);
    assert!(inventory.iter().any(|d| d.id == firefox().id));
    let plan = disable(DirectoryType::User, &env(true), &inventory[0], Some(true)).unwrap();
    apply(&plan, &mut files);
    assert!(files.is_empty());
    assert!(get_startup_applications(&Vec::new(), &locales).iter().all(|d| d.id != "firefox"));
}

#[test]
fn failed_probe_and_missing_root_are_reported() {
    assert_eq!(
        enable(DirectoryType::User, &env(false), &firefox(), None).err(),
        Some(EngineError::IoFailure)
    );
    assert_eq!(
        disable(DirectoryType::User, &env(false), &firefox(), None).err(),
        Some(EngineError::IoFailure)
    );
    assert_eq!(
        enable(DirectoryType::User, &no_root(), &firefox(), Some(false)).err(),
        Some(EngineError::ConfigDirUnavailable)
    );
    assert_eq!(
        disable(DirectoryType::User, &no_root(), &firefox(), None).err(),
        Some(EngineError::ConfigDirUnavailable)
    );
    assert_eq!(
        register_script(DirectoryType::User, &no_root(), "/home/u/run.sh").err(),
        Some(EngineError::ConfigDirUnavailable)
    );
}

#[test]
fn enable_into_a_missing_directory_fails_with_io_failure() {
    let plan = enable(DirectoryType::User, &env(false), &firefox(), Some(false)).unwrap();
    assert_eq!(plan.len(), 1);
    assert_eq!(next_step(plan.len(), 0, true), Step::Perform(0));
    assert_eq!(next_step(plan.len(), 1, false), Step::Failed(EngineError::IoFailure));
}

#[test]
fn a_plan_runs_in_order_and_stops_at_the_first_failure() {
    assert_eq!(next_step(3, 0, true), Step::Perform(0));
    assert_eq!(next_step(3, 1, true), Step::Perform(1));
    assert_eq!(next_step(3, 2, true), Step::Perform(2));
    assert_eq!(next_step(3, 3, true), Step::Completed);
    assert_eq!(next_step(3, 1, false), Step::Failed(EngineError::IoFailure));
    assert_eq!(next_step(0, 0, true), Step::Completed);
}

#[test]
fn register_script_writes_a_minimal_descriptor() {
    let plan = register_script(DirectoryType::User, &env(false), "/home/u/run.sh").unwrap();
    assert_eq!(plan.len(), 1);
    let (path, text) = match &plan[0] {
        Action::Write { path, text } => (path.clone(), text.clone()),
        other => panic!("unexpected action {:?}", other),
    };
    assert_eq!(path, "/home/u/.config/autostart/run.sh.desktop");
    assert_eq!(text, "[Desktop Entry]\nType=Application\nName=run.sh\nExec=\"/home/u/run.sh\"");
    let listing = vec![DescriptorFile { path, text }];
    let inventory = get_startup_applications(&listing, &Vec::new());
    assert_eq!(inventory.len(), 1);
    assert_eq!(inventory[0].id, "run.sh");
    assert_eq!(inventory[0].display_name(&Vec::new()), "run.sh");
    assert_eq!(inventory[0].exec_command.as_deref(), Some("\"/home/u/run.sh\""));
}

#[test]
fn register_script_in_a_sandbox_copies_the_script_first() {
    let plan = register_script(DirectoryType::User, &env(true), "/run/user/1000/doc/ab/run.sh").unwrap();
    assert_eq!(
        describe_plan(&plan),
        vec![
            "Copy { source: \"/run/user/1000/doc/ab/run.sh\", target: \"/home/u/.config/autostart/run.sh\" }",
            "MakeExecutable { path: \"/home/u/.config/autostart/run.sh\" }",
            "Write { path: \"/home/u/.config/autostart/run.sh.desktop\", text: \"[Desktop Entry]\\nType=Application\\nName=run.sh\\nExec=sh -c '~/.config/autostart/run.sh'\" }",
        ]
    );
}

#[test]
fn register_script_rejects_a_path_without_a_file_name() {
    for path in ["", "/", "/home/u/", "/home/u/..", "."] {
        assert_eq!(
            register_script(DirectoryType::User, &env(false), path).err(),
            Some(EngineError::InvalidPath)
        );
    }
    assert_eq!(
        register_script(DirectoryType::User, &no_root(), "/home/u/").err(),
        Some(EngineError::InvalidPath)
    );
}

#[test]
fn quoting_escapes_quotes_and_backslashes() {
    assert_eq!(escape("/home/u/run.sh"), "/home/u/run.sh");
    assert_eq!(escape("a\"b\\c"), "a\\\"b\\\\c");
    assert_eq!(escape(""), "");
    let plan = register_script(DirectoryType::User, &env(false), "/home/u/my \"best\".sh").unwrap();
    match &plan[0] {
        Action::Write { text, .. } => assert!(text.ends_with("Exec=\"/home/u/my \\\"best\\\".sh\"")),
        other => panic!("unexpected action {:?}", other),
    }
    assert_eq!(write_document("n", "c"), "[Desktop Entry]\nType=Application\nName=n\nExec=c");
    assert_eq!(chain("run.sh", ".desktop"), "run.sh.desktop");
}

#[test]
fn executable_mode_adds_the_three_execute_bits() {
    assert_eq!(executable_mode(0o644), 0o755);
    assert_eq!(executable_mode(0o600), 0o711);
    assert_eq!(executable_mode(0o755), 0o755);
    assert_eq!(executable_mode(0), 0o111);
}

#[test]
fn reveal_shows_the_source_path() {
    let d = at("/home/u/.config/autostart/x.desktop");
    assert_eq!(reveal_path(&d, false).as_deref(), Some("/home/u/.config/autostart/x.desktop"));
    assert_eq!(reveal_path(&d, true).as_deref(), Some("/home/u/.config/autostart/x.desktop"));
}

#[test]
fn reveal_in_a_sandbox_maps_the_application_tree_to_the_host_directory() {
    let d = at("/home/u/.var/app/best.app/config/autostart/x.desktop");
    assert_eq!(reveal_path(&d, true).as_deref(), Some("/home/u/.config/autostart/x.desktop"));
    assert_eq!(
        reveal_path(&d, false).as_deref(),
        Some("/home/u/.var/app/best.app/config/autostart/x.desktop")
    );
    let elsewhere = at("/srv/u/.var/app/best.app/config/autostart/x.desktop");
    assert_eq!(
        reveal_path(&elsewhere, true).as_deref(),
        Some("/srv/u/.var/app/best.app/config/autostart/x.desktop")
    );
}

#[test]
fn reveal_needs_a_file_name() {
    let mut d = at("/home/u/.config/autostart/x.desktop");
    d.source_path = "/home/u/".to_string();
    assert_eq!(reveal_path(&d, false), None);
}

#[test]
fn popover_toggles() {
    assert_eq!(toggle_popover(None, 3), Some(3));
    assert_eq!(toggle_popover(Some(3), 3), None);
    assert_eq!(toggle_popover(Some(2), 3), Some(3));
    assert_eq!(PopoverMessage::ViewInFiles, PopoverMessage::ViewInFiles);
}

#[test]
fn context_page_toggles() {
    assert_eq!(ContextPage::default(), ContextPage::AddApplication);
    let page = ContextPage::AddApplication;
    assert_eq!(toggle_context_page(page, false, page), (page, true));
    assert_eq!(toggle_context_page(page, true, page), (page, false));
}

#[test]
fn error_messages() {
    assert_eq!(EngineError::ConfigDirUnavailable.message(), "config dir not found");
    assert_eq!(EngineError::HomeDirUnavailable.message(), "home dir not found");
    assert_eq!(EngineError::IoFailure.message(), "file system operation failed");
    assert_eq!(EngineError::ParseFailure.message(), "descriptor file is malformed");
    assert_eq!(EngineError::InvalidPath.message(), "path names no file");
}

fn send(model: AppModel, message: Message) -> (AppModel, String) {
    let (model, effect) = model.update(message);
    (model, format!("{:?}", effect).chars().take_while(|c| *c != '(').collect())
}

#[test]
fn picker_loads_the_inventory_once() {
    let model = AppModel::new();
    assert!(!model.context_shown && !model.installed_loaded);
    let (model, effect) = send(model, Message::AddApplicationActivate(DirectoryType::User));
    assert_eq!(effect, "LoadThenToggle");
    assert_eq!(model.selected_type, Some(DirectoryType::User));
    assert!(model.installed_loaded);
    let (model, effect) = send(model, Message::ToggleContextPage(ContextPage::AddApplication));
    assert_eq!(effect, "Nothing");
    assert!(model.context_shown);
    let (model, effect) = model.update(Message::AddApplication(firefox()));
    match effect {
        Effect::Enable(scope, descriptor) => {
            assert_eq!(scope, DirectoryType::User);
            assert_eq!(descriptor.id, "firefox");
        }
        other => panic!("unexpected effect {:?}", other),
    }
    assert_eq!(model.selected_type, None);
    let (model, _) = send(model, Message::ToggleContextPage(ContextPage::AddApplication));
    assert!(!model.context_shown);
    let (model, effect) = send(model, Message::AddApplicationActivate(DirectoryType::System));
    assert_eq!(effect, "Toggle");
    let (_, effect) = send(AppModel { selected_type: None, ..model }, Message::AddApplication(firefox()));
    assert_eq!(effect, "Toggle");
}

#[test]
fn removal_waits_for_confirmation() {
    let (model, effect) =
        send(AppModel::new(), Message::RemoveApplication(DirectoryType::User, firefox()));
    assert_eq!(effect, "Nothing");
    assert_eq!(model.selected_type, Some(DirectoryType::User));
    assert_eq!(model.selected_app.as_ref().map(|d| d.id.as_str()), Some("firefox"));
    let (model, effect) = model.update(Message::RemoveApplicationConfirm);
    match effect {
        Effect::Disable(scope, descriptor) => {
            assert_eq!(scope, DirectoryType::User);
            assert_eq!(descriptor.source_path, "/usr/share/applications/firefox.desktop");
        }
        other => panic!("unexpected effect {:?}", other),
    }
    assert!(model.selected_type.is_none() && model.selected_app.is_none());
    let (model, effect) = send(model, Message::RemoveApplicationConfirm);
    assert_eq!(effect, "Nothing");
    let (model, _) = send(model, Message::RemoveApplication(DirectoryType::System, firefox()));
    let (model, effect) = send(model, Message::RemoveApplicationCancel);
    assert_eq!(effect, "Nothing");
    assert!(model.selected_type.is_none() && model.selected_app.is_none());
}

#[test]
fn searches_and_menus() {
    let (model, effect) = send(AppModel::new(), Message::GlobalSearchActivate);
    assert_eq!(effect, "FocusSearch");
    assert_eq!(model.global_search.as_deref(), Some(""));
    let (model, _) = send(model, Message::GlobalSearchInput("fire".to_string()));
    assert_eq!(model.global_search.as_deref(), Some("fire"));
    let (model, _) = send(model, Message::GlobalSearchClear);
    assert_eq!(model.global_search, None);
    let (model, _) = send(model, Message::ApplicationSearch("fox".to_string()));
    assert_eq!(model.application_search, "fox");
    let (model, _) = send(model, Message::TogglePopover(2));
    assert_eq!(model.popover_item, Some(2));
    let (model, effect) = model.update(Message::PopoverAction(2, PopoverMessage::ViewInFiles));
    assert!(matches!(effect, Effect::Reveal(2)));
    assert_eq!(model.popover_item, None);
    let (model, effect) = model.update(Message::ChooseScriptActivate(DirectoryType::User));
    assert!(matches!(effect, Effect::ChooseScript(DirectoryType::User)));
    assert_eq!(model.selected_type, Some(DirectoryType::User));
    let (model, effect) = model.update(Message::RefreshApps(DirectoryType::System));
    assert!(matches!(effect, Effect::Refresh(DirectoryType::System)));
    let (model, effect) = send(model, Message::ChooseScriptCancel);
    assert_eq!(effect, "Nothing");
    let (model, effect) = send(model, Message::SubscriptionChannel);
    assert_eq!(effect, "Nothing");
    assert_eq!(model.application_search, "fox");
}

fn named(path: &str, name: &str, command: &str) -> ApplicationDescriptor {
    let text = format!("[Desktop Entry]\nName={}\nExec={}\n", name, command);
    read_descriptor(path, &text, &Vec::new()).unwrap()
}

fn rows(section: Section) -> Option<Vec<usize>> {
    match section {
        Section::Rows(rows) => Some(rows),
        _ => None,
    }
}

#[test]
fn needle_is_trimmed_and_in_lower_case() {
    assert_eq!(needle(&Some("  FiRe Fox ".to_string())), "fire fox");
    assert_eq!(needle(&Some("ÄB".to_string())), "äb");
    assert_eq!(needle(&Some("   ".to_string())), "");
    assert_eq!(needle(&None), "");
}

#[test]
fn needle_finds_by_name_or_command_whatever_the_case() {
    assert!(hits("", "a", "b"));
    assert!(hits("fox", "firefox", "run"));
    assert!(hits("run", "firefox", "run"));
    assert!(!hits("zilla", "firefox", "run"));
    let d = named("/a/f.desktop", "FireFox", "/usr/bin/Browser --new");
    assert!(found("fox", &d, &Vec::new()));
    assert!(found("browser", &d, &Vec::new()));
    assert!(found("", &d, &Vec::new()));
    assert!(!found("Fox", &d, &Vec::new()));
    assert!(!found("chrome", &d, &Vec::new()));
    let bare = read_descriptor("/a/Bare.desktop", "[Desktop Entry]\n", &Vec::new()).unwrap();
    assert!(found("bare", &bare, &Vec::new()));
}

#[test]
fn empty_inventory_shows_that_nothing_was_selected() {
    let model = AppModel::new();
    assert!(matches!(model.section(&Vec::new(), &Vec::new()), Section::NoneSelected));
    let searching = AppModel { global_search: Some("x".to_string()), ..AppModel::new() };
    assert!(matches!(searching.section(&Vec::new(), &Vec::new()), Section::NoneSelected));
}

#[test]
fn section_shows_the_rows_that_the_search_finds() {
    let inventory = vec![
        named("/a/one.desktop", "Firefox", "firefox"),
        named("/a/two.desktop", "Files", "nautilus"),
        named("/a/three.desktop", "Terminal", "fish-shell"),
    ];
    let locales: Vec<String> = Vec::new();
    let closed = AppModel::new();
    assert_eq!(rows(closed.section(&inventory, &locales)), Some(vec![0, 1, 2]));
    let fi = AppModel { global_search: Some(" FI ".to_string()), ..AppModel::new() };
    assert_eq!(rows(fi.section(&inventory, &locales)), Some(vec![0, 1, 2]));
    let fil = AppModel { global_search: Some("fil".to_string()), ..AppModel::new() };
    assert_eq!(rows(fil.section(&inventory, &locales)), Some(vec![1]));
    let blank = AppModel { global_search: Some("  ".to_string()), ..AppModel::new() };
    assert_eq!(rows(blank.section(&inventory, &locales)), Some(vec![0, 1, 2]));
    let none = AppModel { global_search: Some("chrome".to_string()), ..AppModel::new() };
    assert!(matches!(none.section(&inventory, &locales), Section::NoneFound));
}

#[test]
fn picker_offers_by_display_name() {
    let d = named("/a/f.desktop", "FireFox", "browser");
    let locales: Vec<String> = Vec::new();
    assert!(AppModel::new().offers(&d, &locales));
    let fox = AppModel { application_search: " FOX".to_string(), ..AppModel::new() };
    assert!(fox.offers(&d, &locales));
    let browser = AppModel { application_search: "browser".to_string(), ..AppModel::new() };
    assert!(!browser.offers(&d, &locales));
}
