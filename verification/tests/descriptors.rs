use autostart_manager::descriptor::{
    describe, list_of, localized_of, read_descriptor, value_of, ApplicationDescriptor, Document,
    Field, Localized,
};
use autostart_manager::error::EngineError;

fn strings(v: &[&str]) -> Vec<String> {
    v.iter().map(|s| s.to_string()).collect()
}

fn field(key: &str, value: &str) -> Field {
    Field { key: key.to_string(), value: value.to_string(), localized: Vec::new() }
}

const FIREFOX: &str = "[Desktop Entry]\nType=Application\nName=Firefox\nName[fr]=Renard\nName[de]=Fuchs\nIcon=firefox\nExec=firefox %U\nOnlyShowIn=GNOME;KDE;\nNotShowIn=XFCE\n\n[Desktop Action new]\nName=New\nExec=firefox --new\n";

#[test]
fn read_descriptor_decodes_the_main_section() {
    let d = read_descriptor(
        "/usr/share/applications/org.mozilla.firefox.desktop",
        FIREFOX,
        &strings(&["fr", "de"]),
    )
    .unwrap();
    assert_eq!(d.id, "org.mozilla.firefox");
    assert_eq!(d.default_name.as_deref(), Some("Firefox"));
    assert_eq!(d.icon_name.as_deref(), Some("firefox"));
    assert_eq!(d.exec_command.as_deref(), Some("firefox %U"));
    assert_eq!(d.source_path, "/usr/share/applications/org.mozilla.firefox.desktop");
    assert_eq!(d.only_show_in, Some(strings(&["GNOME", "KDE", ""])));
    assert_eq!(d.not_show_in, Some(strings(&["XFCE"])));
    assert!(!d.is_applet);
    assert!(!d.is_sandboxed);
    let names: Vec<(String, String)> =
        d.localized_names.iter().map(|l| (l.locale.clone(), l.value.clone())).collect();
    assert_eq!(
        names,
        vec![("de".to_string(), "Fuchs".to_string()), ("fr".to_string(), "Renard".to_string())]
    );
}

#[test]
fn read_descriptor_retains_only_the_locales_asked_for() {
    let d = read_descriptor("/a/firefox.desktop", FIREFOX, &strings(&["fr_FR"])).unwrap();
    let names: Vec<&str> = d.localized_names.iter().map(|l| l.locale.as_str()).collect();
    assert_eq!(names, vec!["fr"]);
}

#[test]
fn sandbox_identity_overrides_the_identifier() {
    let text = "[Desktop Entry]\nName=Gimp\nExec=gimp\nX-Flatpak=org.gimp.GIMP\n";
    let d = read_descriptor("/exports/share/applications/gimp.desktop", text, &Vec::new()).unwrap();
    assert_eq!(d.id, "org.gimp.GIMP");
    assert!(d.is_sandboxed);
}

#[test]
fn applet_marker_is_read() {
    let text = "[Desktop Entry]\nName=Clock\nExec=clock\nX-CosmicApplet=true\n";
    let d = read_descriptor("/usr/share/applications/clock.desktop", text, &Vec::new()).unwrap();
    assert!(d.is_applet);
}

#[test]
fn descriptor_without_keys_has_only_its_identifier() {
    let d = read_descriptor("/a/bare.desktop", "[Desktop Entry]\n", &Vec::new()).unwrap();
    assert_eq!(d.id, "bare");
    assert_eq!(d.default_name, None);
    assert_eq!(d.exec_command, None);
    assert_eq!(d.icon_name, None);
    assert_eq!(d.only_show_in, None);
    assert_eq!(d.display_name(&Vec::new()), "bare");
}

#[test]
fn malformed_files_are_parse_failures() {
    let no_group = read_descriptor("/a/x.desktop", "Name=x\n", &Vec::new());
    assert_eq!(no_group.err(), Some(EngineError::ParseFailure));
    let bad_escape = read_descriptor("/a/x.desktop", "[Desktop Entry]\nName=x\\q\n", &Vec::new());
    assert_eq!(bad_escape.err(), Some(EngineError::ParseFailure));
    let bad_path = read_descriptor("/a/x.txt", "[Desktop Entry]\nName=x\n", &Vec::new());
    assert_eq!(bad_path.err(), Some(EngineError::ParseFailure));
}

#[test]
fn display_name_prefers_locales_in_order_then_default_then_id() {
    let d = read_descriptor("/a/firefox.desktop", FIREFOX, &strings(&["fr", "de"])).unwrap();
    assert_eq!(d.display_name(&strings(&["fr", "de"])), "Renard");
    assert_eq!(d.display_name(&strings(&["de", "fr"])), "Fuchs");
    assert_eq!(d.display_name(&strings(&["es", "de"])), "Fuchs");
    assert_eq!(d.display_name(&strings(&["es"])), "Firefox");
    assert_eq!(d.display_name(&strings(&["fr_FR"])), "Firefox");
    assert_eq!(d.display_name(&Vec::new()), "Firefox");
    assert_eq!(d.name_for("fr").as_deref(), Some("Renard"));
    assert_eq!(d.name_for("it"), None);
}

#[test]
fn visibility_goes_by_allow_and_deny_lists() {
    let d = read_descriptor("/a/firefox.desktop", FIREFOX, &Vec::new()).unwrap();
    assert!(d.visible_in("GNOME"));
    assert!(d.visible_in("KDE"));
    assert!(!d.visible_in("XFCE"));
    assert!(!d.visible_in("COSMIC"));
    let open = read_descriptor("/a/o.desktop", "[Desktop Entry]\nExec=o\n", &Vec::new()).unwrap();
    assert!(open.visible_in("anything"));
    let denied =
        read_descriptor("/a/o.desktop", "[Desktop Entry]\nExec=o\nNotShowIn=KDE;\n", &Vec::new())
            .unwrap();
    assert!(!denied.visible_in("KDE"));
    assert!(denied.visible_in("GNOME"));
}

#[test]
fn describe_reads_a_document_field_by_field() {
    let doc = Document {
        appid: "app".to_string(),
        fields: vec![
            field("Exec", "run %f"),
            Field {
                key: "Name".to_string(),
                value: "App".to_string(),
                localized: vec![Localized { locale: "pt".to_string(), value: "Aplicativo".to_string() }],
            },
            field("NotShowIn", "A;B"),
            field("X-CosmicApplet", "false"),
        ],
    };
    let d: ApplicationDescriptor = describe(&doc, "/p/app.desktop");
    assert_eq!(d.id, "app");
    assert_eq!(d.exec_command.as_deref(), Some("run %f"));
    assert_eq!(d.default_name.as_deref(), Some("App"));
    assert_eq!(d.localized_names.len(), 1);
    assert_eq!(d.only_show_in, None);
    assert_eq!(d.not_show_in, Some(strings(&["A", "B"])));
    assert!(d.is_applet);
    assert_eq!(d.source_path, "/p/app.desktop");
    assert_eq!(value_of(&doc.fields, "Exec").as_deref(), Some("run %f"));
    assert_eq!(value_of(&doc.fields, "Icon"), None);
    assert_eq!(localized_of(&doc.fields, "Name").len(), 1);
    assert_eq!(localized_of(&doc.fields, "Exec").len(), 0);
    assert_eq!(list_of(&Some("a;b".to_string())), Some(strings(&["a", "b"])));
    assert_eq!(list_of(&None), None);
}

#[test]
fn clone_keeps_every_field() {
    let d = read_descriptor("/a/firefox.desktop", FIREFOX, &strings(&["fr"])).unwrap();
    let c = d.clone();
    assert_eq!(c.id, d.id);
    assert_eq!(c.default_name, d.default_name);
    assert_eq!(c.icon_name, d.icon_name);
    assert_eq!(c.exec_command, d.exec_command);
    assert_eq!(c.source_path, d.source_path);
    assert_eq!(c.only_show_in, d.only_show_in);
    assert_eq!(c.not_show_in, d.not_show_in);
    assert_eq!(c.localized_names.len(), d.localized_names.len());
    assert_eq!(c.localized_names[0].value, "Renard");
}
