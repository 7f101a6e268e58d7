//! Application launch descriptors: the decoded document, the descriptor
//! that the engine works on, and the rules that read one from the other.

use vstd::prelude::*;
use freedesktop_desktop_entry::DecodeError;
use freedesktop_desktop_entry::DesktopEntry;
use crate::error::EngineError;
use crate::text::{
    views, opt_view, opt_views, split_on, split, same_text, holds, contains_text, copy_strings,
};

verus! {

/// The decoder's own error; the engine only learns that decoding failed.
#[verifier::external_type_specification]
#[verifier::external_body]
pub struct ExDecodeError(freedesktop_desktop_entry::DecodeError);

/// One localized variant of a value.
#[derive(Debug)]
pub struct Localized {
    pub locale: String,
    pub value: String,
}

/// One key of the main section of a descriptor document.
#[derive(Debug)]
pub struct Field {
    pub key: String,
    /// The unlocalized value.
    pub value: String,
    /// The localized variants that were retained.
    pub localized: Vec<Localized>,
}

/// A decoded descriptor document: the identifier that its path gives it and
/// the keys of its main section.
#[derive(Debug)]
pub struct Document {
    pub appid: String,
    pub fields: Vec<Field>,
}

/// The mathematical content of a `Field`.
pub ghost struct FieldView {
    pub key: Seq<char>,
    pub value: Seq<char>,
    pub localized: Seq<(Seq<char>, Seq<char>)>,
}

/// The mathematical content of a `Document`.
pub ghost struct DocumentView {
    pub appid: Seq<char>,
    pub fields: Seq<FieldView>,
}

/// Localized variants as pairs of locale and value.
pub open spec fn localized_views(v: Seq<Localized>) -> Seq<(Seq<char>, Seq<char>)> {
    Seq::new(v.len(), |i: int| (v[i].locale@, v[i].value@))
}

impl View for Field {
    type V = FieldView;

    open spec fn view(&self) -> FieldView {
        FieldView {
            key: self.key@,
            value: self.value@,
            localized: localized_views(self.localized@),
        }
    }
}

/// The views of a list of fields.
pub open spec fn field_views(v: Seq<Field>) -> Seq<FieldView> {
    Seq::new(v.len(), |i: int| v[i]@)
}

impl View for Document {
    type V = DocumentView;

    open spec fn view(&self) -> DocumentView {
        DocumentView { appid: self.appid@, fields: field_views(self.fields@) }
    }
}

/// One parsed application launch descriptor.
#[derive(Debug)]
pub struct ApplicationDescriptor {
    /// The application identifier: the sandbox identity where the document
    /// carries one, else the identifier that the path gives.
    pub id: String,
    /// The unlocalized name.
    pub default_name: Option<String>,
    /// The localized names, by locale.
    pub localized_names: Vec<Localized>,
    /// The name of an icon of the icon theme.
    pub icon_name: Option<String>,
    /// The literal command line, placeholders included.
    pub exec_command: Option<String>,
    /// The path that the descriptor was loaded from.
    pub source_path: String,
    /// The desktop environments that alone show the application.
    pub only_show_in: Option<Vec<String>>,
    /// The desktop environments that do not show the application.
    pub not_show_in: Option<Vec<String>>,
    /// Whether the descriptor advertises a desktop applet.
    pub is_applet: bool,
    /// Whether the descriptor wraps a sandboxed application, whose sandbox
    /// identity is then its identifier.
    pub is_sandboxed: bool,
}

/// The mathematical content of an `ApplicationDescriptor`.
pub ghost struct DescriptorView {
    pub id: Seq<char>,
    pub default_name: Option<Seq<char>>,
    pub localized_names: Seq<(Seq<char>, Seq<char>)>,
    pub icon_name: Option<Seq<char>>,
    pub exec_command: Option<Seq<char>>,
    pub source_path: Seq<char>,
    pub only_show_in: Option<Seq<Seq<char>>>,
    pub not_show_in: Option<Seq<Seq<char>>>,
    pub is_applet: bool,
    pub is_sandboxed: bool,
}

impl View for ApplicationDescriptor {
    type V = DescriptorView;

    open spec fn view(&self) -> DescriptorView {
        DescriptorView {
            id: self.id@,
            default_name: opt_view(self.default_name),
            localized_names: localized_views(self.localized_names@),
            icon_name: opt_view(self.icon_name),
            exec_command: opt_view(self.exec_command),
            source_path: self.source_path@,
            only_show_in: opt_views(self.only_show_in),
            not_show_in: opt_views(self.not_show_in),
            is_applet: self.is_applet,
            is_sandboxed: self.is_sandboxed,
        }
    }
}

/// The views of a list of descriptors.
pub open spec fn descriptor_views(v: Seq<ApplicationDescriptor>) -> Seq<DescriptorView> {
    Seq::new(v.len(), |i: int| v[i]@)
}

/// The unlocalized value of the first field named `key`.
pub open spec fn field_value(fields: Seq<FieldView>, key: Seq<char>) -> Option<Seq<char>>
    decreases fields.len(),
{
    if fields.len() == 0 {
        None
    } else if fields[0].key == key {
        Some(fields[0].value)
    } else {
        field_value(fields.drop_first(), key)
    }
}

/// The localized variants of the first field named `key`; none where no
/// field has that name.
pub open spec fn field_localized(fields: Seq<FieldView>, key: Seq<char>) -> Seq<
    (Seq<char>, Seq<char>),
>
    decreases fields.len(),
{
    if fields.len() == 0 {
        Seq::empty()
    } else if fields[0].key == key {
        fields[0].localized
    } else {
        field_localized(fields.drop_first(), key)
    }
}

/// The value that `names` holds for exactly `locale`, the first where
/// there are several.
pub open spec fn exact_match(names: Seq<(Seq<char>, Seq<char>)>, locale: Seq<char>) -> Option<
    Seq<char>,
>
    decreases names.len(),
{
    if names.len() == 0 {
        None
    } else if names[0].0 == locale {
        Some(names[0].1)
    } else {
        exact_match(names.drop_first(), locale)
    }
}

/// The name for the first of `locales` that has an exact match.
pub open spec fn localized_name(
    names: Seq<(Seq<char>, Seq<char>)>,
    locales: Seq<Seq<char>>,
) -> Option<Seq<char>>
    decreases locales.len(),
{
    if locales.len() == 0 {
        None
    } else {
        match exact_match(names, locales[0]) {
            Some(name) => Some(name),
            None => localized_name(names, locales.drop_first()),
        }
    }
}

/// A semicolon-separated list value.
pub open spec fn list_value(value: Option<Seq<char>>) -> Option<Seq<Seq<char>>> {
    match value {
        Some(v) => Some(split_on(v, ';')),
        None => None,
    }
}

impl DescriptorView {
    /// The name to show: the localized name for the first locale that has
    /// one, else the unlocalized name, else the identifier.
    pub open spec fn display_name(self, locales: Seq<Seq<char>>) -> Seq<char> {
        match localized_name(self.localized_names, locales) {
            Some(name) => name,
            None => match self.default_name {
                Some(name) => name,
                None => self.id,
            },
        }
    }

    /// Whether a session of the desktop environment `desktop` shows the
    /// application: the allow-list, where present, names the desktop, and
    /// the deny-list, where present, does not.
    pub open spec fn visible_in(self, desktop: Seq<char>) -> bool {
        &&& self.only_show_in matches Some(allowed) ==> holds(allowed, desktop)
        &&& self.not_show_in matches Some(denied) ==> !holds(denied, desktop)
    }
}

/// The descriptor that a decoded document stands for, loaded from `path`.
pub open spec fn described(doc: DocumentView, path: Seq<char>) -> DescriptorView {
    DescriptorView {
        id: match field_value(doc.fields, "X-Flatpak"@) {
            Some(identity) => identity,
            None => doc.appid,
        },
        default_name: field_value(doc.fields, "Name"@),
        localized_names: field_localized(doc.fields, "Name"@),
        icon_name: field_value(doc.fields, "Icon"@),
        exec_command: field_value(doc.fields, "Exec"@),
        source_path: path,
        only_show_in: list_value(field_value(doc.fields, "OnlyShowIn"@)),
        not_show_in: list_value(field_value(doc.fields, "NotShowIn"@)),
        is_applet: field_value(doc.fields, "X-CosmicApplet"@) is Some,
        is_sandboxed: field_value(doc.fields, "X-Flatpak"@) is Some,
    }
}

/// What the decoder makes of the text of a descriptor file at `path`, with
/// only the localized variants for `locales` retained; `None` where it
/// rejects the file.
pub uninterp spec fn decoded(
    path: Seq<char>,
    text: Seq<char>,
    locales: Seq<Seq<char>>,
) -> Option<DocumentView>;

/// Calls `DesktopEntry::from_str` of freedesktop_desktop_entry and copies
/// out the identifier and the keys of the `Desktop Entry` group. The
/// contract claims only that the outcome is a function of the three
/// arguments: it gives that outcome its name.
#[verifier::external_body]
fn decode(path: &str, text: &str, locales: &Vec<String>) -> (r: Result<Document, DecodeError>)
    ensures
        match r {
            Ok(doc) => decoded(path@, text@, views(locales@)) == Some(doc@),
            Err(_) => decoded(path@, text@, views(locales@)) is None,
        },
{
    let entry = DesktopEntry::from_str(path, text, Some(locales.as_slice()))?;
    let mut fields = Vec::new();
    for group in entry.groups.desktop_entry() {
        for (key, (value, names)) in group.0.iter() {
            let localized = names.iter().map(
                |(l, v)| Localized { locale: l.clone(), value: v.clone() },
            ).collect();
            fields.push(Field { key: key.clone(), value: value.clone(), localized });
        }
    }
    Ok(Document { appid: entry.appid, fields })
}

/// A copy of a list of localized variants.
pub fn copy_localized(items: &Vec<Localized>) -> (r: Vec<Localized>)
    ensures
        localized_views(r@) == localized_views(items@),
{
    let mut r: Vec<Localized> = Vec::new();
    let mut i: usize = 0;
    while i < items.len()
        invariant
            i <= items.len(),
            r@.len() == i,
            forall|j: int|
                0 <= j < i ==> r@[j].locale@ == items@[j].locale@ && r@[j].value@
                    == items@[j].value@,
        decreases items.len() - i,
    {
        r.push(Localized { locale: items[i].locale.clone(), value: items[i].value.clone() });
        i += 1;
    }
    assert(localized_views(r@) =~= localized_views(items@));
    r
}

/// The position of the first field named `key`.
fn find_field(fields: &Vec<Field>, key: &str) -> (r: Option<usize>)
    ensures
        match r {
            Some(i) => i < fields@.len() && field_value(field_views(fields@), key@) == Some(
                fields@[i as int].value@,
            ) && field_localized(field_views(fields@), key@) == localized_views(
                fields@[i as int].localized@,
            ),
            None => field_value(field_views(fields@), key@) is None && field_localized(
                field_views(fields@),
                key@,
            ) == Seq::<(Seq<char>, Seq<char>)>::empty(),
        },
{
    let ghost all = field_views(fields@);
    let mut i: usize = 0;
    assert(all.skip(0) =~= all);
    while i < fields.len()
        invariant
            i <= fields.len(),
            all == field_views(fields@),
            field_value(all, key@) == field_value(all.skip(i as int), key@),
            field_localized(all, key@) == field_localized(all.skip(i as int), key@),
        decreases fields.len() - i,
    {
        assert(all.skip(i as int)[0] == fields@[i as int]@);
        if same_text(fields[i].key.as_str(), key) {
            return Some(i);
        }
        assert(all.skip(i as int).drop_first() =~= all.skip(i + 1));
        i += 1;
    }
    None
}

/// The unlocalized value of the first field named `key`.
pub fn value_of(fields: &Vec<Field>, key: &str) -> (r: Option<String>)
    ensures
        opt_view(r) == field_value(field_views(fields@), key@),
{
    match find_field(fields, key) {
        Some(i) => Some(fields[i].value.clone()),
        None => None,
    }
}

/// The localized variants of the first field named `key`.
pub fn localized_of(fields: &Vec<Field>, key: &str) -> (r: Vec<Localized>)
    ensures
        localized_views(r@) == field_localized(field_views(fields@), key@),
{
    match find_field(fields, key) {
        Some(i) => copy_localized(&fields[i].localized),
        None => {
            let r: Vec<Localized> = Vec::new();
            assert(localized_views(r@) =~= Seq::<(Seq<char>, Seq<char>)>::empty());
            r
        },
    }
}

/// The entries of a semicolon-separated list value.
pub fn list_of(value: &Option<String>) -> (r: Option<Vec<String>>)
    ensures
        opt_views(r) == list_value(opt_view(*value)),
{
    match value {
        Some(v) => Some(split(v.as_str(), ';')),
        None => None,
    }
}

/// Builds the descriptor that a decoded document stands for.
pub fn describe(doc: &Document, path: &str) -> (d: ApplicationDescriptor)
    ensures
        d@ == described(doc@, path@),
{
    let identity = value_of(&doc.fields, "X-Flatpak");
    let is_sandboxed = identity.is_some();
    let id = match identity {
        Some(identity) => identity,
        None => doc.appid.clone(),
    };
    let only = value_of(&doc.fields, "OnlyShowIn");
    let not = value_of(&doc.fields, "NotShowIn");
    ApplicationDescriptor {
        id,
        default_name: value_of(&doc.fields, "Name"),
        localized_names: localized_of(&doc.fields, "Name"),
        icon_name: value_of(&doc.fields, "Icon"),
        exec_command: value_of(&doc.fields, "Exec"),
        source_path: String::from_str(path),
        only_show_in: list_of(&only),
        not_show_in: list_of(&not),
        is_applet: value_of(&doc.fields, "X-CosmicApplet").is_some(),
        is_sandboxed,
    }
}

/// What reading the descriptor file at `path` with content `text` gives:
/// the descriptor of the decoded document, or nothing where the decoder
/// rejects the file.
pub open spec fn read(path: Seq<char>, text: Seq<char>, locales: Seq<Seq<char>>) -> Option<
    DescriptorView,
> {
    match decoded(path, text, locales) {
        Some(doc) => Some(described(doc, path)),
        None => None,
    }
}

/// Reads one descriptor from the text of the file at `path`. A file that
/// the decoder rejects is a `ParseFailure`.
pub fn read_descriptor(path: &str, text: &str, locales: &Vec<String>) -> (r: Result<
    ApplicationDescriptor,
    EngineError,
>)
    ensures
        match read(path@, text@, views(locales@)) {
            Some(d) => r is Ok && r->Ok_0@ == d,
            None => r == Err::<ApplicationDescriptor, EngineError>(EngineError::ParseFailure),
        },
{
    match decode(path, text, locales) {
        Ok(doc) => Ok(describe(&doc, path)),
        Err(_) => Err(EngineError::ParseFailure),
    }
}

impl Clone for Localized {
    fn clone(&self) -> (r: Self)
        ensures
            r.locale@ == self.locale@,
            r.value@ == self.value@,
    {
        Localized { locale: self.locale.clone(), value: self.value.clone() }
    }
}

/// A copy of an optional string.
pub fn copy_opt(value: &Option<String>) -> (r: Option<String>)
    ensures
        opt_view(r) == opt_view(*value),
{
    match value {
        Some(v) => Some(v.clone()),
        None => None,
    }
}

/// A copy of an optional list of strings.
pub fn copy_opt_list(value: &Option<Vec<String>>) -> (r: Option<Vec<String>>)
    ensures
        opt_views(r) == opt_views(*value),
{
    match value {
        Some(v) => Some(copy_strings(v)),
        None => None,
    }
}

impl Clone for ApplicationDescriptor {
    fn clone(&self) -> (r: Self)
        ensures
            r@ == self@,
    {
        ApplicationDescriptor {
            id: self.id.clone(),
            default_name: copy_opt(&self.default_name),
            localized_names: copy_localized(&self.localized_names),
            icon_name: copy_opt(&self.icon_name),
            exec_command: copy_opt(&self.exec_command),
            source_path: self.source_path.clone(),
            only_show_in: copy_opt_list(&self.only_show_in),
            not_show_in: copy_opt_list(&self.not_show_in),
            is_applet: self.is_applet,
            is_sandboxed: self.is_sandboxed,
        }
    }
}

impl ApplicationDescriptor {
    /// The name to show for the caller's locales, in their order of
    /// preference.
    pub fn display_name(&self, locales: &Vec<String>) -> (r: String)
        ensures
            r@ == self@.display_name(views(locales@)),
    {
        let ghost names = localized_views(self.localized_names@);
        let ghost all = views(locales@);
        let mut i: usize = 0;
        assert(all.skip(0) =~= all);
        while i < locales.len()
            invariant
                i <= locales.len(),
                all == views(locales@),
                names == localized_views(self.localized_names@),
                localized_name(names, all) == localized_name(names, all.skip(i as int)),
            decreases locales.len() - i,
        {
            assert(all.skip(i as int)[0] == locales@[i as int]@);
            match self.name_for(locales[i].as_str()) {
                Some(name) => {
                    return name;
                },
                None => {},
            }
            assert(all.skip(i as int).drop_first() =~= all.skip(i + 1));
            i += 1;
        }
        match &self.default_name {
            Some(name) => name.clone(),
            None => self.id.clone(),
        }
    }

    /// The localized name for exactly `locale`.
    pub fn name_for(&self, locale: &str) -> (r: Option<String>)
        ensures
            opt_view(r) == exact_match(localized_views(self.localized_names@), locale@),
    {
        let ghost all = localized_views(self.localized_names@);
        let mut i: usize = 0;
        assert(all.skip(0) =~= all);
        while i < self.localized_names.len()
            invariant
                i <= self.localized_names.len(),
                all == localized_views(self.localized_names@),
                exact_match(all, locale@) == exact_match(all.skip(i as int), locale@),
            decreases self.localized_names.len() - i,
        {
            assert(all.skip(i as int)[0] == (
                self.localized_names@[i as int].locale@,
                self.localized_names@[i as int].value@,
            ));
            if same_text(self.localized_names[i].locale.as_str(), locale) {
                return Some(self.localized_names[i].value.clone());
            }
            assert(all.skip(i as int).drop_first() =~= all.skip(i + 1));
            i += 1;
        }
        None
    }

    /// Tests whether a session of the desktop environment `desktop` shows
    /// the application.
    pub fn visible_in(&self, desktop: &str) -> (r: bool)
        ensures
            r == self@.visible_in(desktop@),
    {
        let allowed = match &self.only_show_in {
            Some(list) => contains_text(list, desktop),
            None => true,
        };
        let denied = match &self.not_show_in {
            Some(list) => contains_text(list, desktop),
            None => false,
        };
        allowed && !denied
    }
}

} // verus!
