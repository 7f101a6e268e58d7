//! The decisions of the presentation layer that need no widget: the state
//! that the window shows, and how each message changes it and what it asks
//! the caller to do.

use vstd::prelude::*;
use crate::descriptor::{ApplicationDescriptor, DescriptorView, descriptor_views};
use crate::scope::DirectoryType;
use crate::text::{
    views, opt_view, or_empty, occurs_in, occurs, lowercased, lowercase, trimmed, trim,
};

verus! {

/// What a row's menu can ask for.
#[derive(Clone, Copy, Debug, PartialEq, Eq, Structural)]
pub enum PopoverMessage {
    /// Show the descriptor's file in the file manager.
    ViewInFiles,
}

/// The pages of the context drawer.
#[derive(Clone, Copy, Debug, PartialEq, Eq, Structural)]
pub enum ContextPage {
    /// The picker of installed applications.
    AddApplication,
}

impl Default for ContextPage {
    fn default() -> (r: Self)
        ensures
            r == ContextPage::AddApplication,
    {
        ContextPage::AddApplication
    }
}

/// The open menu after a toggle of the menu of row `idx`: none where that
/// row's menu was open, else that row's.
pub fn toggle_popover(open: Option<u32>, idx: u32) -> (r: Option<u32>)
    ensures
        r == if open == Some(idx) {
            None::<u32>
        } else {
            Some(idx)
        },
{
    match open {
        Some(current) => if current == idx {
            None
        } else {
            Some(idx)
        },
        None => Some(idx),
    }
}

/// The drawer after a toggle of `requested`: the page and whether it
/// shows. Toggling the open page flips the drawer; another page opens it.
pub fn toggle_context_page(page: ContextPage, shown: bool, requested: ContextPage) -> (r: (
    ContextPage,
    bool,
))
    ensures
        r.0 == requested,
        r.1 == if page == requested {
            !shown
        } else {
            true
        },
{
    if page == requested {
        (page, !shown)
    } else {
        (requested, true)
    }
}

/// The state behind the window.
#[derive(Debug)]
pub struct AppModel {
    /// The page of the context drawer.
    pub context_page: ContextPage,
    /// Whether the context drawer shows.
    pub context_shown: bool,
    /// The search text of the application picker.
    pub application_search: String,
    /// Whether the installed-application inventory was fetched.
    pub installed_loaded: bool,
    /// The scope that the open picker, dialog or chooser acts on.
    pub selected_type: Option<DirectoryType>,
    /// The application whose removal awaits confirmation.
    pub selected_app: Option<ApplicationDescriptor>,
    /// The search text of the window, where the search is open.
    pub global_search: Option<String>,
    /// The row whose menu is open.
    pub popover_item: Option<u32>,
}

/// Messages emitted by the window and its widgets.
#[derive(Debug)]
pub enum Message {
    SubscriptionChannel,
    ToggleContextPage(ContextPage),
    ApplicationSearch(String),
    AddApplicationActivate(DirectoryType),
    AddApplication(ApplicationDescriptor),
    RemoveApplication(DirectoryType, ApplicationDescriptor),
    RemoveApplicationConfirm,
    RemoveApplicationCancel,
    GlobalSearchActivate,
    GlobalSearchInput(String),
    GlobalSearchClear,
    ChooseScriptActivate(DirectoryType),
    ChooseScriptCancel,
    RefreshApps(DirectoryType),
    TogglePopover(u32),
    PopoverAction(u32, PopoverMessage),
}

/// What a message asks the caller to do once the state has changed.
#[derive(Debug)]
pub enum Effect {
    Nothing,
    /// Send `ToggleContextPage` for this page.
    Toggle(ContextPage),
    /// Fetch the installed-application inventory, then send
    /// `ToggleContextPage` for this page.
    LoadThenToggle(ContextPage),
    /// Enable the application in the scope and fetch the scope's inventory
    /// anew where that succeeded; then send `ToggleContextPage` for the
    /// picker.
    Enable(DirectoryType, ApplicationDescriptor),
    /// Disable the application in the scope and fetch the scope's inventory
    /// anew where that succeeded.
    Disable(DirectoryType, ApplicationDescriptor),
    /// Put the keyboard focus into the search field.
    FocusSearch,
    /// Let the user choose a script for the scope; register what was
    /// chosen and send `RefreshApps`, or send `ChooseScriptCancel`.
    ChooseScript(DirectoryType),
    /// Fetch the scope's autostart inventory anew.
    Refresh(DirectoryType),
    /// Show the file of the user inventory's descriptor at this row, where
    /// there is one.
    Reveal(u32),
}

/// The mathematical content of an `AppModel`.
pub ghost struct ModelView {
    pub context_page: ContextPage,
    pub context_shown: bool,
    pub application_search: Seq<char>,
    pub installed_loaded: bool,
    pub selected_type: Option<DirectoryType>,
    pub selected_app: Option<DescriptorView>,
    pub global_search: Option<Seq<char>>,
    pub popover_item: Option<u32>,
}

/// The mathematical content of a `Message`.
pub ghost enum MessageView {
    SubscriptionChannel,
    ToggleContextPage(ContextPage),
    ApplicationSearch(Seq<char>),
    AddApplicationActivate(DirectoryType),
    AddApplication(DescriptorView),
    RemoveApplication(DirectoryType, DescriptorView),
    RemoveApplicationConfirm,
    RemoveApplicationCancel,
    GlobalSearchActivate,
    GlobalSearchInput(Seq<char>),
    GlobalSearchClear,
    ChooseScriptActivate(DirectoryType),
    ChooseScriptCancel,
    RefreshApps(DirectoryType),
    TogglePopover(u32),
    PopoverAction(u32, PopoverMessage),
}

/// The mathematical content of an `Effect`.
pub ghost enum EffectView {
    Nothing,
    Toggle(ContextPage),
    LoadThenToggle(ContextPage),
    Enable(DirectoryType, DescriptorView),
    Disable(DirectoryType, DescriptorView),
    FocusSearch,
    ChooseScript(DirectoryType),
    Refresh(DirectoryType),
    Reveal(u32),
}

/// The view of an optional descriptor.
pub open spec fn opt_descriptor(o: Option<ApplicationDescriptor>) -> Option<DescriptorView> {
    match o {
        Some(d) => Some(d@),
        None => None,
    }
}

impl View for AppModel {
    type V = ModelView;

    open spec fn view(&self) -> ModelView {
        ModelView {
            context_page: self.context_page,
            context_shown: self.context_shown,
            application_search: self.application_search@,
            installed_loaded: self.installed_loaded,
            selected_type: self.selected_type,
            selected_app: opt_descriptor(self.selected_app),
            global_search: opt_view(self.global_search),
            popover_item: self.popover_item,
        }
    }
}

impl View for Message {
    type V = MessageView;

    open spec fn view(&self) -> MessageView {
        match *self {
            Message::SubscriptionChannel => MessageView::SubscriptionChannel,
            Message::ToggleContextPage(page) => MessageView::ToggleContextPage(page),
            Message::ApplicationSearch(text) => MessageView::ApplicationSearch(text@),
            Message::AddApplicationActivate(scope) => MessageView::AddApplicationActivate(scope),
            Message::AddApplication(d) => MessageView::AddApplication(d@),
            Message::RemoveApplication(scope, d) => MessageView::RemoveApplication(scope, d@),
            Message::RemoveApplicationConfirm => MessageView::RemoveApplicationConfirm,
            Message::RemoveApplicationCancel => MessageView::RemoveApplicationCancel,
            Message::GlobalSearchActivate => MessageView::GlobalSearchActivate,
            Message::GlobalSearchInput(text) => MessageView::GlobalSearchInput(text@),
            Message::GlobalSearchClear => MessageView::GlobalSearchClear,
            Message::ChooseScriptActivate(scope) => MessageView::ChooseScriptActivate(scope),
            Message::ChooseScriptCancel => MessageView::ChooseScriptCancel,
            Message::RefreshApps(scope) => MessageView::RefreshApps(scope),
            Message::TogglePopover(idx) => MessageView::TogglePopover(idx),
            Message::PopoverAction(idx, action) => MessageView::PopoverAction(idx, action),
        }
    }
}

impl View for Effect {
    type V = EffectView;

    open spec fn view(&self) -> EffectView {
        match *self {
            Effect::Nothing => EffectView::Nothing,
            Effect::Toggle(page) => EffectView::Toggle(page),
            Effect::LoadThenToggle(page) => EffectView::LoadThenToggle(page),
            Effect::Enable(scope, d) => EffectView::Enable(scope, d@),
            Effect::Disable(scope, d) => EffectView::Disable(scope, d@),
            Effect::FocusSearch => EffectView::FocusSearch,
            Effect::ChooseScript(scope) => EffectView::ChooseScript(scope),
            Effect::Refresh(scope) => EffectView::Refresh(scope),
            Effect::Reveal(idx) => EffectView::Reveal(idx),
        }
    }
}

/// The state after a message.
pub open spec fn next_model(m: ModelView, message: MessageView) -> ModelView {
    match message {
        MessageView::SubscriptionChannel => m,
        MessageView::ToggleContextPage(page) => ModelView {
            context_page: page,
            context_shown: if m.context_page == page {
                !m.context_shown
            } else {
                true
            },
            ..m
        },
        MessageView::ApplicationSearch(text) => ModelView { application_search: text, ..m },
        MessageView::AddApplicationActivate(scope) => ModelView {
            installed_loaded: true,
            selected_type: Some(scope),
            ..m
        },
        MessageView::AddApplication(d) => ModelView { selected_type: None, ..m },
        MessageView::RemoveApplication(scope, d) => ModelView {
            selected_type: Some(scope),
            selected_app: Some(d),
            ..m
        },
        MessageView::RemoveApplicationConfirm => ModelView {
            selected_type: None,
            selected_app: None,
            ..m
        },
        MessageView::RemoveApplicationCancel => ModelView {
            selected_type: None,
            selected_app: None,
            ..m
        },
        MessageView::GlobalSearchActivate => ModelView { global_search: Some(Seq::empty()), ..m },
        MessageView::GlobalSearchInput(text) => ModelView { global_search: Some(text), ..m },
        MessageView::GlobalSearchClear => ModelView { global_search: None, ..m },
        MessageView::ChooseScriptActivate(scope) => ModelView { selected_type: Some(scope), ..m },
        MessageView::ChooseScriptCancel => m,
        MessageView::RefreshApps(scope) => m,
        MessageView::TogglePopover(idx) => ModelView {
            popover_item: if m.popover_item == Some(idx) {
                None
            } else {
                Some(idx)
            },
            ..m
        },
        MessageView::PopoverAction(idx, action) => ModelView { popover_item: None, ..m },
    }
}

/// What a message asks of the caller in a state.
pub open spec fn effect_of(m: ModelView, message: MessageView) -> EffectView {
    match message {
        MessageView::AddApplicationActivate(scope) => if m.installed_loaded {
            EffectView::Toggle(ContextPage::AddApplication)
        } else {
            EffectView::LoadThenToggle(ContextPage::AddApplication)
        },
        MessageView::AddApplication(d) => match m.selected_type {
            Some(scope) => EffectView::Enable(scope, d),
            None => EffectView::Toggle(ContextPage::AddApplication),
        },
        MessageView::RemoveApplicationConfirm => match (m.selected_type, m.selected_app) {
            (Some(scope), Some(d)) => EffectView::Disable(scope, d),
            _ => EffectView::Nothing,
        },
        MessageView::GlobalSearchActivate => EffectView::FocusSearch,
        MessageView::ChooseScriptActivate(scope) => EffectView::ChooseScript(scope),
        MessageView::RefreshApps(scope) => EffectView::Refresh(scope),
        MessageView::PopoverAction(idx, action) => EffectView::Reveal(idx),
        _ => EffectView::Nothing,
    }
}

impl AppModel {
    /// The state of a window that has just opened.
    pub fn new() -> (r: Self)
        ensures
            r@ == (ModelView {
                context_page: ContextPage::AddApplication,
                context_shown: false,
                application_search: Seq::empty(),
                installed_loaded: false,
                selected_type: None,
                selected_app: None,
                global_search: None,
                popover_item: None,
            }),
    {
        AppModel {
            context_page: ContextPage::AddApplication,
            context_shown: false,
            application_search: String::new(),
            installed_loaded: false,
            selected_type: None,
            selected_app: None,
            global_search: None,
            popover_item: None,
        }
    }

    /// Handles one message: the state after it, and what the caller is to
    /// do.
    pub fn update(self, message: Message) -> (r: (Self, Effect))
        ensures
            r.0@ == next_model(self@, message@),
            r.1@ == effect_of(self@, message@),
    {
        match message {
            Message::SubscriptionChannel => (self, Effect::Nothing),
            Message::ToggleContextPage(page) => {
                let (context_page, context_shown) = toggle_context_page(
                    self.context_page,
                    self.context_shown,
                    page,
                );
                (AppModel { context_page, context_shown, ..self }, Effect::Nothing)
            },
            Message::ApplicationSearch(text) => (
                AppModel { application_search: text, ..self },
                Effect::Nothing,
            ),
            Message::AddApplicationActivate(scope) => {
                let effect = if self.installed_loaded {
                    Effect::Toggle(ContextPage::AddApplication)
                } else {
                    Effect::LoadThenToggle(ContextPage::AddApplication)
                };
                (AppModel { installed_loaded: true, selected_type: Some(scope), ..self }, effect)
            },
            Message::AddApplication(descriptor) => {
                let effect = match self.selected_type {
                    Some(scope) => Effect::Enable(scope, descriptor),
                    None => Effect::Toggle(ContextPage::AddApplication),
                };
                (AppModel { selected_type: None, ..self }, effect)
            },
            Message::RemoveApplication(scope, descriptor) => (
                AppModel { selected_type: Some(scope), selected_app: Some(descriptor), ..self },
                Effect::Nothing,
            ),
            Message::RemoveApplicationConfirm => {
                let AppModel {
                    context_page,
                    context_shown,
                    application_search,
                    installed_loaded,
                    selected_type,
                    selected_app,
                    global_search,
                    popover_item,
                } = self;
                let effect = match (selected_type, selected_app) {
                    (Some(scope), Some(descriptor)) => Effect::Disable(scope, descriptor),
                    _ => Effect::Nothing,
                };
                (
                    AppModel {
                        context_page,
                        context_shown,
                        application_search,
                        installed_loaded,
                        selected_type: None,
                        selected_app: None,
                        global_search,
                        popover_item,
                    },
                    effect,
                )
            },
            Message::RemoveApplicationCancel => (
                AppModel { selected_type: None, selected_app: None, ..self },
                Effect::Nothing,
            ),
            Message::GlobalSearchActivate => (
                AppModel { global_search: Some(String::new()), ..self },
                Effect::FocusSearch,
            ),
            Message::GlobalSearchInput(text) => (
                AppModel { global_search: Some(text), ..self },
                Effect::Nothing,
            ),
            Message::GlobalSearchClear => (AppModel { global_search: None, ..self }, Effect::Nothing),
            Message::ChooseScriptActivate(scope) => (
                AppModel { selected_type: Some(scope), ..self },
                Effect::ChooseScript(scope),
            ),
            Message::ChooseScriptCancel => (self, Effect::Nothing),
            Message::RefreshApps(scope) => (self, Effect::Refresh(scope)),
            Message::TogglePopover(idx) => {
                let popover_item = toggle_popover(self.popover_item, idx);
                (AppModel { popover_item, ..self }, Effect::Nothing)
            },
            Message::PopoverAction(idx, action) => (
                AppModel { popover_item: None, ..self },
                Effect::Reveal(idx),
            ),
        }
    }
}

/// What a section of the window shows of an inventory.
#[derive(Debug)]
pub enum Section {
    /// The inventory is empty: no application was selected yet.
    NoneSelected,
    /// The inventory has applications, and the search finds none of them.
    NoneFound,
    /// The rows to show, as positions in the inventory, in its order.
    Rows(Vec<usize>),
}

/// The mathematical content of a `Section`.
pub ghost enum SectionView {
    NoneSelected,
    NoneFound,
    Rows(Seq<usize>),
}

impl View for Section {
    type V = SectionView;

    open spec fn view(&self) -> SectionView {
        match *self {
            Section::NoneSelected => SectionView::NoneSelected,
            Section::NoneFound => SectionView::NoneFound,
            Section::Rows(rows) => SectionView::Rows(rows@),
        }
    }
}

/// What a search text is matched by: nothing where no search is open, else
/// the text without surrounding white space, in lower case.
pub open spec fn needle_of(search: Option<Seq<char>>) -> Seq<char> {
    match search {
        Some(text) => lowercased(trimmed(text)),
        None => Seq::empty(),
    }
}

/// Whether a needle finds one of two texts that are in lower case already:
/// the empty needle finds everything, any other what it occurs in.
pub open spec fn needle_hits(needle: Seq<char>, first: Seq<char>, second: Seq<char>) -> bool {
    needle.len() == 0 || occurs_in(needle, first) || occurs_in(needle, second)
}

/// Whether a needle finds a descriptor: by its display name or its command,
/// whatever their case.
pub open spec fn finds(needle: Seq<char>, d: DescriptorView, locales: Seq<Seq<char>>) -> bool {
    needle_hits(
        needle,
        lowercased(d.display_name(locales)),
        lowercased(or_empty(d.exec_command)),
    )
}

/// Whether a needle offers a descriptor in the picker: by its display name.
pub open spec fn offers_pick(needle: Seq<char>, d: DescriptorView, locales: Seq<Seq<char>>) -> bool {
    needle.len() == 0 || occurs_in(needle, lowercased(d.display_name(locales)))
}

/// The positions of the first `n` descriptors that the needle finds.
pub open spec fn rows_of(
    inventory: Seq<DescriptorView>,
    locales: Seq<Seq<char>>,
    needle: Seq<char>,
    n: nat,
) -> Seq<usize>
    decreases n,
{
    if n == 0 {
        Seq::empty()
    } else {
        let before = rows_of(inventory, locales, needle, (n - 1) as nat);
        if finds(needle, inventory[n - 1], locales) {
            before.push((n - 1) as usize)
        } else {
            before
        }
    }
}

/// What a section shows of an inventory under a needle.
pub open spec fn section_of(
    inventory: Seq<DescriptorView>,
    locales: Seq<Seq<char>>,
    needle: Seq<char>,
) -> SectionView {
    let rows = rows_of(inventory, locales, needle, inventory.len());
    if inventory.len() == 0 {
        SectionView::NoneSelected
    } else if rows.len() == 0 {
        SectionView::NoneFound
    } else {
        SectionView::Rows(rows)
    }
}

/// The needle of a search text.
pub fn needle(search: &Option<String>) -> (r: String)
    ensures
        r@ == needle_of(opt_view(*search)),
{
    match search {
        Some(text) => {
            let bare = trim(text.as_str());
            lowercase(bare.as_str())
        },
        None => String::new(),
    }
}

/// Tests whether a needle finds one of two texts in lower case.
pub fn hits(needle: &str, first: &str, second: &str) -> (r: bool)
    ensures
        r == needle_hits(needle@, first@, second@),
{
    needle.unicode_len() == 0 || occurs(needle, first) || occurs(needle, second)
}

/// Tests whether a needle finds a descriptor.
pub fn found(needle: &str, d: &ApplicationDescriptor, locales: &Vec<String>) -> (r: bool)
    ensures
        r == finds(needle@, d@, views(locales@)),
{
    if needle.unicode_len() == 0 {
        return true;
    }
    let name = lowercase(d.display_name(locales).as_str());
    let command = match &d.exec_command {
        Some(command) => lowercase(command.as_str()),
        None => lowercase(String::new().as_str()),
    };
    hits(needle, name.as_str(), command.as_str())
}

impl AppModel {
    /// What a section shows of an inventory while this state's search is
    /// open or closed: an empty inventory shows that nothing was selected.
    pub fn section(&self, inventory: &Vec<ApplicationDescriptor>, locales: &Vec<String>) -> (r:
        Section)
        ensures
            r@ == section_of(
                descriptor_views(inventory@),
                views(locales@),
                needle_of(self@.global_search),
            ),
    {
        if inventory.len() == 0 {
            return Section::NoneSelected;
        }
        let needle = needle(&self.global_search);
        let ghost all = descriptor_views(inventory@);
        let mut rows: Vec<usize> = Vec::new();
        let mut i: usize = 0;
        while i < inventory.len()
            invariant
                i <= inventory.len(),
                all == descriptor_views(inventory@),
                rows@ == rows_of(all, views(locales@), needle@, i as nat),
            decreases inventory.len() - i,
        {
            assert(all[i as int] == inventory@[i as int]@);
            if found(needle.as_str(), &inventory[i], locales) {
                rows.push(i);
            }
            i += 1;
        }
        if rows.len() == 0 {
            Section::NoneFound
        } else {
            Section::Rows(rows)
        }
    }

    /// Tests whether the picker offers a descriptor under this state's
    /// picker search.
    pub fn offers(&self, d: &ApplicationDescriptor, locales: &Vec<String>) -> (r: bool)
        ensures
            r == offers_pick(needle_of(Some(self@.application_search)), d@, views(locales@)),
    {
        let bare = trim(self.application_search.as_str());
        let needle = lowercase(bare.as_str());
        if needle.as_str().unicode_len() == 0 {
            return true;
        }
        let name = lowercase(d.display_name(locales).as_str());
        occurs(needle.as_str(), name.as_str())
    }
}

} // verus!
