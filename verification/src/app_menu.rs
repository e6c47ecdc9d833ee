//! Prompts, context menus and messages.

use vstd::prelude::*;

use crate::app;
use crate::app::{close_tab, text_or_empty, App, AppV, PromptV, ToastV, TOAST_MILLIS};
use crate::frontend::{InputEvent, UiEffect, UiEffectV};
use crate::input::{KeyCode, KeyEvent};
use crate::node::{PaneId, SplitDir};
use crate::session::Request;
use crate::text;
use crate::ui;
use crate::ui::{
    find_area, ContextMenu, ContextMenuV, Hit, MenuAction, Prompt, PromptTarget,
    Toast,
};

verus! {

/// When a message that is shown at `now` goes away.
pub open spec fn toast_deadline(now: u64) -> u64 {
    if now + TOAST_MILLIS > u64::MAX {
        u64::MAX
    } else {
        (now + TOAST_MILLIS) as u64
    }
}

/// The entries of a workspace's menu.
pub open spec fn workspace_items(id: u64) -> Seq<MenuAction> {
    seq![
        MenuAction::RenameWorkspace(id),
        MenuAction::CopyWorkspaceId(id),
        MenuAction::CloseWorkspace(id),
    ]
}

/// The entries of a screen's menu.
pub open spec fn screen_items(id: u64) -> Seq<MenuAction> {
    seq![MenuAction::RenameScreen(id), MenuAction::CloseScreen(id)]
}

/// The entries of a pane's menu.
pub open spec fn pane_items(pane: PaneId) -> Seq<MenuAction> {
    seq![
        MenuAction::RenameTab(pane),
        MenuAction::CopyTabId(pane),
        MenuAction::CopyPaneId(pane),
        MenuAction::NewTab(pane),
        MenuAction::NewBrowserTab(pane),
        MenuAction::SplitRight(pane),
        MenuAction::SplitDown(pane),
        MenuAction::CloseTab(pane),
        MenuAction::ClosePane(pane),
    ]
}

impl AppV {
    pub open spec fn toasted(self, text: Seq<char>, now: u64) -> AppV {
        AppV { toast: Some(ToastV { text, deadline: toast_deadline(now) }), ..self }
    }

    /// A short id goes on the clipboard.
    pub open spec fn id_copied(self, short_id: Option<String>, now: u64) -> AppV {
        match short_id {
            Some(short_id) => self.doing(seq![UiEffectV::Copy(short_id@)]).toasted(
                "Copied "@ + short_id@,
                now,
            ),
            None => self,
        }
    }

    /// The prompt for renaming a workspace.
    pub open spec fn renaming_workspace(self, id: u64) -> AppV {
        AppV {
            prompt: Some(
                app::new_prompt(
                    "Rename workspace"@,
                    match self.tree.find_workspace(id) {
                        Some(w) => self.tree.workspaces@[w].name@,
                        None => seq![],
                    },
                    PromptTarget::Workspace(id),
                ),
            ),
            ..self
        }
    }

    /// The prompt for renaming a screen.
    pub open spec fn renaming_screen(self, id: u64) -> AppV {
        AppV {
            prompt: Some(
                app::new_prompt(
                    "Rename screen"@,
                    match self.tree.find_screen(id) {
                        Some(screen) => app::or_empty(screen.name),
                        None => seq![],
                    },
                    PromptTarget::Screen(id),
                ),
            ),
            ..self
        }
    }

    /// A menu entry is activated.
    #[verifier::opaque]
    pub open spec fn activated(self, action: MenuAction, now: u64) -> AppV {
        match action {
            MenuAction::RenameWorkspace(id) => self.renaming_workspace(id),
            MenuAction::CloseWorkspace(id) => self.asking(
                Request::CloseWorkspace { workspace: id },
            ),
            MenuAction::CopyWorkspaceId(id) => self.id_copied(
                match self.tree.find_workspace(id) {
                    Some(w) => Some(self.tree.workspaces@[w].short_id),
                    None => None,
                },
                now,
            ),
            MenuAction::RenameScreen(id) => self.renaming_screen(id),
            MenuAction::CloseScreen(id) => self.asking(Request::CloseScreen { screen: id }),
            MenuAction::RenameTab(id) => self.tab_prompted(Some(id)),
            MenuAction::CopyTabId(id) => self.id_copied(
                match self.tree.tab_in(id) {
                    Some(tab) => Some(tab.short_id),
                    None => None,
                },
                now,
            ),
            MenuAction::CopyPaneId(id) => self.id_copied(
                match self.tree.the_pane(id) {
                    Some(pane) => Some(pane.short_id),
                    None => None,
                },
                now,
            ),
            MenuAction::NewTab(id) => self.asking_or_quitting(
                Request::NewTab { pane: Some(id), size: None },
            ),
            MenuAction::NewBrowserTab(id) => self.browser_prompted(Some(id)),
            MenuAction::SplitRight(id) => self.doing(seq![self.split_of(id, SplitDir::Right)]),
            MenuAction::SplitDown(id) => self.doing(seq![self.split_of(id, SplitDir::Down)]),
            MenuAction::CloseTab(id) => self.doing(
                app::closing(
                    match self.tree.tab_in(id) {
                        Some(tab) => Some(tab.surface),
                        None => None,
                    },
                ),
            ),
            MenuAction::ClosePane(id) => self.asking(Request::ClosePane { pane: id }),
        }
    }

    /// The size of a fresh page in a pane, as far as it can be told.
    pub open spec fn page_size(self, pane: Option<PaneId>) -> Option<(u16, u16)> {
        match pane {
            Some(pane) => self.page_size_in(pane),
            None => {
                let own = match self.tree.the_active_pane() {
                    Some(pane) => self.page_size_in(pane),
                    None => None,
                };
                if own is Some {
                    own
                } else {
                    self.full_size()
                }
            },
        }
    }

    pub open spec fn page_size_in(self, pane: PaneId) -> Option<(u16, u16)> {
        match self.area_of(pane) {
            Some(area) => Some(
                (
                    crate::browser::at_least_one(area.content.width),
                    crate::browser::at_least_one(area.content.height),
                ),
            ),
            None => None,
        }
    }

    /// The open prompt goes away.
    pub open spec fn prompt_closed(self) -> AppV {
        AppV { shake_frames: 0, prompt: None, ..self }
    }

    /// The open prompt goes away and takes effect. A workspace keeps its
    /// name when the prompt is empty, and no page is opened for a blank one.
    pub open spec fn prompt_committed(self) -> AppV {
        let closed = self.prompt_closed();
        match self.prompt {
            None => closed,
            Some(prompt) => match prompt.target {
                PromptTarget::Workspace(_) => if prompt.input.len() == 0 {
                    closed
                } else {
                    closed.doing(
                        seq![UiEffectV::Rename { target: prompt.target, name: prompt.input }],
                    )
                },
                PromptTarget::BrowserTab { pane } => {
                    let url = text::trimmed(prompt.input);
                    if url.len() == 0 {
                        closed
                    } else {
                        closed.doing(
                            seq![
                                UiEffectV::OpenBrowserTab { url, pane, size: self.page_size(pane) },
                            ],
                        )
                    }
                },
                _ => closed.doing(
                    seq![UiEffectV::Rename { target: prompt.target, name: prompt.input }],
                ),
            },
        }
    }

    /// What the line editor made of a key.
    #[verifier::opaque]
    pub open spec fn prompt_keyed(self, event: InputEvent) -> (AppV, bool) {
        if self.prompt is None {
            (self, false)
        } else {
            match event {
                InputEvent::Commit => (self.prompt_committed(), true),
                InputEvent::Cancel => (self.prompt_closed(), true),
                InputEvent::Changed => (self, true),
                InputEvent::Ignored => (self, true),
            }
        }
    }

    /// A click while the prompt is open: OK commits, Clear empties the
    /// input, Cancel or a click outside dismisses, and a click on the input
    /// moves the cursor.
    #[verifier::opaque]
    pub open spec fn prompt_clicked(self, x: u16, y: u16) -> (AppV, bool) {
        match self.prompt {
            None => (self, false),
            Some(prompt) => {
                let px = x as int;
                let py = y as int;
                if prompt.ok.has(px, py) {
                    (self.prompt_committed(), true)
                } else if prompt.clear.has(px, py) {
                    (
                        (AppV {
                            prompt: Some(PromptV { input: seq![], ..prompt }),
                            ..self
                        }).doing(seq![UiEffectV::PromptClear]),
                        true,
                    )
                } else if prompt.input_rect.has(px, py) {
                    (
                        self.doing(
                            seq![
                                UiEffectV::PromptCursor {
                                    column: x - prompt.input_rect.x,
                                    width: prompt.input_rect.width,
                                },
                            ],
                        ),
                        true,
                    )
                } else if prompt.cancel.has(px, py) || !prompt.rect.has(px, py) {
                    (self.prompt_closed(), true)
                } else {
                    (self, true)
                }
            },
        }
    }

    /// The highlight of the open menu moves.
    pub open spec fn highlighted(self, item: int) -> AppV {
        AppV {
            menu: match self.menu {
                Some(menu) => Some(ContextMenuV { selected: item, ..menu }),
                None => None,
            },
            ..self
        }
    }

    /// A key while the menu is open.
    #[verifier::opaque]
    pub open spec fn menu_keyed(self, key: KeyEvent, now: u64) -> (AppV, bool) {
        match self.menu {
            None => (self, false),
            Some(menu) => match key.code {
                KeyCode::Esc => (AppV { menu: None, ..self }, true),
                KeyCode::Up => (self.highlighted(ui::minus(menu.selected, 1)), true),
                KeyCode::Down => (
                    self.highlighted(
                        if menu.selected + 1 < menu.items.len() {
                            menu.selected + 1
                        } else {
                            menu.items.len() - 1
                        },
                    ),
                    true,
                ),
                KeyCode::Enter => (
                    AppV {
                        status_message: None,
                        ..(AppV { menu: None, ..self }).activated(menu.items[menu.selected], now)
                    },
                    true,
                ),
                _ => (self, true),
            },
        }
    }

    /// A right press opens the menu of what is under it.
    #[verifier::opaque]
    pub open spec fn menu_opened(self, x: u16, y: u16) -> AppV {
        let items = match self.hit_at(x, y) {
            Some(Hit::Workspace { id, .. }) => Some(workspace_items(id)),
            Some(Hit::ScreenEntry { id, .. }) => Some(screen_items(id)),
            _ => match self.area_at(x, y) {
                Some(area) => Some(pane_items(area.pane)),
                None => None,
            },
        };
        AppV {
            menu: match items {
                Some(items) => Some(ContextMenuV::fresh(x, y, items)),
                None => None,
            },
            ..self
        }
    }
}

impl App {
    /// Shows a message for a while.
    pub fn show_toast(&mut self, text: String, now: u64)
        ensures
            final(self)@ == old(self)@.toasted(text@, now),
    {
        self.toast = Some(Toast { text, deadline: now.saturating_add(TOAST_MILLIS) });
    }

    /// Takes a message away when its time is over. Says whether it did.
    pub fn expire_toast(&mut self, now: u64) -> (expired: bool)
        ensures
            expired == old(self)@.toast_over(now),
            final(self)@ == old(self)@.toast_checked(now),
            old(self).wf() ==> final(self).wf(),
    {
        let over = match &self.toast {
            Some(toast) => now >= toast.deadline,
            None => false,
        };
        if over {
            self.toast = None;
        }
        over
    }

    fn copy_short_id(&mut self, short_id: Option<String>, now: u64)
        ensures
            final(self)@ == old(self)@.id_copied(short_id, now),
    {
        if let Some(short_id) = short_id {
            let message = text::concat("Copied ", short_id.as_str());
            self.request(UiEffect::Copy(short_id));
            self.show_toast(message, now);
        }
    }

    /// Takes note of the text that a selection held.
    pub fn selection_copied(&mut self, text: String, now: u64)
        ensures
            final(self)@ == if text@.len() == 0 {
                old(self)@
            } else {
                old(self)@.doing(seq![UiEffectV::Copy(text@)]).toasted("Copied"@, now)
            },
    {
        if text.as_str().is_empty() {
            return ;
        }
        self.request(UiEffect::Copy(text));
        self.show_toast("Copied".to_owned(), now);
    }

    /// Takes note of how opening a page went.
    pub fn browser_tab_opened(&mut self, error: Option<String>)
        ensures
            final(self)@ == (AppV {
                status_message: match error {
                    Some(error) => Some(error@),
                    None => None,
                },
                ..old(self)@
            }),
    {
        self.status_message = error;
    }

    fn rename_workspace_prompt(&mut self, id: u64)
        ensures
            final(self)@ == old(self)@.renaming_workspace(id),
    {
        let input = match self.tree.workspace_index(id) {
            Some(w) => self.tree.workspaces[w].name.clone(),
            None => text_or_empty(&None),
        };
        self.prompt = Some(Prompt::new("Rename workspace", input, PromptTarget::Workspace(id)));
    }

    fn rename_screen_prompt(&mut self, id: u64)
        ensures
            final(self)@ == old(self)@.renaming_screen(id),
    {
        let input = match self.tree.screen(id) {
            Some(screen) => text_or_empty(&screen.name),
            None => text_or_empty(&None),
        };
        self.prompt = Some(Prompt::new("Rename screen", input, PromptTarget::Screen(id)));
    }

    /// Activates a menu entry.
    pub fn activate_menu(&mut self, action: MenuAction, now: u64)
        ensures
            final(self)@ == old(self)@.activated(action, now),
            old(self).wf() ==> final(self).wf(),
    {
        reveal(AppV::activated);
        match action {
            MenuAction::RenameWorkspace(id) => self.rename_workspace_prompt(id),
            MenuAction::CloseWorkspace(id) => self.ask(Request::CloseWorkspace { workspace: id }),
            MenuAction::CopyWorkspaceId(id) => {
                let short_id = match self.tree.workspace_index(id) {
                    Some(w) => Some(self.tree.workspaces[w].short_id.clone()),
                    None => None,
                };
                self.copy_short_id(short_id, now);
            },
            MenuAction::RenameScreen(id) => self.rename_screen_prompt(id),
            MenuAction::CloseScreen(id) => self.ask(Request::CloseScreen { screen: id }),
            MenuAction::RenameTab(id) => self.open_rename_tab_prompt(Some(id)),
            MenuAction::CopyTabId(id) => {
                let short_id = match self.tree.tab(id) {
                    Some(tab) => Some(tab.short_id.clone()),
                    None => None,
                };
                self.copy_short_id(short_id, now);
            },
            MenuAction::CopyPaneId(id) => {
                let short_id = match self.tree.pane(id) {
                    Some(pane) => Some(pane.short_id.clone()),
                    None => None,
                };
                self.copy_short_id(short_id, now);
            },
            MenuAction::NewTab(id) => self.ask_or_quit(
                Request::NewTab { pane: Some(id), size: None },
            ),
            MenuAction::NewBrowserTab(id) => self.open_browser_tab_prompt(Some(id)),
            MenuAction::SplitRight(id) => {
                let effect = self.split_of(id, SplitDir::Right);
                self.request(effect);
            },
            MenuAction::SplitDown(id) => {
                let effect = self.split_of(id, SplitDir::Down);
                self.request(effect);
            },
            MenuAction::CloseTab(id) => {
                let surface = match self.tree.tab(id) {
                    Some(tab) => Some(tab.surface),
                    None => None,
                };
                self.request_all(close_tab(surface));
            },
            MenuAction::ClosePane(id) => self.ask(Request::ClosePane { pane: id }),
        }
    }

    fn page_size_in(&self, pane: PaneId) -> (size: Option<(u16, u16)>)
        ensures
            size == self@.page_size_in(pane),
    {
        match find_area(self.pane_areas.as_slice(), pane) {
            Some(i) => {
                let content = self.pane_areas[i].content;
                Some(
                    (
                        crate::browser::clamp_one(content.width),
                        crate::browser::clamp_one(content.height),
                    ),
                )
            },
            None => None,
        }
    }

    /// The size of a fresh page in a pane, as far as it can be told.
    pub fn browser_tab_size_hint(&self, pane: Option<PaneId>) -> (size: Option<(u16, u16)>)
        ensures
            size == self@.page_size(pane),
    {
        match pane {
            Some(pane) => self.page_size_in(pane),
            None => {
                if let Some(pane) = self.tree.active_pane() {
                    if let Some(size) = self.page_size_in(pane) {
                        return Some(size);
                    }
                }
                self.full_size()
            },
        }
    }

    pub fn close_prompt(&mut self)
        ensures
            final(self)@ == old(self)@.prompt_closed(),
    {
        self.shake_frames = 0;
        self.prompt = None;
    }

    /// Commits the open prompt.
    pub fn commit_prompt(&mut self)
        ensures
            final(self)@ == old(self)@.prompt_committed(),
            old(self).wf() ==> final(self).wf(),
    {
        self.shake_frames = 0;
        let Some(prompt) = self.prompt.take() else {
            return ;
        };
        let name = prompt.input;
        match prompt.target {
            PromptTarget::Workspace(id) => {
                if !name.as_str().is_empty() {
                    self.request(UiEffect::Rename { target: PromptTarget::Workspace(id), name });
                }
            },
            PromptTarget::Screen(id) => {
                self.request(UiEffect::Rename { target: PromptTarget::Screen(id), name });
            },
            PromptTarget::Surface(id) => {
                self.request(UiEffect::Rename { target: PromptTarget::Surface(id), name });
            },
            PromptTarget::BrowserTab { pane } => {
                let url = text::trim(name.as_str());
                if !url.as_str().is_empty() {
                    let size = self.browser_tab_size_hint(pane);
                    self.request(UiEffect::OpenBrowserTab { url, pane, size });
                }
            },
        }
    }

    /// A key while the prompt is open; `event` is what the line editor made
    /// of it.
    pub fn handle_prompt_key(&mut self, event: InputEvent) -> (needs_draw: bool)
        ensures
            final(self)@ == old(self)@.prompt_keyed(event).0,
            needs_draw == old(self)@.prompt_keyed(event).1,
            old(self).wf() ==> final(self).wf(),
    {
        reveal(AppV::prompt_keyed);
        if self.prompt.is_none() {
            return false;
        }
        match event {
            InputEvent::Commit => self.commit_prompt(),
            InputEvent::Cancel => self.close_prompt(),
            InputEvent::Changed | InputEvent::Ignored => {},
        }
        true
    }

    /// A click while the prompt is open.
    pub fn handle_prompt_click(&mut self, x: u16, y: u16) -> (needs_draw: bool)
        ensures
            final(self)@ == old(self)@.prompt_clicked(x, y).0,
            needs_draw == old(self)@.prompt_clicked(x, y).1,
            old(self).wf() ==> final(self).wf(),
    {
        reveal(AppV::prompt_clicked);
        let Some(prompt) = &mut self.prompt else {
            return false;
        };
        if prompt.ok.contains(x, y) {
            self.commit_prompt();
        } else if prompt.clear.contains(x, y) {
            prompt.input = text_or_empty(&None);
            self.request(UiEffect::PromptClear);
        } else if prompt.input_rect.contains(x, y) {
            let column: u16 = x.saturating_sub(prompt.input_rect.x);
            let width: u16 = prompt.input_rect.width;
            self.request(UiEffect::PromptCursor { column, width });
        } else if prompt.cancel.contains(x, y) || !prompt.rect.contains(x, y) {
            self.close_prompt();
        }
        true
    }

    /// A key while the menu is open.
    pub fn handle_menu_key(&mut self, key: &KeyEvent, now: u64) -> (needs_draw: bool)
        requires
            old(self).wf(),
        ensures
            final(self).wf(),
            final(self)@ == old(self)@.menu_keyed(*key, now).0,
            needs_draw == old(self)@.menu_keyed(*key, now).1,
    {
        reveal(AppV::menu_keyed);
        let (selected, last): (usize, usize) = match &self.menu {
            Some(menu) => (menu.selected, menu.items.len() - 1),
            None => return false,
        };
        match key.code {
            KeyCode::Esc => {
                self.menu = None;
            },
            KeyCode::Up => self.highlight(selected.saturating_sub(1)),
            KeyCode::Down => self.highlight(if selected < last { selected + 1 } else { last }),
            KeyCode::Enter => {
                if let Some(menu) = self.menu.take() {
                    self.activate_menu(menu.items[selected], now);
                }
                self.status_message = None;
            },
            _ => {},
        }
        true
    }

    /// Moves the menu's highlight.
    pub(crate) fn highlight(&mut self, item: usize)
        requires
            old(self)@.menu is Some,
        ensures
            final(self)@ == old(self)@.highlighted(item as int),
            old(self).wf() && item < old(self)@.menu->0.items.len() ==> final(self).wf(),
    {
        if let Some(menu) = &mut self.menu {
            menu.selected = item;
        }
    }

    /// Opens the menu of what is under a right press.
    pub fn open_context_menu(&mut self, x: u16, y: u16)
        requires
            old(self).wf(),
        ensures
            final(self).wf(),
            final(self)@ == old(self)@.menu_opened(x, y),
    {
        reveal(AppV::menu_opened);
        let items = match self.hit_at(x, y) {
            Some(Hit::Workspace { id, .. }) => Some(workspace_menu(id)),
            Some(Hit::ScreenEntry { id, .. }) => Some(screen_menu(id)),
            _ => match self.pane_area_at(x, y) {
                Some(area) => Some(pane_menu(area.pane)),
                None => None,
            },
        };
        self.menu = match items {
            Some(items) => Some(ContextMenu::at(x, y, items)),
            None => None,
        };
    }
}

fn workspace_menu(id: u64) -> (items: Vec<MenuAction>)
    ensures
        items@ == workspace_items(id),
{
    let mut items: Vec<MenuAction> = Vec::new();
    items.push(MenuAction::RenameWorkspace(id));
    items.push(MenuAction::CopyWorkspaceId(id));
    items.push(MenuAction::CloseWorkspace(id));
    assert(items@ =~= workspace_items(id));
    items
}

fn screen_menu(id: u64) -> (items: Vec<MenuAction>)
    ensures
        items@ == screen_items(id),
{
    let mut items: Vec<MenuAction> = Vec::new();
    items.push(MenuAction::RenameScreen(id));
    items.push(MenuAction::CloseScreen(id));
    assert(items@ =~= screen_items(id));
    items
}

fn pane_menu(pane: PaneId) -> (items: Vec<MenuAction>)
    ensures
        items@ == pane_items(pane),
{
    let mut items: Vec<MenuAction> = Vec::new();
    items.push(MenuAction::RenameTab(pane));
    items.push(MenuAction::CopyTabId(pane));
    items.push(MenuAction::CopyPaneId(pane));
    items.push(MenuAction::NewTab(pane));
    items.push(MenuAction::NewBrowserTab(pane));
    items.push(MenuAction::SplitRight(pane));
    items.push(MenuAction::SplitDown(pane));
    items.push(MenuAction::CloseTab(pane));
    items.push(MenuAction::ClosePane(pane));
    assert(items@ =~= pane_items(pane));
    items
}

} // verus!
