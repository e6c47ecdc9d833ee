//! The frontend's own state and what its user does to it.

use std::collections::HashMap;

use vstd::prelude::*;

use crate::frontend::{Action, UiEffect, UiEffectV};
use crate::geometry::Rect;
use crate::input;
use crate::input::{browser_key_mapping, browser_modifiers, KeyCode, KeyEvent, KeyKind};
use crate::node::{PaneId, SplitDir, SurfaceId};
use crate::search;
use crate::session::Request;
use crate::surface::SurfaceKind;
use crate::text;
use crate::tree::TreeView;
use crate::ui;
use crate::ui::{
    content_size_for_rect, find_area, smart_split_target, ContextMenu, ContextMenuV, Drag, Hit,
    PaneArea, Prompt, PromptTarget, Selection, Toast, UiConfig,
};

verus! {

/// How long a message stays, in milliseconds.
pub const TOAST_MILLIS: u64 = 1500;

/// How often a refused click shakes the prompt.
pub const SHAKE_FRAMES: u8 = 6;

/// The frontend's presentation state. Everything else is the session's.
#[derive(Debug)]
pub struct App {
    pub config: UiConfig,
    pub tree: TreeView,
    pub pane_areas: Vec<PaneArea>,
    pub prefix_armed: bool,
    pub sidebar_visible: bool,
    /// Width of the sidebar in the current frame (0 when hidden).
    pub sidebar_width: u16,
    pub sidebar_width_override: Option<u16>,
    /// Pane region of the current frame (screen minus sidebar and status).
    pub content_area: Rect,
    /// Clickable regions of the current frame, rebuilt by the renderers.
    pub hits: Vec<(Rect, Hit)>,
    /// Per-pane tab-bar scroll offset.
    pub tab_scroll: HashMap<PaneId, usize>,
    /// Last mouse position.
    pub hover: Option<(u16, u16)>,
    pub menu: Option<ContextMenu>,
    pub prompt: Option<Prompt>,
    pub toast: Option<Toast>,
    pub shake_frames: u8,
    pub selection: Option<Selection>,
    pub status_message: Option<String>,
    pub cell_pixels: (u16, u16),
    /// The pointer is the hand shape.
    pub pointer_shape: bool,
    pub drag: Option<Drag>,
    pub quit: bool,
    pub outbox: Vec<UiEffect>,
}

/// The mathematical value of a [`Prompt`].
#[verifier::ext_equal]
pub struct PromptV {
    pub label: Seq<char>,
    pub input: Seq<char>,
    pub target: PromptTarget,
    pub rect: Rect,
    pub input_rect: Rect,
    pub clear: Rect,
    pub ok: Rect,
    pub cancel: Rect,
}

/// The mathematical value of a [`Toast`].
#[verifier::ext_equal]
pub struct ToastV {
    pub text: Seq<char>,
    pub deadline: u64,
}

/// The mathematical value of an [`App`].
pub struct AppV {
    pub config: UiConfig,
    pub tree: TreeView,
    pub pane_areas: Seq<PaneArea>,
    pub prefix_armed: bool,
    pub sidebar_visible: bool,
    pub sidebar_width: u16,
    pub sidebar_width_override: Option<u16>,
    pub content_area: Rect,
    pub hits: Seq<(Rect, Hit)>,
    pub tab_scroll: Map<PaneId, usize>,
    pub hover: Option<(u16, u16)>,
    pub menu: Option<ContextMenuV>,
    pub prompt: Option<PromptV>,
    pub toast: Option<ToastV>,
    pub shake_frames: u8,
    pub selection: Option<Selection>,
    pub status_message: Option<Seq<char>>,
    pub cell_pixels: (u16, u16),
    pub pointer_shape: bool,
    pub drag: Option<Drag>,
    pub quit: bool,
    pub outbox: Seq<UiEffectV>,
}

impl View for Prompt {
    type V = PromptV;

    open spec fn view(&self) -> PromptV {
        PromptV {
            label: self.label@,
            input: self.input@,
            target: self.target,
            rect: self.rect,
            input_rect: self.input_rect,
            clear: self.clear,
            ok: self.ok,
            cancel: self.cancel,
        }
    }
}

impl View for Toast {
    type V = ToastV;

    open spec fn view(&self) -> ToastV {
        ToastV { text: self.text@, deadline: self.deadline }
    }
}

impl View for App {
    type V = AppV;

    open spec fn view(&self) -> AppV {
        AppV {
            config: self.config,
            tree: self.tree,
            pane_areas: self.pane_areas@,
            prefix_armed: self.prefix_armed,
            sidebar_visible: self.sidebar_visible,
            sidebar_width: self.sidebar_width,
            sidebar_width_override: self.sidebar_width_override,
            content_area: self.content_area,
            hits: self.hits@,
            tab_scroll: self.tab_scroll@,
            hover: self.hover,
            menu: match self.menu {
                Some(menu) => Some(menu@),
                None => None,
            },
            prompt: match self.prompt {
                Some(prompt) => Some(prompt@),
                None => None,
            },
            toast: match self.toast {
                Some(toast) => Some(toast@),
                None => None,
            },
            shake_frames: self.shake_frames,
            selection: self.selection,
            status_message: match self.status_message {
                Some(message) => Some(message@),
                None => None,
            },
            cell_pixels: self.cell_pixels,
            pointer_shape: self.pointer_shape,
            drag: self.drag,
            quit: self.quit,
            outbox: self.outbox@.map_values(|effect: UiEffect| effect@),
        }
    }
}

/// A prompt that is not on the screen yet.
pub open spec fn new_prompt(label: Seq<char>, input: Seq<char>, target: PromptTarget) -> PromptV {
    let none = Rect { x: 0, y: 0, width: 0, height: 0 };
    PromptV {
        label,
        input,
        target,
        rect: none,
        input_rect: none,
        clear: none,
        ok: none,
        cancel: none,
    }
}

/// The text, or nothing.
pub open spec fn or_empty(text: Option<String>) -> Seq<char> {
    match text {
        Some(text) => text@,
        None => seq![],
    }
}

/// What a key does in a page.
pub open spec fn browser_key_effects(surface: SurfaceId, key: KeyEvent) -> Seq<UiEffectV> {
    let m = key.modifiers;
    if key.code is Char && !m.control && !m.alt && !m.super_key {
        seq![UiEffectV::BrowserChar { surface, c: key.code->Char_0 }]
    } else {
        match input::browser_key(key.code) {
            None => seq![],
            Some(named) => {
                let modifiers = input::modifier_bits(m);
                let down = UiEffectV::BrowserKey { surface, down: true, key: named, modifiers };
                let up = UiEffectV::BrowserKey {
                    surface,
                    down: false,
                    key: input::BrowserKey { text: None, ..named },
                    modifiers,
                };
                if key.kind == KeyKind::Press {
                    seq![down, up]
                } else {
                    seq![down]
                }
            },
        }
    }
}

impl AppV {
    pub open spec fn wf(self) -> bool {
        &&& self.menu matches Some(menu) ==> 0 <= menu.selected < menu.items.len()
        &&& match self.drag {
            Some(Drag::Select { content, .. }) => content.fits(),
            Some(Drag::Browser { content, .. }) => content.fits(),
            _ => true,
        }
        &&& forall|i: int|
            #![trigger self.pane_areas[i]]
            0 <= i < self.pane_areas.len() ==> self.pane_areas[i].content.fits()
    }

    /// A frontend before its first frame.
    pub open spec fn started(config: UiConfig, cell_pixels: (u16, u16), tree: TreeView) -> AppV {
        AppV {
            config,
            tree,
            pane_areas: seq![],
            prefix_armed: false,
            sidebar_visible: true,
            sidebar_width: 0,
            sidebar_width_override: None,
            content_area: Rect { x: 0, y: 0, width: 0, height: 0 },
            hits: seq![],
            tab_scroll: Map::empty(),
            hover: None,
            menu: None,
            prompt: None,
            toast: None,
            shake_frames: 0,
            selection: None,
            status_message: None,
            cell_pixels,
            pointer_shape: false,
            drag: None,
            quit: false,
            outbox: seq![],
        }
    }

    pub open spec fn doing(self, effects: Seq<UiEffectV>) -> AppV {
        AppV { outbox: self.outbox + effects, ..self }
    }

    pub open spec fn asking(self, request: Request) -> AppV {
        self.doing(seq![UiEffectV::Ask(request)])
    }

    pub open spec fn asking_or_quitting(self, request: Request) -> AppV {
        self.doing(seq![UiEffectV::AskOrQuit(request)])
    }

    /// The area of a pane.
    pub open spec fn area_of(self, pane: PaneId) -> Option<PaneArea> {
        match search::first_where(self.pane_areas, |area: PaneArea| area.pane == pane) {
            Some(i) => Some(self.pane_areas[i]),
            None => None,
        }
    }

    /// The area whose box has a cell.
    pub open spec fn area_at(self, x: u16, y: u16) -> Option<PaneArea> {
        match search::first_where(
            self.pane_areas,
            |area: PaneArea| area.rect.has(x as int, y as int),
        ) {
            Some(i) => Some(self.pane_areas[i]),
            None => None,
        }
    }

    /// What is clickable at a cell.
    pub open spec fn hit_at(self, x: u16, y: u16) -> Option<Hit> {
        match search::first_where(self.hits, |hit: (Rect, Hit)| hit.0.has(x as int, y as int)) {
            Some(i) => Some(self.hits[i].1),
            None => None,
        }
    }

    /// Splitting a pane, which is drawn somewhere or not.
    pub open spec fn split_of(self, pane: PaneId, dir: SplitDir) -> UiEffectV {
        UiEffectV::Split {
            pane,
            dir,
            rect: match self.area_of(pane) {
                Some(area) => Some(area.rect),
                None => None,
            },
        }
    }

    /// A key for the active surface.
    pub open spec fn key_forwarded(self, key: KeyEvent, kind: Option<SurfaceKind>) -> AppV {
        match (self.tree.the_active_surface(), kind) {
            (Some(surface), Some(SurfaceKind::Browser)) => self.doing(
                browser_key_effects(surface, key),
            ),
            (Some(surface), Some(SurfaceKind::Pty)) => self.doing(
                seq![UiEffectV::TypeKey { surface, key }],
            ),
            _ => self,
        }
    }

    pub open spec fn tab_prompted(self, pane: Option<PaneId>) -> AppV {
        match pane {
            Some(pane) => match self.tree.tab_in(pane) {
                Some(tab) => AppV {
                    prompt: Some(
                        new_prompt(
                            "Rename tab"@,
                            or_empty(tab.name),
                            PromptTarget::Surface(tab.surface),
                        ),
                    ),
                    ..self
                },
                None => self,
            },
            None => self,
        }
    }

    pub open spec fn workspace_prompted(self) -> AppV {
        match self.tree.the_workspace() {
            Some(ws) => AppV {
                prompt: Some(
                    new_prompt("Rename workspace"@, ws.name@, PromptTarget::Workspace(ws.id)),
                ),
                ..self
            },
            None => self,
        }
    }

    pub open spec fn screen_prompted(self) -> AppV {
        match self.tree.the_screen() {
            Some(screen) => AppV {
                prompt: Some(
                    new_prompt(
                        "Rename screen"@,
                        or_empty(screen.name),
                        PromptTarget::Screen(screen.id),
                    ),
                ),
                ..self
            },
            None => self,
        }
    }

    pub open spec fn browser_prompted(self, pane: Option<PaneId>) -> AppV {
        AppV {
            prompt: Some(
                new_prompt("New browser tab"@, "https://"@, PromptTarget::BrowserTab { pane }),
            ),
            ..self
        }
    }

    /// The size that a fresh pane in the content area would have.
    pub open spec fn full_size(self) -> Option<(u16, u16)> {
        ui::content_size(self.content_area, self.config.scrollbar)
    }

    pub open spec fn moving_focus(self, dx: i8, dy: i8) -> Seq<UiEffectV> {
        match self.tree.the_active_pane() {
            Some(from) => seq![UiEffectV::MoveFocus { from, dx, dy }],
            None => seq![],
        }
    }

    pub open spec fn scrolling(self, delta: i64, kind: Option<SurfaceKind>) -> Seq<UiEffectV> {
        match (self.tree.the_active_surface(), kind) {
            (Some(surface), Some(SurfaceKind::Pty)) => seq![
                UiEffectV::Scroll { surface, delta: delta as int },
            ],
            _ => seq![],
        }
    }

    /// The work that an action asks for.
    #[verifier::opaque]
    pub open spec fn planned(self, action: Action, kind: Option<SurfaceKind>) -> Seq<UiEffectV> {
        let pane = self.tree.the_active_pane();
        match action {
            Action::NewTab => seq![
                UiEffectV::AskOrQuit(Request::NewTab { pane, size: None }),
            ],
            Action::NewPaneSmart => match ui::smart_target(self.pane_areas, pane, self.cell_pixels) {
                Some((target, dir)) => seq![self.split_of(target, dir)],
                None => seq![],
            },
            Action::NextTab => seq![
                UiEffectV::Ask(
                    Request::SelectTab { pane, index: None, delta: Some(1) },
                ),
            ],
            Action::PrevTab => seq![
                UiEffectV::Ask(
                    Request::SelectTab { pane, index: None, delta: Some((-1) as isize) },
                ),
            ],
            Action::SplitRight => match pane {
                Some(pane) => seq![self.split_of(pane, SplitDir::Right)],
                None => seq![],
            },
            Action::SplitDown => match pane {
                Some(pane) => seq![self.split_of(pane, SplitDir::Down)],
                None => seq![],
            },
            Action::CloseTab => closing(self.tree.the_active_surface()),
            Action::ClosePane => match pane {
                Some(pane) => seq![UiEffectV::Ask(Request::ClosePane { pane })],
                None => seq![],
            },
            Action::CloseScreen => match self.tree.the_screen() {
                Some(screen) => seq![
                    UiEffectV::Ask(Request::CloseScreen { screen: screen.id }),
                ],
                None => seq![],
            },
            Action::PrevScreen => seq![
                UiEffectV::Ask(
                    Request::SelectScreen { index: None, delta: Some((-1) as isize) },
                ),
            ],
            Action::NextScreen => seq![
                UiEffectV::Ask(Request::SelectScreen { index: None, delta: Some(1) }),
            ],
            Action::NewScreen => seq![
                UiEffectV::AskOrQuit(Request::NewScreen { size: self.full_size() }),
            ],
            Action::NextWorkspace => seq![
                UiEffectV::Ask(Request::SelectWorkspace { index: None, delta: Some(1) }),
            ],
            Action::NewWorkspace => seq![
                UiEffectV::AskOrQuit(Request::NewWorkspace { size: self.full_size() }),
            ],
            Action::FocusLeft => self.moving_focus((-1) as i8, 0),
            Action::FocusRight => self.moving_focus(1, 0),
            Action::FocusUp => self.moving_focus(0, (-1) as i8),
            Action::FocusDown => self.moving_focus(0, 1),
            Action::ResizeGrow => seq![UiEffectV::ResizeFocused { grow: true }],
            Action::ResizeShrink => seq![UiEffectV::ResizeFocused { grow: false }],
            Action::ScrollUp => self.scrolling((-10) as i64, kind),
            Action::ScrollDown => self.scrolling(10, kind),
            _ => seq![],
        }
    }

    /// A bound action is carried out; all but `Detach` leave the frontend
    /// running.
    #[verifier::opaque]
    pub open spec fn acted(self, action: Action, kind: Option<SurfaceKind>) -> (AppV, bool) {
        let pane = self.tree.the_active_pane();
        let next = match action {
            Action::NewBrowserTab => self.browser_prompted(pane),
            Action::RenameTab => self.tab_prompted(pane),
            Action::RenameScreen => self.screen_prompted(),
            Action::RenameWorkspace => self.workspace_prompted(),
            Action::ToggleSidebar => AppV { sidebar_visible: !self.sidebar_visible, ..self },
            _ => self.doing(self.planned(action, kind)),
        };
        if action == Action::Detach {
            (AppV { quit: true, ..self }, false)
        } else {
            (AppV { status_message: None, ..next }, true)
        }
    }
}

/// Closing a tab, and dropping what was drawn of it.
pub open spec fn closing(surface: Option<SurfaceId>) -> Seq<UiEffectV> {
    match surface {
        Some(surface) => seq![
            UiEffectV::ForgetRender(surface),
            UiEffectV::Ask(Request::CloseSurface { surface }),
        ],
        None => seq![],
    }
}

/// The value of a list of effects.
pub open spec fn effect_values(effects: Seq<UiEffect>) -> Seq<UiEffectV> {
    effects.map_values(|effect: UiEffect| effect@)
}

impl App {
    pub open spec fn wf(&self) -> bool {
        self@.wf()
    }

    /// A frontend before its first frame.
    pub fn new(config: UiConfig, cell_pixels: (u16, u16)) -> (app: App)
        ensures
            app.wf(),
            app@ == AppV::started(config, cell_pixels, app.tree),
            app.tree.workspaces@.len() == 0,
    {
        broadcast use vstd::std_specs::hash::group_hash_axioms;

        let app = App {
            config,
            tree: TreeView { workspaces: Vec::new(), active_workspace: 0 },
            pane_areas: Vec::new(),
            prefix_armed: false,
            sidebar_visible: true,
            sidebar_width: 0,
            sidebar_width_override: None,
            content_area: Rect { x: 0, y: 0, width: 0, height: 0 },
            hits: Vec::new(),
            tab_scroll: HashMap::new(),
            hover: None,
            menu: None,
            prompt: None,
            toast: None,
            shake_frames: 0,
            selection: None,
            status_message: None,
            cell_pixels,
            pointer_shape: false,
            drag: None,
            quit: false,
            outbox: Vec::new(),
        };
        assert(app@.pane_areas =~= seq![] && app@.hits =~= seq![] && app@.outbox =~= seq![]);
        app
    }

    pub(crate) fn request(&mut self, effect: UiEffect)
        ensures
            final(self)@ == old(self)@.doing(seq![effect@]),
    {
        self.outbox.push(effect);
        assert(self@.outbox =~= old(self)@.outbox + seq![effect@]);
    }

    pub(crate) fn ask(&mut self, request: Request)
        ensures
            final(self)@ == old(self)@.asking(request),
    {
        self.request(UiEffect::Ask(request));
    }

    pub(crate) fn ask_or_quit(&mut self, request: Request)
        ensures
            final(self)@ == old(self)@.asking_or_quitting(request),
    {
        self.request(UiEffect::AskOrQuit(request));
    }

    /// Hands out the work that has come together.
    pub fn take_effects(&mut self) -> (effects: Vec<UiEffect>)
        ensures
            effects@.map_values(|effect: UiEffect| effect@) == old(self)@.outbox,
            final(self)@ == (AppV { outbox: seq![], ..old(self)@ }),
    {
        let mut effects: Vec<UiEffect> = Vec::new();
        core::mem::swap(&mut effects, &mut self.outbox);
        assert(self@.outbox =~= seq![]);
        effects
    }

    /// The area whose box has a cell.
    pub fn pane_area_at(&self, x: u16, y: u16) -> (area: Option<PaneArea>)
        ensures
            area == self@.area_at(x, y),
    {
        let ghost p = |area: PaneArea| area.rect.has(x as int, y as int);
        let mut i: usize = 0;
        while i < self.pane_areas.len()
            invariant
                i <= self.pane_areas.len(),
                p == (|area: PaneArea| area.rect.has(x as int, y as int)),
                forall|j: int| 0 <= j < i ==> !p(#[trigger] self.pane_areas@[j]),
            decreases self.pane_areas.len() - i,
        {
            if self.pane_areas[i].rect.contains(x, y) {
                proof {
                    search::lemma_first_at(self.pane_areas@, p, i as int);
                }
                return Some(self.pane_areas[i]);
            }
            i = i + 1;
        }
        proof {
            search::lemma_first_none(self.pane_areas@, p);
        }
        None
    }

    /// What is clickable at a cell.
    pub fn hit_at(&self, x: u16, y: u16) -> (hit: Option<Hit>)
        ensures
            hit == self@.hit_at(x, y),
    {
        let ghost p = |hit: (Rect, Hit)| hit.0.has(x as int, y as int);
        let mut i: usize = 0;
        while i < self.hits.len()
            invariant
                i <= self.hits.len(),
                p == (|hit: (Rect, Hit)| hit.0.has(x as int, y as int)),
                forall|j: int| 0 <= j < i ==> !p(#[trigger] self.hits@[j]),
            decreases self.hits.len() - i,
        {
            if self.hits[i].0.contains(x, y) {
                proof {
                    search::lemma_first_at(self.hits@, p, i as int);
                }
                return Some(self.hits[i].1);
            }
            i = i + 1;
        }
        proof {
            search::lemma_first_none(self.hits@, p);
        }
        None
    }

    /// Size that a pane filling the content area has.
    pub(crate) fn full_size(&self) -> (size: Option<(u16, u16)>)
        ensures
            size == self@.full_size(),
    {
        content_size_for_rect(self.content_area, self.config.scrollbar)
    }

    pub(crate) fn split_of(&self, pane: PaneId, dir: SplitDir) -> (effect: UiEffect)
        ensures
            effect@ == self@.split_of(pane, dir),
    {
        let rect = match find_area(self.pane_areas.as_slice(), pane) {
            Some(i) => Some(self.pane_areas[i].rect),
            None => None,
        };
        UiEffect::Split { pane, dir, rect }
    }

    fn new_pane_smart(&self) -> (effects: Vec<UiEffect>)
        ensures
            effect_values(effects@) == match ui::smart_target(
                self@.pane_areas,
                self@.tree.the_active_pane(),
                self@.cell_pixels,
            ) {
                Some((target, dir)) => seq![self@.split_of(target, dir)],
                None => seq![],
            },
    {
        match smart_split_target(
            self.pane_areas.as_slice(),
            self.tree.active_pane(),
            self.cell_pixels,
        ) {
            Some((pane, dir)) => one(self.split_of(pane, dir)),
            None => nothing(),
        }
    }

    pub(crate) fn request_all(&mut self, effects: Vec<UiEffect>)
        ensures
            final(self)@ == old(self)@.doing(effect_values(effects@)),
    {
        let mut rest = effects;
        self.outbox.append(&mut rest);
        assert(self@.outbox =~= old(self)@.outbox + effect_values(effects@));
    }

    pub(crate) fn forward_key(&mut self, key: &KeyEvent, kind: Option<SurfaceKind>)
        ensures
            final(self)@ == old(self)@.key_forwarded(*key, kind),
            old(self).wf() ==> final(self).wf(),
    {
        if let Some(surface) = self.tree.active_surface() {
            match kind {
                Some(SurfaceKind::Browser) => self.forward_browser_key(surface, key),
                Some(SurfaceKind::Pty) => self.request(
                    UiEffect::TypeKey { surface, key: *key },
                ),
                None => {},
            }
        }
    }

    fn forward_browser_key(&mut self, surface: SurfaceId, key: &KeyEvent)
        ensures
            final(self)@ == old(self)@.doing(browser_key_effects(surface, *key)),
    {
        if let KeyCode::Char(c) = key.code {
            if !key.modifiers.control && !key.modifiers.alt && !key.modifiers.super_key {
                self.request(UiEffect::BrowserChar { surface, c });
                return ;
            }
        }
        if let Some(named) = browser_key_mapping(key.code) {
            let modifiers: u32 = browser_modifiers(key.modifiers);
            self.request(UiEffect::BrowserKey { surface, down: true, key: named, modifiers });
            if key.kind == KeyKind::Press {
                let up = input::BrowserKey { text: None, ..named };
                self.request(UiEffect::BrowserKey { surface, down: false, key: up, modifiers });
            }
        }
        assert(self@.outbox =~= old(self)@.outbox + browser_key_effects(surface, *key));
    }

    pub(crate) fn open_rename_tab_prompt(&mut self, pane: Option<PaneId>)
        ensures
            final(self)@ == old(self)@.tab_prompted(pane),
    {
        if let Some(pane) = pane {
            if let Some(tab) = self.tree.tab(pane) {
                let input = text_or_empty(&tab.name);
                self.prompt = Some(
                    Prompt::new("Rename tab", input, PromptTarget::Surface(tab.surface)),
                );
            }
        }
    }

    fn open_rename_workspace_prompt(&mut self)
        ensures
            final(self)@ == old(self)@.workspace_prompted(),
    {
        if let Some(ws) = self.tree.active_workspace() {
            let input = ws.name.clone();
            self.prompt = Some(
                Prompt::new("Rename workspace", input, PromptTarget::Workspace(ws.id)),
            );
        }
    }

    fn open_rename_screen_prompt(&mut self)
        ensures
            final(self)@ == old(self)@.screen_prompted(),
    {
        if let Some(screen) = self.tree.active_screen() {
            let input = text_or_empty(&screen.name);
            self.prompt = Some(
                Prompt::new("Rename screen", input, PromptTarget::Screen(screen.id)),
            );
        }
    }

    pub(crate) fn open_browser_tab_prompt(&mut self, pane: Option<PaneId>)
        ensures
            final(self)@ == old(self)@.browser_prompted(pane),
    {
        self.prompt = Some(
            Prompt::new(
                "New browser tab",
                "https://".to_owned(),
                PromptTarget::BrowserTab { pane },
            ),
        );
    }

    fn move_focus(&self, dx: i8, dy: i8) -> (effects: Vec<UiEffect>)
        ensures
            effect_values(effects@) == self@.moving_focus(dx, dy),
    {
        match self.tree.active_pane() {
            Some(from) => one(UiEffect::MoveFocus { from, dx, dy }),
            None => nothing(),
        }
    }

    fn scroll_active(&self, delta: i64, kind: Option<SurfaceKind>) -> (effects: Vec<UiEffect>)
        ensures
            effect_values(effects@) == self@.scrolling(delta, kind),
    {
        match (self.tree.active_surface(), kind) {
            (Some(surface), Some(SurfaceKind::Pty)) => one(UiEffect::Scroll { surface, delta }),
            _ => nothing(),
        }
    }

    /// The work that an action asks for.
    fn action_effects(&self, action: Action, kind: Option<SurfaceKind>) -> (effects: Vec<UiEffect>)
        ensures
            effect_values(effects@) == self@.planned(action, kind),
    {
        reveal(AppV::planned);
        let pane = self.tree.active_pane();
        match action {
            Action::NewTab => one(UiEffect::AskOrQuit(Request::NewTab { pane, size: None })),
            Action::NewPaneSmart => self.new_pane_smart(),
            Action::NextTab => ask(Request::SelectTab { pane, index: None, delta: Some(1) }),
            Action::PrevTab => ask(Request::SelectTab { pane, index: None, delta: Some(-1) }),
            Action::SplitRight => match pane {
                Some(pane) => one(self.split_of(pane, SplitDir::Right)),
                None => nothing(),
            },
            Action::SplitDown => match pane {
                Some(pane) => one(self.split_of(pane, SplitDir::Down)),
                None => nothing(),
            },
            Action::CloseTab => close_tab(self.tree.active_surface()),
            Action::ClosePane => match pane {
                Some(pane) => ask(Request::ClosePane { pane }),
                None => nothing(),
            },
            Action::CloseScreen => match self.tree.active_screen() {
                Some(screen) => ask(Request::CloseScreen { screen: screen.id }),
                None => nothing(),
            },
            Action::PrevScreen => ask(Request::SelectScreen { index: None, delta: Some(-1) }),
            Action::NextScreen => ask(Request::SelectScreen { index: None, delta: Some(1) }),
            Action::NewScreen => one(
                UiEffect::AskOrQuit(Request::NewScreen { size: self.full_size() }),
            ),
            Action::NextWorkspace => ask(Request::SelectWorkspace { index: None, delta: Some(1) }),
            Action::NewWorkspace => one(
                UiEffect::AskOrQuit(Request::NewWorkspace { size: self.full_size() }),
            ),
            Action::FocusLeft => self.move_focus(-1, 0),
            Action::FocusRight => self.move_focus(1, 0),
            Action::FocusUp => self.move_focus(0, -1),
            Action::FocusDown => self.move_focus(0, 1),
            Action::ResizeGrow => one(UiEffect::ResizeFocused { grow: true }),
            Action::ResizeShrink => one(UiEffect::ResizeFocused { grow: false }),
            Action::ScrollUp => self.scroll_active(-10, kind),
            Action::ScrollDown => self.scroll_active(10, kind),
            _ => nothing(),
        }
    }

    /// Carries out a bound action. Says whether to draw.
    pub fn run_action(&mut self, action: Action, kind: Option<SurfaceKind>) -> (needs_draw: bool)
        requires
            old(self).wf(),
        ensures
            final(self).wf(),
            final(self)@ == old(self)@.acted(action, kind).0,
            needs_draw == old(self)@.acted(action, kind).1,
    {
        reveal(AppV::acted);
        let pane = self.tree.active_pane();
        match action {
            Action::NewBrowserTab => self.open_browser_tab_prompt(pane),
            Action::RenameTab => self.open_rename_tab_prompt(pane),
            Action::RenameScreen => self.open_rename_screen_prompt(),
            Action::RenameWorkspace => self.open_rename_workspace_prompt(),
            Action::ToggleSidebar => {
                self.sidebar_visible = !self.sidebar_visible;
            },
            Action::Detach => {
                self.quit = true;
                return false;
            },
            _ => {
                let effects = self.action_effects(action, kind);
                self.request_all(effects);
            },
        }
        self.status_message = None;
        true
    }
}

pub(crate) fn nothing() -> (effects: Vec<UiEffect>)
    ensures
        effect_values(effects@) == Seq::<UiEffectV>::empty(),
{
    let effects: Vec<UiEffect> = Vec::new();
    assert(effect_values(effects@) =~= Seq::<UiEffectV>::empty());
    effects
}

pub(crate) fn one(effect: UiEffect) -> (effects: Vec<UiEffect>)
    ensures
        effect_values(effects@) == seq![effect@],
{
    let mut effects: Vec<UiEffect> = Vec::new();
    effects.push(effect);
    assert(effect_values(effects@) =~= seq![effect@]);
    effects
}

pub(crate) fn ask(request: Request) -> (effects: Vec<UiEffect>)
    ensures
        effect_values(effects@) == seq![UiEffectV::Ask(request)],
{
    one(UiEffect::Ask(request))
}

pub(crate) fn close_tab(surface: Option<SurfaceId>) -> (effects: Vec<UiEffect>)
    ensures
        effect_values(effects@) == closing(surface),
{
    match surface {
        Some(surface) => {
            let mut effects: Vec<UiEffect> = Vec::new();
            effects.push(UiEffect::ForgetRender(surface));
            effects.push(UiEffect::Ask(Request::CloseSurface { surface }));
            assert(effect_values(effects@) =~= closing(Some(surface)));
            effects
        },
        None => nothing(),
    }
}

pub(crate) fn text_or_empty(text: &Option<String>) -> (copy: String)
    ensures
        copy@ == or_empty(*text),
{
    match text {
        Some(text) => text.clone(),
        None => {
            let empty = String::new();
            assert(empty@ =~= seq![]);
            empty
        },
    }
}

} // verus!
