//! The mouse.

use vstd::prelude::*;

use crate::app::{App, AppV};
use crate::app_drop;
use crate::app_drop::bar_has;
use crate::frontend::{MouseEvent, MouseFacts, MouseKind, MousePhase, UiEffect, UiEffectV};
use crate::geometry::Rect;
use crate::node::{PaneId, SurfaceId, WorkspaceId};
use crate::scrollbar;
use crate::scrollbar::drag_scroll;
use crate::session::Request;
use crate::surface::SurfaceKind;
use crate::ui;
use crate::ui::{
    sidebar_drag_width, ContextMenuV, Drag, Hit, PaneArea, PaneEdge, Selection, TabDragView,
};

verus! {

/// The closest coordinate to `n` in a span of `len` cells from `start` on.
pub open spec fn within(n: u16, start: u16, len: u16) -> u16 {
    if n < start {
        start
    } else if n > start + ui::minus(len as int, 1) {
        (start + ui::minus(len as int, 1)) as u16
    } else {
        n
    }
}

fn clamp_within(n: u16, start: u16, len: u16) -> (at: u16)
    requires
        start + len <= u16::MAX,
    ensures
        at == within(n, start, len),
{
    let last: u16 = start + len.saturating_sub(1);
    if n < start {
        start
    } else if n > last {
        last
    } else {
        n
    }
}

/// The middle of a cell of the content, in half pixels.
pub open spec fn half_pixels(n: u16, start: u16, cell: u16) -> int {
    (2 * ui::minus(n as int, start as int) + 1) * cell
}

fn cell_middle(n: u16, start: u16, cell: u16) -> (at: u64)
    ensures
        at == half_pixels(n, start, cell),
{
    let cells: u64 = 2 * (n.saturating_sub(start) as u64) + 1;
    let cell: u64 = cell as u64;
    assert(cells * cell <= 0x1_ffff * 0xffff) by (nonlinear_arith)
        requires
            cells <= 0x1_ffff,
            cell <= 0xffff,
    ;
    cells * cell
}

/// What a pointer over it highlights.
pub open spec fn hoverable(hit: Option<Hit>) -> Option<Hit> {
    match hit {
        Some(Hit::NewTab { .. }) => hit,
        Some(Hit::TabScroll { .. }) => hit,
        Some(Hit::Scrollbar { .. }) => hit,
        _ => None,
    }
}

/// Whether the same thing is highlighted.
fn same_highlight(a: Option<Hit>, b: Option<Hit>) -> (same: bool)
    ensures
        same == (hoverable(a) == hoverable(b)),
{
    match (a, b) {
        (Some(Hit::NewTab { pane: p }), Some(Hit::NewTab { pane: q })) => p == q,
        (
            Some(Hit::TabScroll { pane: p, delta: d }),
            Some(Hit::TabScroll { pane: q, delta: e }),
        ) => p == q && d == e,
        (
            Some(Hit::Scrollbar { surface: s, track: t }),
            Some(Hit::Scrollbar { surface: u, track: v }),
        ) => s == u && t == v,
        (Some(Hit::NewTab { .. } | Hit::TabScroll { .. } | Hit::Scrollbar { .. }), _) => false,
        (_, Some(Hit::NewTab { .. } | Hit::TabScroll { .. } | Hit::Scrollbar { .. })) => false,
        _ => true,
    }
}

/// Which way a drag in row `y` scrolls the text that it selects.
pub open spec fn edge_scroll(content: Rect, y: u16) -> Option<i8> {
    if y <= content.y {
        Some((-1) as i8)
    } else if y >= content.y + ui::minus(content.height as int, 1) {
        Some(1)
    } else {
        None
    }
}

/// Moving a split's edge to a cell.
pub open spec fn edge_move(edge: Option<(PaneId, PaneEdge)>, x: u16, y: u16) -> Seq<UiEffectV> {
    match edge {
        Some((pane, edge)) => seq![UiEffectV::ResizeSplit { pane, edge, x, y }],
        None => seq![],
    }
}

impl AppV {
    /// A pane's tab bar scrolls by some tabs.
    pub open spec fn tabs_scrolled(self, pane: PaneId, delta: isize) -> AppV {
        let at = if self.tab_scroll.dom().contains(pane) {
            self.tab_scroll[pane] as int
        } else {
            0
        };
        let next = if at + delta < 0 {
            0
        } else if at + delta > usize::MAX {
            usize::MAX as int
        } else {
            at + delta
        };
        AppV { tab_scroll: self.tab_scroll.insert(pane, next as usize), ..self }
    }

    /// The mouse is used in a page.
    pub open spec fn page_mouse(
        self,
        surface: SurfaceId,
        content: Rect,
        x: u16,
        y: u16,
        phase: MousePhase,
    ) -> AppV {
        self.doing(
            seq![
                UiEffectV::BrowserMouse {
                    surface,
                    phase,
                    half_x: half_pixels(x, content.x, self.cell_pixels.0),
                    half_y: half_pixels(y, content.y, self.cell_pixels.1),
                },
            ],
        )
    }

    /// A click while a menu is open activates an entry or dismisses the
    /// menu; one on its border does nothing.
    pub open spec fn menu_pressed(self, menu: ContextMenuV, x: u16, y: u16, now: u64) -> AppV {
        let closed = AppV { menu: None, ..self };
        match menu.item_at(x, y) {
            Some(row) => closed.activated(menu.items[row], now),
            None => if menu.rect.has(x as int, y as int) {
                self
            } else {
                closed
            },
        }
    }

    /// The surface of a tab.
    pub open spec fn surface_at(self, pane: PaneId, index: usize) -> Option<SurfaceId> {
        match self.tree.the_pane(pane) {
            Some(view) if index < view.tabs@.len() => Some(view.tabs@[index as int].surface),
            _ => None,
        }
    }

    /// A press on a clickable region.
    #[verifier::opaque]
    pub open spec fn hit_pressed(self, hit: Hit, x: u16, y: u16) -> AppV {
        match hit {
            Hit::Workspace { id, .. } => AppV {
                drag: Some(Drag::WorkspaceArm { workspace: id, at: (x, y) }),
                ..self
            },
            Hit::NewWorkspace => self.asking_or_quitting(
                Request::NewWorkspace { size: self.full_size() },
            ),
            Hit::ScreenEntry { index, .. } => self.asking(
                Request::SelectScreen { index: Some(index), delta: None },
            ),
            Hit::NewScreen => self.asking_or_quitting(
                Request::NewScreen { size: self.full_size() },
            ),
            Hit::Tab { pane, index } => match self.surface_at(pane, index) {
                Some(surface) => AppV {
                    drag: Some(Drag::TabArm { surface, at: (x, y) }),
                    ..self
                },
                None => self,
            },
            Hit::NewTab { pane } => self.asking(Request::FocusPane { pane }).asking_or_quitting(
                Request::NewTab { pane: Some(pane), size: None },
            ),
            Hit::Scrollbar { surface, track } => self.doing(
                seq![UiEffectV::StartScroll { surface, track, y }],
            ),
            Hit::SidebarResize => AppV { drag: Some(Drag::SidebarResize), ..self },
            Hit::PaneResize { horizontal, vertical } => AppV {
                drag: Some(Drag::ResizeSplit { horizontal, vertical }),
                ..self
            },
            Hit::TabScroll { pane, delta } => self.tabs_scrolled(pane, delta),
        }
    }

    /// A press in a pane focuses it; in its content it begins a selection,
    /// or goes to the page.
    #[verifier::opaque]
    pub open spec fn area_pressed(
        self,
        area: PaneArea,
        x: u16,
        y: u16,
        facts: MouseFacts,
    ) -> AppV {
        let focused = self.asking(Request::FocusPane { pane: area.pane });
        let content = area.content;
        if !content.has(x as int, y as int) {
            focused
        } else if facts.kind == SurfaceKind::Browser {
            AppV {
                drag: Some(Drag::Browser { surface: area.surface, content }),
                ..focused.page_mouse(area.surface, content, x, y, MousePhase::Pressed)
            }
        } else {
            let col = (x - content.x) as u16;
            let cell = (col, (facts.offset + (y - content.y)) as u64);
            AppV {
                selection: Some(Selection { surface: area.surface, anchor: cell, head: cell }),
                drag: Some(Drag::Select { content, auto_scroll: None, col }),
                ..focused
            }
        }
    }

    /// The left button goes down.
    #[verifier::opaque]
    pub open spec fn left_pressed(self, x: u16, y: u16, facts: MouseFacts) -> (AppV, bool) {
        let fresh = AppV { selection: None, drag: None, ..self };
        if self.prompt is Some {
            fresh.prompt_clicked(x, y)
        } else if self.menu is Some {
            (fresh.menu_pressed(self.menu->0, x, y, facts.now), true)
        } else if self.hit_at(x, y) is Some {
            (fresh.hit_pressed(self.hit_at(x, y)->0, x, y), true)
        } else if self.area_at(x, y) is Some {
            (fresh.area_pressed(self.area_at(x, y)->0, x, y, facts), true)
        } else {
            (fresh, false)
        }
    }

    /// The target of a tab that is dragged over a cell.
    pub open spec fn tab_target(self, x: u16, y: u16) -> Option<(PaneId, usize)> {
        match self.tab_drop(x, y) {
            Some((pane, place)) => Some((pane, place as usize)),
            None => None,
        }
    }

    /// The target of a workspace that is dragged over a cell.
    pub open spec fn workspace_target(self, x: u16, y: u16) -> Option<usize> {
        match self.workspace_drop(x, y) {
            Some(place) => Some(place as usize),
            None => None,
        }
    }

    /// A selection is dragged to a cell.
    pub open spec fn selecting(self, content: Rect, x: u16, y: u16, offset: u64) -> AppV {
        let col = (within(x, content.x, content.width) - content.x) as u16;
        let row = within(y, content.y, content.height) - content.y;
        AppV {
            selection: match self.selection {
                Some(selection) => Some(
                    Selection { head: (col, (offset + row) as u64), ..selection },
                ),
                None => None,
            },
            drag: Some(Drag::Select { content, auto_scroll: edge_scroll(content, y), col }),
            ..self
        }
    }

    /// A scrollbar's thumb is dragged to a row.
    pub open spec fn thumb_dragged(
        self,
        surface: SurfaceId,
        track: Rect,
        anchor_y: u16,
        anchor_offset: u64,
        y: u16,
        facts: MouseFacts,
    ) -> AppV {
        match facts.bar {
            Some(bar) => {
                let delta = scrollbar::drag_offset(bar, track, anchor_y, anchor_offset, y)
                    - bar.offset;
                if delta == 0 {
                    self
                } else {
                    self.doing(seq![UiEffectV::Scroll { surface, delta }])
                }
            },
            None => self,
        }
    }

    /// The mouse moves with the left button down.
    #[verifier::opaque]
    pub open spec fn left_dragged(self, x: u16, y: u16, facts: MouseFacts) -> (AppV, bool) {
        match self.drag {
            Some(Drag::TabArm { surface, at }) => if (x, y) == at {
                (self, true)
            } else {
                (
                    AppV {
                        drag: Some(Drag::Tab { surface, target: self.tab_target(x, y) }),
                        ..self
                    },
                    true,
                )
            },
            Some(Drag::Tab { surface, .. }) => (
                AppV {
                    drag: Some(Drag::Tab { surface, target: self.tab_target(x, y) }),
                    ..self
                },
                true,
            ),
            Some(Drag::WorkspaceArm { workspace, at }) => if (x, y) == at {
                (self, true)
            } else {
                (
                    AppV {
                        drag: Some(
                            Drag::Workspace { workspace, target: self.workspace_target(x, y) },
                        ),
                        ..self
                    },
                    true,
                )
            },
            Some(Drag::Workspace { workspace, .. }) => (
                AppV {
                    drag: Some(
                        Drag::Workspace { workspace, target: self.workspace_target(x, y) },
                    ),
                    ..self
                },
                true,
            ),
            Some(Drag::Select { content, .. }) => (
                self.selecting(content, x, y, facts.selection_offset),
                true,
            ),
            Some(Drag::Browser { surface, content }) => (
                self.page_mouse(
                    surface,
                    content,
                    within(x, content.x, content.width),
                    within(y, content.y, content.height),
                    MousePhase::Moved,
                ),
                true,
            ),
            Some(Drag::Scrollbar { surface, track, anchor_y, anchor_offset }) => (
                self.thumb_dragged(surface, track, anchor_y, anchor_offset, y, facts),
                true,
            ),
            Some(Drag::SidebarResize) => (
                AppV {
                    sidebar_width_override: match ui::sidebar_fit(
                        self.config,
                        ui::plus(self.content_area.width, self.sidebar_width),
                        ui::plus(x, 1),
                    ) {
                        Some(width) => Some(width),
                        None => self.sidebar_width_override,
                    },
                    ..self
                },
                true,
            ),
            Some(Drag::ResizeSplit { horizontal, vertical }) => (
                self.doing(edge_move(horizontal, x, y)).doing(edge_move(vertical, x, y)),
                true,
            ),
            None => (self, false),
        }
    }

    /// The left button goes up: what was dragged is dropped, and a press
    /// without a drag selects.
    #[verifier::opaque]
    pub open spec fn left_released(self, x: u16, y: u16) -> (AppV, bool) {
        let done = AppV { drag: None, ..self };
        match self.drag {
            Some(Drag::TabArm { surface, .. }) => (
                match self.tree.find_tab(surface) {
                    Some((pane, index)) => done.asking(Request::FocusPane { pane }).asking(
                        Request::SelectTab {
                            pane: Some(pane),
                            index: Some(index as usize),
                            delta: None,
                        },
                    ),
                    None => done,
                },
                true,
            ),
            Some(Drag::Tab { surface, .. }) => (
                match self.tab_target(x, y) {
                    Some((pane, index)) => done.asking(
                        Request::MoveTab { surface, pane, index },
                    ),
                    None => done,
                },
                true,
            ),
            Some(Drag::WorkspaceArm { workspace, .. }) => (
                match self.tree.find_workspace(workspace) {
                    Some(index) => done.asking(
                        Request::SelectWorkspace { index: Some(index as usize), delta: None },
                    ),
                    None => done,
                },
                true,
            ),
            Some(Drag::Workspace { workspace, .. }) => (
                match self.workspace_target(x, y) {
                    Some(index) => done.asking(Request::MoveWorkspace { workspace, index }),
                    None => done,
                },
                true,
            ),
            Some(Drag::Browser { surface, content }) => (
                done.page_mouse(
                    surface,
                    content,
                    within(x, content.x, content.width),
                    within(y, content.y, content.height),
                    MousePhase::Released,
                ),
                true,
            ),
            Some(Drag::Select { .. }) => (done.selected_text(), true),
            Some(_) => (done, true),
            None => (done, false),
        }
    }

    /// A selection of more than one cell is copied; a plain click leaves
    /// none.
    pub open spec fn selected_text(self) -> AppV {
        match self.selection {
            Some(selection) if selection.anchor != selection.head => self.doing(
                seq![
                    UiEffectV::CopySelection {
                        surface: selection.surface,
                        start: selection.ends().0,
                        end: selection.ends().1,
                    },
                ],
            ),
            _ => AppV { selection: None, ..self },
        }
    }

    /// The cell is over something clickable.
    pub open spec fn clickable(self, x: u16, y: u16) -> bool {
        let (px, py) = (x as int, y as int);
        match self.prompt {
            Some(prompt) => prompt.ok.has(px, py) || prompt.cancel.has(px, py)
                || prompt.clear.has(px, py) || prompt.input_rect.has(px, py),
            None => match self.menu {
                Some(menu) if menu.rect.has(px, py) => menu.item_at(x, y) is Some,
                _ => self.hit_at(x, y) is Some,
            },
        }
    }

    /// The pointer is a hand over what is clickable.
    pub open spec fn pointed(self, x: u16, y: u16) -> AppV {
        let hand = self.clickable(x, y);
        if hand == self.pointer_shape {
            self
        } else {
            (AppV { pointer_shape: hand, ..self }).doing(seq![UiEffectV::Pointer { hand }])
        }
    }

    /// The menu entry under a cell.
    pub open spec fn entry_at(self, x: u16, y: u16) -> Option<int> {
        match self.menu {
            Some(menu) => menu.item_at(x, y),
            None => None,
        }
    }

    /// What is highlighted at the last position of the mouse.
    pub open spec fn highlight_at(self, at: Option<(u16, u16)>) -> Option<Hit> {
        match at {
            Some((x, y)) => hoverable(self.hit_at(x, y)),
            None => None,
        }
    }

    /// The mouse moves with no button down.
    #[verifier::opaque]
    pub open spec fn hovered(self, x: u16, y: u16) -> (AppV, bool) {
        let next = self.pointed(x, y);
        match self.entry_at(x, y) {
            Some(item) => (next.highlighted(item), item != self.menu->0.selected),
            None => (
                AppV { hover: Some((x, y)), ..next },
                self.highlight_at(self.hover) != self.highlight_at(Some((x, y))),
            ),
        }
    }

    /// The mouse moves with the right button down.
    #[verifier::opaque]
    pub open spec fn right_dragged(self, x: u16, y: u16) -> (AppV, bool) {
        let next = AppV { hover: Some((x, y)), ..self };
        match self.menu {
            None => (next, false),
            Some(menu) => {
                let item = menu.item_at(x, y);
                let held = ContextMenuV {
                    right_drag_moved: menu.right_drag_moved || (x, y) != menu.right_press,
                    selected: match item {
                        Some(item) => item,
                        None => menu.selected,
                    },
                    ..menu
                };
                (AppV { menu: Some(held), ..next }, held.selected != menu.selected)
            },
        }
    }

    /// The right button goes up: on an entry it activates it, unless it is
    /// the click that opened the menu.
    #[verifier::opaque]
    pub open spec fn right_released(self, x: u16, y: u16, now: u64) -> (AppV, bool) {
        match self.menu {
            None => (self, false),
            Some(menu) => {
                let opening = !menu.right_drag_moved && (x, y) == menu.right_press;
                match menu.item_at(x, y) {
                    Some(item) if !opening => (
                        (AppV { menu: None, ..self }).activated(menu.items[item], now),
                        true,
                    ),
                    _ => (self, true),
                }
            },
        }
    }

    /// The wheel turns: over a tab bar it scrolls the tabs, over a page the
    /// page, over a terminal its text. An application on the alternate
    /// screen that does not follow the mouse gets arrow keys.
    #[verifier::opaque]
    pub open spec fn wheeled(self, x: u16, y: u16, down: bool, facts: MouseFacts) -> (AppV, bool) {
        match self.area_at(x, y) {
            None => (self, false),
            Some(area) => {
                let focused = if self.tree.the_active_pane() == Some(area.pane) {
                    self
                } else {
                    self.asking(Request::FocusPane { pane: area.pane })
                };
                if app_drop::on_bar(area, x, y) {
                    (focused.tabs_scrolled(area.pane, wheel_step(down) as isize), true)
                } else if !facts.reachable {
                    (focused, false)
                } else if facts.kind == SurfaceKind::Browser {
                    if area.content.has(x as int, y as int) {
                        (
                            focused.doing(
                                seq![
                                    UiEffectV::BrowserWheel {
                                        surface: area.surface,
                                        half_x: half_pixels(
                                            x,
                                            area.content.x,
                                            self.cell_pixels.0,
                                        ),
                                        half_y: half_pixels(
                                            y,
                                            area.content.y,
                                            self.cell_pixels.1,
                                        ),
                                        delta_y: page_step(self.cell_pixels.1, down),
                                    },
                                ],
                            ),
                            true,
                        )
                    } else {
                        (focused, false)
                    }
                } else if facts.alternate {
                    (
                        focused.doing(seq![UiEffectV::Arrows { surface: area.surface, down }]),
                        true,
                    )
                } else {
                    (
                        focused.doing(
                            seq![
                                UiEffectV::Scroll {
                                    surface: area.surface,
                                    delta: 3 * wheel_step(down),
                                },
                            ],
                        ),
                        true,
                    )
                }
            },
        }
    }

    /// The right button goes down: an open prompt shakes, else a menu opens.
    pub open spec fn right_pressed(self, x: u16, y: u16) -> AppV {
        if self.prompt is Some {
            AppV { shake_frames: crate::app::SHAKE_FRAMES, ..self }
        } else {
            self.menu_opened(x, y)
        }
    }

    /// The mouse does something.
    #[verifier::opaque]
    pub open spec fn moused(self, mouse: MouseEvent, facts: MouseFacts) -> (AppV, bool) {
        let (x, y) = (mouse.column, mouse.row);
        match mouse.kind {
            MouseKind::LeftDown => self.left_pressed(x, y, facts),
            MouseKind::LeftDrag => self.left_dragged(x, y, facts),
            MouseKind::LeftUp => self.left_released(x, y),
            MouseKind::RightDown => (self.right_pressed(x, y), true),
            MouseKind::RightDrag => self.right_dragged(x, y),
            MouseKind::RightUp => self.right_released(x, y, facts.now),
            MouseKind::Moved => self.hovered(x, y),
            MouseKind::ScrollUp => self.wheeled(x, y, false, facts),
            MouseKind::ScrollDown => self.wheeled(x, y, true, facts),
            MouseKind::Other => (self, false),
        }
    }
}

/// One step of the wheel.
pub open spec fn wheel_step(down: bool) -> int {
    if down {
        1
    } else {
        -1
    }
}

/// How far one step of the wheel moves a page, in pixels: three cells.
pub open spec fn page_step(cell: u16, down: bool) -> int {
    if down {
        3 * cell
    } else {
        -(3 * cell)
    }
}

impl App {
    /// Scrolls a pane's tab bar by some tabs.
    pub fn scroll_tabs(&mut self, pane: PaneId, delta: isize)
        ensures
            final(self)@ == old(self)@.tabs_scrolled(pane, delta),
            old(self).wf() ==> final(self).wf(),
    {
        broadcast use vstd::std_specs::hash::group_hash_axioms;

        let at: usize = match self.tab_scroll.get(&pane) {
            Some(at) => *at,
            None => 0,
        };
        let next: usize = if delta >= 0 {
            at.saturating_add(delta as usize)
        } else if delta == isize::MIN {
            at.saturating_sub(isize::MAX as usize).saturating_sub(1)
        } else {
            at.saturating_sub((-delta) as usize)
        };
        self.tab_scroll.insert(pane, next);
    }

    fn send_browser_mouse(
        &mut self,
        surface: SurfaceId,
        content: Rect,
        x: u16,
        y: u16,
        phase: MousePhase,
    )
        ensures
            final(self)@ == old(self)@.page_mouse(surface, content, x, y, phase),
            old(self).wf() ==> final(self).wf(),
    {
        let half_x: u64 = cell_middle(x, content.x, self.cell_pixels.0);
        let half_y: u64 = cell_middle(y, content.y, self.cell_pixels.1);
        self.request(UiEffect::BrowserMouse { surface, phase, half_x, half_y });
    }

    fn press_menu(&mut self, x: u16, y: u16, now: u64)
        requires
            old(self).wf(),
            old(self)@.menu is Some,
        ensures
            final(self).wf(),
            final(self)@ == old(self)@.menu_pressed(old(self)@.menu->0, x, y, now),
    {
        let (row, inside) = match &self.menu {
            Some(menu) => (menu.item_at(x, y), menu.rect.contains(x, y)),
            None => (None, true),
        };
        if let Some(row) = row {
            if let Some(menu) = self.menu.take() {
                self.activate_menu(menu.items[row], now);
            }
        } else if !inside {
            self.menu = None;
        }
    }

    fn tab_surface(&self, pane: PaneId, index: usize) -> (surface: Option<SurfaceId>)
        ensures
            surface == self@.surface_at(pane, index),
    {
        match self.tree.pane(pane) {
            Some(view) => if index < view.tabs.len() {
                Some(view.tabs[index].surface)
            } else {
                None
            },
            None => None,
        }
    }

    fn press_hit(&mut self, hit: Hit, x: u16, y: u16)
        requires
            old(self).wf(),
        ensures
            final(self).wf(),
            final(self)@ == old(self)@.hit_pressed(hit, x, y),
    {
        reveal(AppV::hit_pressed);
        match hit {
            Hit::Workspace { id, .. } => {
                self.drag = Some(Drag::WorkspaceArm { workspace: id, at: (x, y) });
            },
            Hit::NewWorkspace => {
                let size = self.full_size();
                self.ask_or_quit(Request::NewWorkspace { size });
            },
            Hit::ScreenEntry { index, .. } => {
                self.ask(Request::SelectScreen { index: Some(index), delta: None });
            },
            Hit::NewScreen => {
                let size = self.full_size();
                self.ask_or_quit(Request::NewScreen { size });
            },
            Hit::Tab { pane, index } => {
                if let Some(surface) = self.tab_surface(pane, index) {
                    self.drag = Some(Drag::TabArm { surface, at: (x, y) });
                }
            },
            Hit::NewTab { pane } => {
                self.ask(Request::FocusPane { pane });
                self.ask_or_quit(Request::NewTab { pane: Some(pane), size: None });
            },
            Hit::Scrollbar { surface, track } => {
                self.request(UiEffect::StartScroll { surface, track, y });
            },
            Hit::SidebarResize => {
                self.drag = Some(Drag::SidebarResize);
            },
            Hit::PaneResize { horizontal, vertical } => {
                self.drag = Some(Drag::ResizeSplit { horizontal, vertical });
            },
            Hit::TabScroll { pane, delta } => self.scroll_tabs(pane, delta),
        }
    }

    fn press_area(&mut self, area: PaneArea, x: u16, y: u16, facts: &MouseFacts)
        requires
            old(self).wf(),
            area.content.fits(),
            facts.wf(),
        ensures
            final(self).wf(),
            final(self)@ == old(self)@.area_pressed(area, x, y, *facts),
    {
        reveal(AppV::area_pressed);
        let content = area.content;
        self.ask(Request::FocusPane { pane: area.pane });
        if !content.contains(x, y) {
            return ;
        }
        if facts.kind == SurfaceKind::Browser {
            self.send_browser_mouse(area.surface, content, x, y, MousePhase::Pressed);
            self.drag = Some(Drag::Browser { surface: area.surface, content });
        } else {
            let col: u16 = x - content.x;
            let cell: (u16, u64) = (col, facts.offset + (y - content.y) as u64);
            self.selection = Some(
                Selection { surface: area.surface, anchor: cell, head: cell },
            );
            self.drag = Some(Drag::Select { content, auto_scroll: None, col });
        }
    }

    /// The left button goes down.
    pub fn handle_left_down(&mut self, x: u16, y: u16, facts: &MouseFacts) -> (needs_draw: bool)
        requires
            old(self).wf(),
            facts.wf(),
        ensures
            final(self).wf(),
            final(self)@ == old(self)@.left_pressed(x, y, *facts).0,
            needs_draw == old(self)@.left_pressed(x, y, *facts).1,
    {
        reveal(AppV::left_pressed);
        self.selection = None;
        self.drag = None;
        if self.prompt.is_some() {
            return self.handle_prompt_click(x, y);
        }
        if self.menu.is_some() {
            self.press_menu(x, y, facts.now);
            return true;
        }
        if let Some(hit) = self.hit_at(x, y) {
            self.press_hit(hit, x, y);
            return true;
        }
        if let Some(area) = self.pane_area_at(x, y) {
            proof {
                crate::search::lemma_first_where(
                    self.pane_areas@,
                    |area: PaneArea| area.rect.has(x as int, y as int),
                );
            }
            self.press_area(area, x, y, facts);
            return true;
        }
        false
    }

    fn drag_tab(&mut self, surface: SurfaceId, x: u16, y: u16)
        requires
            old(self).wf(),
        ensures
            final(self).wf(),
            final(self)@ == (AppV {
                drag: Some(Drag::Tab { surface, target: old(self)@.tab_target(x, y) }),
                ..old(self)@
            }),
    {
        let target = self.tab_drop_target_at(x, y);
        self.drag = Some(Drag::Tab { surface, target });
    }

    fn drag_workspace(&mut self, workspace: WorkspaceId, x: u16, y: u16)
        requires
            old(self).wf(),
        ensures
            final(self).wf(),
            final(self)@ == (AppV {
                drag: Some(
                    Drag::Workspace { workspace, target: old(self)@.workspace_target(x, y) },
                ),
                ..old(self)@
            }),
    {
        let target = self.workspace_drop_target_at(x, y);
        self.drag = Some(Drag::Workspace { workspace, target });
    }

    fn drag_selection(&mut self, content: Rect, x: u16, y: u16, offset: u64)
        requires
            old(self).wf(),
            content.fits(),
            offset <= u64::MAX - u16::MAX,
        ensures
            final(self).wf(),
            final(self)@ == old(self)@.selecting(content, x, y, offset),
    {
        let col: u16 = clamp_within(x, content.x, content.width) - content.x;
        let row: u16 = clamp_within(y, content.y, content.height) - content.y;
        if let Some(selection) = self.selection {
            self.selection = Some(Selection { head: (col, offset + row as u64), ..selection });
        }
        let auto_scroll: Option<i8> = if y <= content.y {
            Some(-1)
        } else if y >= content.y + content.height.saturating_sub(1) {
            Some(1)
        } else {
            None
        };
        self.drag = Some(Drag::Select { content, auto_scroll, col });
    }

    fn drag_scrollbar(
        &mut self,
        surface: SurfaceId,
        track: Rect,
        anchor_y: u16,
        anchor_offset: u64,
        y: u16,
        facts: &MouseFacts,
    )
        requires
            old(self).wf(),
            facts.wf(),
        ensures
            final(self).wf(),
            final(self)@ == old(self)@.thumb_dragged(
                surface,
                track,
                anchor_y,
                anchor_offset,
                y,
                *facts,
            ),
    {
        if let Some(bar) = &facts.bar {
            let delta: i64 = drag_scroll(bar, track, anchor_y, anchor_offset, y);
            if delta != 0 {
                self.request(UiEffect::Scroll { surface, delta });
            }
        }
    }

    fn drag_sidebar(&mut self, x: u16)
        requires
            old(self).wf(),
        ensures
            final(self).wf(),
            final(self)@ == (AppV {
                sidebar_width_override: match ui::sidebar_fit(
                    old(self)@.config,
                    ui::plus(old(self)@.content_area.width, old(self)@.sidebar_width),
                    ui::plus(x, 1),
                ) {
                    Some(width) => Some(width),
                    None => old(self)@.sidebar_width_override,
                },
                ..old(self)@
            }),
    {
        if let Some(width) = sidebar_drag_width(
            &self.config,
            self.content_area,
            self.sidebar_width,
            x,
        ) {
            self.sidebar_width_override = Some(width);
        }
    }

    fn move_edge(&mut self, edge: Option<(PaneId, PaneEdge)>, x: u16, y: u16)
        ensures
            final(self)@ == old(self)@.doing(edge_move(edge, x, y)),
            old(self).wf() ==> final(self).wf(),
    {
        if let Some((pane, edge)) = edge {
            self.request(UiEffect::ResizeSplit { pane, edge, x, y });
        } else {
            assert(self@.outbox =~= old(self)@.outbox + edge_move(edge, x, y));
        }
    }

    /// The mouse moves with the left button down.
    pub fn handle_left_drag(&mut self, x: u16, y: u16, facts: &MouseFacts) -> (needs_draw: bool)
        requires
            old(self).wf(),
            facts.wf(),
        ensures
            final(self).wf(),
            final(self)@ == old(self)@.left_dragged(x, y, *facts).0,
            needs_draw == old(self)@.left_dragged(x, y, *facts).1,
    {
        reveal(AppV::left_dragged);
        match self.drag {
            Some(Drag::TabArm { surface, at }) => {
                if x != at.0 || y != at.1 {
                    self.drag_tab(surface, x, y);
                }
            },
            Some(Drag::Tab { surface, .. }) => self.drag_tab(surface, x, y),
            Some(Drag::WorkspaceArm { workspace, at }) => {
                if x != at.0 || y != at.1 {
                    self.drag_workspace(workspace, x, y);
                }
            },
            Some(Drag::Workspace { workspace, .. }) => self.drag_workspace(workspace, x, y),
            Some(Drag::Select { content, .. }) => {
                self.drag_selection(content, x, y, facts.selection_offset);
            },
            Some(Drag::Browser { surface, content }) => {
                let cx: u16 = clamp_within(x, content.x, content.width);
                let cy: u16 = clamp_within(y, content.y, content.height);
                self.send_browser_mouse(surface, content, cx, cy, MousePhase::Moved);
            },
            Some(Drag::Scrollbar { surface, track, anchor_y, anchor_offset }) => {
                self.drag_scrollbar(surface, track, anchor_y, anchor_offset, y, facts);
            },
            Some(Drag::SidebarResize) => self.drag_sidebar(x),
            Some(Drag::ResizeSplit { horizontal, vertical }) => {
                self.move_edge(horizontal, x, y);
                self.move_edge(vertical, x, y);
            },
            None => return false,
        }
        true
    }

    fn finish_selection(&mut self)
        requires
            old(self).wf(),
        ensures
            final(self).wf(),
            final(self)@ == old(self)@.selected_text(),
    {
        match self.selection {
            Some(selection) if selection.anchor.0 != selection.head.0 || selection.anchor.1
                != selection.head.1 => {
                let (start, end) = selection.range();
                self.request(
                    UiEffect::CopySelection { surface: selection.surface, start, end },
                );
            },
            _ => {
                self.selection = None;
            },
        }
    }

    fn choose_tab(&mut self, surface: SurfaceId)
        requires
            old(self).wf(),
        ensures
            final(self).wf(),
            final(self)@ == match old(self)@.tree.find_tab(surface) {
                Some((pane, index)) => old(self)@.asking(Request::FocusPane { pane }).asking(
                    Request::SelectTab {
                        pane: Some(pane),
                        index: Some(index as usize),
                        delta: None,
                    },
                ),
                None => old(self)@,
            },
    {
        if let Some((pane, index)) = self.tree.tab_location(surface) {
            self.ask(Request::FocusPane { pane });
            self.ask(Request::SelectTab { pane: Some(pane), index: Some(index), delta: None });
        }
    }

    /// The left button goes up.
    pub fn handle_left_up(&mut self, x: u16, y: u16) -> (needs_draw: bool)
        requires
            old(self).wf(),
        ensures
            final(self).wf(),
            final(self)@ == old(self)@.left_released(x, y).0,
            needs_draw == old(self)@.left_released(x, y).1,
    {
        reveal(AppV::left_released);
        let drag = self.drag;
        self.drag = None;
        match drag {
            Some(Drag::TabArm { surface, .. }) => self.choose_tab(surface),
            Some(Drag::Tab { surface, .. }) => {
                if let Some((pane, index)) = self.tab_drop_target_at(x, y) {
                    self.ask(Request::MoveTab { surface, pane, index });
                }
            },
            Some(Drag::WorkspaceArm { workspace, .. }) => {
                if let Some(index) = self.tree.workspace_index(workspace) {
                    self.ask(Request::SelectWorkspace { index: Some(index), delta: None });
                }
            },
            Some(Drag::Workspace { workspace, .. }) => {
                if let Some(index) = self.workspace_drop_target_at(x, y) {
                    self.ask(Request::MoveWorkspace { workspace, index });
                }
            },
            Some(Drag::Browser { surface, content }) => {
                let cx: u16 = clamp_within(x, content.x, content.width);
                let cy: u16 = clamp_within(y, content.y, content.height);
                self.send_browser_mouse(surface, content, cx, cy, MousePhase::Released);
            },
            Some(Drag::Select { .. }) => self.finish_selection(),
            Some(_) => {},
            None => return false,
        }
        true
    }

    /// Whether a cell is over something clickable.
    pub fn is_clickable(&self, x: u16, y: u16) -> (clickable: bool)
        ensures
            clickable == self@.clickable(x, y),
    {
        if let Some(prompt) = &self.prompt {
            return prompt.ok.contains(x, y) || prompt.cancel.contains(x, y)
                || prompt.clear.contains(x, y) || prompt.input_rect.contains(x, y);
        }
        if let Some(menu) = &self.menu {
            if menu.rect.contains(x, y) {
                return menu.item_at(x, y).is_some();
            }
        }
        self.hit_at(x, y).is_some()
    }

    fn sync_pointer_shape(&mut self, x: u16, y: u16)
        requires
            old(self).wf(),
        ensures
            final(self).wf(),
            final(self)@ == old(self)@.pointed(x, y),
    {
        let hand = self.is_clickable(x, y);
        if hand != self.pointer_shape {
            self.pointer_shape = hand;
            self.request(UiEffect::Pointer { hand });
        }
    }

    fn menu_entry_at(&self, x: u16, y: u16) -> (entry: Option<(usize, bool)>)
        ensures
            match entry {
                Some((item, held)) => {
                    &&& self@.entry_at(x, y) == Some(item as int)
                    &&& self@.menu is Some
                    &&& item < self@.menu->0.items.len()
                    &&& held == (item == self@.menu->0.selected)
                },
                None => self@.entry_at(x, y) is None,
            },
    {
        match &self.menu {
            Some(menu) => match menu.item_at(x, y) {
                Some(item) => Some((item, item == menu.selected)),
                None => None,
            },
            None => None,
        }
    }

    /// The mouse moves with no button down.
    pub fn handle_hover(&mut self, x: u16, y: u16) -> (needs_draw: bool)
        requires
            old(self).wf(),
        ensures
            final(self).wf(),
            final(self)@ == old(self)@.hovered(x, y).0,
            needs_draw == old(self)@.hovered(x, y).1,
    {
        reveal(AppV::hovered);
        self.sync_pointer_shape(x, y);
        if let Some((item, held)) = self.menu_entry_at(x, y) {
            self.highlight(item);
            return !held;
        }
        let before = match self.hover {
            Some((px, py)) => self.hit_at(px, py),
            None => None,
        };
        let after = self.hit_at(x, y);
        self.hover = Some((x, y));
        !same_highlight(before, after)
    }

    /// The mouse moves with the right button down.
    pub fn handle_right_drag(&mut self, x: u16, y: u16) -> (needs_draw: bool)
        requires
            old(self).wf(),
        ensures
            final(self).wf(),
            final(self)@ == old(self)@.right_dragged(x, y).0,
            needs_draw == old(self)@.right_dragged(x, y).1,
    {
        reveal(AppV::right_dragged);
        self.hover = Some((x, y));
        let Some(mut menu) = self.menu.take() else {
            return false;
        };
        if x != menu.right_press.0 || y != menu.right_press.1 {
            menu.right_drag_moved = true;
        }
        let mut changed = false;
        if let Some(item) = menu.item_at(x, y) {
            changed = item != menu.selected;
            menu.selected = item;
        }
        self.menu = Some(menu);
        changed
    }

    /// The right button goes up.
    pub fn handle_right_up(&mut self, x: u16, y: u16, now: u64) -> (needs_draw: bool)
        requires
            old(self).wf(),
        ensures
            final(self).wf(),
            final(self)@ == old(self)@.right_released(x, y, now).0,
            needs_draw == old(self)@.right_released(x, y, now).1,
    {
        reveal(AppV::right_released);
        let (opening, item) = match &self.menu {
            Some(menu) => (
                !menu.right_drag_moved && x == menu.right_press.0 && y == menu.right_press.1,
                menu.item_at(x, y),
            ),
            None => return false,
        };
        if let Some(item) = item {
            if !opening {
                if let Some(menu) = self.menu.take() {
                    self.activate_menu(menu.items[item], now);
                }
            }
        }
        true
    }

    /// The wheel turns.
    pub fn handle_scroll(&mut self, x: u16, y: u16, down: bool, facts: &MouseFacts) -> (needs_draw:
        bool)
        requires
            old(self).wf(),
        ensures
            final(self).wf(),
            final(self)@ == old(self)@.wheeled(x, y, down, *facts).0,
            needs_draw == old(self)@.wheeled(x, y, down, *facts).1,
    {
        reveal(AppV::wheeled);
        let Some(area) = self.pane_area_at(x, y) else {
            return false;
        };
        let focused = match self.tree.active_pane() {
            Some(pane) => pane == area.pane,
            None => false,
        };
        if !focused {
            self.ask(Request::FocusPane { pane: area.pane });
        }
        if bar_has(&area, x, y) {
            self.scroll_tabs(area.pane, if down { 1 } else { -1 });
            return true;
        }
        if !facts.reachable {
            return false;
        }
        if facts.kind == SurfaceKind::Browser {
            return self.wheel_page(&area, x, y, down);
        }
        let effect = if facts.alternate {
            UiEffect::Arrows { surface: area.surface, down }
        } else {
            UiEffect::Scroll { surface: area.surface, delta: if down { 3 } else { -3 } }
        };
        self.request(effect);
        true
    }

    fn wheel_page(&mut self, area: &PaneArea, x: u16, y: u16, down: bool) -> (needs_draw: bool)
        ensures
            needs_draw == area.content.has(x as int, y as int),
            old(self).wf() ==> final(self).wf(),
            final(self)@ == if needs_draw {
                old(self)@.doing(
                    seq![
                        UiEffectV::BrowserWheel {
                            surface: area.surface,
                            half_x: half_pixels(x, area.content.x, old(self)@.cell_pixels.0),
                            half_y: half_pixels(y, area.content.y, old(self)@.cell_pixels.1),
                            delta_y: page_step(old(self)@.cell_pixels.1, down),
                        },
                    ],
                )
            } else {
                old(self)@
            },
    {
        if !area.content.contains(x, y) {
            return false;
        }
        let half_x: u64 = cell_middle(x, area.content.x, self.cell_pixels.0);
        let half_y: u64 = cell_middle(y, area.content.y, self.cell_pixels.1);
        let step: i32 = 3 * self.cell_pixels.1 as i32;
        let delta_y: i32 = if down {
            step
        } else {
            -step
        };
        self.request(UiEffect::BrowserWheel { surface: area.surface, half_x, half_y, delta_y });
        true
    }

    fn handle_right_down(&mut self, x: u16, y: u16)
        requires
            old(self).wf(),
        ensures
            final(self).wf(),
            final(self)@ == old(self)@.right_pressed(x, y),
    {
        if self.prompt.is_some() {
            self.shake_frames = crate::app::SHAKE_FRAMES;
        } else {
            self.open_context_menu(x, y);
        }
    }

    pub fn handle_mouse(&mut self, mouse: &MouseEvent, facts: &MouseFacts) -> (needs_draw: bool)
        requires
            old(self).wf(),
            facts.wf(),
        ensures
            final(self).wf(),
            final(self)@ == old(self)@.moused(*mouse, *facts).0,
            needs_draw == old(self)@.moused(*mouse, *facts).1,
    {
        reveal(AppV::moused);
        let x: u16 = mouse.column;
        let y: u16 = mouse.row;
        match mouse.kind {
            MouseKind::LeftDown => self.handle_left_down(x, y, facts),
            MouseKind::LeftDrag => self.handle_left_drag(x, y, facts),
            MouseKind::LeftUp => self.handle_left_up(x, y),
            MouseKind::RightDown => {
                self.handle_right_down(x, y);
                true
            },
            MouseKind::RightDrag => self.handle_right_drag(x, y),
            MouseKind::RightUp => self.handle_right_up(x, y, facts.now),
            MouseKind::Moved => self.handle_hover(x, y),
            MouseKind::ScrollUp => self.handle_scroll(x, y, false, facts),
            MouseKind::ScrollDown => self.handle_scroll(x, y, true, facts),
            MouseKind::Other => false,
        }
    }

    /// A scrollbar is held: the drag starts at an offset.
    pub fn start_scrollbar_drag(
        &mut self,
        surface: SurfaceId,
        track: Rect,
        y: u16,
        anchor_offset: u64,
    )
        requires
            old(self).wf(),
        ensures
            final(self).wf(),
            final(self)@ == (AppV {
                drag: Some(Drag::Scrollbar { surface, track, anchor_y: y, anchor_offset }),
                ..old(self)@
            }),
    {
        self.drag = Some(Drag::Scrollbar { surface, track, anchor_y: y, anchor_offset });
    }

    /// The surface whose scrollbar is dragged.
    pub fn dragging_scrollbar(&self) -> (surface: Option<SurfaceId>)
        ensures
            surface == match self@.drag {
                Some(Drag::Scrollbar { surface, .. }) => Some(surface),
                _ => None,
            },
    {
        match self.drag {
            Some(Drag::Scrollbar { surface, .. }) => Some(surface),
            _ => None,
        }
    }

    /// The tab that is dragged, and where it would land.
    pub fn tab_drag(&self) -> (view: Option<TabDragView>)
        ensures
            view == match self@.drag {
                Some(Drag::Tab { surface, target }) => Some(TabDragView { surface, target }),
                _ => None,
            },
    {
        match self.drag {
            Some(Drag::Tab { surface, target }) => Some(TabDragView { surface, target }),
            _ => None,
        }
    }

    /// The workspace that is dragged, and where it would land.
    pub fn workspace_drag(&self) -> (view: Option<(WorkspaceId, Option<usize>)>)
        ensures
            view == match self@.drag {
                Some(Drag::Workspace { workspace, target }) => Some((workspace, target)),
                _ => None,
            },
    {
        match self.drag {
            Some(Drag::Workspace { workspace, target }) => Some((workspace, target)),
            _ => None,
        }
    }
}

} // verus!
