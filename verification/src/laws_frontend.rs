//! What the user of a frontend gets: for every key, click and menu entry,
//! what is asked for, told by what the screen shows.

use vstd::prelude::*;

use crate::app::AppV;
use crate::frontend::{
    Action, InputEvent, KeyFacts, MouseEvent, MouseFacts, MouseKind, MousePhase, UiEffectV,
};
use crate::geometry::Rect;
use crate::input::{KeyCode, KeyEvent, KeyKind};
use crate::node::{PaneId, SplitDir, SurfaceId};
use crate::search;
use crate::session::Request;
use crate::surface::SurfaceKind;
use crate::tree::{PaneView, ScreenView, TabView, TreeView, WorkspaceView};
use crate::ui::{Drag, Hit, MenuAction, PaneArea, PromptTarget};

verus! {

/// The active screen is screen `s` of workspace `w`.
pub open spec fn on_screen(tree: TreeView, w: int, s: int) -> bool {
    &&& 0 <= w < tree.workspaces@.len()
    &&& tree.active_workspace == w
    &&& 0 <= s < tree.workspaces@[w].screens@.len()
    &&& tree.workspaces@[w].active_screen == s
}

/// Pane `p` of a screen is its active pane, and tab `t` the active tab there.
pub open spec fn in_tab(screen: ScreenView, p: int, t: int) -> bool {
    &&& 0 <= p < screen.panes@.len()
    &&& screen.panes@[p].id == screen.active_pane
    &&& forall|q: int| 0 <= q < p ==> (#[trigger] screen.panes@[q]).id != screen.active_pane
    &&& 0 <= t < screen.panes@[p].tabs@.len()
    &&& screen.panes@[p].active_tab == t
}

/// `hits[i]` is the first region that has the cell.
pub open spec fn first_hit(hits: Seq<(Rect, Hit)>, i: int, x: u16, y: u16) -> bool {
    &&& 0 <= i < hits.len()
    &&& hits[i].0.has(x as int, y as int)
    &&& forall|j: int| 0 <= j < i ==> !(#[trigger] hits[j]).0.has(x as int, y as int)
}

/// No region has the cell.
pub open spec fn no_hit(hits: Seq<(Rect, Hit)>, x: u16, y: u16) -> bool {
    forall|j: int| 0 <= j < hits.len() ==> !(#[trigger] hits[j]).0.has(x as int, y as int)
}

/// `areas[i]` is the first pane whose box has the cell.
pub open spec fn first_area(areas: Seq<PaneArea>, i: int, x: u16, y: u16) -> bool {
    &&& 0 <= i < areas.len()
    &&& areas[i].rect.has(x as int, y as int)
    &&& forall|j: int| 0 <= j < i ==> !(#[trigger] areas[j]).rect.has(x as int, y as int)
}

/// `areas[i]` is where a pane is drawn.
pub open spec fn drawn_at(areas: Seq<PaneArea>, i: int, pane: PaneId) -> bool {
    &&& 0 <= i < areas.len()
    &&& areas[i].pane == pane
    &&& forall|j: int| 0 <= j < i ==> (#[trigger] areas[j]).pane != pane
}

/// The work that was asked for so far, and one thing more.
pub open spec fn adds(before: AppV, after: AppV, effect: UiEffectV) -> bool {
    &&& after.outbox.len() == before.outbox.len() + 1
    &&& after.outbox.last() == effect
    &&& forall|k: int|
        0 <= k < before.outbox.len() ==> #[trigger] after.outbox[k] == before.outbox[k]
}

/// The work that was asked for so far, and two things more.
pub open spec fn adds_both(
    before: AppV,
    after: AppV,
    first: UiEffectV,
    second: UiEffectV,
) -> bool {
    let n = before.outbox.len() as int;
    &&& after.outbox.len() == n + 2
    &&& after.outbox[n] == first
    &&& after.outbox[n + 1] == second
    &&& forall|k: int| 0 <= k < n ==> #[trigger] after.outbox[k] == before.outbox[k]
}

/// Where the user is: the screen, the pane and the tab with the focus.
proof fn lemma_in_tab(tree: TreeView, w: int, s: int, p: int, t: int)
    requires
        on_screen(tree, w, s),
        in_tab(tree.workspaces@[w].screens@[s], p, t),
    ensures
        ({
            let ws = tree.workspaces@[w];
            let screen = ws.screens@[s];
            &&& tree.the_workspace() == Some(ws)
            &&& tree.the_screen() == Some(screen)
            &&& tree.the_active_pane() == Some(screen.active_pane)
            &&& tree.the_active_surface() == Some(screen.panes@[p].tabs@[t].surface)
        }),
{
    let screen = tree.workspaces@[w].screens@[s];
    search::lemma_first_at(screen.panes@, |pane: PaneView| pane.id == screen.active_pane, p);
}

proof fn lemma_drawn_at(app: AppV, i: int, pane: PaneId)
    requires
        drawn_at(app.pane_areas, i, pane),
    ensures
        app.area_of(pane) == Some(app.pane_areas[i]),
{
    search::lemma_first_at(app.pane_areas, |area: PaneArea| area.pane == pane, i);
}

proof fn lemma_first_hit(app: AppV, i: int, x: u16, y: u16)
    requires
        first_hit(app.hits, i, x, y),
    ensures
        app.hit_at(x, y) == Some(app.hits[i].1),
{
    search::lemma_first_at(app.hits, |hit: (Rect, Hit)| hit.0.has(x as int, y as int), i);
}

proof fn lemma_no_hit(app: AppV, x: u16, y: u16)
    requires
        no_hit(app.hits, x, y),
    ensures
        app.hit_at(x, y) is None,
{
    search::lemma_first_none(app.hits, |hit: (Rect, Hit)| hit.0.has(x as int, y as int));
}

proof fn lemma_first_area(app: AppV, i: int, x: u16, y: u16)
    requires
        first_area(app.pane_areas, i, x, y),
    ensures
        app.area_at(x, y) == Some(app.pane_areas[i]),
{
    search::lemma_first_at(
        app.pane_areas,
        |area: PaneArea| area.rect.has(x as int, y as int),
        i,
    );
}

/// Every action that is bound to a key acts on what has the focus: on the
/// active workspace, screen, pane or tab, and on nothing else. Each asks for
/// one thing.
pub proof fn law_actions(
    app: AppV,
    kind: Option<SurfaceKind>,
    w: int,
    s: int,
    p: int,
    t: int,
    i: int,
)
    requires
        on_screen(app.tree, w, s),
        in_tab(app.tree.workspaces@[w].screens@[s], p, t),
        drawn_at(app.pane_areas, i, app.tree.workspaces@[w].screens@[s].active_pane),
    ensures
        ({
            let screen = app.tree.workspaces@[w].screens@[s];
            let pane = screen.active_pane;
            let surface = screen.panes@[p].tabs@[t].surface;
            let rect = Some(app.pane_areas[i].rect);
            let does = |action: Action, effect: UiEffectV|
                adds(app, app.acted(action, kind).0, effect);
            &&& does(
                Action::NewTab,
                UiEffectV::AskOrQuit(Request::NewTab { pane: Some(pane), size: None }),
            )
            &&& does(
                Action::NextTab,
                UiEffectV::Ask(
                    Request::SelectTab { pane: Some(pane), index: None, delta: Some(1) },
                ),
            )
            &&& does(
                Action::PrevTab,
                UiEffectV::Ask(
                    Request::SelectTab { pane: Some(pane), index: None, delta: Some(-1isize) },
                ),
            )
            &&& does(Action::SplitRight, UiEffectV::Split { pane, dir: SplitDir::Right, rect })
            &&& does(Action::SplitDown, UiEffectV::Split { pane, dir: SplitDir::Down, rect })
            &&& adds_both(
                app,
                app.acted(Action::CloseTab, kind).0,
                UiEffectV::ForgetRender(surface),
                UiEffectV::Ask(Request::CloseSurface { surface }),
            )
            &&& does(Action::ClosePane, UiEffectV::Ask(Request::ClosePane { pane }))
            &&& does(
                Action::CloseScreen,
                UiEffectV::Ask(Request::CloseScreen { screen: screen.id }),
            )
            &&& does(
                Action::PrevScreen,
                UiEffectV::Ask(Request::SelectScreen { index: None, delta: Some(-1isize) }),
            )
            &&& does(
                Action::NextScreen,
                UiEffectV::Ask(Request::SelectScreen { index: None, delta: Some(1) }),
            )
            &&& does(
                Action::NextWorkspace,
                UiEffectV::Ask(Request::SelectWorkspace { index: None, delta: Some(1) }),
            )
            &&& does(Action::FocusLeft, UiEffectV::MoveFocus { from: pane, dx: -1i8, dy: 0 })
            &&& does(Action::FocusRight, UiEffectV::MoveFocus { from: pane, dx: 1, dy: 0 })
            &&& does(Action::FocusUp, UiEffectV::MoveFocus { from: pane, dx: 0, dy: -1i8 })
            &&& does(Action::FocusDown, UiEffectV::MoveFocus { from: pane, dx: 0, dy: 1 })
            &&& does(Action::ResizeGrow, UiEffectV::ResizeFocused { grow: true })
            &&& does(Action::ResizeShrink, UiEffectV::ResizeFocused { grow: false })
            &&& kind == Some(SurfaceKind::Pty) ==> does(
                Action::ScrollUp,
                UiEffectV::Scroll { surface, delta: -10 },
            )
            &&& kind == Some(SurfaceKind::Pty) ==> does(
                Action::ScrollDown,
                UiEffectV::Scroll { surface, delta: 10 },
            )
            &&& kind == Some(SurfaceKind::Browser) ==> app.acted(
                Action::ScrollDown,
                kind,
            ).0.outbox == app.outbox
        }),
{
    reveal(AppV::acted);
    reveal(AppV::planned);
    lemma_in_tab(app.tree, w, s, p, t);
    lemma_drawn_at(app, i, app.tree.workspaces@[w].screens@[s].active_pane);
}

/// What is asked in a fresh prompt.
pub open spec fn prompts(
    after: AppV,
    label: Seq<char>,
    input: Seq<char>,
    target: PromptTarget,
) -> bool {
    &&& after.prompt is Some
    &&& after.prompt->0.label == label
    &&& after.prompt->0.input == input
    &&& after.prompt->0.target == target
}

/// An action for a name asks for the name of what has the focus, with its
/// name so far to start from. One toggles the sidebar, one ends the frontend,
/// and no other does. A message is gone after each of them.
pub proof fn law_actions_on_frontend(
    app: AppV,
    action: Action,
    kind: Option<SurfaceKind>,
    w: int,
    s: int,
    p: int,
    t: int,
)
    requires
        on_screen(app.tree, w, s),
        in_tab(app.tree.workspaces@[w].screens@[s], p, t),
        app.tree.the_pane(app.tree.workspaces@[w].screens@[s].active_pane) == Some(
            app.tree.workspaces@[w].screens@[s].panes@[p],
        ),
    ensures
        ({
            let ws = app.tree.workspaces@[w];
            let screen = ws.screens@[s];
            let tab = screen.panes@[p].tabs@[t];
            let after = app.acted(action, kind).0;
            &&& match action {
                Action::RenameTab => prompts(
                    after,
                    "Rename tab"@,
                    match tab.name {
                        Some(name) => name@,
                        None => seq![],
                    },
                    PromptTarget::Surface(tab.surface),
                ),
                Action::RenameScreen => prompts(
                    after,
                    "Rename screen"@,
                    match screen.name {
                        Some(name) => name@,
                        None => seq![],
                    },
                    PromptTarget::Screen(screen.id),
                ),
                Action::RenameWorkspace => prompts(
                    after,
                    "Rename workspace"@,
                    ws.name@,
                    PromptTarget::Workspace(ws.id),
                ),
                Action::NewBrowserTab => prompts(
                    after,
                    "New browser tab"@,
                    "https://"@,
                    PromptTarget::BrowserTab { pane: Some(screen.active_pane) },
                ),
                _ => after.prompt == app.prompt,
            }
            &&& after.sidebar_visible == (app.sidebar_visible != (action is ToggleSidebar))
            &&& after.quit == (app.quit || action is Detach)
            &&& app.acted(action, kind).1 == !(action is Detach)
            &&& !(action is Detach) ==> after.status_message is None
            &&& after.tree == app.tree
            &&& after.menu == app.menu
            &&& after.drag == app.drag
            &&& after.selection == app.selection
        }),
{
    reveal(AppV::acted);
    lemma_in_tab(app.tree, w, s, p, t);
    let screen = app.tree.workspaces@[w].screens@[s];
    search::lemma_first_at(screen.panes@, |pane: PaneView| pane.id == screen.active_pane, p);
}

/// A press on something clickable: a button asks at once for what it stands
/// for, and what can be dragged is held and asks for nothing yet.
pub proof fn law_press(app: AppV, i: int, x: u16, y: u16, facts: MouseFacts)
    requires
        app.prompt is None,
        app.menu is None,
        first_hit(app.hits, i, x, y),
    ensures
        ({
            let down = MouseEvent { kind: MouseKind::LeftDown, column: x, row: y };
            let after = app.moused(down, facts).0;
            &&& app.moused(down, facts).1
            &&& after.selection is None
            &&& match app.hits[i].1 {
                Hit::Workspace { id, .. } => {
                    &&& after.drag == Some(Drag::WorkspaceArm { workspace: id, at: (x, y) })
                    &&& after.outbox == app.outbox
                },
                Hit::NewWorkspace => after.drag is None && exists|size: Option<(u16, u16)>|
                    #[trigger] adds(
                        app,
                        after,
                        UiEffectV::AskOrQuit(Request::NewWorkspace { size }),
                    ),
                Hit::ScreenEntry { index, .. } => after.drag is None && adds(
                    app,
                    after,
                    UiEffectV::Ask(Request::SelectScreen { index: Some(index), delta: None }),
                ),
                Hit::NewScreen => after.drag is None && exists|size: Option<(u16, u16)>|
                    #[trigger] adds(
                        app,
                        after,
                        UiEffectV::AskOrQuit(Request::NewScreen { size }),
                    ),
                Hit::Tab { pane, index } => {
                    &&& after.outbox == app.outbox
                    &&& match app.tree.the_pane(pane) {
                        Some(view) if index < view.tabs@.len() => after.drag == Some(
                            Drag::TabArm { surface: view.tabs@[index as int].surface, at: (x, y) },
                        ),
                        _ => after.drag is None,
                    }
                },
                Hit::NewTab { pane } => after.drag is None && adds_both(
                    app,
                    after,
                    UiEffectV::Ask(Request::FocusPane { pane }),
                    UiEffectV::AskOrQuit(Request::NewTab { pane: Some(pane), size: None }),
                ),
                Hit::Scrollbar { surface, track } => adds(
                    app,
                    after,
                    UiEffectV::StartScroll { surface, track, y },
                ),
                Hit::SidebarResize => after.drag == Some(Drag::SidebarResize) && after.outbox
                    == app.outbox,
                Hit::PaneResize { horizontal, vertical } => {
                    &&& after.drag == Some(Drag::ResizeSplit { horizontal, vertical })
                    &&& after.outbox == app.outbox
                },
                Hit::TabScroll { pane, delta } => {
                    &&& after.outbox == app.outbox
                    &&& after.tab_scroll.dom().contains(pane)
                    &&& app.tab_scroll.dom().contains(pane) && 0 <= app.tab_scroll[pane] + delta
                        <= usize::MAX ==> after.tab_scroll[pane] == app.tab_scroll[pane] + delta
                    &&& !app.tab_scroll.dom().contains(pane) && 0 <= delta
                        ==> after.tab_scroll[pane] == delta
                    &&& !app.tab_scroll.dom().contains(pane) && delta < 0
                        ==> after.tab_scroll[pane] == 0
                    &&& app.tab_scroll.dom().contains(pane) && app.tab_scroll[pane] + delta < 0
                        ==> after.tab_scroll[pane] == 0
                },
            }
        }),
{
    reveal(AppV::moused);
    reveal(AppV::left_pressed);
    reveal(AppV::hit_pressed);
    lemma_first_hit(app, i, x, y);
    let down = MouseEvent { kind: MouseKind::LeftDown, column: x, row: y };
    let after = app.moused(down, facts).0;
    let size = app.full_size();
    match app.hits[i].1 {
        Hit::NewWorkspace => assert(adds(
            app,
            after,
            UiEffectV::AskOrQuit(Request::NewWorkspace { size }),
        )),
        Hit::NewScreen => assert(adds(
            app,
            after,
            UiEffectV::AskOrQuit(Request::NewScreen { size }),
        )),
        _ => {},
    }
}

/// A press in a pane, on nothing else, focuses that pane. In the content of
/// a terminal a selection begins at the cell, which is told by its column and
/// by its row in the whole of the text; in that of a page the page gets the
/// press, at the middle of the cell. On the border it does no more.
pub proof fn law_press_in_pane(app: AppV, i: int, x: u16, y: u16, facts: MouseFacts)
    requires
        app.prompt is None,
        app.menu is None,
        no_hit(app.hits, x, y),
        first_area(app.pane_areas, i, x, y),
        facts.wf(),
    ensures
        ({
            let area = app.pane_areas[i];
            let content = area.content;
            let down = MouseEvent { kind: MouseKind::LeftDown, column: x, row: y };
            let after = app.moused(down, facts).0;
            let focus = UiEffectV::Ask(Request::FocusPane { pane: area.pane });
            &&& app.moused(down, facts).1
            &&& !content.has(x as int, y as int) ==> adds(app, after, focus) && after.drag is None
                && after.selection is None
            &&& content.has(x as int, y as int) && facts.kind == SurfaceKind::Pty ==> {
                &&& adds(app, after, focus)
                &&& after.selection is Some
                &&& after.selection->0.surface == area.surface
                &&& after.selection->0.anchor == after.selection->0.head
                &&& after.selection->0.anchor.0 == x - content.x
                &&& after.selection->0.anchor.1 == facts.offset + (y - content.y)
                &&& after.drag is Some && after.drag->0 is Select
            }
            &&& content.has(x as int, y as int) && facts.kind == SurfaceKind::Browser ==> {
                &&& adds_both(
                    app,
                    after,
                    focus,
                    UiEffectV::BrowserMouse {
                        surface: area.surface,
                        phase: MousePhase::Pressed,
                        half_x: (2 * (x - content.x) + 1) * app.cell_pixels.0,
                        half_y: (2 * (y - content.y) + 1) * app.cell_pixels.1,
                    },
                )
                &&& after.drag == Some(Drag::Browser { surface: area.surface, content })
                &&& after.selection is None
            }
        }),
{
    reveal(AppV::moused);
    reveal(AppV::left_pressed);
    reveal(AppV::area_pressed);
    lemma_no_hit(app, x, y);
    lemma_first_area(app, i, x, y);
}

/// A workspace entry that is clicked, not dragged, is selected: by the place
/// at which it stands now. One that is dragged to a place moves there.
pub proof fn law_workspace_released(app: AppV, w: int, x: u16, y: u16, facts: MouseFacts)
    requires
        0 <= w < app.tree.workspaces@.len(),
        forall|v: int|
            0 <= v < w ==> (#[trigger] app.tree.workspaces@[v]).id != app.tree.workspaces@[w].id,
        w <= usize::MAX,
    ensures
        ({
            let up = MouseEvent { kind: MouseKind::LeftUp, column: x, row: y };
            let after = app.moused(up, facts).0;
            let id = app.tree.workspaces@[w].id;
            &&& (app.drag is Some && app.drag->0 is WorkspaceArm && app.drag->0->WorkspaceArm_workspace
                == id) ==> after.drag is None && adds(
                app,
                after,
                UiEffectV::Ask(
                    Request::SelectWorkspace { index: Some(w as usize), delta: None },
                ),
            )
            &&& (app.drag is Some && app.drag->0 is Workspace && app.drag->0->Workspace_workspace == id)
                ==> after.drag is None && match app.workspace_drop(x, y) {
                Some(place) => adds(
                    app,
                    after,
                    UiEffectV::Ask(
                        Request::MoveWorkspace { workspace: id, index: place as usize },
                    ),
                ),
                None => after.outbox == app.outbox,
            }
        }),
{
    reveal(AppV::moused);
    reveal(AppV::left_released);
    search::lemma_first_at(
        app.tree.workspaces@,
        |ws: WorkspaceView| ws.id == app.tree.workspaces@[w].id,
        w,
    );
}

/// A tab that is clicked, not dragged, is selected in its pane, which gets
/// the focus. One that is dragged over a pane moves to where it is dropped,
/// and goes nowhere when it is dropped elsewhere.
pub proof fn law_tab_released(app: AppV, k: int, t: int, x: u16, y: u16, facts: MouseFacts)
    requires
        0 <= k < app.tree.panes().len(),
        0 <= t < app.tree.panes()[k].tabs@.len(),
        t <= usize::MAX,
        forall|j: int, u: int|
            #![trigger app.tree.panes()[j].tabs@[u]]
            0 <= j < app.tree.panes().len() && 0 <= u < app.tree.panes()[j].tabs@.len() && (j != k
                || u != t) ==> app.tree.panes()[j].tabs@[u].surface
                != app.tree.panes()[k].tabs@[t].surface,
    ensures
        ({
            let up = MouseEvent { kind: MouseKind::LeftUp, column: x, row: y };
            let after = app.moused(up, facts).0;
            let view = app.tree.panes()[k];
            let surface = view.tabs@[t].surface;
            &&& (app.drag is Some && app.drag->0 is TabArm && app.drag->0->TabArm_surface == surface)
                ==> after.drag is None && adds_both(
                app,
                after,
                UiEffectV::Ask(Request::FocusPane { pane: view.id }),
                UiEffectV::Ask(
                    Request::SelectTab {
                        pane: Some(view.id),
                        index: Some(t as usize),
                        delta: None,
                    },
                ),
            )
            &&& (app.drag is Some && app.drag->0 is Tab && app.drag->0->Tab_surface == surface)
                ==> after.drag is None && match app.tab_drop(x, y) {
                Some((pane, place)) => adds(
                    app,
                    after,
                    UiEffectV::Ask(Request::MoveTab { surface, pane, index: place as usize }),
                ),
                None => after.outbox == app.outbox,
            }
        }),
{
    reveal(AppV::moused);
    reveal(AppV::left_released);
    let panes = app.tree.panes();
    let surface = panes[k].tabs@[t].surface;
    let here = |tab: TabView| tab.surface == surface;
    let holds = |pane: PaneView| crate::tree::tab_index(pane, surface) is Some;
    search::lemma_first_at(panes[k].tabs@, here, t);
    assert forall|j: int| 0 <= j < k implies !holds(#[trigger] panes[j]) by {
        search::lemma_first_none(panes[j].tabs@, here);
    }
    search::lemma_first_at(panes, holds, k);
}

/// A workspace lands before the entry on whose first row it is dropped and
/// after the one on whose other rows it is; below all entries it is the last,
/// above them the first. Outside the sidebar it goes nowhere.
pub proof fn law_workspace_drop(app: AppV, entry: int, x: u16, y: u16)
    requires
        app.sidebar_width >= 3,
        0 <= entry < app.tree.workspaces@.len(),
    ensures
        x >= app.sidebar_width - 1 ==> app.workspace_drop(x, y) is None,
        x < app.sidebar_width - 1 ==> {
            &&& y < 2 ==> app.workspace_drop(x, y) == Some(0int)
            &&& y == 2 + 3 * entry ==> app.workspace_drop(x, y) == Some(entry)
            &&& y == 3 + 3 * entry || y == 4 + 3 * entry ==> app.workspace_drop(x, y) == Some(
                entry + 1,
            )
            &&& y >= 2 + 3 * app.tree.workspaces@.len() ==> app.workspace_drop(x, y) == Some(
                app.tree.workspaces@.len() as int,
            )
        },
{
}

/// The tabs of a pane beside the one at `hits[i]` lie left or right of the
/// column.
pub open spec fn others_aside(hits: Seq<(Rect, Hit)>, i: int, pane: PaneId, x: u16) -> bool {
    forall|j: int|
        #![trigger hits[j]]
        0 <= j < hits.len() && j != i && hits[j].1 is Tab && hits[j].1->Tab_pane == pane ==> {
            ||| hits[j].0.x + hits[j].0.width <= x
            ||| x < hits[j].0.x
        }
}

/// A tab that is dropped on the first half of another in a bar lands before
/// it, and on its second half after it. On the content it is the last.
pub proof fn law_tab_drop(app: AppV, a: int, i: int, x: u16, y: u16)
    requires
        drawn_at(app.pane_areas, a, app.pane_areas[a].pane),
        app.pane_areas[a].content.has(x as int, y as int) || (app.pane_areas[a].bar is Some
            && app.pane_areas[a].bar->0.has(x as int, y as int)),
        forall|b: int|
            0 <= b < a ==> !(#[trigger] app.pane_areas[b]).content.has(x as int, y as int) && !(
            app.pane_areas[b].bar is Some && app.pane_areas[b].bar->0.has(x as int, y as int)),
        app.tree.the_pane(app.pane_areas[a].pane) is Some,
        0 <= i < app.hits.len(),
        app.hits[i].1 is Tab,
        app.hits[i].1->Tab_pane == app.pane_areas[a].pane,
        app.hits[i].1->Tab_index < app.tree.the_pane(app.pane_areas[a].pane)->0.tabs@.len(),
        app.hits[i].0.has(x as int, y as int),
        others_aside(app.hits, i, app.pane_areas[a].pane, x),
    ensures
        ({
            let area = app.pane_areas[a];
            let on_bar = area.bar is Some && area.bar->0.has(x as int, y as int);
            let rect = app.hits[i].0;
            let index = app.hits[i].1->Tab_index as int;
            &&& on_bar && x - rect.x < rect.width / 2 ==> app.tab_drop(x, y) == Some(
                (area.pane, index),
            )
            &&& on_bar && x - rect.x >= rect.width / 2 ==> app.tab_drop(x, y) == Some(
                (area.pane, index + 1),
            )
            &&& !on_bar ==> app.tab_drop(x, y) == Some(
                (area.pane, app.tree.the_pane(area.pane)->0.tabs@.len() as int),
            )
        }),
{
    let pane = app.pane_areas[a].pane;
    search::lemma_first_at(
        app.pane_areas,
        |area: PaneArea| crate::app_drop::takes_drop(area, x, y),
        a,
    );
    assert(crate::app_drop::is_first_stop(app.hits, pane, x, y, i)) by {
        assert forall|j: int|
            #![trigger app.hits[j]]
            crate::app_drop::stops(app.hits, pane, x, y, j) && j
                != i implies crate::app_drop::drawn_before(app.hits, i, j) by {}
    }
    let k = choose|k: int| crate::app_drop::is_first_stop(app.hits, pane, x, y, k);
    assert(crate::app_drop::is_first_stop(app.hits, pane, x, y, k));
    if k != i {
        assert(crate::app_drop::drawn_before(app.hits, i, k));
        assert(crate::app_drop::drawn_before(app.hits, k, i));
    }
}

/// Without a tab at the column or right of it, a tab that is dropped on the
/// bar is the last.
pub proof fn law_tab_drop_behind(app: AppV, a: int, x: u16, y: u16)
    requires
        0 <= a < app.pane_areas.len(),
        app.pane_areas[a].bar is Some,
        app.pane_areas[a].bar->0.has(x as int, y as int),
        forall|b: int|
            0 <= b < a ==> !(#[trigger] app.pane_areas[b]).content.has(x as int, y as int) && !(
            app.pane_areas[b].bar is Some && app.pane_areas[b].bar->0.has(x as int, y as int)),
        app.tree.the_pane(app.pane_areas[a].pane) is Some,
        forall|j: int|
            #![trigger app.hits[j]]
            0 <= j < app.hits.len() && app.hits[j].1 is Tab && app.hits[j].1->Tab_pane
                == app.pane_areas[a].pane ==> app.hits[j].0.x + app.hits[j].0.width <= x,
    ensures
        app.tab_drop(x, y) == Some(
            (
                app.pane_areas[a].pane,
                app.tree.the_pane(app.pane_areas[a].pane)->0.tabs@.len() as int,
            ),
        ),
{
    search::lemma_first_at(
        app.pane_areas,
        |area: PaneArea| crate::app_drop::takes_drop(area, x, y),
        a,
    );
    let pane = app.pane_areas[a].pane;
    assert forall|k: int| !crate::app_drop::is_first_stop(app.hits, pane, x, y, k) by {}
}

/// The coordinate that is nearest to `n` in `len` cells from `start` on.
pub open spec fn nearest_in(n: u16, start: u16, len: u16, at: int) -> bool {
    &&& start <= at < start + len
    &&& start <= n < start + len ==> at == n
    &&& n < start ==> at == start
    &&& n >= start + len ==> at == start + len - 1
}

/// The tab that is held would land where the pointer is.
pub open spec fn over_tab(app: AppV, after: AppV, x: u16, y: u16) -> bool {
    match app.tab_drop(x, y) {
        Some((pane, place)) => after.drag->0->Tab_target == Some((pane, place as usize)),
        None => after.drag->0->Tab_target is None,
    }
}

/// The workspace that is held would land where the pointer is.
pub open spec fn over_workspace(app: AppV, after: AppV, x: u16, y: u16) -> bool {
    match app.workspace_drop(x, y) {
        Some(place) => after.drag->0->Workspace_target == Some(place as usize),
        None => after.drag->0->Workspace_target is None,
    }
}

/// A drag: what is held follows the pointer. A selection keeps its first
/// cell, and its other end is the nearest cell of the content; in the first
/// or the last row, or beyond, the text scrolls. A page gets the nearest
/// point. A split's edge moves to the pointer.
pub proof fn law_drag(app: AppV, x: u16, y: u16, facts: MouseFacts)
    requires
        app.wf(),
        facts.wf(),
    ensures
        ({
            let event = MouseEvent { kind: MouseKind::LeftDrag, column: x, row: y };
            let after = app.moused(event, facts).0;
            match app.drag {
                None => after.outbox == app.outbox && after.drag is None && !app.moused(
                    event,
                    facts,
                ).1,
                Some(Drag::TabArm { surface, at }) => {
                    &&& at == (x, y) ==> after.drag == app.drag
                    &&& at != (x, y) ==> after.drag is Some && after.drag->0 is Tab
                        && after.drag->0->Tab_surface == surface && over_tab(app, after, x, y)
                    &&& after.outbox == app.outbox
                },
                Some(Drag::WorkspaceArm { workspace, at }) => {
                    &&& at == (x, y) ==> after.drag == app.drag
                    &&& at != (x, y) ==> after.drag is Some && after.drag->0 is Workspace
                        && after.drag->0->Workspace_workspace == workspace && over_workspace(
                        app,
                        after,
                        x,
                        y,
                    )
                    &&& after.outbox == app.outbox
                },
                Some(Drag::Tab { surface, .. }) => {
                    &&& after.drag is Some && after.drag->0 is Tab
                    &&& after.drag->0->Tab_surface == surface
                    &&& over_tab(app, after, x, y)
                    &&& after.outbox == app.outbox
                },
                Some(Drag::Workspace { workspace, .. }) => {
                    &&& after.drag is Some && after.drag->0 is Workspace
                    &&& after.drag->0->Workspace_workspace == workspace
                    &&& over_workspace(app, after, x, y)
                    &&& after.outbox == app.outbox
                },
                Some(Drag::Select { content, .. }) => {
                    &&& after.outbox == app.outbox
                    &&& (app.selection is Some && content.width > 0 && content.height > 0) ==> {
                        let was = app.selection->0;
                        let now = after.selection->0;
                        &&& after.selection is Some
                        &&& now.surface == was.surface
                        &&& now.anchor == was.anchor
                        &&& nearest_in(x, content.x, content.width, content.x + now.head.0)
                        &&& nearest_in(
                            y,
                            content.y,
                            content.height,
                            content.y + (now.head.1 - facts.selection_offset),
                        )
                    }
                    &&& after.drag is Some && after.drag->0 is Select
                    &&& after.drag->0->Select_content == content
                    &&& y <= content.y ==> after.drag->0->Select_auto_scroll == Some(-1i8)
                    &&& content.y < y && y + 1 < content.y + content.height
                        ==> after.drag->0->Select_auto_scroll is None
                    &&& content.y < y && content.height > 0 && y + 1 >= content.y + content.height
                        ==> after.drag->0->Select_auto_scroll == Some(1i8)
                },
                Some(Drag::Browser { surface, content }) => content.width > 0 && content.height > 0
                    ==> after.drag == app.drag && exists|px: int, py: int|
                    {
                        &&& nearest_in(x, content.x, content.width, px)
                        &&& nearest_in(y, content.y, content.height, py)
                        &&& #[trigger] adds(
                            app,
                            after,
                            page_point(
                                surface,
                                MousePhase::Moved,
                                px - content.x,
                                py - content.y,
                                app.cell_pixels,
                            ),
                        )
                    },
                Some(Drag::Scrollbar { surface, track, anchor_y, anchor_offset }) => {
                    &&& after.drag == app.drag
                    &&& facts.bar is None ==> after.outbox == app.outbox
                    &&& facts.bar is Some ==> {
                        let to = crate::scrollbar::drag_offset(
                            facts.bar->0,
                            track,
                            anchor_y,
                            anchor_offset,
                            y,
                        );
                        let delta = to - facts.bar->0.offset;
                        &&& delta == 0 ==> after.outbox == app.outbox
                        &&& delta != 0 ==> adds(app, after, UiEffectV::Scroll { surface, delta })
                    }
                },
                Some(Drag::SidebarResize) => {
                    &&& after.drag == app.drag
                    &&& after.outbox == app.outbox
                    &&& (x < u16::MAX && app.content_area.width + app.sidebar_width <= u16::MAX)
                        ==> match crate::ui::sidebar_fit(
                        app.config,
                        (app.content_area.width + app.sidebar_width) as u16,
                        (x + 1) as u16,
                    ) {
                        Some(width) => after.sidebar_width_override == Some(width),
                        None => after.sidebar_width_override == app.sidebar_width_override,
                    }
                },
                Some(Drag::ResizeSplit { horizontal, vertical }) => {
                    &&& after.drag == app.drag
                    &&& match (horizontal, vertical) {
                        (Some((p, e)), Some((q, f))) => adds_both(
                            app,
                            after,
                            UiEffectV::ResizeSplit { pane: p, edge: e, x, y },
                            UiEffectV::ResizeSplit { pane: q, edge: f, x, y },
                        ),
                        (Some((p, e)), None) => adds(
                            app,
                            after,
                            UiEffectV::ResizeSplit { pane: p, edge: e, x, y },
                        ),
                        (None, Some((q, f))) => adds(
                            app,
                            after,
                            UiEffectV::ResizeSplit { pane: q, edge: f, x, y },
                        ),
                        (None, None) => after.outbox == app.outbox,
                    }
                },
            }
        }),
{
    reveal(AppV::moused);
    reveal(AppV::left_dragged);
    let event = MouseEvent { kind: MouseKind::LeftDrag, column: x, row: y };
    let after = app.moused(event, facts).0;
    match app.drag {
        Some(Drag::Browser { surface, content }) => {
            if content.width > 0 && content.height > 0 {
                let px = crate::app_mouse::within(x, content.x, content.width) as int;
                let py = crate::app_mouse::within(y, content.y, content.height) as int;
                assert(adds(
                    app,
                    after,
                    page_point(
                        surface,
                        MousePhase::Moved,
                        px - content.x,
                        py - content.y,
                        app.cell_pixels,
                    ),
                ));
            }
        },
        _ => {},
    }
}

/// The mouse in a page, at the middle of a cell of it.
pub open spec fn page_point(
    surface: SurfaceId,
    phase: MousePhase,
    col: int,
    row: int,
    cell: (u16, u16),
) -> UiEffectV {
    UiEffectV::BrowserMouse {
        surface,
        phase,
        half_x: (2 * col + 1) * cell.0,
        half_y: (2 * row + 1) * cell.1,
    }
}

/// When the button goes up nothing is held any longer. A selection of more
/// than one cell is copied from its first cell to its last, whichever of
/// them was pressed; a plain click leaves no selection.
pub proof fn law_selection_released(app: AppV, x: u16, y: u16, facts: MouseFacts)
    requires
        app.drag is Some,
        app.drag->0 is Select,
    ensures
        ({
            let up = MouseEvent { kind: MouseKind::LeftUp, column: x, row: y };
            let after = app.moused(up, facts).0;
            &&& after.drag is None
            &&& app.moused(up, facts).1
            &&& app.selection is None ==> after.outbox == app.outbox && after.selection is None
            &&& app.selection is Some ==> {
                let s = app.selection->0;
                let in_order = s.anchor.1 < s.head.1 || s.anchor.1 == s.head.1 && s.anchor.0
                    <= s.head.0;
                &&& s.anchor == s.head ==> after.outbox == app.outbox && after.selection is None
                &&& s.anchor != s.head ==> after.selection == app.selection && adds(
                    app,
                    after,
                    UiEffectV::CopySelection {
                        surface: s.surface,
                        start: if in_order {
                            s.anchor
                        } else {
                            s.head
                        },
                        end: if in_order {
                            s.head
                        } else {
                            s.anchor
                        },
                    },
                )
            }
        }),
{
    reveal(AppV::moused);
    reveal(AppV::left_released);
}

/// A right press opens the menu of what is under the pointer, around it:
/// that of a workspace or a screen entry, or that of the pane. Over neither
/// there is no menu, and while a prompt is open the prompt shakes instead.
pub proof fn law_menu_opens(app: AppV, i: int, x: u16, y: u16, facts: MouseFacts)
    ensures
        ({
            let down = MouseEvent { kind: MouseKind::RightDown, column: x, row: y };
            let after = app.moused(down, facts).0;
            &&& after.outbox == app.outbox
            &&& app.prompt is Some ==> after.menu == app.menu && after.shake_frames == 6
            &&& app.prompt is None && first_hit(app.hits, i, x, y) && app.hits[i].1 is Workspace ==> {
                let id = app.hits[i].1->Workspace_id;
                &&& after.menu is Some
                &&& after.menu->0.items == seq![
                    MenuAction::RenameWorkspace(id),
                    MenuAction::CopyWorkspaceId(id),
                    MenuAction::CloseWorkspace(id),
                ]
            }
            &&& app.prompt is None && first_hit(app.hits, i, x, y) && app.hits[i].1 is ScreenEntry
                ==> {
                let id = app.hits[i].1->ScreenEntry_id;
                &&& after.menu is Some
                &&& after.menu->0.items == seq![
                    MenuAction::RenameScreen(id),
                    MenuAction::CloseScreen(id),
                ]
            }
            &&& app.prompt is None && no_hit(app.hits, x, y) && first_area(app.pane_areas, i, x, y)
                ==> {
                let pane = app.pane_areas[i].pane;
                &&& after.menu is Some
                &&& after.menu->0.items == seq![
                    MenuAction::RenameTab(pane),
                    MenuAction::CopyTabId(pane),
                    MenuAction::CopyPaneId(pane),
                    MenuAction::NewTab(pane),
                    MenuAction::NewBrowserTab(pane),
                    MenuAction::SplitRight(pane),
                    MenuAction::SplitDown(pane),
                    MenuAction::CloseTab(pane),
                    MenuAction::ClosePane(pane),
                ]
            }
            &&& app.prompt is None && no_hit(app.hits, x, y) && (forall|j: int|
                0 <= j < app.pane_areas.len() ==> !(#[trigger] app.pane_areas[j]).rect.has(
                    x as int,
                    y as int,
                )) ==> after.menu is None
            &&& app.prompt is None && after.menu is Some ==> {
                &&& x > 0 ==> after.menu->0.rect.x == x - 1
                &&& y > 0 ==> after.menu->0.rect.y == y - 1
                &&& after.menu->0.selected == 0
                &&& after.menu->0.right_press == (x, y)
                &&& !after.menu->0.right_drag_moved
            }
        }),
{
    reveal(AppV::moused);
    reveal(AppV::menu_opened);
    if first_hit(app.hits, i, x, y) {
        lemma_first_hit(app, i, x, y);
    }
    if no_hit(app.hits, x, y) {
        lemma_no_hit(app, x, y);
    }
    if first_area(app.pane_areas, i, x, y) {
        lemma_first_area(app, i, x, y);
    }
    if forall|j: int|
        0 <= j < app.pane_areas.len() ==> !(#[trigger] app.pane_areas[j]).rect.has(
            x as int,
            y as int,
        ) {
        search::lemma_first_none(
            app.pane_areas,
            |area: PaneArea| area.rect.has(x as int, y as int),
        );
    }
}

/// A menu entry does what it says to the thing that it names.
pub proof fn law_menu_entries(app: AppV, id: u64, now: u64, i: int, w: int)
    requires
        drawn_at(app.pane_areas, i, id),
        0 <= w < app.tree.workspaces@.len(),
        app.tree.workspaces@[w].id == id,
        forall|v: int| 0 <= v < w ==> (#[trigger] app.tree.workspaces@[v]).id != id,
        app.tree.tab_in(id) is Some,
        app.tree.the_pane(id) is Some,
        app.tree.find_screen(id) is Some,
    ensures
        ({
            let does = |action: MenuAction, effect: UiEffectV|
                adds(app, app.activated(action, now), effect);
            let ws = app.tree.workspaces@[w];
            let tab = app.tree.tab_in(id)->0;
            let pane = app.tree.the_pane(id)->0;
            let screen = app.tree.find_screen(id)->0;
            let rect = Some(app.pane_areas[i].rect);
            &&& does(
                MenuAction::CloseWorkspace(id),
                UiEffectV::Ask(Request::CloseWorkspace { workspace: id }),
            )
            &&& does(
                MenuAction::CloseScreen(id),
                UiEffectV::Ask(Request::CloseScreen { screen: id }),
            )
            &&& does(MenuAction::ClosePane(id), UiEffectV::Ask(Request::ClosePane { pane: id }))
            &&& adds_both(
                app,
                app.activated(MenuAction::CloseTab(id), now),
                UiEffectV::ForgetRender(tab.surface),
                UiEffectV::Ask(Request::CloseSurface { surface: tab.surface }),
            )
            &&& does(
                MenuAction::NewTab(id),
                UiEffectV::AskOrQuit(Request::NewTab { pane: Some(id), size: None }),
            )
            &&& does(
                MenuAction::SplitRight(id),
                UiEffectV::Split { pane: id, dir: SplitDir::Right, rect },
            )
            &&& does(
                MenuAction::SplitDown(id),
                UiEffectV::Split { pane: id, dir: SplitDir::Down, rect },
            )
            &&& does(MenuAction::CopyWorkspaceId(id), UiEffectV::Copy(ws.short_id@))
            &&& does(MenuAction::CopyPaneId(id), UiEffectV::Copy(pane.short_id@))
            &&& does(MenuAction::CopyTabId(id), UiEffectV::Copy(tab.short_id@))
            &&& app.activated(MenuAction::CopyPaneId(id), now).toast is Some
            &&& app.activated(MenuAction::CopyPaneId(id), now).toast->0.text == "Copied "@
                + pane.short_id@
            &&& now <= u64::MAX - 1500 ==> app.activated(
                MenuAction::CopyPaneId(id),
                now,
            ).toast->0.deadline == now + 1500
            &&& prompts(
                app.activated(MenuAction::RenameWorkspace(id), now),
                "Rename workspace"@,
                ws.name@,
                PromptTarget::Workspace(id),
            )
            &&& prompts(
                app.activated(MenuAction::RenameScreen(id), now),
                "Rename screen"@,
                match screen.name {
                    Some(name) => name@,
                    None => seq![],
                },
                PromptTarget::Screen(id),
            )
            &&& prompts(
                app.activated(MenuAction::RenameTab(id), now),
                "Rename tab"@,
                match tab.name {
                    Some(name) => name@,
                    None => seq![],
                },
                PromptTarget::Surface(tab.surface),
            )
            &&& prompts(
                app.activated(MenuAction::NewBrowserTab(id), now),
                "New browser tab"@,
                "https://"@,
                PromptTarget::BrowserTab { pane: Some(id) },
            )
        }),
{
    reveal(AppV::activated);
    lemma_drawn_at(app, i, id);
    search::lemma_first_at(app.tree.workspaces@, |ws: WorkspaceView| ws.id == id, w);
}

/// An open menu: a left press on an entry, or a right release on it, does
/// what that entry says and closes the menu. A press outside closes it, and
/// one on its border leaves it. The release of the press that opened it does
/// nothing.
pub proof fn law_menu_used(app: AppV, row: int, x: u16, y: u16, facts: MouseFacts)
    requires
        app.prompt is None,
        app.menu is Some,
        app.menu->0.rect.fits(),
        app.menu->0.rect.height == app.menu->0.items.len() + 2,
        0 <= row < app.menu->0.items.len(),
    ensures
        ({
            let menu = app.menu->0;
            let on_entry = y == menu.rect.y + 1 + row && menu.rect.x < x && x + 1 < menu.rect.x
                + menu.rect.width;
            let down = MouseEvent { kind: MouseKind::LeftDown, column: x, row: y };
            let up = MouseEvent { kind: MouseKind::RightUp, column: x, row: y };
            let closed = AppV { menu: None, ..app };
            let calm = AppV { selection: None, drag: None, ..closed };
            &&& on_entry ==> app.moused(down, facts).0 == calm.activated(
                menu.items[row],
                facts.now,
            )
            &&& on_entry && (menu.right_drag_moved || (x, y) != menu.right_press) ==> app.moused(
                up,
                facts,
            ).0 == closed.activated(menu.items[row], facts.now)
            &&& !menu.right_drag_moved && (x, y) == menu.right_press ==> app.moused(up, facts).0
                == app
            &&& !menu.rect.has(x as int, y as int) ==> app.moused(down, facts).0 == calm
            &&& menu.rect.has(x as int, y as int) && (x == menu.rect.x || y == menu.rect.y || x + 1
                == menu.rect.x + menu.rect.width || y + 1 == menu.rect.y + menu.rect.height)
                ==> app.moused(down, facts).0.menu == app.menu && app.moused(
                down,
                facts,
            ).0.outbox == app.outbox
        }),
{
    reveal(AppV::moused);
    reveal(AppV::left_pressed);
    reveal(AppV::right_released);
}

/// Keys in an open menu move the selection by one within the entries, do what
/// the selected entry says, or close the menu.
pub proof fn law_menu_keys(app: AppV, key: KeyEvent, facts: KeyFacts)
    requires
        app.wf(),
        app.prompt is None,
        app.menu is Some,
        key.kind != KeyKind::Release,
    ensures
        ({
            let menu = app.menu->0;
            let after = app.keyed(key, facts).0;
            let n = menu.items.len();
            &&& key.code == KeyCode::Up && menu.selected > 0 ==> after.menu is Some
                && after.menu->0.selected == menu.selected - 1
            &&& key.code == KeyCode::Up && menu.selected == 0 ==> after.menu is Some
                && after.menu->0.selected == 0
            &&& key.code == KeyCode::Down && menu.selected < n - 1 ==> after.menu is Some
                && after.menu->0.selected == menu.selected + 1
            &&& key.code == KeyCode::Down && menu.selected == n - 1 ==> after.menu is Some
                && after.menu->0.selected == n - 1
            &&& key.code == KeyCode::Esc ==> after.menu is None && after.outbox == app.outbox
            &&& key.code == KeyCode::Enter ==> after.outbox == (AppV {
                menu: None,
                status_message: None,
                ..app
            }).activated(menu.items[menu.selected], facts.now).outbox
            &&& key.code != KeyCode::Enter && key.code != KeyCode::Esc ==> {
                &&& after.outbox == app.outbox
                &&& after.menu is Some
                &&& after.menu->0.items == menu.items
                &&& after.menu->0.rect == menu.rect
            }
        }),
{
    reveal(AppV::keyed);
    reveal(AppV::menu_keyed);
    reveal(AppV::activated);
}

/// A prompt that is committed closes and renames what it was opened for by
/// what was typed; a workspace's name cannot be emptied. One that is
/// cancelled closes and does nothing.
pub proof fn law_prompt(app: AppV, key: KeyEvent, facts: KeyFacts)
    requires
        app.prompt is Some,
        key.kind != KeyKind::Release,
    ensures
        ({
            let prompt = app.prompt->0;
            let after = app.keyed(key, facts).0;
            let rename = UiEffectV::Rename { target: prompt.target, name: prompt.input };
            &&& facts.input is Commit || facts.input is Cancel ==> after.prompt is None
                && after.shake_frames == 0
            &&& facts.input is Changed || facts.input is Ignored ==> after.prompt == app.prompt
            &&& !(facts.input is Commit) ==> after.outbox == app.outbox
            &&& facts.input is Commit ==> match prompt.target {
                PromptTarget::Workspace(_) => if prompt.input.len() == 0 {
                    after.outbox == app.outbox
                } else {
                    adds(app, after, rename)
                },
                PromptTarget::BrowserTab { pane } => {
                    let url = crate::text::trimmed(prompt.input);
                    if url.len() == 0 {
                        after.outbox == app.outbox
                    } else {
                        &&& after.outbox.len() == app.outbox.len() + 1
                        &&& after.outbox.last() is OpenBrowserTab
                        &&& after.outbox.last()->OpenBrowserTab_url == url
                        &&& after.outbox.last()->OpenBrowserTab_pane == pane
                    }
                },
                _ => adds(app, after, rename),
            }
        }),
{
    reveal(AppV::keyed);
    reveal(AppV::prompt_keyed);
}

/// A press while a prompt is open: OK commits it, Cancel or a press outside
/// dismisses it, Clear empties it, and one on the input puts the cursor under
/// the pointer. Anything else in the box does nothing.
pub proof fn law_prompt_pressed(app: AppV, x: u16, y: u16, facts: MouseFacts)
    requires
        app.prompt is Some,
    ensures
        ({
            let prompt = app.prompt->0;
            let down = MouseEvent { kind: MouseKind::LeftDown, column: x, row: y };
            let after = app.moused(down, facts).0;
            let on = |rect: Rect| rect.has(x as int, y as int);
            let calm = AppV { selection: None, drag: None, ..app };
            &&& on(prompt.ok) ==> after.prompt is None && after.outbox == calm.prompt_keyed(
                InputEvent::Commit,
            ).0.outbox
            &&& !on(prompt.ok) && on(prompt.clear) ==> {
                &&& after.prompt is Some
                &&& after.prompt->0.input.len() == 0
                &&& after.prompt->0.target == prompt.target
                &&& adds(app, after, UiEffectV::PromptClear)
            }
            &&& !on(prompt.ok) && !on(prompt.clear) && on(prompt.input_rect) ==> {
                &&& after.prompt == app.prompt
                &&& adds(
                    app,
                    after,
                    UiEffectV::PromptCursor {
                        column: x - prompt.input_rect.x,
                        width: prompt.input_rect.width,
                    },
                )
            }
            &&& !on(prompt.ok) && !on(prompt.clear) && !on(prompt.input_rect) ==> {
                &&& on(prompt.cancel) || !on(prompt.rect) ==> after.prompt is None
                &&& !on(prompt.cancel) && on(prompt.rect) ==> after.prompt == app.prompt
                &&& after.outbox == app.outbox
            }
        }),
{
    reveal(AppV::moused);
    reveal(AppV::left_pressed);
    reveal(AppV::prompt_clicked);
    reveal(AppV::prompt_keyed);
}

/// The wheel acts on what is under the pointer and focuses that pane: three
/// rows of a terminal's text, three cells of a page, one tab of a bar, or
/// arrow keys for an application that owns the screen. Up is back and down
/// is on.
pub proof fn law_wheel(app: AppV, i: int, x: u16, y: u16, down: bool, facts: MouseFacts)
    requires
        first_area(app.pane_areas, i, x, y),
        app.tree.the_active_pane() == Some(app.pane_areas[i].pane),
    ensures
        ({
            let area = app.pane_areas[i];
            let kind = if down {
                MouseKind::ScrollDown
            } else {
                MouseKind::ScrollUp
            };
            let sign: int = if down {
                1
            } else {
                -1
            };
            let after = app.moused(MouseEvent { kind, column: x, row: y }, facts).0;
            let bar = area.bar is Some && area.bar->0.has(x as int, y as int);
            let inside = area.content.has(x as int, y as int);
            &&& bar ==> {
                &&& after.outbox == app.outbox
                &&& after.tab_scroll.dom().contains(area.pane)
                &&& app.tab_scroll.dom().contains(area.pane) && 0 <= app.tab_scroll[area.pane]
                    + sign <= usize::MAX ==> after.tab_scroll[area.pane]
                    == app.tab_scroll[area.pane] + sign
            }
            &&& !bar && facts.reachable && facts.kind == SurfaceKind::Pty && !facts.alternate
                ==> adds(
                app,
                after,
                UiEffectV::Scroll { surface: area.surface, delta: 3 * sign },
            )
            &&& !bar && facts.reachable && facts.kind == SurfaceKind::Pty && facts.alternate
                ==> adds(app, after, UiEffectV::Arrows { surface: area.surface, down })
            &&& !bar && facts.reachable && facts.kind == SurfaceKind::Browser && inside ==> adds(
                app,
                after,
                UiEffectV::BrowserWheel {
                    surface: area.surface,
                    half_x: (2 * (x - area.content.x) + 1) * app.cell_pixels.0,
                    half_y: (2 * (y - area.content.y) + 1) * app.cell_pixels.1,
                    delta_y: if down {
                        3 * app.cell_pixels.1
                    } else {
                        -3 * app.cell_pixels.1
                    },
                },
            )
            &&& !bar && !facts.reachable ==> after.outbox == app.outbox
        }),
{
    reveal(AppV::moused);
    reveal(AppV::wheeled);
    lemma_first_area(app, i, x, y);
}

/// The wheel over a pane without the focus first gives it the focus.
pub proof fn law_wheel_focuses(app: AppV, i: int, x: u16, y: u16, facts: MouseFacts)
    requires
        first_area(app.pane_areas, i, x, y),
        app.tree.the_active_pane() != Some(app.pane_areas[i].pane),
    ensures
        ({
            let pane = app.pane_areas[i].pane;
            let focus = UiEffectV::Ask(Request::FocusPane { pane });
            let n = app.outbox.len() as int;
            let up = MouseEvent { kind: MouseKind::ScrollUp, column: x, row: y };
            let down = MouseEvent { kind: MouseKind::ScrollDown, column: x, row: y };
            &&& app.moused(up, facts).0.outbox.len() > n
            &&& app.moused(up, facts).0.outbox[n] == focus
            &&& app.moused(down, facts).0.outbox.len() > n
            &&& app.moused(down, facts).0.outbox[n] == focus
        }),
{
    reveal(AppV::moused);
    reveal(AppV::wheeled);
    lemma_first_area(app, i, x, y);
}

/// A digit after the prefix selects the tab with that number, counted from
/// one, in the active pane; a bound key does its action, and the prefix is
/// then over. The prefix alone does nothing yet.
pub proof fn law_prefix_keys(app: AppV, key: KeyEvent, facts: KeyFacts, digit: int)
    requires
        key.kind != KeyKind::Release,
        app.prompt is None,
        app.menu is None,
        facts.modeless is None,
        1 <= digit <= 9,
    ensures
        ({
            let after = app.keyed(key, facts).0;
            let calm = AppV { status_message: None, prefix_armed: false, ..app };
            &&& !app.prefix_armed && facts.is_prefix ==> after.prefix_armed && after.outbox
                == app.outbox
            &&& app.prefix_armed ==> !after.prefix_armed
            &&& app.prefix_armed && !facts.is_prefix && key.code is Char && key.code->Char_0 as int
                == '0' as int + digit ==> adds(
                app,
                after,
                UiEffectV::Ask(
                    Request::SelectTab {
                        pane: app.tree.the_active_pane(),
                        index: Some((digit - 1) as usize),
                        delta: None,
                    },
                ),
            )
            &&& app.prefix_armed && !facts.is_prefix && !(key.code is Char) && facts.bound is Some
                ==> after == calm.acted(facts.bound->0, facts.active_kind).0
            &&& app.prefix_armed && !facts.is_prefix && !(key.code is Char) && facts.bound is None
                ==> after == calm
        }),
{
    reveal(AppV::keyed);
    reveal(AppV::plain_keyed);
    reveal(AppV::prefix_keyed);
    reveal(AppV::acted);
}

/// A key that is typed goes to the tab with the focus: as it is to a
/// terminal, as a character to a page. So does pasted text, unless a prompt
/// is open, which then takes it.
pub proof fn law_typed_into(app: AppV, key: KeyEvent, facts: KeyFacts, w: int, s: int, p: int, t: int)
    requires
        on_screen(app.tree, w, s),
        in_tab(app.tree.workspaces@[w].screens@[s], p, t),
        key.kind != KeyKind::Release,
        app.prompt is None,
        app.menu is None,
        facts.modeless is None,
        !app.prefix_armed,
        !facts.is_prefix,
    ensures
        ({
            let surface = app.tree.workspaces@[w].screens@[s].panes@[p].tabs@[t].surface;
            let after = app.keyed(key, facts).0;
            let plain = !key.modifiers.control && !key.modifiers.alt && !key.modifiers.super_key;
            &&& facts.active_kind == Some(SurfaceKind::Pty) ==> adds(
                app,
                after,
                UiEffectV::TypeKey { surface, key },
            )
            &&& facts.active_kind == Some(SurfaceKind::Browser) && key.code is Char && plain
                ==> adds(
                app,
                after,
                UiEffectV::BrowserChar { surface, c: key.code->Char_0 },
            )
            &&& facts.active_kind is None ==> after.outbox == app.outbox
        }),
{
    reveal(AppV::keyed);
    reveal(AppV::plain_keyed);
    lemma_in_tab(app.tree, w, s, p, t);
}

/// Pasted text goes to the open prompt, else to the tab with the focus.
pub proof fn law_paste(app: AppV, text: Seq<char>, w: int, s: int, p: int, t: int)
    requires
        on_screen(app.tree, w, s),
        in_tab(app.tree.workspaces@[w].screens@[s], p, t),
    ensures
        ({
            let surface = app.tree.workspaces@[w].screens@[s].panes@[p].tabs@[t].surface;
            let pty = app.pasted(text, Some(SurfaceKind::Pty)).0;
            let page = app.pasted(text, Some(SurfaceKind::Browser)).0;
            &&& app.prompt is Some ==> adds(app, pty, UiEffectV::PromptInsert(text)) && adds(
                app,
                page,
                UiEffectV::PromptInsert(text),
            )
            &&& app.prompt is None ==> adds(app, pty, UiEffectV::Paste { surface, text }) && adds(
                app,
                page,
                UiEffectV::BrowserText { surface, text },
            )
        }),
{
    lemma_in_tab(app.tree, w, s, p, t);
}

/// A surface that is gone is dropped with what was drawn of it, and with a
/// selection in it; a selection elsewhere stays. When the session is empty
/// the frontend ends.
pub proof fn law_notified(app: AppV, id: SurfaceId)
    ensures
        ({
            let after = app.notified(crate::mux::MuxEvent::SurfaceExited(id)).0;
            &&& adds_both(app, after, UiEffectV::ForgetRender(id), UiEffectV::ForgetSurface(id))
            &&& app.selection is Some && app.selection->0.surface == id ==> after.selection is None
            &&& app.selection is Some && app.selection->0.surface != id ==> after.selection
                == app.selection
            &&& after.quit == app.quit
        }),
        app.notified(crate::mux::MuxEvent::Empty).0.quit,
        app.notified(crate::mux::MuxEvent::Empty).0.outbox == app.outbox,
{
}

/// The pointer is a hand exactly over what can be clicked, and its shape is
/// set only when it changes.
pub proof fn law_hover(app: AppV, x: u16, y: u16, i: int, facts: MouseFacts)
    requires
        app.prompt is None,
        app.menu is None,
        first_hit(app.hits, i, x, y) || no_hit(app.hits, x, y),
    ensures
        ({
            let event = MouseEvent { kind: MouseKind::Moved, column: x, row: y };
            let after = app.moused(event, facts).0;
            let hand = first_hit(app.hits, i, x, y);
            &&& after.pointer_shape == hand
            &&& hand == app.pointer_shape ==> after.outbox == app.outbox
            &&& hand != app.pointer_shape ==> adds(app, after, UiEffectV::Pointer { hand })
            &&& after.hover == Some((x, y))
            &&& after.drag == app.drag
            &&& after.selection == app.selection
        }),
{
    reveal(AppV::moused);
    reveal(AppV::hovered);
    if first_hit(app.hits, i, x, y) {
        lemma_first_hit(app, i, x, y);
    } else {
        lemma_no_hit(app, x, y);
    }
}

/// The pointer in an open menu, with or without the right button held,
/// selects the entry that it is on; elsewhere the selection stays.
pub proof fn law_menu_pointed(app: AppV, row: int, x: u16, y: u16, facts: MouseFacts)
    requires
        app.wf(),
        app.prompt is None,
        app.menu is Some,
        app.menu->0.rect.fits(),
        app.menu->0.rect.height == app.menu->0.items.len() + 2,
        0 <= row < app.menu->0.items.len(),
    ensures
        ({
            let menu = app.menu->0;
            let moved = MouseEvent { kind: MouseKind::Moved, column: x, row: y };
            let dragged = MouseEvent { kind: MouseKind::RightDrag, column: x, row: y };
            let on_entry = y == menu.rect.y + 1 + row && menu.rect.x < x && x + 1 < menu.rect.x
                + menu.rect.width;
            let a = app.moused(moved, facts).0;
            let b = app.moused(dragged, facts).0;
            &&& a.menu is Some && b.menu is Some
            &&& a.menu->0.items == menu.items && b.menu->0.items == menu.items
            &&& on_entry ==> a.menu->0.selected == row && b.menu->0.selected == row
            &&& !menu.rect.has(x as int, y as int) ==> a.menu->0.selected == menu.selected
                && b.menu->0.selected == menu.selected
            &&& b.outbox == app.outbox
            &&& (x, y) != menu.right_press ==> b.menu->0.right_drag_moved
        }),
{
    reveal(AppV::moused);
    reveal(AppV::hovered);
    reveal(AppV::right_dragged);
}

/// Whoever uses a frontend claims the size of every pane that it shows: each
/// with a cell in it, at the size of its content.
pub proof fn law_sizes_claimed(areas: Seq<PaneArea>, i: int)
    requires
        0 <= i < areas.len(),
    ensures
        ({
            let claims = crate::app_keys::reassertions(areas);
            let content = areas[i].content;
            &&& content.width > 0 && content.height > 0 ==> claims.contains(
                UiEffectV::Reassert {
                    surface: areas[i].surface,
                    cols: content.width,
                    rows: content.height,
                },
            )
            &&& forall|k: int| 0 <= k < claims.len() ==> (#[trigger] claims[k]) is Reassert
            &&& claims.len() <= areas.len()
        }),
    decreases areas.len(),
{
    let before = areas.drop_last();
    let head = crate::app_keys::reassertions(before);
    let claims = crate::app_keys::reassertions(areas);
    if before.len() > 0 {
        law_sizes_claimed(
            before,
            if i < before.len() {
                i
            } else {
                0
            },
        );
    } else {
        assert(head.len() == 0);
    }
    let content = areas[i].content;
    if content.width > 0 && content.height > 0 {
        let it = UiEffectV::Reassert {
            surface: areas[i].surface,
            cols: content.width,
            rows: content.height,
        };
        if i < before.len() {
            assert(before[i] == areas[i]);
            let k = choose|k: int| 0 <= k < head.len() && head[k] == it;
            assert(claims[k] == it);
        } else {
            assert(claims[head.len() as int] == it);
        }
    }
}

/// A resize of the terminal looks up the size of a cell and drops everything
/// that was drawn.
pub proof fn law_terminal_resized(app: AppV)
    ensures
        ({
            let (after, outcome) = app.happened(crate::frontend::AppEvent::Resize);
            &&& adds_both(app, after, UiEffectV::RefreshCellPixels, UiEffectV::ClearRenders)
            &&& outcome.needs_draw
        }),
{
    reveal(AppV::happened);
}

/// A key that a page knows by name is pressed there, and released again at
/// once unless it repeats; only the press carries the text that it types.
/// Both name the modifiers that are held.
pub proof fn law_page_keys(surface: SurfaceId, key: KeyEvent)
    requires
        !(key.code is Char),
        !(key.code is Other),
    ensures
        ({
            let effects = crate::app::browser_key_effects(surface, key);
            let modifiers = crate::input::modifier_bits(key.modifiers);
            &&& effects.len() == if key.kind is Press {
                2int
            } else {
                1int
            }
            &&& effects[0] is BrowserKey
            &&& effects[0]->BrowserKey_surface == surface
            &&& effects[0]->BrowserKey_down
            &&& effects[0]->BrowserKey_modifiers == modifiers
            &&& (effects[0]->BrowserKey_key.text is Some) == (key.code is Enter)
            &&& key.kind is Press ==> {
                &&& effects[1] is BrowserKey
                &&& effects[1]->BrowserKey_surface == surface
                &&& !effects[1]->BrowserKey_down
                &&& effects[1]->BrowserKey_modifiers == modifiers
                &&& effects[1]->BrowserKey_key.text is None
                &&& effects[1]->BrowserKey_key.key == effects[0]->BrowserKey_key.key
                &&& effects[1]->BrowserKey_key.code == effects[0]->BrowserKey_key.code
                &&& effects[1]->BrowserKey_key.windows_virtual_key_code
                    == effects[0]->BrowserKey_key.windows_virtual_key_code
            }
        }),
{
}

} // verus!
