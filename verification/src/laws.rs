//! What holds of a session as a whole.

use vstd::prelude::*;

use crate::browser;
use crate::consistency;
use crate::model::{Screen, StateV};
use crate::mux;
use crate::mux::{Effect, MuxEvent, MuxV};
use crate::node;
use crate::node::{PaneId, ScreenId, SplitDir, SurfaceId, WorkspaceId};
use crate::ops;
use crate::surface::Surface;

verus! {

impl StateV {
    /// `pane` is in the screen `screen` of the workspace `workspace`.
    pub open spec fn lies(self, workspace: WorkspaceId, screen: ScreenId, pane: PaneId) -> bool {
        exists|w: int, s: int| #[trigger]
            self.holds(w, s, pane) && self.workspaces[w].id == workspace && self.screen(w, s).id
                == screen
    }
}

/// Where screen `s` of workspace `w` of `a` is in `a` without screen `t` of
/// workspace `v`.
spec fn moved_up(a: StateV, v: int, t: int, w: int, s: int) -> (int, int) {
    if a.workspaces[v].screens.len() > 1 {
        if w == v && s > t {
            (w, s - 1)
        } else {
            (w, s)
        }
    } else if w > v {
        (w - 1, s)
    } else {
        (w, s)
    }
}

/// Taking out the screen of a lone pane leaves the others where they are.
proof fn lemma_without_screen_lies(
    a: StateV,
    v: int,
    t: int,
    workspace: WorkspaceId,
    screen: ScreenId,
    pane: PaneId,
)
    requires
        a.layout_wf(),
        a.has_screen(v, t),
    ensures
        a.without_screen(v, t).lies(workspace, screen, pane) == (a.lies(workspace, screen, pane)
            && !a.holds(v, t, pane)),
{
    let b = a.without_screen(v, t);
    let ws = a.workspaces[v];
    if a.lies(workspace, screen, pane) && !a.holds(v, t, pane) {
        let (w, s) = choose|w: int, s: int| #[trigger]
            a.holds(w, s, pane) && a.workspaces[w].id == workspace && a.screen(w, s).id == screen;
        let (x, y) = moved_up(a, v, t, w, s);
        assert(b.holds(x, y, pane) && b.workspaces[x].id == workspace && b.screen(x, y).id
            == screen);
    }
    if b.lies(workspace, screen, pane) {
        let (x, y) = choose|w: int, s: int| #[trigger]
            b.holds(w, s, pane) && b.workspaces[w].id == workspace && b.screen(w, s).id == screen;
        if ws.screens.len() > 1 {
            let s = if x == v && y >= t {
                y + 1
            } else {
                y
            };
            assert(a.holds(x, s, pane) && a.workspaces[x].id == workspace && a.screen(x, s).id
                == screen);
            assert(!(x == v && s == t));
        } else {
            let w = if x >= v {
                x + 1
            } else {
                x
            };
            assert(a.holds(w, y, pane) && a.workspaces[w].id == workspace && a.screen(w, y).id
                == screen);
            assert(w != v);
        }
    }
}

/// Closing a pane leaves the others where they are.
proof fn lemma_without_pane_lies(
    a: StateV,
    pane: PaneId,
    workspace: WorkspaceId,
    screen: ScreenId,
    other: PaneId,
)
    requires
        a.layout_wf(),
        a.panes.contains_key(pane),
    ensures
        a.without_pane(pane).lies(workspace, screen, other) == (a.lies(workspace, screen, other)
            && other != pane),
{
    assert(a.placed(pane));
    let (v, t) = a.screen_of(pane)->0;
    assert(a.holds(v, t, pane));
    let root = a.screen(v, t).root;
    let b = a.without_pane(pane);
    node::lemma_without_has(root, pane, other);
    node::lemma_without_has(root, pane, pane);
    if root.without(pane) is None {
        let rest = StateV { panes: a.panes.remove(pane), ..a };
        let c = a.without_screen(v, t);
        assert(b.workspaces == c.workspaces);
        lemma_without_screen_lies(a, v, t, workspace, screen, other);
        assert forall|w: int, s: int| #[trigger] b.holds(w, s, other) == c.holds(w, s, other) by {}
        assert(b.lies(workspace, screen, other) == c.lies(workspace, screen, other)) by {
            if c.lies(workspace, screen, other) {
                let (w, s) = choose|w: int, s: int| #[trigger]
                    c.holds(w, s, other) && c.workspaces[w].id == workspace && c.screen(w, s).id
                        == screen;
                assert(b.holds(w, s, other));
            }
        }
        assert(a.has_screen(v, t));
        assert(a.holds(v, t, other) == (other == pane));
    } else {
        let rest = root.without(pane)->0;
        assert forall|w: int, s: int| #[trigger] b.has_screen(w, s) == a.has_screen(w, s) by {}
        assert forall|w: int, s: int| #[trigger] b.has_screen(w, s) implies b.workspaces[w].id
            == a.workspaces[w].id && b.screen(w, s).id == a.screen(w, s).id by {}
        assert forall|w: int, s: int| #[trigger] b.holds(w, s, other) == (a.holds(w, s, other)
            && other != pane) by {
            if w == v && s == t {
                assert(b.has_screen(w, s) == a.has_screen(w, s));
            } else {
                assert(b.has_screen(w, s) == a.has_screen(w, s));
                if a.holds(w, s, pane) {
                    assert(a.holds(v, t, pane));
                }
            }
        }
        if a.lies(workspace, screen, other) && other != pane {
            let (w, s) = choose|w: int, s: int| #[trigger]
                a.holds(w, s, other) && a.workspaces[w].id == workspace && a.screen(w, s).id
                    == screen;
            assert(b.holds(w, s, other));
        }
        if b.lies(workspace, screen, other) {
            let (w, s) = choose|w: int, s: int| #[trigger]
                b.holds(w, s, other) && b.workspaces[w].id == workspace && b.screen(w, s).id
                    == screen;
            assert(a.holds(w, s, other));
        }
    }
}

/// `b` is `a` without the tabs `gone`: a pane goes with its last tab, a
/// screen with its last pane, a workspace with its last screen. Whatever stays
/// is where it was, and a pane that loses no tab stays as it was.
pub open spec fn pruned(a: StateV, b: StateV, gone: spec_fn(SurfaceId) -> bool) -> bool {
    &&& b.wf()
    &&& forall|q: PaneId, t: SurfaceId| #[trigger] b.owns(q, t) == (a.owns(q, t) && !gone(t))
    &&& forall|q: PaneId| #[trigger]
        b.panes.contains_key(q) && (forall|t: SurfaceId| #[trigger] a.owns(q, t) ==> !gone(t))
            ==> b.panes[q] == a.panes[q]
    &&& forall|t: SurfaceId| #[trigger]
        b.surfaces.contains_key(t) == (a.surfaces.contains_key(t) && !gone(t))
    &&& forall|t: SurfaceId| #[trigger]
        b.surfaces.contains_key(t) ==> b.surfaces[t] == a.surfaces[t]
    &&& forall|w: WorkspaceId, s: ScreenId, p: PaneId| #[trigger]
        b.lies(w, s, p) == (a.lies(w, s, p) && b.panes.contains_key(p))
}

/// Closing a tab takes that tab out of the session, and nothing else but
/// what is empty without it.
pub proof fn law_close_tab(a: StateV, surface: SurfaceId)
    requires
        a.wf(),
    ensures
        pruned(a, a.without_surface(surface), |t: SurfaceId| t == surface),
{
    let b = a.without_surface(surface);
    let rest = StateV { surfaces: a.surfaces.remove(surface), ..a };
    consistency::lemma_without_surface_wf(a, surface);
    consistency::lemma_surfaces_apart(a, rest);
    assert forall|w: WorkspaceId, s: ScreenId, p: PaneId| #[trigger] rest.lies(w, s, p) == a.lies(
        w,
        s,
        p,
    ) by {
        lemma_same_lies(a, rest, w, s, p);
    }
    if let Some(pane) = a.pane_of(surface) {
        assert(a.owns(pane, surface));
        assert(rest.owns(pane, surface));
        consistency::lemma_without_tab_wf(rest, pane, surface);
    }
    assert forall|w: WorkspaceId, s: ScreenId, p: PaneId| #[trigger] b.lies(w, s, p) == (a.lies(
        w,
        s,
        p,
    ) && b.panes.contains_key(p)) by {
        assert(rest.lies(w, s, p) == a.lies(w, s, p));
        lemma_lies_pane(rest, w, s, p);
        match a.pane_of(surface) {
            None => {},
            Some(pane) => {
                assert(a.owns(pane, surface));
                if rest.panes[pane].tabs.len() == 1 {
                    lemma_without_pane_lies(rest, pane, w, s, p);
                } else {
                    lemma_same_lies(rest, b, w, s, p);
                }
            },
        }
    }
}

/// Where panes lie rests on the workspaces.
proof fn lemma_same_lies(a: StateV, b: StateV, workspace: WorkspaceId, screen: ScreenId, pane: PaneId)
    requires
        a.workspaces == b.workspaces,
    ensures
        b.lies(workspace, screen, pane) == a.lies(workspace, screen, pane),
{
    assert forall|w: int, s: int| #[trigger] b.holds(w, s, pane) == a.holds(w, s, pane) by {}
    if a.lies(workspace, screen, pane) {
        let (w, s) = choose|w: int, s: int| #[trigger]
            a.holds(w, s, pane) && a.workspaces[w].id == workspace && a.screen(w, s).id == screen;
        assert(b.holds(w, s, pane));
    }
    if b.lies(workspace, screen, pane) {
        let (w, s) = choose|w: int, s: int| #[trigger]
            b.holds(w, s, pane) && b.workspaces[w].id == workspace && b.screen(w, s).id == screen;
        assert(a.holds(w, s, pane));
    }
}

/// Only panes lie somewhere.
proof fn lemma_lies_pane(a: StateV, workspace: WorkspaceId, screen: ScreenId, pane: PaneId)
    requires
        a.layout_wf(),
    ensures
        a.lies(workspace, screen, pane) ==> a.panes.contains_key(pane),
{
    if a.lies(workspace, screen, pane) {
        let (w, s) = choose|w: int, s: int| #[trigger]
            a.holds(w, s, pane) && a.workspaces[w].id == workspace && a.screen(w, s).id == screen;
        assert(a.holds(w, s, pane));
    }
}

/// Closing tabs one after the other takes out those tabs, and nothing else
/// but what is empty without them.
pub proof fn law_close_tabs(a: StateV, tabs: Seq<SurfaceId>)
    requires
        a.wf(),
    ensures
        pruned(a, mux::without_all(a, tabs), |t: SurfaceId| tabs.contains(t)),
    decreases tabs.len(),
{
    let b = mux::without_all(a, tabs);
    if tabs.len() == 0 {
        assert forall|w: WorkspaceId, s: ScreenId, p: PaneId| #[trigger] b.lies(w, s, p) == (
        a.lies(w, s, p) && b.panes.contains_key(p)) by {
            lemma_lies_pane(a, w, s, p);
        }
    } else {
        let first = tabs.drop_last();
        let c = mux::without_all(a, first);
        law_close_tabs(a, first);
        law_close_tab(c, tabs.last());
        assert forall|t: SurfaceId| #[trigger] tabs.contains(t) == (first.contains(t) || t
            == tabs.last()) by {
            if tabs.contains(t) {
                let k = tabs.index_of(t);
                if k < first.len() {
                    assert(first[k] == t);
                }
            }
            if first.contains(t) {
                assert(tabs[first.index_of(t)] == t);
            }
            if t == tabs.last() {
                assert(tabs[tabs.len() - 1] == t);
            }
        }
        assert forall|q: PaneId| #[trigger] b.panes.contains_key(q) && (forall|t: SurfaceId|
         #[trigger]
            a.owns(q, t) ==> !tabs.contains(t)) implies b.panes[q] == a.panes[q] by {
            lemma_has_tab(b, q);
            assert(c.owns(q, b.panes[q].tabs[0]));
            assert forall|t: SurfaceId| #[trigger] a.owns(q, t) implies !first.contains(t) by {
                assert(!tabs.contains(t));
            }
            assert forall|t: SurfaceId| #[trigger] c.owns(q, t) implies t != tabs.last() by {
                assert(a.owns(q, t));
            }
        }
        assert forall|w: WorkspaceId, s: ScreenId, p: PaneId| #[trigger] b.lies(w, s, p) == (
        a.lies(w, s, p) && b.panes.contains_key(p)) by {
            assert(b.lies(w, s, p) == (c.lies(w, s, p) && b.panes.contains_key(p)));
            if b.panes.contains_key(p) {
                lemma_has_tab(b, p);
                let t = b.panes[p].tabs[0];
                assert(b.owns(p, t));
                assert(c.owns(p, t));
            }
        }
    }
}

/// A pane has a tab.
proof fn lemma_has_tab(a: StateV, pane: PaneId)
    requires
        a.wf(),
        a.panes.contains_key(pane),
    ensures
        a.owns(pane, a.panes[pane].tabs[0]),
{
    assert(a.panes[pane].wf());
    assert(a.panes[pane].tabs.contains(a.panes[pane].tabs[0]));
}

/// Closing a pane takes it and its tabs out of the session; the other panes
/// keep their tabs and their place.
pub proof fn law_close_pane(m: MuxV, pane: PaneId)
    requires
        m.wf(),
        m.state.panes.contains_key(pane),
    ensures
        pruned(m.state, m.pane_closed(pane).state, |t: SurfaceId| m.state.owns(pane, t)),
        forall|q: PaneId| #[trigger]
            m.pane_closed(pane).state.panes.contains_key(q) == (m.state.panes.contains_key(q) && q
                != pane),
{
    let a = m.state;
    let tabs = a.panes[pane].tabs;
    let b = m.pane_closed(pane).state;
    law_close_tabs(a, tabs);
    assert forall|t: SurfaceId| #[trigger] tabs.contains(t) == a.owns(pane, t) by {}
    assert forall|q: PaneId| #[trigger] b.panes.contains_key(q) == (a.panes.contains_key(q) && q
        != pane) by {
        if b.panes.contains_key(q) {
            lemma_has_tab(b, q);
            assert(a.owns(q, b.panes[q].tabs[0]));
        }
        if a.panes.contains_key(q) && q != pane {
            lemma_has_tab(a, q);
            let t = a.panes[q].tabs[0];
            assert(!a.owns(pane, t)) by {
                if a.owns(pane, t) {
                    assert(a.owns(q, t));
                }
            }
            assert(b.owns(q, t));
        }
    }
}

/// The tabs of some panes.
proof fn lemma_tabs_of(a: StateV, ids: Seq<PaneId>, t: SurfaceId)
    ensures
        ops::tabs_of(a.panes, ids).contains(t) <==> exists|p: PaneId| #[trigger]
            ids.contains(p) && a.owns(p, t),
    decreases ids.len(),
{
    let all = ops::tabs_of(a.panes, ids);
    if ids.len() > 0 {
        let first = ids.drop_last();
        let rest = ops::tabs_of(a.panes, first);
        let last = ids.last();
        lemma_tabs_of(a, first, t);
        let own = if a.panes.contains_key(last) {
            a.panes[last].tabs
        } else {
            seq![]
        };
        assert(all =~= rest + own);
        if all.contains(t) {
            let k = all.index_of(t);
            if k < rest.len() {
                assert(rest[k] == t);
                let p = choose|p: PaneId| #[trigger] first.contains(p) && a.owns(p, t);
                assert(ids[first.index_of(p)] == p);
                assert(ids.contains(p) && a.owns(p, t));
            } else {
                assert(own[k - rest.len()] == t);
                assert(ids[ids.len() - 1] == last);
                assert(ids.contains(last) && a.owns(last, t));
            }
        }
        if exists|p: PaneId| #[trigger] ids.contains(p) && a.owns(p, t) {
            let p = choose|p: PaneId| #[trigger] ids.contains(p) && a.owns(p, t);
            let k = ids.index_of(p);
            if k < first.len() {
                assert(first[k] == p);
                assert(first.contains(p) && a.owns(p, t));
                assert(all[rest.index_of(t)] == t);
            } else {
                assert(all[rest.len() + own.index_of(t)] == t);
            }
        }
    }
}

/// The tabs of a screen are those of its panes.
proof fn lemma_screen_tabs(a: StateV, w: int, s: int, t: SurfaceId)
    requires
        a.has_screen(w, s),
    ensures
        a.screen_tabs(a.screen(w, s)).contains(t) <==> exists|p: PaneId| #[trigger]
            a.holds(w, s, p) && a.owns(p, t),
{
    let root = a.screen(w, s).root;
    lemma_tabs_of(a, root.leaves(), t);
    assert forall|p: PaneId| #[trigger] a.holds(w, s, p) == root.leaves().contains(p) by {
        node::lemma_has_leaves(root, p);
    }
    if a.screen_tabs(a.screen(w, s)).contains(t) {
        let p = choose|p: PaneId| #[trigger] root.leaves().contains(p) && a.owns(p, t);
        assert(a.holds(w, s, p) == root.leaves().contains(p));
    }
}

/// A screen that is there holds a pane.
proof fn lemma_screen_has_pane(a: StateV, w: int, s: int)
    requires
        a.wf(),
        a.has_screen(w, s),
    ensures
        a.lies(a.workspaces[w].id, a.screen(w, s).id, a.screen(w, s).active_pane),
        a.panes.contains_key(a.screen(w, s).active_pane),
{
    assert(a.holds(w, s, a.screen(w, s).active_pane));
}

/// Closing a screen takes it out of the session with its panes and their
/// tabs; the other panes keep their tabs and their place.
pub proof fn law_close_screen(m: MuxV, screen: ScreenId)
    requires
        m.wf(),
        m.state.screen_index(screen) is Some,
    ensures
        m.screen_closed(screen).state.screen_index(screen) is None,
        pruned(
            m.state,
            m.screen_closed(screen).state,
            |t: SurfaceId|
                exists|w: WorkspaceId, p: PaneId| #[trigger]
                    m.state.lies(w, screen, p) && m.state.owns(p, t),
        ),
{
    let a = m.state;
    let (v, u) = a.screen_index(screen)->0;
    assert(a.is_screen(v, u, screen));
    assert(a.has_screen(v, u));
    let tabs = a.screen_tabs(a.screen(v, u));
    let b = m.screen_closed(screen).state;
    let gone = |t: SurfaceId|
        exists|w: WorkspaceId, p: PaneId| #[trigger]
            a.lies(w, screen, p) && a.owns(p, t);
    law_close_tabs(a, tabs);
    assert forall|w: WorkspaceId, p: PaneId| #[trigger] a.lies(w, screen, p) implies a.holds(
        v,
        u,
        p,
    ) by {
        let (x, y) = choose|x: int, y: int| #[trigger]
            a.holds(x, y, p) && a.workspaces[x].id == w && a.screen(x, y).id == screen;
        assert(a.is_screen(x, y, screen));
    }
    assert forall|t: SurfaceId| #[trigger] tabs.contains(t) == gone(t) by {
        lemma_screen_tabs(a, v, u, t);
        if exists|p: PaneId| #[trigger] a.holds(v, u, p) && a.owns(p, t) {
            let p = choose|p: PaneId| #[trigger] a.holds(v, u, p) && a.owns(p, t);
            assert(a.lies(a.workspaces[v].id, screen, p));
        }
    }
    assert(pruned(a, b, gone));
    assert forall|w: int, s: int| !b.is_screen(w, s, screen) by {
        if b.is_screen(w, s, screen) {
            let p = b.screen(w, s).active_pane;
            lemma_screen_has_pane(b, w, s);
            assert(a.lies(b.workspaces[w].id, screen, p));
            lemma_has_tab(b, p);
            assert(gone(b.panes[p].tabs[0]));
        }
    }
}

/// The tabs of some screens.
proof fn lemma_screens_tabs(a: StateV, screens: Seq<Screen>, t: SurfaceId)
    ensures
        mux::screens_tabs(a, screens).contains(t) <==> exists|s: int|
            0 <= s < screens.len() && #[trigger] a.screen_tabs(screens[s]).contains(t),
    decreases screens.len(),
{
    let all = mux::screens_tabs(a, screens);
    if screens.len() > 0 {
        let first = screens.drop_last();
        let rest = mux::screens_tabs(a, first);
        let own = a.screen_tabs(screens.last());
        lemma_screens_tabs(a, first, t);
        assert(all == rest + own);
        if all.contains(t) {
            let k = all.index_of(t);
            if k < rest.len() {
                assert(rest[k] == t);
                let s = choose|s: int|
                    0 <= s < first.len() && #[trigger] a.screen_tabs(first[s]).contains(t);
                assert(a.screen_tabs(screens[s]).contains(t));
            } else {
                assert(own[k - rest.len()] == t);
                assert(a.screen_tabs(screens[screens.len() - 1]).contains(t));
            }
        }
        if exists|s: int| 0 <= s < screens.len() && #[trigger] a.screen_tabs(screens[s]).contains(t) {
            let s = choose|s: int|
                0 <= s < screens.len() && #[trigger] a.screen_tabs(screens[s]).contains(t);
            if s < first.len() {
                assert(a.screen_tabs(first[s]).contains(t));
                assert(all[rest.index_of(t)] == t);
            } else {
                assert(all[rest.len() + own.index_of(t)] == t);
            }
        }
    }
}

/// Closing a workspace takes it out of the session with everything in it;
/// the other panes keep their tabs and their place.
pub proof fn law_close_workspace(m: MuxV, workspace: WorkspaceId)
    requires
        m.wf(),
        m.state.workspace_index(workspace) is Some,
    ensures
        m.workspace_closed(workspace).state.workspace_index(workspace) is None,
        pruned(
            m.state,
            m.workspace_closed(workspace).state,
            |t: SurfaceId|
                exists|s: ScreenId, p: PaneId| #[trigger]
                    m.state.lies(workspace, s, p) && m.state.owns(p, t),
        ),
{
    let a = m.state;
    let v = a.workspace_index(workspace)->0;
    assert(a.is_workspace(v, workspace));
    let screens = a.workspaces[v].screens;
    let tabs = mux::screens_tabs(a, screens);
    let b = m.workspace_closed(workspace).state;
    let gone = |t: SurfaceId|
        exists|s: ScreenId, p: PaneId| #[trigger]
            a.lies(workspace, s, p) && a.owns(p, t);
    law_close_tabs(a, tabs);
    assert forall|t: SurfaceId| #[trigger] tabs.contains(t) == gone(t) by {
        lemma_screens_tabs(a, screens, t);
        if tabs.contains(t) {
            let s = choose|s: int|
                0 <= s < screens.len() && #[trigger] a.screen_tabs(screens[s]).contains(t);
            assert(a.has_screen(v, s));
            lemma_screen_tabs(a, v, s, t);
            let p = choose|p: PaneId| #[trigger] a.holds(v, s, p) && a.owns(p, t);
            assert(a.lies(workspace, a.screen(v, s).id, p));
        }
        if gone(t) {
            let (s, p) = choose|s: ScreenId, p: PaneId| #[trigger]
                a.lies(workspace, s, p) && a.owns(p, t);
            let (x, y) = choose|x: int, y: int| #[trigger]
                a.holds(x, y, p) && a.workspaces[x].id == workspace && a.screen(x, y).id == s;
            assert(a.is_workspace(x, workspace));
            assert(x == v);
            lemma_screen_tabs(a, v, y, t);
            assert(a.holds(v, y, p) && a.owns(p, t));
            assert(a.screen_tabs(screens[y]).contains(t));
        }
    }
    assert(pruned(a, b, gone));
    assert forall|w: int| !b.is_workspace(w, workspace) by {
        if b.is_workspace(w, workspace) {
            assert(b.workspaces[w].wf());
            let s = b.workspaces[w].active_screen;
            assert(b.has_screen(w, s));
            let p = b.screen(w, s).active_pane;
            lemma_screen_has_pane(b, w, s);
            assert(a.lies(workspace, b.screen(w, s).id, p));
            lemma_has_tab(b, p);
            assert(gone(b.panes[p].tabs[0]));
        }
    }
}

/// The end of the last workspace is announced, and it alone is.
pub proof fn law_end_announced(m: MuxV, tabs: Seq<SurfaceId>)
    ensures
        ({
            let n = m.closed_all(tabs);
            let told = n.outbox.subrange(m.outbox.len() as int, n.outbox.len() as int);
            &&& told.contains(Effect::Emit(MuxEvent::Empty)) <==> n.state.workspaces.len() == 0
            &&& told.contains(Effect::Emit(MuxEvent::TreeChanged)) <==> mux::removed_of(
                m.state,
                tabs,
            ).len() > 0
        }),
{
    let n = m.closed_all(tabs);
    let removed = mux::removed_of(m.state, tabs);
    let effects = if removed.len() > 0 {
        mux::kills(removed).push(Effect::Emit(MuxEvent::TreeChanged))
    } else {
        seq![]
    };
    let bye = MuxV::farewell(n.state);
    let told = n.outbox.subrange(m.outbox.len() as int, n.outbox.len() as int);
    assert(told =~= effects + bye);
    if n.state.workspaces.len() == 0 {
        assert(told[effects.len() as int] == Effect::Emit(MuxEvent::Empty));
    }
    if removed.len() > 0 {
        assert(told[removed.len() as int] == Effect::Emit(MuxEvent::TreeChanged));
    }
}

/// When the exit of a surface is told, the surface is out of the session and
/// of every pane already, and the change of the tree is told after it.
pub proof fn law_exit_announced(m: MuxV, id: SurfaceId)
    requires
        m.wf(),
        m.state.surfaces.contains_key(id) || exists|pane: PaneId| m.state.owns(pane, id),
    ensures
        ({
            let n = m.exited(id);
            let told = n.outbox.subrange(m.outbox.len() as int, n.outbox.len() as int);
            &&& pruned(m.state, n.state, |t: SurfaceId| t == id)
            &&& !n.state.surfaces.contains_key(id)
            &&& forall|pane: PaneId| !(#[trigger] n.state.owns(pane, id))
            &&& told == seq![
                Effect::Kill(id),
                Effect::Emit(MuxEvent::SurfaceExited(id)),
                Effect::Emit(MuxEvent::TreeChanged),
            ] + MuxV::farewell(n.state)
        }),
{
    let n = m.exited(id);
    let told = n.outbox.subrange(m.outbox.len() as int, n.outbox.len() as int);
    law_close_tab(m.state, id);
    assert(told =~= seq![
        Effect::Kill(id),
        Effect::Emit(MuxEvent::SurfaceExited(id)),
        Effect::Emit(MuxEvent::TreeChanged),
    ] + MuxV::farewell(n.state));
}

/// Closing the active pane of a screen activates the one that was active
/// last among those that are left; closing another one leaves the active
/// pane alone.
pub proof fn law_focus_after_close(a: StateV, pane: PaneId)
    requires
        a.wf(),
        a.panes.contains_key(pane),
    ensures
        ({
            let (w, s) = a.screen_of(pane)->0;
            let before = a.screen(w, s);
            let after = a.without_pane(pane).screen(w, s);
            before.root.without(pane) is Some ==> if before.active_pane == pane {
                &&& before.root.has(after.active_pane)
                &&& after.active_pane != pane
                &&& forall|p: PaneId|
                    before.root.has(p) && p != pane ==> #[trigger] a.panes[p].active_at
                        <= a.panes[after.active_pane].active_at
            } else {
                after.active_pane == before.active_pane
            }
        }),
{
    assert(a.placed(pane));
    let (w, s) = a.screen_of(pane)->0;
    assert(a.holds(w, s, pane));
    let root = a.screen(w, s).root;
    if root.without(pane) is Some && a.screen(w, s).active_pane == pane {
        let rest = root.without(pane)->0;
        let panes = a.panes.remove(pane);
        let ids = rest.leaves();
        assert forall|j: int| 0 <= j < ids.len() implies panes.contains_key(#[trigger] ids[j]) by {
            assert(ids.contains(ids[j]));
            node::lemma_has_leaves(rest, ids[j]);
            node::lemma_without_has(root, pane, ids[j]);
            assert(a.holds(w, s, ids[j]));
        }
        assert(ids.len() > 0) by {
            consistency::lemma_leaf_exists(rest);
        }
        consistency::lemma_some_most_recent(panes, ids);
        let i = choose|i: int| ops::is_most_recent(panes, ids, i);
        assert(ops::is_most_recent(panes, ids, i));
        let next = ids[i];
        assert(ids.contains(next));
        node::lemma_has_leaves(rest, next);
        node::lemma_without_has(root, pane, next);
        assert forall|p: PaneId| root.has(p) && p != pane implies #[trigger] a.panes[p].active_at
            <= a.panes[next].active_at by {
            node::lemma_without_has(root, pane, p);
            node::lemma_has_leaves(rest, p);
            let j = ids.index_of(p);
            assert(ids[j] == p);
        }
    }
}

/// Moving a tab loses no tab and no surface: only the moved one changes its
/// pane, and it is the active one there.
pub proof fn law_move_tab(m: MuxV, surface: SurfaceId, pane: PaneId, index: int)
    requires
        m.wf(),
        index >= 0,
    ensures
        ({
            let a = m.state;
            let b = m.tab_moved(surface, pane, index).state;
            &&& b.wf()
            &&& b.surfaces == a.surfaces
            &&& forall|q: PaneId, t: SurfaceId|
                t != surface ==> #[trigger] b.owns(q, t) == a.owns(q, t)
            &&& b.pane_of(surface) is Some == a.pane_of(surface) is Some
            &&& a.with_tab_moved(surface, pane, index) is Some ==> b.owns(pane, surface)
                && b.panes[pane].active_surface() == Some(surface)
            &&& a.with_tab_moved(surface, pane, index) is None ==> b == a
        }),
{
    let a = m.state;
    if a.with_tab_moved(surface, pane, index) is Some {
        let c = a.with_tab_moved(surface, pane, index)->0;
        let b = m.tab_moved(surface, pane, index).state;
        consistency::lemma_with_tab_moved_wf(a, surface, pane, index);
        consistency::lemma_stamped_wf(c, pane, m.next_active_at);
        assert forall|q: PaneId, t: SurfaceId| #[trigger] b.owns(q, t) == c.owns(q, t) by {}
        assert(b.owns(pane, surface));
    }
}

/// Moving a workspace keeps every workspace as it is, and the active one
/// active.
pub proof fn law_move_workspace(m: MuxV, workspace: WorkspaceId, index: int)
    requires
        m.wf(),
        index >= 0,
        m.state.workspaces.len() > 0,
    ensures
        ({
            let a = m.state;
            let b = m.workspace_moved(workspace, index).state;
            &&& b.wf()
            &&& b.workspaces.len() == a.workspaces.len()
            &&& b.workspaces[b.active_workspace] == a.workspaces[a.active_workspace]
            &&& b.panes == a.panes
            &&& b.surfaces == a.surfaces
            &&& forall|v: int|
                0 <= v < a.workspaces.len() ==> b.workspaces.contains(#[trigger] a.workspaces[v])
        }),
{
    let a = m.state;
    let b = m.workspace_moved(workspace, index).state;
    if a.with_workspace_moved(workspace, index) is Some {
        consistency::lemma_with_workspace_moved_wf(a, workspace, index);
        let v = a.active_workspace;
        assert(a.workspaces[v] == a.workspaces[v]);
    } else {
        assert forall|v: int| 0 <= v < a.workspaces.len() implies b.workspaces.contains(
            #[trigger] a.workspaces[v],
        ) by {}
    }
}

/// Closing a pane that was just split off gives back the panes and the
/// layout of every screen.
pub proof fn law_split_then_close(
    a: StateV,
    target: PaneId,
    dir: SplitDir,
    pane: PaneId,
    surface: SurfaceId,
    active_at: u64,
)
    requires
        a.wf(),
        a.placed(target),
        !a.panes.contains_key(pane),
        forall|q: PaneId| !a.owns(q, surface),
    ensures
        ({
            let b = a.with_split(target, dir, pane).with_pane(pane, surface, active_at);
            let c = b.without_surface(surface);
            &&& c.panes == a.panes
            &&& c.active_workspace == a.active_workspace
            &&& c.workspaces.len() == a.workspaces.len()
            &&& forall|w: int, s: int| #[trigger] c.has_screen(w, s) == a.has_screen(w, s)
            &&& forall|w: int, s: int| #[trigger]
                a.has_screen(w, s) ==> c.screen(w, s).root == a.screen(w, s).root
        }),
{
    let b = a.with_split(target, dir, pane).with_pane(pane, surface, active_at);
    let c = b.without_surface(surface);
    let (w, s) = a.screen_of(target)->0;
    assert(a.holds(w, s, target));
    consistency::lemma_with_split_wf(a, target, dir, pane, surface, active_at);
    assert(b.owns(pane, surface));
    let p = b.pane_of(surface)->0;
    assert(b.owns(p, surface));
    assert(p == pane);
    let root = a.screen(w, s).root;
    assert(!root.has(pane)) by {
        if root.has(pane) {
            assert(a.holds(w, s, pane));
        }
    }
    node::law_split_then_remove(root, target, dir, pane);
    node::lemma_split_has(root, target, dir, pane, pane);
    let rest = StateV { surfaces: b.surfaces.remove(surface), ..b };
    assert(b.holds(w, s, pane));
    assert(rest.holds(w, s, pane));
    assert(rest.screen_of(pane) == Some((w, s))) by {
        let (v, t) = choose|v: int, t: int| rest.holds(v, t, pane);
        assert(rest.placed(pane));
        assert(rest.holds(v, t, pane));
        assert(b.holds(v, t, pane));
    }
    assert(b.panes[pane].tabs.len() == 1);
    assert(c.panes =~= a.panes);
}

/// A step forward and a step back select what was selected.
pub proof fn law_step_and_back(active: int, len: int)
    requires
        0 <= active < len,
    ensures
        StateV::selected(
            StateV::selected(active, len, None, Some(1)),
            len,
            None,
            Some((-1) as isize),
        ) == active,
{
    if active + 1 < len {
        vstd::arithmetic::div_mod::lemma_small_mod((active + 1) as nat, len as nat);
        vstd::arithmetic::div_mod::lemma_small_mod(active as nat, len as nat);
    } else {
        vstd::arithmetic::div_mod::lemma_mod_self_0(len);
        vstd::arithmetic::div_mod::lemma_mod_add_multiples_vanish(-1, len);
        vstd::arithmetic::div_mod::lemma_small_mod((len - 1) as nat, len as nat);
    }
}

/// A surface that runs is attached: it is a tab of one pane and the active
/// one there, and every other tab is where it was.
pub proof fn law_attached(m: MuxV, place: mux::Place, surface: Surface)
    requires
        m.wf(),
        m.ids_left(3),
        m.awaits(surface.id),
        !surface.dead,
        m.attached(place, surface).1 is Ok,
    ensures
        ({
            let a = m.state;
            let b = m.attached(place, surface).0.state;
            let id = surface.id;
            &&& b.wf()
            &&& b.surfaces == a.surfaces.insert(id, surface)
            &&& b.pane_of(id) matches Some(pane) && b.panes[pane].active_surface() == Some(id)
            &&& forall|q: PaneId, t: SurfaceId|
                t != id ==> #[trigger] b.owns(q, t) == a.owns(q, t)
        }),
{
    let a = m.state;
    let id = surface.id;
    let n = m.next_id;
    let at = m.next_active_at;
    let b = m.attached(place, surface).0.state;
    let known = m.with_surface(surface);
    assert forall|q: PaneId| !a.owns(q, id) by {
        if a.owns(q, id) {
            assert(a.pane_of(id) is Some);
        }
    }
    consistency::lemma_surfaces_apart(a, known);
    assert forall|q: PaneId, t: SurfaceId| #[trigger] known.owns(q, t) == a.owns(q, t) by {}
    assert(!known.panes.contains_key(n));
    assert forall|w: int, k: u64| k >= n implies !known.is_workspace(w, k) by {
        if known.is_workspace(w, k) {
            assert(a.is_workspace(w, k));
        }
    }
    assert forall|w: int, s: int, k: u64| k >= n implies !known.is_screen(w, s, k) by {
        if known.is_screen(w, s, k) {
            assert(a.is_screen(w, s, k));
        }
    }
    match place {
        mux::Place::Workspace { name } => {
            consistency::lemma_with_workspace_wf(
                known,
                (n + 2) as u64,
                m.workspace_name(name),
                (n + 1) as u64,
                n,
                id,
                at,
            );
            assert(b.owns(n, id));
        },
        mux::Place::Screen { workspace } => {
            let w = m.screen_target(workspace)->0;
            if workspace is Some {
                assert(a.is_workspace(w, workspace->0));
            }
            consistency::lemma_with_screen_wf(known, w, (n + 1) as u64, n, id, at);
            assert(b.owns(n, id));
        },
        mux::Place::Tab { pane, .. } => {
            let len = a.panes[pane].tabs.len() as int;
            let c = known.with_tab(pane, id, len);
            consistency::lemma_with_tab_wf(known, pane, id, len);
            consistency::lemma_stamped_wf(c, pane, at);
            assert forall|q: PaneId, t: SurfaceId| #[trigger] b.owns(q, t) == c.owns(q, t) by {}
            assert(b.owns(pane, id));
        },
        mux::Place::Split { target, dir } => {
            consistency::lemma_same_tree(a, known);
            let (w, s) = choose|w: int, s: int| a.holds(w, s, target);
            assert(known.holds(w, s, target));
            consistency::lemma_with_split_wf(known, target, dir, n, id, at);
            assert(b.owns(n, id));
        },
    }
}

/// Giving a surface the size that it has tells nobody.
pub proof fn law_resize_once(m: MuxV, id: SurfaceId, cols: u16, rows: u16)
    requires
        m.state.surfaces.contains_key(id),
    ensures
        ({
            let n = m.resized(id, cols, rows).0;
            let (again, changed) = n.resized(id, cols, rows);
            &&& changed == Ok::<bool, mux::MuxError>(false)
            &&& again.state == n.state
            &&& again.outbox == n.outbox.push(
                Effect::Resize {
                    surface: id,
                    cols: browser::at_least_one(cols),
                    rows: browser::at_least_one(rows),
                },
            )
        }),
{
    let n = m.resized(id, cols, rows).0;
    let again = n.resized(id, cols, rows).0;
    assert(again.state.surfaces =~= n.state.surfaces);
}

/// A surface whose child ended before it was attached is not in the session
/// afterwards, and every other tab is where it was.
pub proof fn law_dead_on_arrival(m: MuxV, place: mux::Place, surface: Surface)
    requires
        m.wf(),
        m.ids_left(3),
        m.awaits(surface.id),
        surface.dead,
        m.attached(place, surface).1 is Ok,
    ensures
        ({
            let a = m.state;
            let b = m.attached(place, surface).0.state;
            &&& b.wf()
            &&& b.surfaces == a.surfaces
            &&& b.pane_of(surface.id) is None
            &&& forall|q: PaneId, t: SurfaceId| #[trigger] b.owns(q, t) == a.owns(q, t)
        }),
{
    let a = m.state;
    let id = surface.id;
    let live = Surface { dead: false, ..surface };
    law_attached(m, place, live);
    let c = m.attached(place, live).0.state;
    let x = StateV { surfaces: a.surfaces.insert(id, surface), ..c };
    let b = m.attached(place, surface).0.state;
    assert(c.surfaces.contains_key(id));
    consistency::lemma_surfaces_apart(c, x);
    law_close_tab(x, id);
    assert forall|q: PaneId, t: SurfaceId| #[trigger] x.owns(q, t) == c.owns(q, t) by {}
    let known = m.with_surface(surface);
    let spared = m.with_surface(live);
    consistency::lemma_surfaces_apart(a, spared);
    consistency::lemma_same_tree(spared, known);
    assert(known.surfaces == x.surfaces);
    assert(b == x.without_surface(id)) by {
        match place {
            mux::Place::Split { target, dir } => {
                assert(known.screen_of(target) == spared.screen_of(target));
            },
            _ => {},
        }
    }
    assert forall|q: PaneId| !a.owns(q, id) by {
        if a.owns(q, id) {
            assert(a.pane_of(id) is Some);
        }
    }
    assert forall|q: PaneId, t: SurfaceId| #[trigger] b.owns(q, t) == a.owns(q, t) by {
        assert(b.owns(q, t) == (x.owns(q, t) && t != id));
        if t != id {
            assert(c.owns(q, t) == a.owns(q, t));
        }
    }
    assert(b.surfaces =~= a.surfaces);
}

} // verus!
