//! What keeps a session consistent.

use vstd::prelude::*;

use crate::model::{PaneV, Screen, StateV, WorkspaceV};
use crate::node::{Node, PaneId, SplitDir, SurfaceId};
use crate::ratio::Ratio;
use crate::{node, ops};

verus! {

/// The tree of a session rests on its workspaces and on which panes exist.
pub proof fn lemma_same_tree(a: StateV, b: StateV)
    requires
        a.tree_wf(),
        b.workspaces == a.workspaces,
        forall|p: PaneId| #[trigger] b.panes.contains_key(p) == a.panes.contains_key(p),
    ensures
        b.tree_wf(),
        forall|p: PaneId| #[trigger] b.screen_of(p) == a.screen_of(p),
{
    assert forall|w: int, s: int| #[trigger] b.has_screen(w, s) implies b.screen(
        w,
        s,
    ).root.leaves().no_duplicates() && b.screen(w, s).root.has(b.screen(w, s).active_pane) by {
        assert(a.has_screen(w, s));
    }
    assert forall|w: int, s: int, p: PaneId| #[trigger] b.holds(w, s, p) == a.holds(w, s, p) by {}
    assert forall|p: PaneId| #[trigger] b.placed(p) == a.placed(p) by {
        if a.placed(p) {
            let (w, s) = choose|w: int, s: int| a.holds(w, s, p);
            assert(b.holds(w, s, p));
        }
    }
    assert forall|p: PaneId| #[trigger] b.screen_of(p) == a.screen_of(p) by {
        assert(b.placed(p) == a.placed(p));
        if a.placed(p) {
            let (w, s) = choose|w: int, s: int| a.holds(w, s, p);
            let (v, t) = choose|w: int, s: int| b.holds(w, s, p);
            assert(a.holds(v, t, p));
        }
    }
}

/// Ids of workspaces and screens rest on the workspaces.
pub proof fn lemma_same_ids(a: StateV, b: StateV)
    requires
        a.ids_wf(),
        b.workspaces == a.workspaces,
        forall|t: SurfaceId| #[trigger]
            b.surfaces.contains_key(t) ==> b.surfaces[t].id == t,
    ensures
        b.ids_wf(),
{
    assert forall|v: int, w: int, id: u64| #[trigger] b.is_workspace(v, id)
        && #[trigger] b.is_workspace(w, id) implies v == w by {
        assert(a.is_workspace(v, id) && a.is_workspace(w, id));
    }
    assert forall|w1: int, s1: int, w2: int, s2: int, id: u64| #[trigger] b.is_screen(w1, s1, id)
        && #[trigger] b.is_screen(w2, s2, id) implies w1 == w2 && s1 == s2 by {
        assert(a.is_screen(w1, s1, id) && a.is_screen(w2, s2, id));
    }
}

/// Tabs rest on the panes.
pub proof fn lemma_same_tabs(a: StateV, b: StateV)
    requires
        a.tabs_wf(),
        b.panes == a.panes,
    ensures
        b.tabs_wf(),
        forall|t: SurfaceId| #[trigger] b.pane_of(t) == a.pane_of(t),
        forall|p: PaneId, t: SurfaceId| #[trigger] b.owns(p, t) == a.owns(p, t),
{
    assert forall|p: PaneId, t: SurfaceId| #[trigger] b.owns(p, t) == a.owns(p, t) by {}
    assert forall|t: SurfaceId| #[trigger] b.pane_of(t) == a.pane_of(t) by {
        if exists|p: PaneId| a.owns(p, t) {
            let p = choose|p: PaneId| a.owns(p, t);
            assert(b.owns(p, t));
            let q = choose|q: PaneId| b.owns(q, t);
            assert(a.owns(q, t));
        } else {
            assert(!(exists|p: PaneId| b.owns(p, t)));
        }
    }
}

/// Surfaces may come and go without touching the tree.
pub proof fn lemma_surfaces_apart(a: StateV, b: StateV)
    requires
        a.layout_wf(),
        b == (StateV { surfaces: b.surfaces, ..a }),
        forall|t: SurfaceId| #[trigger]
            b.surfaces.contains_key(t) ==> b.surfaces[t].id == t,
    ensures
        b.layout_wf(),
        forall|n: u64|
            a.below(n) && (forall|t: SurfaceId| #[trigger]
                b.surfaces.contains_key(t) ==> t < n) ==> #[trigger] b.below(n),
        a.tabs_known() && (forall|t: SurfaceId| #[trigger]
            a.surfaces.contains_key(t) ==> b.surfaces.contains_key(t)) ==> b.tabs_known(),
{
    lemma_same_tree(a, b);
    lemma_same_tabs(a, b);
    lemma_same_ids(a, b);
    assert forall|n: u64| a.below(n) && (forall|t: SurfaceId| #[trigger]
        b.surfaces.contains_key(t) ==> t < n) implies #[trigger] b.below(n) by {
        lemma_same_below(a, b, n);
    }
}

proof fn lemma_same_below(a: StateV, b: StateV, n: u64)
    requires
        a.below(n),
        b.workspaces == a.workspaces,
        forall|p: PaneId| #[trigger] b.panes.contains_key(p) ==> a.panes.contains_key(p),
        forall|p: PaneId, t: SurfaceId| #[trigger] b.owns(p, t) ==> a.owns(p, t) || t < n,
        forall|t: SurfaceId| #[trigger] b.surfaces.contains_key(t) ==> t < n,
    ensures
        b.below(n),
{
    assert forall|w: int, id: u64| #[trigger] b.is_workspace(w, id) implies id < n by {
        assert(a.is_workspace(w, id));
    }
    assert forall|w: int, s: int, id: u64| #[trigger] b.is_screen(w, s, id) implies id < n by {
        assert(a.is_screen(w, s, id));
    }
}

/// A pane may change its tabs, as long as it takes none from another pane.
pub proof fn lemma_pane_update_wf(a: StateV, b: StateV, pane: PaneId, next: PaneV)
    requires
        a.layout_wf(),
        a.panes.contains_key(pane),
        next.id == pane,
        next.wf(),
        forall|q: PaneId, t: SurfaceId|
            next.tabs.contains(t) && #[trigger] a.owns(q, t) ==> q == pane,
        b == (StateV { panes: a.panes.insert(pane, next), ..a }),
    ensures
        b.layout_wf(),
        forall|n: u64|
            a.below(n) && (forall|t: SurfaceId| #[trigger] next.tabs.contains(t) ==> t < n)
                ==> #[trigger] b.below(n),
        a.tabs_known() && (forall|t: SurfaceId| #[trigger]
            next.tabs.contains(t) ==> a.surfaces.contains_key(t)) ==> b.tabs_known(),
{
    assert forall|n: u64| a.below(n) && (forall|t: SurfaceId| #[trigger]
        next.tabs.contains(t) ==> t < n) implies #[trigger] b.below(n) by {
        lemma_same_below(a, b, n);
    }
    lemma_same_tree(a, b);
    lemma_same_ids(a, b);
    assert forall|p: PaneId, q: PaneId, t: SurfaceId| #[trigger] b.owns(p, t)
        && #[trigger] b.owns(q, t) implies p == q by {
        if p != pane {
            assert(a.owns(p, t));
        }
        if q != pane {
            assert(a.owns(q, t));
        }
    }
    if a.tabs_known() && (forall|t: SurfaceId| #[trigger]
        next.tabs.contains(t) ==> a.surfaces.contains_key(t)) {
        assert forall|p: PaneId, t: SurfaceId| #[trigger] b.owns(p, t) implies b.surfaces.contains_key(
            t,
        ) by {
            if p != pane {
                assert(a.owns(p, t));
            }
        }
    }
}

/// A workspace may change its selection, its name and, for each screen, the
/// name, the active pane and the shape of the split tree.
pub proof fn lemma_workspace_update_wf(a: StateV, b: StateV, w: int, next: WorkspaceV)
    requires
        a.wf(),
        0 <= w < a.workspaces.len(),
        next.wf(),
        next.id == a.workspaces[w].id,
        next.screens.len() == a.workspaces[w].screens.len(),
        forall|s: int|
            #![trigger next.screens[s]]
            0 <= s < next.screens.len() ==> {
                &&& next.screens[s].id == a.screen(w, s).id
                &&& next.screens[s].root.leaves() == a.screen(w, s).root.leaves()
                &&& next.screens[s].root.has(next.screens[s].active_pane)
            },
        0 <= b.active_workspace < a.workspaces.len(),
        b == (StateV {
            workspaces: a.workspaces.update(w, next),
            active_workspace: b.active_workspace,
            ..a
        }),
    ensures
        b.wf(),
        forall|n: u64| a.below(n) ==> #[trigger] b.below(n),
{
    lemma_same_tabs(a, b);
    assert forall|v: int, s: int| #[trigger] b.has_screen(v, s) == a.has_screen(v, s) by {}
    assert forall|v: int, s: int| #[trigger] b.has_screen(v, s) implies b.screen(
        v,
        s,
    ).root.leaves() == a.screen(v, s).root.leaves() && b.screen(v, s).id == a.screen(v, s).id
        && b.screen(v, s).root.has(b.screen(v, s).active_pane) by {
        assert(a.has_screen(v, s));
        if v == w {
            assert(next.screens[s].id == a.screen(w, s).id);
        }
    }
    assert forall|v: int, s: int, p: PaneId| #[trigger] b.holds(v, s, p) == a.holds(v, s, p) by {
        assert(b.has_screen(v, s) == a.has_screen(v, s));
        if a.has_screen(v, s) {
            node::lemma_has_leaves(a.screen(v, s).root, p);
            node::lemma_has_leaves(b.screen(v, s).root, p);
        }
    }
    assert forall|v: int, s: int| #[trigger] b.has_screen(v, s) implies b.screen(
        v,
        s,
    ).root.leaves().no_duplicates() && b.screen(v, s).root.has(b.screen(v, s).active_pane) by {
        assert(a.has_screen(v, s));
    }
    assert forall|p: PaneId| #[trigger] b.panes.contains_key(p) implies b.placed(p) by {
        assert(a.placed(p));
        let (v, s) = choose|v: int, s: int| a.holds(v, s, p);
        assert(b.holds(v, s, p));
    }
    assert forall|u: int, v: int, id: u64| #[trigger] b.is_workspace(u, id)
        && #[trigger] b.is_workspace(v, id) implies u == v by {
        assert(a.is_workspace(u, id) && a.is_workspace(v, id));
    }
    assert forall|w1: int, s1: int, w2: int, s2: int, id: u64| #[trigger] b.is_screen(w1, s1, id)
        && #[trigger] b.is_screen(w2, s2, id) implies w1 == w2 && s1 == s2 by {
        assert(a.is_screen(w1, s1, id) && a.is_screen(w2, s2, id));
    }
    assert forall|n: u64| a.below(n) implies #[trigger] b.below(n) by {
        assert forall|p: PaneId, t: SurfaceId| #[trigger] b.owns(p, t) implies t < n by {
            assert(a.owns(p, t));
        }
        assert forall|v: int, id: u64| #[trigger] b.is_workspace(v, id) implies id < n by {
            assert(a.is_workspace(v, id));
        }
        assert forall|v: int, s: int, id: u64| #[trigger] b.is_screen(v, s, id) implies id < n by {
            assert(a.is_screen(v, s, id));
        }
    }
}

/// Some pane was active last.
pub proof fn lemma_some_most_recent(panes: Map<PaneId, PaneV>, ids: Seq<PaneId>)
    requires
        ids.len() > 0,
        forall|i: int| 0 <= i < ids.len() ==> panes.contains_key(#[trigger] ids[i]),
    ensures
        ops::most_recent(panes, ids) is Some,
        ids.contains(ops::most_recent(panes, ids)->0),
    decreases ids.len(),
{
    let last = ids.len() - 1;
    if last == 0 {
        assert(ops::is_most_recent(panes, ids, 0));
    } else {
        let before = ids.drop_last();
        lemma_some_most_recent(panes, before);
        let i = choose|i: int| ops::is_most_recent(panes, before, i);
        assert forall|j: int| 0 <= j < before.len() implies #[trigger] ids[j] == before[j] by {}
        if panes[before[i]].active_at <= panes[ids[last]].active_at {
            assert(ops::is_most_recent(panes, ids, last));
        } else {
            assert(ops::is_most_recent(panes, ids, i));
        }
    }
    let k = choose|k: int| ops::is_most_recent(panes, ids, k);
    assert(ids[k] == ops::most_recent(panes, ids)->0);
}

proof fn lemma_filter_distinct(ids: Seq<PaneId>, pane: PaneId)
    requires
        ids.no_duplicates(),
    ensures
        ids.filter(|p: PaneId| p != pane).no_duplicates(),
        forall|p: PaneId|
            ids.filter(|p: PaneId| p != pane).contains(p) ==> #[trigger] ids.contains(p),
    decreases ids.len(),
{
    let keep = |p: PaneId| p != pane;
    reveal(Seq::filter);
    if ids.len() > 0 {
        let before = ids.drop_last();
        lemma_filter_distinct(before, pane);
        let kept = before.filter(keep);
        assert forall|p: PaneId| ids.filter(keep).contains(p) implies #[trigger] ids.contains(p) by {
            let i = ids.filter(keep).index_of(p);
            if i < kept.len() {
                assert(kept[i] == p);
                assert(kept.contains(p));
                assert(before.contains(p));
                let j = before.index_of(p);
                assert(ids[j] == p);
            } else {
                assert(ids[ids.len() - 1] == p);
            }
        }
        if kept.contains(ids.last()) {
            assert(before.contains(ids.last()));
            let j = before.index_of(ids.last());
            assert(ids[j] == ids[ids.len() - 1]);
        }
    }
}

/// Taking a screen without panes out keeps the rest in place.
proof fn lemma_without_screen_wf(a: StateV, w: int, s: int, pane: PaneId)
    requires
        a.layout_wf(),
        a.has_screen(w, s),
        forall|p: PaneId| #[trigger] a.screen(w, s).root.has(p) ==> p == pane,
        a.holds(w, s, pane),
    ensures
        (StateV { panes: a.panes.remove(pane), ..a }).without_screen(w, s).layout_wf(),
        forall|n: u64|
            a.below(n) ==> #[trigger] (StateV {
                panes: a.panes.remove(pane),
                ..a
            }).without_screen(w, s).below(n),
{
    let rest = StateV { panes: a.panes.remove(pane), ..a };
    let b = rest.without_screen(w, s);
    let whole = a.workspaces[w].screens.len() == 1;
    let w_of = |v: int| if whole && v >= w { v + 1 } else { v };
    let s_of = |v: int, t: int| if !whole && v == w && t >= s { t + 1 } else { t };
    assert(a.workspaces[w].wf());
    assert forall|v: int, t: int| #[trigger] b.has_screen(v, t) implies a.has_screen(
        w_of(v),
        s_of(v, t),
    ) && b.screen(v, t) == a.screen(w_of(v), s_of(v, t)) && !(w_of(v) == w && s_of(v, t) == s) by {}
    assert forall|v: int, t: int, p: PaneId| #[trigger] b.holds(v, t, p) implies a.holds(
        w_of(v),
        s_of(v, t),
        p,
    ) && p != pane by {
        assert(b.has_screen(v, t));
        assert(a.holds(w_of(v), s_of(v, t), p));
        if p == pane {
            assert(a.holds(w, s, p));
        }
    }
    assert forall|v: int| 0 <= v < b.workspaces.len() implies (#[trigger] b.workspaces[v]).wf() by {
        assert(a.workspaces[w_of(v)].wf());
    }
    assert forall|v: int, t: int| #[trigger] b.has_screen(v, t) implies b.screen(
        v,
        t,
    ).root.leaves().no_duplicates() && b.screen(v, t).root.has(b.screen(v, t).active_pane) by {
        assert(a.has_screen(w_of(v), s_of(v, t)));
    }
    assert forall|v1: int, t1: int, v2: int, t2: int, p: PaneId| #[trigger] b.holds(v1, t1, p)
        && #[trigger] b.holds(v2, t2, p) implies v1 == v2 && t1 == t2 by {
        assert(a.holds(w_of(v1), s_of(v1, t1), p) && a.holds(w_of(v2), s_of(v2, t2), p));
    }
    assert forall|v: int, t: int, p: PaneId| #[trigger] b.holds(v, t, p) implies b.panes.contains_key(
        p,
    ) by {
        assert(a.holds(w_of(v), s_of(v, t), p));
    }
    assert forall|p: PaneId| #[trigger] b.panes.contains_key(p) implies b.placed(p) by {
        assert(a.panes.contains_key(p));
        assert(a.placed(p));
        let (v, t) = choose|v: int, t: int| a.holds(v, t, p);
        let v2 = if whole && v > w { v - 1 } else { v };
        let t2 = if !whole && v == w && t > s { t - 1 } else { t };
        assert(!(v == w && t == s));
        assert(b.holds(v2, t2, p));
    }
    assert forall|p: PaneId, q: PaneId, t: SurfaceId| #[trigger] b.owns(p, t)
        && #[trigger] b.owns(q, t) implies p == q by {
        assert(a.owns(p, t) && a.owns(q, t));
    }
    assert forall|p: PaneId| #[trigger] b.panes.contains_key(p) implies b.panes[p].id == p
        && b.panes[p].wf() by {
        assert(a.panes.contains_key(p));
    }
    assert forall|u: int, v: int, id: u64| #[trigger] b.is_workspace(u, id)
        && #[trigger] b.is_workspace(v, id) implies u == v by {
        assert(a.is_workspace(w_of(u), id) && a.is_workspace(w_of(v), id));
    }
    assert forall|v1: int, t1: int, v2: int, t2: int, id: u64| #[trigger] b.is_screen(v1, t1, id)
        && #[trigger] b.is_screen(v2, t2, id) implies v1 == v2 && t1 == t2 by {
        assert(b.has_screen(v1, t1) && b.has_screen(v2, t2));
        assert(a.is_screen(w_of(v1), s_of(v1, t1), id) && a.is_screen(
            w_of(v2),
            s_of(v2, t2),
            id,
        ));
    }
    assert forall|n: u64| a.below(n) implies #[trigger] b.below(n) by {
        assert forall|p: PaneId, t: SurfaceId| #[trigger] b.owns(p, t) implies t < n by {
            assert(a.owns(p, t));
        }
        assert forall|v: int, id: u64| #[trigger] b.is_workspace(v, id) implies id < n by {
            assert(a.is_workspace(w_of(v), id));
        }
        assert forall|v: int, t: int, id: u64| #[trigger] b.is_screen(v, t, id) implies id < n by {
            assert(b.has_screen(v, t));
            assert(a.is_screen(w_of(v), s_of(v, t), id));
        }
    }
}

/// Taking a pane out keeps the session consistent.
pub proof fn lemma_without_pane_wf(a: StateV, pane: PaneId)
    requires
        a.layout_wf(),
        a.panes.contains_key(pane),
    ensures
        a.without_pane(pane).layout_wf(),
        forall|n: u64| a.below(n) ==> #[trigger] a.without_pane(pane).below(n),
{
    assert(a.placed(pane));
    let (w, s) = choose|w: int, s: int| a.holds(w, s, pane);
    let screen = a.screen(w, s);
    assert(a.has_screen(w, s));
    assert forall|p: PaneId|
        match screen.root.without(pane) {
            Some(rest) => rest.has(p) == (#[trigger] screen.root.has(p) && p != pane),
            None => screen.root.has(p) ==> p == pane,
        } by {
        node::lemma_without_has(screen.root, pane, p);
    }
    if let Some(root) = screen.root.without(pane) {
        let b = a.without_pane(pane);
        let panes = a.panes.remove(pane);
        node::lemma_without_leaves(screen.root, pane);
        lemma_filter_distinct(screen.root.leaves(), pane);
        let ids = root.leaves();
        assert forall|i: int| 0 <= i < ids.len() implies panes.contains_key(#[trigger] ids[i]) by {
            assert(ids.contains(ids[i]));
            node::lemma_has_leaves(root, ids[i]);
            assert(screen.root.has(ids[i]));
            assert(a.holds(w, s, ids[i]));
        }
        assert(ids.len() > 0) by {
            lemma_leaf_exists(root);
        }
        lemma_some_most_recent(panes, ids);
        let next = ops::most_recent(panes, ids)->0;
        node::lemma_has_leaves(root, next);
        let active = b.screen(w, s).active_pane;
        assert(root.has(active)) by {
            if screen.active_pane != pane {
                assert(screen.root.has(screen.active_pane));
            }
        }
        lemma_smaller_root_wf(a, w, s, root, active, pane);
    } else {
        lemma_without_screen_wf(a, w, s, pane);
    }
}

pub proof fn lemma_leaf_exists(node: Node)
    ensures
        node.leaves().len() > 0,
    decreases node,
{
    match node {
        Node::Leaf(_) => {},
        Node::Split { a, .. } => lemma_leaf_exists(*a),
    }
}

proof fn lemma_smaller_root_wf(
    a: StateV,
    w: int,
    s: int,
    root: Node,
    active: PaneId,
    pane: PaneId,
)
    requires
        a.layout_wf(),
        a.holds(w, s, pane),
        root.has(active),
        root.leaves().no_duplicates(),
        forall|p: PaneId| root.has(p) == (#[trigger] a.screen(w, s).root.has(p) && p != pane),
    ensures
        (StateV { panes: a.panes.remove(pane), ..a }).with_root(w, s, root, active).layout_wf(),
        forall|n: u64|
            a.below(n) ==> #[trigger] (StateV {
                panes: a.panes.remove(pane),
                ..a
            }).with_root(w, s, root, active).below(n),
{
    let rest = StateV { panes: a.panes.remove(pane), ..a };
    let b = rest.with_root(w, s, root, active);
    assert forall|v: int, t: int| #[trigger] b.has_screen(v, t) == a.has_screen(v, t) by {}
    assert forall|v: int, t: int, p: PaneId| #[trigger] b.holds(v, t, p) == (a.holds(v, t, p) && p
        != pane) by {
        assert(b.has_screen(v, t) == a.has_screen(v, t));
        if v == w && t == s {
            assert(root.has(p) == (a.screen(w, s).root.has(p) && p != pane));
        } else if a.holds(v, t, p) && p == pane {
            assert(a.holds(w, s, p));
        }
    }
    assert forall|v: int| 0 <= v < b.workspaces.len() implies (#[trigger] b.workspaces[v]).wf() by {
        assert(a.workspaces[v].wf());
    }
    assert forall|v: int, t: int| #[trigger] b.has_screen(v, t) implies b.screen(
        v,
        t,
    ).root.leaves().no_duplicates() && b.screen(v, t).root.has(b.screen(v, t).active_pane) by {
        assert(a.has_screen(v, t));
    }
    assert forall|v1: int, t1: int, v2: int, t2: int, p: PaneId| #[trigger] b.holds(v1, t1, p)
        && #[trigger] b.holds(v2, t2, p) implies v1 == v2 && t1 == t2 by {
        assert(a.holds(v1, t1, p) && a.holds(v2, t2, p));
    }
    assert forall|v: int, t: int, p: PaneId| #[trigger] b.holds(v, t, p) implies b.panes.contains_key(
        p,
    ) by {
        assert(a.holds(v, t, p));
    }
    assert forall|p: PaneId| #[trigger] b.panes.contains_key(p) implies b.placed(p) by {
        assert(a.panes.contains_key(p));
        assert(a.placed(p));
        let (v, t) = choose|v: int, t: int| a.holds(v, t, p);
        assert(b.holds(v, t, p));
    }
    assert forall|p: PaneId, q: PaneId, t: SurfaceId| #[trigger] b.owns(p, t)
        && #[trigger] b.owns(q, t) implies p == q by {
        assert(a.owns(p, t) && a.owns(q, t));
    }
    assert forall|p: PaneId| #[trigger] b.panes.contains_key(p) implies b.panes[p].id == p
        && b.panes[p].wf() by {
        assert(a.panes.contains_key(p));
    }
    assert forall|u: int, v: int, id: u64| #[trigger] b.is_workspace(u, id)
        && #[trigger] b.is_workspace(v, id) implies u == v by {
        assert(a.is_workspace(u, id) && a.is_workspace(v, id));
    }
    assert forall|v1: int, t1: int, v2: int, t2: int, id: u64| #[trigger] b.is_screen(v1, t1, id)
        && #[trigger] b.is_screen(v2, t2, id) implies v1 == v2 && t1 == t2 by {
        assert(b.has_screen(v1, t1) && b.has_screen(v2, t2));
        assert(a.is_screen(v1, t1, id) && a.is_screen(v2, t2, id));
    }
    assert forall|n: u64| a.below(n) implies #[trigger] b.below(n) by {
        assert forall|p: PaneId, t: SurfaceId| #[trigger] b.owns(p, t) implies t < n by {
            assert(a.owns(p, t));
        }
        assert forall|v: int, id: u64| #[trigger] b.is_workspace(v, id) implies id < n by {
            assert(a.is_workspace(v, id));
        }
        assert forall|v: int, t: int, id: u64| #[trigger] b.is_screen(v, t, id) implies id < n by {
            assert(b.has_screen(v, t));
            assert(a.is_screen(v, t, id));
        }
    }
}

proof fn lemma_kept_tabs(a: StateV, pane: PaneId, next: PaneV)
    requires
        a.panes.contains_key(pane),
        forall|t: SurfaceId|
            #![trigger next.tabs.contains(t)]
            next.tabs.contains(t) ==> a.panes[pane].tabs.contains(t),
    ensures
        forall|n: u64| #[trigger]
            a.below(n) ==> forall|t: SurfaceId| #[trigger] next.tabs.contains(t) ==> t < n,
        a.tabs_known() ==> forall|t: SurfaceId| #[trigger]
            next.tabs.contains(t) ==> a.surfaces.contains_key(t),
{
    assert forall|n: u64, t: SurfaceId| #[trigger] a.below(n) && #[trigger] next.tabs.contains(
        t,
    ) implies t < n by {
        assert(a.owns(pane, t));
    }
    if a.tabs_known() {
        assert forall|t: SurfaceId| #[trigger]
            next.tabs.contains(t) implies a.surfaces.contains_key(t) by {
            assert(a.owns(pane, t));
        }
    }
}

/// A pane may note when it was last active.
pub proof fn lemma_stamped_wf(a: StateV, pane: PaneId, active_at: u64)
    requires
        a.wf(),
    ensures
        a.stamped(pane, active_at).wf(),
        forall|n: u64| a.below(n) ==> #[trigger] a.stamped(pane, active_at).below(n),
{
    if a.panes.contains_key(pane) {
        let next = PaneV { active_at, ..a.panes[pane] };
        assert forall|q: PaneId, t: SurfaceId| next.tabs.contains(t) && #[trigger] a.owns(
            q,
            t,
        ) implies q == pane by {
            assert(a.owns(pane, t));
        }
        lemma_pane_update_wf(a, a.stamped(pane, active_at), pane, next);
        lemma_kept_tabs(a, pane, next);
    }
}

/// The pane of a surface is the one that has it among its tabs.
pub proof fn lemma_pane_of(a: StateV, pane: PaneId, surface: SurfaceId)
    requires
        a.tabs_wf(),
        a.owns(pane, surface),
    ensures
        a.pane_of(surface) == Some(pane),
{
}

/// Taking a tab out keeps the session consistent, takes it out of every
/// pane, and leaves the other panes and their tabs alone.
pub proof fn lemma_without_tab_wf(a: StateV, pane: PaneId, surface: SurfaceId)
    requires
        a.layout_wf(),
        a.owns(pane, surface),
    ensures
        a.without_tab(pane, surface).layout_wf(),
        forall|n: u64| a.below(n) ==> #[trigger] a.without_tab(pane, surface).below(n),
        a.without_tab(pane, surface).surfaces == a.surfaces,
        forall|q: PaneId, t: SurfaceId| #[trigger]
            a.without_tab(pane, surface).owns(q, t) == (a.owns(q, t) && t != surface),
        forall|q: PaneId|
            q != pane ==> #[trigger] a.without_tab(pane, surface).panes.contains_key(q)
                == a.panes.contains_key(q) && a.without_tab(pane, surface).panes[q] == a.panes[q],
{
    let b = a.without_tab(pane, surface);
    let p = a.panes[pane];
    let i = p.tabs.index_of(surface);
    assert(p.wf());
    assert(0 <= i < p.tabs.len() && p.tabs[i] == surface);
    if p.tabs.len() == 1 {
        lemma_without_pane_wf(a, pane);
        lemma_without_pane_parts(a, pane);
        assert forall|q: PaneId, t: SurfaceId| #[trigger] b.owns(q, t) == (a.owns(q, t) && t
            != surface) by {
            if a.owns(q, t) && t == surface {
                assert(a.owns(pane, t));
            }
            if q == pane && a.owns(q, t) {
                assert(p.tabs[p.tabs.index_of(t)] == t);
            }
        }
    } else {
        let next = b.panes[pane];
        assert forall|t: SurfaceId| #[trigger] next.tabs.contains(t) == (p.tabs.contains(t) && t
            != surface) by {
            if next.tabs.contains(t) {
                let k = next.tabs.index_of(t);
                assert(p.tabs[if k < i { k } else { k + 1 }] == t);
            }
            if p.tabs.contains(t) && t != surface {
                let k = p.tabs.index_of(t);
                assert(next.tabs[if k < i { k } else { k - 1 }] == t);
            }
        }
        assert forall|q: PaneId, t: SurfaceId| next.tabs.contains(t) && #[trigger] a.owns(
            q,
            t,
        ) implies q == pane by {
            assert(a.owns(pane, t));
        }
        lemma_pane_update_wf(a, b, pane, next);
        lemma_kept_tabs(a, pane, next);
        assert forall|q: PaneId, t: SurfaceId| #[trigger] b.owns(q, t) == (a.owns(q, t) && t
            != surface) by {
            if a.owns(q, t) && t == surface {
                assert(a.owns(pane, t));
            }
        }
    }
}

/// Taking a pane out changes nothing in the other panes and the surfaces.
pub proof fn lemma_without_pane_parts(a: StateV, pane: PaneId)
    ensures
        a.without_pane(pane).panes == a.panes.remove(pane),
        a.without_pane(pane).surfaces == a.surfaces,
{
}

/// A tab that no pane holds may be put into any pane.
pub proof fn lemma_with_tab_wf(a: StateV, pane: PaneId, surface: SurfaceId, index: int)
    requires
        a.wf(),
        a.surfaces.contains_key(surface),
        a.panes.contains_key(pane),
        index >= 0,
        forall|q: PaneId| !a.owns(q, surface),
    ensures
        a.with_tab(pane, surface, index).wf(),
        forall|n: u64|
            a.below(n) && surface < n ==> #[trigger] a.with_tab(pane, surface, index).below(n),
        forall|q: PaneId, t: SurfaceId| #[trigger]
            a.with_tab(pane, surface, index).owns(q, t) == (a.owns(q, t) || q == pane && t
                == surface),
{
    let b = a.with_tab(pane, surface, index);
    let p = a.panes[pane];
    let next = b.panes[pane];
    let at = next.active_tab;
    assert(p.wf());
    assert(!a.owns(pane, surface));
    assert forall|t: SurfaceId| #[trigger] next.tabs.contains(t) == (p.tabs.contains(t) || t
        == surface) by {
        if next.tabs.contains(t) {
            let k = next.tabs.index_of(t);
            if k != at {
                assert(p.tabs[if k < at { k } else { k - 1 }] == t);
            }
        }
        if t == surface {
            assert(next.tabs[at] == t);
        } else if p.tabs.contains(t) {
            let k = p.tabs.index_of(t);
            assert(next.tabs[if k < at { k } else { k + 1 }] == t);
        }
    }
    assert forall|q: PaneId, t: SurfaceId| next.tabs.contains(t) && #[trigger] a.owns(
        q,
        t,
    ) implies q == pane by {
        if t != surface {
            assert(a.owns(pane, t));
        }
    }
    assert(next.tabs.no_duplicates()) by {
        assert forall|i: int, j: int|
            0 <= i < next.tabs.len() && 0 <= j < next.tabs.len() && i != j implies next.tabs[i]
            != next.tabs[j] by {
            let m = if i < at { i } else { i - 1 };
            let n = if j < at { j } else { j - 1 };
            if i != at {
                assert(next.tabs[i] == p.tabs[m]);
                assert(p.tabs.contains(p.tabs[m]));
            }
            if j != at {
                assert(next.tabs[j] == p.tabs[n]);
                assert(p.tabs.contains(p.tabs[n]));
            }
        }
    }
    lemma_pane_update_wf(a, b, pane, next);
    assert forall|n: u64| a.below(n) && surface < n implies #[trigger] b.below(n) by {
        assert forall|t: SurfaceId| #[trigger] next.tabs.contains(t) implies t < n by {
            if t != surface {
                assert(a.owns(pane, t));
            }
        }
    }
    assert forall|t: SurfaceId| #[trigger] next.tabs.contains(t) implies a.surfaces.contains_key(
        t,
    ) by {
        if t != surface {
            assert(a.owns(pane, t));
        }
    }
}

/// Focus may go to any pane.
pub proof fn lemma_focused_wf(a: StateV, pane: PaneId)
    requires
        a.wf(),
    ensures
        a.focused(pane).wf(),
        forall|n: u64| a.below(n) ==> #[trigger] a.focused(pane).below(n),
{
    if a.placed(pane) {
        let (w, s) = a.screen_of(pane)->0;
        assert(a.holds(w, s, pane));
        let b = a.focused(pane);
        let next = b.workspaces[w];
        assert(a.workspaces[w].wf());
        assert forall|t: int| 0 <= t < next.screens.len() implies {
            &&& (#[trigger] next.screens[t]).id == a.screen(w, t).id
            &&& next.screens[t].root.leaves() == a.screen(w, t).root.leaves()
            &&& next.screens[t].root.has(next.screens[t].active_pane)
        } by {
            assert(a.has_screen(w, t));
        }
        lemma_workspace_update_wf(a, b, w, next);
    }
}

/// Moving a tab keeps the session consistent, and every tab that there was.
pub proof fn lemma_with_tab_moved_wf(a: StateV, surface: SurfaceId, target: PaneId, index: int)
    requires
        a.wf(),
        index >= 0,
        a.with_tab_moved(surface, target, index) is Some,
    ensures
        a.with_tab_moved(surface, target, index)->0.wf(),
        a.with_tab_moved(surface, target, index)->0.surfaces == a.surfaces,
        a.with_tab_moved(surface, target, index)->0.owns(target, surface),
        forall|q: PaneId, t: SurfaceId|
            t != surface ==> #[trigger] a.with_tab_moved(surface, target, index)->0.owns(q, t)
                == a.owns(q, t),
        forall|n: u64|
            a.below(n) ==> #[trigger] a.with_tab_moved(surface, target, index)->0.below(n),
{
    let b = a.with_tab_moved(surface, target, index)->0;
    let source = a.pane_of(surface)->0;
    assert(a.owns(source, surface));
    if source == target {
        let p = a.panes[target];
        let next = b.panes[target];
        let i = p.tabs.index_of(surface);
        let j = next.active_tab;
        assert(p.wf());
        assert(p.tabs[i] == surface);
        let mid = p.tabs.remove(i);
        let from = |k: int| {
            let m = if k < j { k } else { k - 1 };
            if k == j { i } else if m < i { m } else { m + 1 }
        };
        assert forall|k: int| 0 <= k < next.tabs.len() implies #[trigger] next.tabs[k]
            == p.tabs[from(k)] && 0 <= from(k) < p.tabs.len() by {
            if k != j {
                let m = if k < j { k } else { k - 1 };
                assert(next.tabs[k] == mid[m]);
                assert(mid[m] == p.tabs[if m < i { m } else { m + 1 }]);
            }
        }
        assert(next.tabs.no_duplicates());
        assert forall|t: SurfaceId| #[trigger] next.tabs.contains(t) == p.tabs.contains(t) by {
            if next.tabs.contains(t) {
                let k = next.tabs.index_of(t);
                assert(p.tabs[from(k)] == t);
            }
            if p.tabs.contains(t) {
                let k = p.tabs.index_of(t);
                let m = if k < i { k } else { k - 1 };
                let f = if k == i { j } else if m < j { m } else { m + 1 };
                assert(from(f) == k);
                assert(next.tabs[f] == t);
            }
        }
        assert forall|q: PaneId, t: SurfaceId| next.tabs.contains(t) && #[trigger] a.owns(
            q,
            t,
        ) implies q == target by {
            assert(a.owns(target, t));
        }
        lemma_pane_update_wf(a, b, target, next);
        lemma_kept_tabs(a, target, next);
    } else {
        let taken = a.without_tab(source, surface);
        lemma_without_tab_wf(a, source, surface);
        assert(taken.panes.contains_key(target));
        assert forall|q: PaneId| !taken.owns(q, surface) by {}
        let put = taken.with_tab(target, surface, index);
        lemma_with_tab_wf(taken, target, surface, index);
        lemma_focused_wf(put, target);
        assert(b.panes == put.panes);
        assert forall|q: PaneId, t: SurfaceId| #[trigger] b.owns(q, t) == put.owns(q, t) by {}
        assert forall|n: u64| a.below(n) implies #[trigger] b.below(n) by {
            assert(a.owns(source, surface));
            assert(taken.below(n));
            assert(put.below(n));
        }
    }
}

/// Removing a surface keeps the session consistent.
pub proof fn lemma_without_surface_wf(a: StateV, surface: SurfaceId)
    requires
        a.wf(),
    ensures
        a.without_surface(surface).wf(),
        a.without_surface(surface).surfaces == a.surfaces.remove(surface),
        forall|q: PaneId, t: SurfaceId| #[trigger]
            a.without_surface(surface).owns(q, t) == (a.owns(q, t) && t != surface),
        forall|n: u64| a.below(n) ==> #[trigger] a.without_surface(surface).below(n),
{
    let rest = StateV { surfaces: a.surfaces.remove(surface), ..a };
    let b = a.without_surface(surface);
    lemma_surfaces_apart(a, rest);
    assert forall|n: u64| a.below(n) implies #[trigger] rest.below(n) by {}
    assert forall|q: PaneId, t: SurfaceId| #[trigger] rest.owns(q, t) == a.owns(q, t) by {}
    match a.pane_of(surface) {
        None => {},
        Some(pane) => {
            assert(a.owns(pane, surface));
            assert(rest.owns(pane, surface));
            lemma_without_tab_wf(rest, pane, surface);
            assert forall|n: u64| a.below(n) implies #[trigger] b.below(n) by {
                assert(rest.below(n));
            }
        },
    }
}

/// A fresh pane may be put into the tree together with its place.
proof fn lemma_fresh_pane_wf(a: StateV, b: StateV, pane: PaneId, surface: SurfaceId, active_at: u64)
    requires
        a.tabs_wf(),
        !a.panes.contains_key(pane),
        forall|q: PaneId| !a.owns(q, surface),
        b.panes == a.with_pane(pane, surface, active_at).panes,
    ensures
        b.tabs_wf(),
        forall|q: PaneId, t: SurfaceId| #[trigger]
            b.owns(q, t) == (a.owns(q, t) || q == pane && t == surface),
{
    let next = b.panes[pane];
    assert(next.tabs[0] == surface);
    assert forall|q: PaneId, t: SurfaceId| #[trigger] b.owns(q, t) == (a.owns(q, t) || q == pane
        && t == surface) by {
        if q == pane && b.owns(q, t) {
            assert(next.tabs[next.tabs.index_of(t)] == t);
        }
    }
    assert forall|p: PaneId| #[trigger] b.panes.contains_key(p) implies b.panes[p].id == p
        && b.panes[p].wf() by {
        if p != pane {
            assert(a.panes.contains_key(p));
        }
    }
}

proof fn lemma_leaf(pane: PaneId)
    ensures
        Node::Leaf(pane).leaves().no_duplicates(),
        forall|p: PaneId| #[trigger] Node::Leaf(pane).has(p) == (p == pane),
{
}

/// A workspace may be added around a fresh pane.
pub proof fn lemma_with_workspace_wf(
    a: StateV,
    id: u64,
    name: Seq<char>,
    screen: u64,
    pane: PaneId,
    surface: SurfaceId,
    active_at: u64,
)
    requires
        a.wf(),
        a.surfaces.contains_key(surface),
        !a.panes.contains_key(pane),
        forall|q: PaneId| !a.owns(q, surface),
        forall|w: int| !a.is_workspace(w, id),
        forall|w: int, s: int| !a.is_screen(w, s, screen),
    ensures
        a.with_workspace(id, name, screen, pane).with_pane(pane, surface, active_at).wf(),
        forall|q: PaneId, t: SurfaceId| #[trigger]
            a.with_workspace(id, name, screen, pane).with_pane(pane, surface, active_at).owns(q, t)
                == (a.owns(q, t) || q == pane && t == surface),
        forall|n: u64|
            a.below(n) && pane < n && surface < n && id < n && screen < n
                ==> #[trigger] a.with_workspace(id, name, screen, pane).with_pane(
                pane,
                surface,
                active_at,
            ).below(n),
{
    let b = a.with_workspace(id, name, screen, pane).with_pane(pane, surface, active_at);
    let last = a.workspaces.len() as int;
    lemma_fresh_pane_wf(a, b, pane, surface, active_at);
    lemma_leaf(pane);
    assert forall|w: int| 0 <= w < b.workspaces.len() implies (#[trigger] b.workspaces[w]).wf() by {
        if w < last {
            assert(a.workspaces[w].wf());
        }
    }
    assert forall|w: int, s: int| #[trigger] b.has_screen(w, s) == (a.has_screen(w, s) || w == last
        && s == 0) by {}
    assert forall|w: int, s: int| a.has_screen(w, s) implies #[trigger] b.screen(w, s) == a.screen(
        w,
        s,
    ) by {}
    assert forall|w: int, s: int, p: PaneId| #[trigger] b.holds(w, s, p) == (a.holds(w, s, p) || w
        == last && s == 0 && p == pane) by {
        assert(b.has_screen(w, s) == (a.has_screen(w, s) || w == last && s == 0));
        if w == last && s == 0 {
            assert(b.screen(w, s).root == Node::Leaf(pane));
        }
    }
    assert forall|w: int, s: int| #[trigger] b.has_screen(w, s) implies b.screen(
        w,
        s,
    ).root.leaves().no_duplicates() && b.screen(w, s).root.has(b.screen(w, s).active_pane) by {
        if w != last {
            assert(a.has_screen(w, s));
        }
    }
    assert forall|w1: int, s1: int, w2: int, s2: int, p: PaneId| #[trigger] b.holds(w1, s1, p)
        && #[trigger] b.holds(w2, s2, p) implies w1 == w2 && s1 == s2 by {
        assert(p != pane ==> a.holds(w1, s1, p) && a.holds(w2, s2, p));
    }
    assert forall|w: int, s: int, p: PaneId| #[trigger] b.holds(w, s, p) implies b.panes.contains_key(
        p,
    ) by {
        assert(p != pane ==> a.holds(w, s, p));
    }
    assert forall|p: PaneId| #[trigger] b.panes.contains_key(p) implies b.placed(p) by {
        if p == pane {
            assert(b.holds(last, 0, p));
        } else {
            assert(a.panes.contains_key(p));
            assert(a.placed(p));
            let (w, s) = choose|w: int, s: int| a.holds(w, s, p);
            assert(b.holds(w, s, p));
        }
    }
    assert forall|w: int, i: u64| #[trigger] b.is_workspace(w, i) == (a.is_workspace(w, i) || w
        == last && i == id) by {}
    assert forall|w: int, s: int, i: u64| #[trigger] b.is_screen(w, s, i) == (a.is_screen(w, s, i)
        || w == last && s == 0 && i == screen) by {
        assert(b.has_screen(w, s) == (a.has_screen(w, s) || w == last && s == 0));
    }
}

/// A screen may be added around a fresh pane.
pub proof fn lemma_with_screen_wf(
    a: StateV,
    w: int,
    screen: u64,
    pane: PaneId,
    surface: SurfaceId,
    active_at: u64,
)
    requires
        a.wf(),
        a.surfaces.contains_key(surface),
        0 <= w < a.workspaces.len(),
        !a.panes.contains_key(pane),
        forall|q: PaneId| !a.owns(q, surface),
        forall|v: int, s: int| !a.is_screen(v, s, screen),
    ensures
        a.with_screen(w, screen, pane).with_pane(pane, surface, active_at).wf(),
        forall|q: PaneId, t: SurfaceId| #[trigger]
            a.with_screen(w, screen, pane).with_pane(pane, surface, active_at).owns(q, t) == (
            a.owns(q, t) || q == pane && t == surface),
        forall|n: u64|
            a.below(n) && pane < n && surface < n && screen < n ==> #[trigger] a.with_screen(
                w,
                screen,
                pane,
            ).with_pane(pane, surface, active_at).below(n),
{
    let b = a.with_screen(w, screen, pane).with_pane(pane, surface, active_at);
    let last = a.workspaces[w].screens.len() as int;
    lemma_fresh_pane_wf(a, b, pane, surface, active_at);
    lemma_leaf(pane);
    assert forall|v: int| 0 <= v < b.workspaces.len() implies (#[trigger] b.workspaces[v]).wf() by {
        assert(a.workspaces[v].wf());
    }
    assert forall|v: int, s: int| #[trigger] b.has_screen(v, s) == (a.has_screen(v, s) || v == w
        && s == last) by {}
    assert forall|v: int, s: int| a.has_screen(v, s) implies #[trigger] b.screen(v, s) == a.screen(
        v,
        s,
    ) by {}
    assert forall|v: int, s: int, p: PaneId| #[trigger] b.holds(v, s, p) == (a.holds(v, s, p) || v
        == w && s == last && p == pane) by {
        assert(b.has_screen(v, s) == (a.has_screen(v, s) || v == w && s == last));
        if v == w && s == last {
            assert(b.screen(v, s).root == Node::Leaf(pane));
        }
    }
    assert forall|v: int, s: int| #[trigger] b.has_screen(v, s) implies b.screen(
        v,
        s,
    ).root.leaves().no_duplicates() && b.screen(v, s).root.has(b.screen(v, s).active_pane) by {
        if !(v == w && s == last) {
            assert(a.has_screen(v, s));
        }
    }
    assert forall|w1: int, s1: int, w2: int, s2: int, p: PaneId| #[trigger] b.holds(w1, s1, p)
        && #[trigger] b.holds(w2, s2, p) implies w1 == w2 && s1 == s2 by {
        assert(p != pane ==> a.holds(w1, s1, p) && a.holds(w2, s2, p));
    }
    assert forall|v: int, s: int, p: PaneId| #[trigger] b.holds(v, s, p) implies b.panes.contains_key(
        p,
    ) by {
        assert(p != pane ==> a.holds(v, s, p));
    }
    assert forall|p: PaneId| #[trigger] b.panes.contains_key(p) implies b.placed(p) by {
        if p == pane {
            assert(b.holds(w, last, p));
        } else {
            assert(a.panes.contains_key(p));
            assert(a.placed(p));
            let (v, s) = choose|v: int, s: int| a.holds(v, s, p);
            assert(b.holds(v, s, p));
        }
    }
    assert forall|v: int, i: u64| #[trigger] b.is_workspace(v, i) == a.is_workspace(v, i) by {}
    assert forall|v: int, s: int, i: u64| #[trigger] b.is_screen(v, s, i) == (a.is_screen(v, s, i)
        || v == w && s == last && i == screen) by {
        assert(b.has_screen(v, s) == (a.has_screen(v, s) || v == w && s == last));
    }
}

/// A pane may be split to make room for a fresh one.
pub proof fn lemma_with_split_wf(
    a: StateV,
    target: PaneId,
    dir: SplitDir,
    pane: PaneId,
    surface: SurfaceId,
    active_at: u64,
)
    requires
        a.layout_wf(),
        a.placed(target),
        !a.panes.contains_key(pane),
        forall|q: PaneId| !a.owns(q, surface),
    ensures
        a.with_split(target, dir, pane).with_pane(pane, surface, active_at).layout_wf(),
        a.tabs_known() && a.surfaces.contains_key(surface) ==> a.with_split(
            target,
            dir,
            pane,
        ).with_pane(pane, surface, active_at).tabs_known(),
        forall|q: PaneId, t: SurfaceId| #[trigger]
            a.with_split(target, dir, pane).with_pane(pane, surface, active_at).owns(q, t) == (
            a.owns(q, t) || q == pane && t == surface),
        forall|n: u64|
            a.below(n) && pane < n && surface < n ==> #[trigger] a.with_split(
                target,
                dir,
                pane,
            ).with_pane(pane, surface, active_at).below(n),
{
    let b = a.with_split(target, dir, pane).with_pane(pane, surface, active_at);
    let (w, s) = a.screen_of(target)->0;
    assert(a.holds(w, s, target));
    let old_root = a.screen(w, s).root;
    let root = old_root.with_split(target, dir, pane);
    lemma_fresh_pane_wf(a, b, pane, surface, active_at);
    assert(!old_root.has(pane)) by {
        if old_root.has(pane) {
            assert(a.holds(w, s, pane));
        }
    }
    assert(root.leaves().no_duplicates()) by {
        assert(a.has_screen(w, s));
        node::law_split_order(old_root, target, dir, pane);
        node::lemma_has_leaves(old_root, pane);
        node::lemma_has_leaves(old_root, target);
        let l = old_root.leaves();
        let at = l.index_of(target) + 1;
        let m = l.insert(at, pane);
        assert forall|i: int, j: int| 0 <= i < m.len() && 0 <= j < m.len() && i != j implies m[i]
            != m[j] by {
            if i != at {
                assert(m[i] == l[if i < at { i } else { i - 1 }]);
            }
            if j != at {
                assert(m[j] == l[if j < at { j } else { j - 1 }]);
            }
        }
    }
    assert forall|p: PaneId| #[trigger] root.has(p) == (old_root.has(p) || p == pane) by {
        node::lemma_split_has(old_root, target, dir, pane, p);
    }
    assert forall|v: int| 0 <= v < b.workspaces.len() implies (#[trigger] b.workspaces[v]).wf() by {
        assert(a.workspaces[v].wf());
    }
    assert forall|v: int, t: int| #[trigger] b.has_screen(v, t) == a.has_screen(v, t) by {}
    assert forall|v: int, t: int, p: PaneId| #[trigger] b.holds(v, t, p) == (a.holds(v, t, p) || v
        == w && t == s && p == pane) by {
        assert(b.has_screen(v, t) == a.has_screen(v, t));
    }
    assert forall|v: int, t: int| #[trigger] b.has_screen(v, t) implies b.screen(
        v,
        t,
    ).root.leaves().no_duplicates() && b.screen(v, t).root.has(b.screen(v, t).active_pane) by {
        assert(a.has_screen(v, t));
    }
    assert forall|w1: int, s1: int, w2: int, s2: int, p: PaneId| #[trigger] b.holds(w1, s1, p)
        && #[trigger] b.holds(w2, s2, p) implies w1 == w2 && s1 == s2 by {
        assert(p != pane ==> a.holds(w1, s1, p) && a.holds(w2, s2, p));
    }
    assert forall|v: int, t: int, p: PaneId| #[trigger] b.holds(v, t, p) implies b.panes.contains_key(
        p,
    ) by {
        assert(p != pane ==> a.holds(v, t, p));
    }
    assert forall|p: PaneId| #[trigger] b.panes.contains_key(p) implies b.placed(p) by {
        if p == pane {
            assert(b.holds(w, s, p));
        } else {
            assert(a.panes.contains_key(p));
            assert(a.placed(p));
            let (v, t) = choose|v: int, t: int| a.holds(v, t, p);
            assert(b.holds(v, t, p));
        }
    }
    assert forall|v: int, i: u64| #[trigger] b.is_workspace(v, i) == a.is_workspace(v, i) by {}
    assert forall|v: int, t: int, i: u64| #[trigger] b.is_screen(v, t, i) == a.is_screen(
        v,
        t,
        i,
    ) by {
        assert(b.has_screen(v, t) == a.has_screen(v, t));
    }
}

/// A screen may change its name, its active pane and the shape of its tree,
/// as long as the leaves stay as they are.
pub proof fn lemma_screen_update_wf(a: StateV, b: StateV, w: int, s: int, screen: Screen)
    requires
        a.wf(),
        a.has_screen(w, s),
        screen.id == a.screen(w, s).id,
        screen.root.leaves() == a.screen(w, s).root.leaves(),
        screen.root.has(screen.active_pane),
        b == (StateV {
            workspaces: a.workspaces.update(
                w,
                WorkspaceV {
                    screens: a.workspaces[w].screens.update(s, screen),
                    ..a.workspaces[w]
                },
            ),
            ..a
        }),
    ensures
        b.wf(),
        forall|n: u64| a.below(n) ==> #[trigger] b.below(n),
{
    let next = b.workspaces[w];
    assert(a.workspaces[w].wf());
    assert forall|t: int| 0 <= t < next.screens.len() implies {
        &&& (#[trigger] next.screens[t]).id == a.screen(w, t).id
        &&& next.screens[t].root.leaves() == a.screen(w, t).root.leaves()
        &&& next.screens[t].root.has(next.screens[t].active_pane)
    } by {
        assert(a.has_screen(w, t));
    }
    lemma_workspace_update_wf(a, b, w, next);
}

pub proof fn lemma_with_ratio_wf(a: StateV, pane: PaneId, dir: SplitDir, ratio: Ratio)
    requires
        a.wf(),
        a.with_ratio(pane, dir, ratio) is Some,
    ensures
        a.with_ratio(pane, dir, ratio)->0.wf(),
        forall|n: u64| a.below(n) ==> #[trigger] a.with_ratio(pane, dir, ratio)->0.below(n),
{
    let b = a.with_ratio(pane, dir, ratio)->0;
    let (w, s) = a.screen_of(pane)->0;
    assert(a.holds(w, s, pane));
    let screen = b.screen(w, s);
    node::law_ratio_keeps_leaves(a.screen(w, s).root, pane, dir, ratio);
    assert(a.has_screen(w, s));
    node::lemma_has_leaves(a.screen(w, s).root, screen.active_pane);
    node::lemma_has_leaves(screen.root, screen.active_pane);
    lemma_screen_update_wf(a, b, w, s, screen);
}

/// A workspace may change its name and selection.
pub proof fn lemma_workspace_edit_wf(a: StateV, b: StateV, w: int)
    requires
        a.wf(),
        0 <= w < a.workspaces.len(),
        0 <= b.active_workspace < a.workspaces.len(),
        b == (StateV {
            workspaces: a.workspaces.update(
                w,
                WorkspaceV {
                    name: b.workspaces[w].name,
                    active_screen: b.workspaces[w].active_screen,
                    ..a.workspaces[w]
                },
            ),
            active_workspace: b.active_workspace,
            ..a
        }),
        b.workspaces[w].wf(),
    ensures
        b.wf(),
        forall|n: u64| a.below(n) ==> #[trigger] b.below(n),
{
    let next = b.workspaces[w];
    assert forall|t: int| 0 <= t < next.screens.len() implies {
        &&& (#[trigger] next.screens[t]).id == a.screen(w, t).id
        &&& next.screens[t].root.leaves() == a.screen(w, t).root.leaves()
        &&& next.screens[t].root.has(next.screens[t].active_pane)
    } by {
        assert(a.has_screen(w, t));
    }
    lemma_workspace_update_wf(a, b, w, next);
}

/// A pane may change its name, its active tab and its stamp.
pub proof fn lemma_pane_edit_wf(a: StateV, b: StateV, pane: PaneId)
    requires
        a.wf(),
        a.panes.contains_key(pane),
        b == (StateV {
            panes: a.panes.insert(
                pane,
                PaneV {
                    name: b.panes[pane].name,
                    active_tab: b.panes[pane].active_tab,
                    active_at: b.panes[pane].active_at,
                    ..a.panes[pane]
                },
            ),
            ..a
        }),
        0 <= b.panes[pane].active_tab < a.panes[pane].tabs.len(),
    ensures
        b.wf(),
        forall|n: u64| a.below(n) ==> #[trigger] b.below(n),
{
    let next = b.panes[pane];
    assert(a.panes[pane].wf());
    assert forall|q: PaneId, t: SurfaceId| next.tabs.contains(t) && #[trigger] a.owns(
        q,
        t,
    ) implies q == pane by {
        assert(a.owns(pane, t));
    }
    lemma_pane_update_wf(a, b, pane, next);
    lemma_kept_tabs(a, pane, next);
}

/// The active workspace may be any.
pub proof fn lemma_active_workspace_wf(a: StateV, b: StateV)
    requires
        a.wf(),
        a.workspaces.len() > 0,
        0 <= b.active_workspace < a.workspaces.len(),
        b == (StateV { active_workspace: b.active_workspace, ..a }),
    ensures
        b.wf(),
        forall|n: u64| a.below(n) ==> #[trigger] b.below(n),
{
    assert(a.workspaces.update(0, a.workspaces[0]) =~= a.workspaces);
    assert(a.workspaces[0].wf());
    lemma_workspace_edit_wf(a, b, 0);
}

/// Workspaces may change places.
proof fn lemma_permuted_wf(a: StateV, b: StateV, from: spec_fn(int) -> int, to: spec_fn(int) -> int)
    requires
        a.wf(),
        b.panes == a.panes,
        b.surfaces == a.surfaces,
        b.workspaces.len() == a.workspaces.len(),
        0 <= b.active_workspace < b.workspaces.len(),
        forall|v: int|
            #![trigger b.workspaces[v]]
            #![trigger from(v)]
            0 <= v < b.workspaces.len() ==> 0 <= from(v) < a.workspaces.len() && b.workspaces[v]
                == a.workspaces[from(v)] && to(from(v)) == v,
        forall|v: int|
            #![trigger a.workspaces[v]]
            #![trigger to(v)]
            0 <= v < a.workspaces.len() ==> 0 <= to(v) < b.workspaces.len() && from(to(v)) == v,
    ensures
        b.wf(),
        forall|n: u64| a.below(n) ==> #[trigger] b.below(n),
{
    lemma_same_tabs(a, b);
    assert forall|v: int| 0 <= v < b.workspaces.len() implies (#[trigger] b.workspaces[v]).wf() by {
        assert(a.workspaces[from(v)].wf());
    }
    assert forall|v: int, s: int| #[trigger] b.has_screen(v, s) implies a.has_screen(from(v), s)
        && b.screen(v, s) == a.screen(from(v), s) by {
        assert(b.workspaces[v] == a.workspaces[from(v)]);
    }
    assert forall|v: int, s: int, p: PaneId| #[trigger] b.holds(v, s, p) implies a.holds(
        from(v),
        s,
        p,
    ) by {
        assert(b.has_screen(v, s));
    }
    assert forall|v: int, s: int| #[trigger] b.has_screen(v, s) implies b.screen(
        v,
        s,
    ).root.leaves().no_duplicates() && b.screen(v, s).root.has(b.screen(v, s).active_pane) by {
        assert(a.has_screen(from(v), s));
    }
    assert forall|w1: int, s1: int, w2: int, s2: int, p: PaneId| #[trigger] b.holds(w1, s1, p)
        && #[trigger] b.holds(w2, s2, p) implies w1 == w2 && s1 == s2 by {
        assert(a.holds(from(w1), s1, p) && a.holds(from(w2), s2, p));
        assert(to(from(w1)) == w1 && to(from(w2)) == w2);
    }
    assert forall|v: int, s: int, p: PaneId| #[trigger] b.holds(v, s, p) implies b.panes.contains_key(
        p,
    ) by {
        assert(a.holds(from(v), s, p));
    }
    assert forall|p: PaneId| #[trigger] b.panes.contains_key(p) implies b.placed(p) by {
        assert(a.panes.contains_key(p));
        assert(a.placed(p));
        let (v, s) = choose|v: int, s: int| a.holds(v, s, p);
        assert(a.has_screen(v, s));
        assert(b.workspaces[to(v)] == a.workspaces[v]);
        assert(b.holds(to(v), s, p));
    }
    assert forall|u: int, v: int, i: u64| #[trigger] b.is_workspace(u, i)
        && #[trigger] b.is_workspace(v, i) implies u == v by {
        assert(a.is_workspace(from(u), i) && a.is_workspace(from(v), i));
        assert(to(from(u)) == u && to(from(v)) == v);
    }
    assert forall|w1: int, s1: int, w2: int, s2: int, i: u64| #[trigger] b.is_screen(w1, s1, i)
        && #[trigger] b.is_screen(w2, s2, i) implies w1 == w2 && s1 == s2 by {
        assert(b.has_screen(w1, s1) && b.has_screen(w2, s2));
        assert(a.is_screen(from(w1), s1, i) && a.is_screen(from(w2), s2, i));
        assert(to(from(w1)) == w1 && to(from(w2)) == w2);
    }
    assert forall|n: u64| a.below(n) implies #[trigger] b.below(n) by {
        assert forall|p: PaneId, t: SurfaceId| #[trigger] b.owns(p, t) implies t < n by {
            assert(a.owns(p, t));
        }
        assert forall|v: int, i: u64| #[trigger] b.is_workspace(v, i) implies i < n by {
            assert(a.is_workspace(from(v), i));
        }
        assert forall|v: int, s: int, i: u64| #[trigger] b.is_screen(v, s, i) implies i < n by {
            assert(b.has_screen(v, s));
            assert(a.is_screen(from(v), s, i));
        }
    }
}

/// Where a workspace comes from when the one at `old` went to `new`.
spec fn came_from(v: int, old: int, new: int) -> int {
    let m = if v < new {
        v
    } else {
        v - 1
    };
    if v == new {
        old
    } else if m < old {
        m
    } else {
        m + 1
    }
}

/// Moving a workspace keeps every workspace, and what is in it.
pub proof fn lemma_with_workspace_moved_wf(a: StateV, id: u64, index: int)
    requires
        a.wf(),
        index >= 0,
        a.with_workspace_moved(id, index) is Some,
    ensures
        a.with_workspace_moved(id, index)->0.wf(),
        a.with_workspace_moved(id, index)->0.workspaces.len() == a.workspaces.len(),
        forall|n: u64| a.below(n) ==> #[trigger] a.with_workspace_moved(id, index)->0.below(n),
        forall|v: int|
            0 <= v < a.workspaces.len() ==> {
                let to = StateV::shifted(
                    v,
                    a.workspace_index(id)->0,
                    StateV::landing(
                        a.workspace_index(id)->0,
                        index,
                        a.workspaces.len() as int,
                    ),
                );
                &&& 0 <= to < a.workspaces.len()
                &&& a.with_workspace_moved(id, index)->0.workspaces[to] == #[trigger] a.workspaces[v]
            },
{
    let b = a.with_workspace_moved(id, index)->0;
    let old = a.workspace_index(id)->0;
    assert(a.is_workspace(old, id));
    let len = a.workspaces.len() as int;
    let new = StateV::landing(old, index, len);
    let mid = a.workspaces.remove(old);
    let from = |v: int| came_from(v, old, new);
    let to = |v: int| StateV::shifted(v, old, new);
    assert(b.workspaces.len() == len);
    assert forall|v: int| 0 <= v < len implies #[trigger] b.workspaces[v] == a.workspaces[came_from(
        v,
        old,
        new,
    )] by {
        if v != new {
            let m = if v < new { v } else { v - 1 };
            assert(b.workspaces[v] == mid[m]);
        }
    }
    lemma_permuted_wf(a, b, from, to);
    assert forall|v: int| 0 <= v < len implies {
        &&& 0 <= StateV::shifted(v, old, new) < len
        &&& b.workspaces[StateV::shifted(v, old, new)] == #[trigger] a.workspaces[v]
    } by {
        assert(came_from(StateV::shifted(v, old, new), old, new) == v);
    }
}

/// A larger bound on ids is a bound too.
pub proof fn lemma_below_more(a: StateV, n: u64, m: u64)
    requires
        a.below(n),
        n <= m,
    ensures
        a.below(m),
{
}

} // verus!
