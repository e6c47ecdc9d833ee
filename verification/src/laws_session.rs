//! What the operations on a session do, seen from before and after.

use vstd::prelude::*;

use crate::consistency;
use crate::model::{PaneV, StateV, WorkspaceV};
use crate::mux;
use crate::mux::{Effect, MuxEvent, MuxV};
use crate::node;
use crate::node::{PaneId, SplitDir, SurfaceId, WorkspaceId};
use crate::ops;
use crate::ratio::Ratio;
use crate::surface::Surface;

verus! {

/// `after` is `before` without what stands in place `i`.
pub open spec fn one_less<T>(before: Seq<T>, after: Seq<T>, i: int) -> bool {
    &&& after.len() == before.len() - 1
    &&& forall|j: int| 0 <= j < i ==> #[trigger] after[j] == before[j]
    &&& forall|j: int| i <= j < after.len() ==> #[trigger] after[j] == before[j + 1]
}

/// Everything but the panes, and all panes but `pane`, are as they were.
pub open spec fn only_pane_differs(a: StateV, b: StateV, pane: PaneId) -> bool {
    &&& b.workspaces == a.workspaces
    &&& b.active_workspace == a.active_workspace
    &&& forall|q: PaneId| #[trigger] b.panes.contains_key(q) == a.panes.contains_key(q)
    &&& forall|q: PaneId|
        q != pane && #[trigger] a.panes.contains_key(q) ==> b.panes[q] == a.panes[q]
}

/// The place of a pane follows from the trees.
proof fn lemma_located(a: StateV, pane: PaneId, w: int, s: int)
    requires
        a.tree_wf(),
        a.has_screen(w, s),
        a.screen(w, s).root.leaves().contains(pane),
    ensures
        a.holds(w, s, pane),
        a.screen_of(pane) == Some((w, s)),
        a.panes.contains_key(pane),
{
    node::lemma_has_leaves(a.screen(w, s).root, pane);
    assert(a.holds(w, s, pane));
    let (v, t) = choose|v: int, t: int| a.holds(v, t, pane);
    assert(a.holds(v, t, pane));
}

/// Closing one of several tabs of a pane keeps the others in their order.
/// Another tab that was active stays active; for the active one, the tab
/// before it becomes active, or the next one when it was the first.
pub proof fn law_close_one_of_many(m: MuxV, pane: PaneId, i: int)
    requires
        m.wf(),
        m.state.panes.contains_key(pane),
        m.state.panes[pane].tabs.len() > 1,
        0 <= i < m.state.panes[pane].tabs.len(),
    ensures
        ({
            let p = m.state.panes[pane];
            let b = m.closed(p.tabs[i]).state;
            let q = b.panes[pane];
            &&& only_pane_differs(m.state, b, pane)
            &&& one_less(p.tabs, q.tabs, i)
            &&& 0 <= q.active_tab < q.tabs.len()
            &&& q.tabs[q.active_tab] == if p.active_tab != i {
                p.tabs[p.active_tab]
            } else if i > 0 {
                p.tabs[i - 1]
            } else {
                p.tabs[1]
            }
            &&& q.id == p.id && q.name == p.name && q.active_at == p.active_at
        }),
{
    let a = m.state;
    let p = a.panes[pane];
    let surface = p.tabs[i];
    assert(p.wf());
    assert(p.tabs.contains(surface));
    assert(a.owns(pane, surface));
    consistency::lemma_pane_of(a, pane, surface);
    assert(p.tabs.index_of(surface) == i);
}

/// Workspaces and screens are as they were, but for what screen `s` of
/// workspace `w` holds.
pub open spec fn only_screen_differs(a: StateV, b: StateV, w: int, s: int) -> bool {
    &&& b.workspaces.len() == a.workspaces.len()
    &&& b.active_workspace == a.active_workspace
    &&& forall|v: int|
        0 <= v < a.workspaces.len() ==> {
            &&& (#[trigger] b.workspaces[v]).id == a.workspaces[v].id
            &&& b.workspaces[v].name == a.workspaces[v].name
            &&& b.workspaces[v].active_screen == a.workspaces[v].active_screen
            &&& b.workspaces[v].screens.len() == a.workspaces[v].screens.len()
        }
    &&& forall|v: int, t: int| #[trigger]
        a.has_screen(v, t) && !(v == w && t == s) ==> b.screen(v, t) == a.screen(v, t)
    &&& b.screen(w, s).id == a.screen(w, s).id
    &&& b.screen(w, s).name == a.screen(w, s).name
}

/// All panes but `pane`, which is gone, are as they were.
pub open spec fn pane_gone(a: StateV, b: StateV, pane: PaneId) -> bool {
    &&& forall|q: PaneId| #[trigger]
        b.panes.contains_key(q) == (a.panes.contains_key(q) && q != pane)
    &&& forall|q: PaneId|
        q != pane && #[trigger] a.panes.contains_key(q) ==> b.panes[q] == a.panes[q]
}

/// `pane` was active last among `ids`; of those that were active at the same
/// time it comes last.
pub open spec fn latest(panes: Map<PaneId, PaneV>, ids: Seq<PaneId>, pane: PaneId) -> bool {
    exists|i: int|
        {
            &&& 0 <= i < ids.len()
            &&& #[trigger] ids[i] == pane
            &&& forall|j: int|
                0 <= j < i ==> panes[#[trigger] ids[j]].active_at <= panes[pane].active_at
            &&& forall|j: int|
                i < j < ids.len() ==> panes[#[trigger] ids[j]].active_at < panes[pane].active_at
        }
}

/// Closing the last tab of a pane beside others takes the pane out of its
/// split tree. When it was the active pane of its screen, the one that was
/// active last becomes active; otherwise the active pane stays.
pub proof fn law_close_pane_in_split(m: MuxV, pane: PaneId, w: int, s: int)
    requires
        m.wf(),
        m.state.has_screen(w, s),
        m.state.screen(w, s).root.leaves().contains(pane),
        m.state.screen(w, s).root.leaves().len() > 1,
        m.state.panes[pane].tabs.len() == 1,
    ensures
        ({
            let a = m.state;
            let b = m.closed(a.panes[pane].tabs[0]).state;
            let before = a.screen(w, s);
            let after = b.screen(w, s);
            &&& pane_gone(a, b, pane)
            &&& only_screen_differs(a, b, w, s)
            &&& node::taken_out(before.root, after.root, pane)
            &&& if before.active_pane == pane {
                latest(a.panes, after.root.leaves(), after.active_pane)
            } else {
                after.active_pane == before.active_pane
            }
        }),
{
    let a = m.state;
    let surface = a.panes[pane].tabs[0];
    lemma_located(a, pane, w, s);
    let before = a.screen(w, s);
    let root = before.root;
    assert(a.panes[pane].wf());
    assert(a.panes[pane].tabs.contains(surface));
    assert(a.owns(pane, surface));
    consistency::lemma_pane_of(a, pane, surface);
    let rest = StateV { surfaces: a.surfaces.remove(surface), ..a };
    consistency::lemma_same_tree(a, rest);
    assert(rest.screen_of(pane) == Some((w, s)));
    node::law_taken_out(root, pane);
    assert(root != node::Node::Leaf(pane));
    let b = m.closed(surface).state;
    let panes = a.panes.remove(pane);
    let after = b.screen(w, s);
    let ids = after.root.leaves();
    assert(b == rest.without_pane(pane));
    assert(b.panes =~= panes);
    if before.active_pane == pane {
        assert forall|j: int| 0 <= j < ids.len() implies panes.contains_key(#[trigger] ids[j])
            && ids[j] != pane by {
            assert(ids.contains(ids[j]));
            node::lemma_has_leaves(after.root, ids[j]);
            node::lemma_without_has(root, pane, ids[j]);
            assert(a.holds(w, s, ids[j]));
        }
        assert(ids.len() > 0) by {
            consistency::lemma_leaf_exists(after.root);
        }
        consistency::lemma_some_most_recent(panes, ids);
        let i = choose|i: int| ops::is_most_recent(panes, ids, i);
        assert(ops::is_most_recent(panes, ids, i));
        assert(after.active_pane == ids[i]);
        assert(latest(a.panes, ids, after.active_pane)) by {
            assert(ids[i] == after.active_pane);
        }
    }
}

/// Closing the last tab of a screen beside others takes the screen out of its
/// workspace. The place that was active stays active, or the last one when
/// that was the place that went.
pub proof fn law_close_screen_beside_others(m: MuxV, pane: PaneId, w: int, s: int)
    requires
        m.wf(),
        m.state.has_screen(w, s),
        m.state.screen(w, s).root == node::Node::Leaf(pane),
        m.state.workspaces[w].screens.len() > 1,
        m.state.panes[pane].tabs.len() == 1,
    ensures
        ({
            let a = m.state;
            let b = m.closed(a.panes[pane].tabs[0]).state;
            let before = a.workspaces[w];
            let after = b.workspaces[w];
            &&& pane_gone(a, b, pane)
            &&& b.workspaces.len() == a.workspaces.len()
            &&& b.active_workspace == a.active_workspace
            &&& forall|v: int|
                0 <= v < a.workspaces.len() && v != w ==> #[trigger] b.workspaces[v]
                    == a.workspaces[v]
            &&& after.id == before.id && after.name == before.name
            &&& one_less(before.screens, after.screens, s)
            &&& before.active_screen < after.screens.len() ==> after.active_screen
                == before.active_screen
            &&& before.active_screen >= after.screens.len() ==> after.active_screen
                == after.screens.len() - 1
        }),
{
    let a = m.state;
    let surface = a.panes[pane].tabs[0];
    assert(a.screen(w, s).root.leaves()[0] == pane);
    lemma_located(a, pane, w, s);
    assert(a.panes[pane].wf());
    assert(a.panes[pane].tabs.contains(surface));
    assert(a.owns(pane, surface));
    consistency::lemma_pane_of(a, pane, surface);
    let rest = StateV { surfaces: a.surfaces.remove(surface), ..a };
    consistency::lemma_same_tree(a, rest);
    assert(rest.screen_of(pane) == Some((w, s)));
    assert(m.closed(surface).state == rest.without_pane(pane));
}

/// Closing the last tab of a workspace takes the workspace out. The active
/// workspace stays active when it is another one; else the last becomes so.
pub proof fn law_close_last_of_workspace(m: MuxV, pane: PaneId, w: int)
    requires
        m.wf(),
        0 <= w < m.state.workspaces.len(),
        m.state.workspaces[w].screens.len() == 1,
        m.state.screen(w, 0).root == node::Node::Leaf(pane),
        m.state.panes[pane].tabs.len() == 1,
    ensures
        ({
            let a = m.state;
            let b = m.closed(a.panes[pane].tabs[0]).state;
            &&& pane_gone(a, b, pane)
            &&& one_less(a.workspaces, b.workspaces, w)
            &&& b.workspaces.len() > 0 ==> 0 <= b.active_workspace < b.workspaces.len()
                && b.workspaces[b.active_workspace].id == if a.active_workspace != w {
                a.workspaces[a.active_workspace].id
            } else {
                b.workspaces[b.workspaces.len() - 1].id
            }
        }),
{
    let a = m.state;
    let surface = a.panes[pane].tabs[0];
    assert(a.has_screen(w, 0));
    assert(a.screen(w, 0).root.leaves()[0] == pane);
    lemma_located(a, pane, w, 0);
    assert(a.panes[pane].wf());
    assert(a.panes[pane].tabs.contains(surface));
    assert(a.owns(pane, surface));
    consistency::lemma_pane_of(a, pane, surface);
    let rest = StateV { surfaces: a.surfaces.remove(surface), ..a };
    consistency::lemma_same_tree(a, rest);
    assert(rest.screen_of(pane) == Some((w, 0int)));
    assert(m.closed(surface).state == rest.without_pane(pane));
}

/// Closing a surface ends it and then tells everybody that the tree changed,
/// and after that, when no workspace is left, that the session is empty.
pub proof fn law_close_told(m: MuxV, surface: SurfaceId)
    requires
        m.state.surfaces.contains_key(surface),
    ensures
        ({
            let n = m.closed(surface);
            let old = m.outbox.len() as int;
            &&& !n.state.surfaces.contains_key(surface)
            &&& n.outbox.subrange(0, old) == m.outbox
            &&& n.outbox[old] == Effect::Kill(surface)
            &&& n.outbox[old + 1] == Effect::Emit(MuxEvent::TreeChanged)
            &&& n.state.workspaces.len() == 0 ==> n.outbox.len() == old + 3 && n.outbox[old + 2]
                == Effect::Emit(MuxEvent::Empty)
            &&& n.state.workspaces.len() > 0 ==> n.outbox.len() == old + 2
            &&& n.next_id == m.next_id
        }),
{
    let n = m.closed(surface);
    let rest = StateV { surfaces: m.state.surfaces.remove(surface), ..m.state };
    if let Some(pane) = m.state.pane_of(surface) {
        consistency::lemma_without_pane_parts(rest, pane);
    }
    assert(n.outbox.subrange(0, m.outbox.len() as int) =~= m.outbox);
}

/// Where place `j` ends up when place `old` goes to `new` and the others keep
/// their order.
pub open spec fn carried(j: int, old: int, new: int) -> int {
    let rank = if j < old {
        j
    } else {
        j - 1
    };
    if rank < new {
        rank
    } else {
        rank + 1
    }
}

/// `after` is `before` with what stood in place `old` put at the insertion
/// point `index`, in place `new`: what stood before that point comes before
/// it, what stood there or later comes after it, and the others keep their
/// order.
pub open spec fn inserted<T>(
    before: Seq<T>,
    after: Seq<T>,
    old: int,
    index: int,
    new: int,
) -> bool {
    &&& after.len() == before.len()
    &&& 0 <= new < after.len()
    &&& after[new] == before[old]
    &&& forall|j: int|
        0 <= j < before.len() && j != old ==> {
            &&& after[carried(j, old, new)] == #[trigger] before[j]
            &&& (j < index) == (carried(j, old, new) < new)
        }
}

pub open spec fn inserted_at<T>(before: Seq<T>, after: Seq<T>, old: int, index: int) -> bool {
    exists|new: int| inserted(before, after, old, index, new)
}

/// Where an insertion point leads.
proof fn lemma_inserted<T>(before: Seq<T>, old: int, index: int)
    requires
        0 <= old < before.len(),
        0 <= index,
    ensures
        ({
            let new = StateV::landing(old, index, before.len() as int);
            &&& 0 <= new < before.len()
            &&& inserted_at(before, before.remove(old).insert(new, before[old]), old, index)
            &&& new == old ==> before.remove(old).insert(new, before[old]) == before
            &&& inserted_at(before, before, old, index) || new != old
        }),
{
    let new = StateV::landing(old, index, before.len() as int);
    let rest = before.remove(old);
    let after = rest.insert(new, before[old]);
    assert(inserted(before, after, old, index, new));
    if new == old {
        assert(after =~= before);
    }
}

/// Moving a tab within its pane puts it at the insertion point and makes it
/// the active tab, unless it stays in its place: then nothing changes.
pub proof fn law_move_within_pane(m: MuxV, pane: PaneId, old: int, index: int)
    requires
        m.wf(),
        m.state.panes.contains_key(pane),
        0 <= old < m.state.panes[pane].tabs.len(),
        index >= 0,
    ensures
        ({
            let p = m.state.panes[pane];
            let surface = p.tabs[old];
            let n = m.tab_moved(surface, pane, index);
            let q = n.state.panes[pane];
            &&& only_pane_differs(m.state, n.state, pane)
            &&& n.state.surfaces == m.state.surfaces
            &&& inserted_at(p.tabs, q.tabs, old, index)
            &&& if q.tabs == p.tabs {
                n.state == m.state && n.outbox == m.outbox
            } else {
                &&& 0 <= q.active_tab < q.tabs.len()
                &&& q.tabs[q.active_tab] == surface
                &&& q.active_at == m.next_active_at
                &&& n.outbox == m.outbox.push(Effect::Emit(MuxEvent::TreeChanged))
            }
        }),
{
    let a = m.state;
    let p = a.panes[pane];
    let surface = p.tabs[old];
    assert(p.wf());
    assert(p.tabs.contains(surface));
    assert(a.owns(pane, surface));
    consistency::lemma_pane_of(a, pane, surface);
    assert(p.tabs.index_of(surface) == old);
    lemma_inserted(p.tabs, old, index);
    let new = StateV::landing(old, index, p.tabs.len() as int);
    let n = m.tab_moved(surface, pane, index);
    if new != old {
        let q = n.state.panes[pane];
        assert(q.tabs[new] == surface);
        assert(q.tabs != p.tabs) by {
            if q.tabs == p.tabs {
                assert(p.tabs[new] == p.tabs[old]);
            }
        }
        assert(n.outbox =~= m.outbox.push(Effect::Emit(MuxEvent::TreeChanged)));
    }
}

/// Moving a tab to another pane puts it at the insertion point there, makes
/// it the active tab, and takes the focus along. The pane that it leaves
/// keeps its other tabs as if the tab had been closed.
pub proof fn law_move_between_panes(
    m: MuxV,
    source: PaneId,
    old: int,
    target: PaneId,
    index: int,
)
    requires
        m.wf(),
        m.state.panes.contains_key(source),
        m.state.panes.contains_key(target),
        source != target,
        0 <= old < m.state.panes[source].tabs.len(),
        index >= 0,
    ensures
        ({
            let a = m.state;
            let p = a.panes[source];
            let t = a.panes[target];
            let surface = p.tabs[old];
            let n = m.tab_moved(surface, target, index);
            let b = n.state;
            let place = if index < t.tabs.len() {
                index
            } else {
                t.tabs.len() as int
            };
            &&& b.surfaces == a.surfaces
            &&& one_less(b.panes[target].tabs, t.tabs, place)
            &&& b.panes[target].tabs[place] == surface
            &&& b.panes[target].active_tab == place
            &&& b.panes[target].active_at == m.next_active_at
            &&& b.active_pane() == Some(target)
            &&& if p.tabs.len() > 1 {
                let q = b.panes[source];
                &&& b.panes.contains_key(source)
                &&& one_less(p.tabs, q.tabs, old)
                &&& 0 <= q.active_tab < q.tabs.len()
                &&& q.tabs[q.active_tab] == if p.active_tab != old {
                    p.tabs[p.active_tab]
                } else if old > 0 {
                    p.tabs[old - 1]
                } else {
                    p.tabs[1]
                }
            } else {
                !b.panes.contains_key(source)
            }
            &&& forall|q: PaneId|
                q != source && q != target && #[trigger] a.panes.contains_key(q)
                    ==> b.panes.contains_key(q) && b.panes[q] == a.panes[q]
            &&& n.outbox == m.outbox.push(Effect::Emit(MuxEvent::TreeChanged))
        }),
{
    let a = m.state;
    let p = a.panes[source];
    let surface = p.tabs[old];
    assert(p.wf());
    assert(p.tabs.contains(surface));
    assert(a.owns(source, surface));
    consistency::lemma_pane_of(a, source, surface);
    assert(p.tabs.index_of(surface) == old);
    consistency::lemma_without_tab_wf(a, source, surface);
    consistency::lemma_without_pane_parts(a, source);
    let taken = a.without_tab(source, surface);
    assert(taken.panes.contains_key(target) && taken.panes[target] == a.panes[target]);
    assert(taken.wf());
    assert forall|q: PaneId| !taken.owns(q, surface) by {}
    consistency::lemma_with_tab_wf(taken, target, surface, index);
    let put = taken.with_tab(target, surface, index);
    assert(put.panes.contains_key(target));
    assert(put.placed(target));
    let (w, s) = put.screen_of(target)->0;
    assert(put.holds(w, s, target));
    let b = put.focused(target);
    assert(b.active_pane() == Some(target));
    let n = m.tab_moved(surface, target, index);
    assert(n.state == b.stamped(target, m.next_active_at));
    assert(n.state.workspaces == b.workspaces);
    assert(n.state.active_pane() == Some(target));
    assert(n.outbox =~= m.outbox.push(Effect::Emit(MuxEvent::TreeChanged)));
}

/// Moving a workspace puts it at the insertion point; the workspace that was
/// active stays so.
pub proof fn law_move_workspace_to(m: MuxV, old: int, index: int)
    requires
        m.wf(),
        0 <= old < m.state.workspaces.len(),
        index >= 0,
    ensures
        ({
            let a = m.state;
            let n = m.workspace_moved(a.workspaces[old].id, index);
            let b = n.state;
            &&& inserted_at(a.workspaces, b.workspaces, old, index)
            &&& 0 <= b.active_workspace < b.workspaces.len()
            &&& b.workspaces[b.active_workspace] == a.workspaces[a.active_workspace]
            &&& b.panes == a.panes && b.surfaces == a.surfaces
            &&& n.outbox == if b.workspaces == a.workspaces {
                m.outbox
            } else {
                m.outbox.push(Effect::Emit(MuxEvent::TreeChanged))
            }
        }),
{
    let a = m.state;
    let id = a.workspaces[old].id;
    assert(a.is_workspace(old, id));
    let found = a.workspace_index(id)->0;
    assert(a.is_workspace(found, id));
    lemma_inserted(a.workspaces, old, index);
    let new = StateV::landing(old, index, a.workspaces.len() as int);
    let n = m.workspace_moved(id, index);
    if new != old {
        assert(n.state.workspaces != a.workspaces) by {
            assert(n.state.workspaces[new].id == id);
            if n.state.workspaces == a.workspaces {
                assert(a.is_workspace(new, id));
            }
        }
        assert(n.outbox =~= m.outbox.push(Effect::Emit(MuxEvent::TreeChanged)));
    }
}

/// A step by `delta` from `active` goes round among `len` to `to`.
pub open spec fn steps_to(active: int, delta: int, len: int, to: int) -> bool {
    0 <= to < len && exists|rounds: int| #[trigger] (rounds * len) + active + delta == to
}

proof fn lemma_steps(active: int, delta: isize, len: int)
    requires
        0 <= active < len,
    ensures
        steps_to(active, delta as int, len, StateV::selected(active, len, None, Some(delta))),
{
    let to = (active + delta) % len;
    vstd::arithmetic::div_mod::lemma_fundamental_div_mod(active + delta, len);
    let rounds = -((active + delta) / len);
    assert((rounds * len) + active + delta == to) by (nonlinear_arith)
        requires
            active + delta == len * ((active + delta) / len) + to,
            rounds == -((active + delta) / len),
    ;
    vstd::arithmetic::div_mod::lemma_mod_bound(active + delta, len);
}

/// Selecting a tab by a place that exists makes that tab active, selecting
/// by a step goes round, and anything else leaves the tab. Nothing changes
/// but that pane, which counts as used now.
pub proof fn law_select_tab(m: MuxV, pane: PaneId, index: Option<usize>, delta: Option<isize>)
    requires
        m.wf(),
        m.state.panes.contains_key(pane),
    ensures
        ({
            let p = m.state.panes[pane];
            let n = m.tab_selected(Some(pane), index, delta);
            let q = n.state.panes[pane];
            let len = p.tabs.len() as int;
            &&& only_pane_differs(m.state, n.state, pane)
            &&& q.tabs == p.tabs && q.id == p.id && q.name == p.name
            &&& q.active_at == m.next_active_at
            &&& selects(p.active_tab, len, index, delta, q.active_tab)
            &&& n.state.surfaces == m.state.surfaces
            &&& n.outbox == m.outbox.push(Effect::Emit(MuxEvent::TreeChanged))
            &&& m.state.active_pane() == Some(pane) ==> m.tab_selected(None, index, delta) == n
        }),
{
    let p = m.state.panes[pane];
    assert(p.wf());
    lemma_selects(p.active_tab, p.tabs.len() as int, index, delta);
    let n = m.tab_selected(Some(pane), index, delta);
    assert(n.outbox =~= m.outbox.push(Effect::Emit(MuxEvent::TreeChanged)));
}

/// From place `active` among `len`, an index or a step selects `to`.
pub open spec fn selects(
    active: int,
    len: int,
    index: Option<usize>,
    delta: Option<isize>,
    to: int,
) -> bool {
    &&& index is Some && index->0 < len ==> to == index->0
    &&& index is Some && index->0 >= len ==> to == active
    &&& index is None && delta is Some ==> steps_to(active, delta->0 as int, len, to)
    &&& index is None && delta is None ==> to == active
}

proof fn lemma_selects(active: int, len: int, index: Option<usize>, delta: Option<isize>)
    requires
        0 <= active < len,
    ensures
        selects(active, len, index, delta, StateV::selected(active, len, index, delta)),
{
    if index is None && delta is Some {
        lemma_steps(active, delta->0, len);
    }
}

/// Selecting a screen selects among those of the active workspace; its
/// active pane counts as used now.
pub proof fn law_select_screen(m: MuxV, index: Option<usize>, delta: Option<isize>)
    requires
        m.wf(),
        m.state.workspaces.len() > 0,
    ensures
        ({
            let a = m.state;
            let n = m.screen_selected(index, delta);
            let b = n.state;
            let w = a.active_workspace;
            let before = a.workspaces[w];
            let after = b.workspaces[w];
            &&& b.active_workspace == w
            &&& b.workspaces.len() == a.workspaces.len()
            &&& forall|v: int|
                0 <= v < a.workspaces.len() && v != w ==> #[trigger] b.workspaces[v]
                    == a.workspaces[v]
            &&& after.screens == before.screens && after.id == before.id && after.name
                == before.name
            &&& selects(
                before.active_screen,
                before.screens.len() as int,
                index,
                delta,
                after.active_screen,
            )
            &&& used_now(m, b)
            &&& n.outbox == m.outbox.push(Effect::Emit(MuxEvent::TreeChanged))
        }),
{
    let a = m.state;
    let ws = a.workspaces[a.active_workspace];
    assert(ws.wf());
    lemma_selects(ws.active_screen, ws.screens.len() as int, index, delta);
    let c = a.with_screen_selected(index, delta);
    let n = m.screen_selected(index, delta);
    lemma_active_pane(a, c);
    assert(n.state.workspaces == c.workspaces);
    assert(n.state.active_pane() == c.active_pane());
    assert(n.outbox =~= m.outbox.push(Effect::Emit(MuxEvent::TreeChanged)));
}

/// The active pane of `b` bears the stamp of `m`'s clock, and no other pane
/// is different.
pub open spec fn used_now(m: MuxV, b: StateV) -> bool {
    let w = b.active_workspace;
    let pane = b.screen(w, b.workspaces[w].active_screen).active_pane;
    &&& b.panes.contains_key(pane) && b.panes[pane] == (PaneV {
        active_at: m.next_active_at,
        ..m.state.panes[pane]
    })
    &&& forall|q: PaneId| #[trigger] b.panes.contains_key(q) == m.state.panes.contains_key(q)
    &&& forall|q: PaneId|
        q != pane && #[trigger] b.panes.contains_key(q) ==> b.panes[q] == m.state.panes[q]
}

/// The active pane of a session with the trees of `a` exists.
proof fn lemma_active_pane(a: StateV, b: StateV)
    requires
        a.wf(),
        b.panes == a.panes,
        b.workspaces.len() == a.workspaces.len(),
        0 <= b.active_workspace < b.workspaces.len(),
        b.workspaces[b.active_workspace].screens
            == a.workspaces[b.active_workspace].screens,
        0 <= b.workspaces[b.active_workspace].active_screen
            < b.workspaces[b.active_workspace].screens.len(),
    ensures
        ({
            let w = b.active_workspace;
            let pane = b.screen(w, b.workspaces[w].active_screen).active_pane;
            b.active_pane() == Some(pane) && b.panes.contains_key(pane)
        }),
{
    let w = b.active_workspace;
    let s = b.workspaces[w].active_screen;
    assert(a.has_screen(w, s));
    assert(a.holds(w, s, a.screen(w, s).active_pane));
}

/// Selecting a workspace makes it the active one; its active pane counts as
/// used now.
pub proof fn law_select_workspace(m: MuxV, index: Option<usize>, delta: Option<isize>)
    requires
        m.wf(),
        m.state.workspaces.len() > 0,
    ensures
        ({
            let a = m.state;
            let n = m.workspace_selected(index, delta);
            let b = n.state;
            &&& b.workspaces == a.workspaces && b.surfaces == a.surfaces
            &&& selects(
                a.active_workspace,
                a.workspaces.len() as int,
                index,
                delta,
                b.active_workspace,
            )
            &&& used_now(m, b)
            &&& n.outbox == m.outbox.push(Effect::Emit(MuxEvent::TreeChanged))
        }),
{
    let a = m.state;
    lemma_selects(a.active_workspace, a.workspaces.len() as int, index, delta);
    let c = a.with_workspace_selected(index, delta);
    let n = m.workspace_selected(index, delta);
    assert(0 <= c.active_workspace < a.workspaces.len()) by {
        if index is None && delta is Some {
            vstd::arithmetic::div_mod::lemma_mod_bound(
                a.active_workspace + delta->0,
                a.workspaces.len() as int,
            );
        }
    }
    assert(a.workspaces[c.active_workspace].wf());
    lemma_active_pane(a, c);
    assert(n.state.workspaces == c.workspaces);
    assert(n.outbox =~= m.outbox.push(Effect::Emit(MuxEvent::TreeChanged)));
}

/// Focusing a pane makes it the active pane of its screen, that screen the
/// active one of its workspace, and that workspace the active one. Nothing
/// else changes, but the pane counts as used now.
pub proof fn law_focus(m: MuxV, pane: PaneId, w: int, s: int)
    requires
        m.wf(),
        m.state.has_screen(w, s),
        m.state.screen(w, s).root.leaves().contains(pane),
    ensures
        ({
            let a = m.state;
            let n = m.pane_focused(pane);
            let b = n.state;
            &&& b.active_workspace == w
            &&& b.workspaces.len() == a.workspaces.len()
            &&& b.workspaces[w].active_screen == s
            &&& b.workspaces[w].id == a.workspaces[w].id
            &&& b.workspaces[w].name == a.workspaces[w].name
            &&& b.screen(w, s).active_pane == pane
            &&& b.screen(w, s).root == a.screen(w, s).root
            &&& b.screen(w, s).id == a.screen(w, s).id
            &&& b.screen(w, s).name == a.screen(w, s).name
            &&& b.workspaces[w].screens.len() == a.workspaces[w].screens.len()
            &&& forall|t: int|
                0 <= t < a.workspaces[w].screens.len() && t != s
                    ==> #[trigger] b.workspaces[w].screens[t] == a.workspaces[w].screens[t]
            &&& forall|v: int|
                0 <= v < a.workspaces.len() && v != w ==> #[trigger] b.workspaces[v]
                    == a.workspaces[v]
            &&& used_now(m, b)
            &&& b.surfaces == a.surfaces
            &&& n.outbox == m.outbox.push(Effect::Emit(MuxEvent::TreeChanged))
        }),
{
    let a = m.state;
    lemma_located(a, pane, w, s);
    let n = m.pane_focused(pane);
    assert(n.state.workspaces == a.focused(pane).workspaces);
    assert(n.outbox =~= m.outbox.push(Effect::Emit(MuxEvent::TreeChanged)));
}

/// Setting a ratio resizes the innermost split in the direction around the
/// pane, within the bounds of ratios; without such a split nothing happens.
pub proof fn law_set_ratio(m: MuxV, pane: PaneId, dir: SplitDir, ratio: Ratio, w: int, s: int)
    requires
        m.wf(),
        m.state.has_screen(w, s),
        m.state.screen(w, s).root.leaves().contains(pane),
    ensures
        ({
            let a = m.state;
            let n = m.ratio_set(pane, dir, ratio);
            let b = n.state;
            let root = a.screen(w, s).root;
            if exists|at: Seq<bool>| node::split_around(root, at, pane, dir) {
                &&& only_screen_differs(a, b, w, s)
                &&& node::innermost_resized(
                    root,
                    b.screen(w, s).root,
                    pane,
                    dir,
                    ratio.clamped(),
                )
                &&& b.screen(w, s).active_pane == a.screen(w, s).active_pane
                &&& b.panes == a.panes && b.surfaces == a.surfaces
                &&& n.outbox == m.outbox.push(Effect::Emit(MuxEvent::TreeChanged))
            } else {
                n == m
            }
        }),
{
    let a = m.state;
    lemma_located(a, pane, w, s);
    node::law_innermost_resized(a.screen(w, s).root, pane, dir, ratio.clamped());
    let n = m.ratio_set(pane, dir, ratio);
    if a.with_ratio(pane, dir, ratio.clamped()) is Some {
        assert(n.outbox =~= m.outbox.push(Effect::Emit(MuxEvent::TreeChanged)));
    }
}

/// What every fresh pane is: without a name, with one tab.
pub open spec fn fresh_pane(m: MuxV, b: StateV, pane: PaneId, surface: SurfaceId) -> bool {
    &&& !m.state.panes.contains_key(pane)
    &&& b.panes.contains_key(pane)
    &&& b.panes[pane].id == pane
    &&& b.panes[pane].name is None
    &&& b.panes[pane].tabs == seq![surface]
    &&& b.panes[pane].active_tab == 0
    &&& b.panes[pane].active_at == m.next_active_at
    &&& forall|q: PaneId|
        q != pane ==> #[trigger] b.panes.contains_key(q) == m.state.panes.contains_key(q)
    &&& forall|q: PaneId|
        q != pane && #[trigger] m.state.panes.contains_key(q) ==> b.panes[q] == m.state.panes[q]
}

/// Splitting a pane asks for a terminal, which then gets a fresh pane beside
/// its target, in the direction that was asked for, at one half. The fresh
/// pane is the active one of that screen; all else is as it was.
pub proof fn law_split(
    m: MuxV,
    target: PaneId,
    dir: SplitDir,
    size: Option<(u16, u16)>,
    surface: Surface,
    w: int,
    s: int,
)
    requires
        m.wf(),
        m.ids_left(4),
        m.state.has_screen(w, s),
        m.state.screen(w, s).root.leaves().contains(target),
        surface.id == m.next_id,
        !surface.dead,
    ensures
        ({
            let a = m.state;
            let asked = m.split_request(target, dir, size);
            let (n, outcome) = m.one_id_used().attached(asked.place, surface);
            let b = n.state;
            let pane = b.screen(w, s).active_pane;
            &&& asked.id == surface.id
            &&& outcome == Ok::<SurfaceId, mux::MuxError>(surface.id)
            &&& fresh_pane(m, b, pane, surface.id)
            &&& only_screen_differs(a, b, w, s)
            &&& node::split_beside(a.screen(w, s).root, b.screen(w, s).root, target, dir, pane)
            &&& b.surfaces == a.surfaces.insert(surface.id, surface)
            &&& n.outbox == m.outbox.push(Effect::Emit(MuxEvent::TreeChanged))
        }),
{
    let a = m.state;
    lemma_located(a, target, w, s);
    let asked = m.split_request(target, dir, size);
    let used = m.one_id_used();
    let known = used.with_surface(surface);
    consistency::lemma_same_tree(a, known);
    assert(known.screen_of(target) == Some((w, s)));
    assert(used.state.placed(target));
    node::law_split_beside(a.screen(w, s).root, target, dir, used.next_id);
    let (n, outcome) = used.attached(asked.place, surface);
    assert(!a.panes.contains_key(used.next_id));
    assert(n.outbox =~= m.outbox.push(Effect::Emit(MuxEvent::TreeChanged)));
    assert(n.state.screen(w, s).active_pane == used.next_id);
}

/// A fresh workspace comes last and is the active one. It has the name that
/// was given, or its number, and one screen with one pane with one tab.
pub proof fn law_new_workspace(
    m: MuxV,
    name: Option<String>,
    size: Option<(u16, u16)>,
    surface: Surface,
)
    requires
        m.wf(),
        m.ids_left(4),
        surface.id == m.next_id,
        !surface.dead,
    ensures
        ({
            let a = m.state;
            let asked = m.workspace_spawn(name, size);
            let (n, outcome) = m.one_id_used().attached(asked.place, surface);
            let b = n.state;
            let last = a.workspaces.len() as int;
            let ws = b.workspaces[last];
            &&& asked.id == surface.id
            &&& outcome == Ok::<SurfaceId, mux::MuxError>(surface.id)
            &&& b.workspaces.len() == last + 1
            &&& b.active_workspace == last
            &&& forall|v: int|
                0 <= v < last ==> #[trigger] b.workspaces[v] == a.workspaces[v]
            &&& name matches Some(given) ==> ws.name == given@
            &&& name is None ==> ws.name == crate::text::decimal((last + 1) as nat)
            &&& ws.screens.len() == 1 && ws.active_screen == 0
            &&& ws.screens[0].name is None
            &&& ws.screens[0].root == node::Node::Leaf(ws.screens[0].active_pane)
            &&& fresh_pane(m, b, ws.screens[0].active_pane, surface.id)
            &&& b.surfaces == a.surfaces.insert(surface.id, surface)
            &&& n.outbox == m.outbox.push(Effect::Emit(MuxEvent::TreeChanged))
        }),
{
    let asked = m.workspace_spawn(name, size);
    let used = m.one_id_used();
    let (n, outcome) = used.attached(asked.place, surface);
    assert(!m.state.panes.contains_key(used.next_id));
    assert(n.outbox =~= m.outbox.push(Effect::Emit(MuxEvent::TreeChanged)));
}

/// A fresh screen comes last in its workspace and is the active one there.
/// It holds one pane with one tab. The active workspace stays.
pub proof fn law_new_screen(
    m: MuxV,
    w: int,
    workspace: Option<WorkspaceId>,
    size: Option<(u16, u16)>,
    surface: Surface,
)
    requires
        m.wf(),
        m.ids_left(4),
        0 <= w < m.state.workspaces.len(),
        workspace is Some ==> workspace->0 == m.state.workspaces[w].id,
        workspace is None ==> w == m.state.active_workspace,
        surface.id == m.next_id,
        !surface.dead,
    ensures
        ({
            let a = m.state;
            let asked = m.screen_request(workspace, size);
            let (n, outcome) = m.one_id_used().attached(asked->Ok_0.place, surface);
            let b = n.state;
            let before = a.workspaces[w];
            let after = b.workspaces[w];
            let last = before.screens.len() as int;
            &&& asked is Ok && asked->Ok_0.id == surface.id
            &&& outcome == Ok::<SurfaceId, mux::MuxError>(surface.id)
            &&& b.workspaces.len() == a.workspaces.len()
            &&& b.active_workspace == a.active_workspace
            &&& forall|v: int|
                0 <= v < a.workspaces.len() && v != w ==> #[trigger] b.workspaces[v]
                    == a.workspaces[v]
            &&& after.id == before.id && after.name == before.name
            &&& after.screens.len() == last + 1 && after.active_screen == last
            &&& forall|t: int|
                0 <= t < last ==> #[trigger] after.screens[t] == before.screens[t]
            &&& after.screens[last].name is None
            &&& after.screens[last].root == node::Node::Leaf(after.screens[last].active_pane)
            &&& fresh_pane(m, b, after.screens[last].active_pane, surface.id)
            &&& b.surfaces == a.surfaces.insert(surface.id, surface)
            &&& n.outbox == m.outbox.push(Effect::Emit(MuxEvent::TreeChanged))
        }),
{
    let a = m.state;
    if let Some(id) = workspace {
        assert(a.is_workspace(w, id));
        let v = a.workspace_index(id)->0;
        assert(a.is_workspace(v, id));
    }
    let asked = m.screen_request(workspace, size)->Ok_0;
    let used = m.one_id_used();
    assert(used.screen_target(workspace) == Some(w));
    let (n, outcome) = used.attached(asked.place, surface);
    assert(!a.panes.contains_key(used.next_id));
    assert(n.outbox =~= m.outbox.push(Effect::Emit(MuxEvent::TreeChanged)));
}

/// A fresh tab comes last in its pane and is the active one there. A pane
/// that is not named is the active one.
pub proof fn law_new_tab(
    m: MuxV,
    pane: PaneId,
    named: bool,
    cwd: Option<String>,
    size: Option<(u16, u16)>,
    surface: Surface,
)
    requires
        m.wf(),
        m.ids_left(4),
        m.state.panes.contains_key(pane),
        !named ==> m.state.active_pane() == Some(pane),
        surface.id == m.next_id,
        !surface.dead,
    ensures
        ({
            let a = m.state;
            let asked = m.tab_request(
                if named {
                    Some(pane)
                } else {
                    None
                },
                cwd,
                size,
            );
            let (n, outcome) = m.one_id_used().attached(asked->Ok_0.place, surface);
            let b = n.state;
            &&& asked is Ok && asked->Ok_0.id == surface.id
            &&& outcome == Ok::<SurfaceId, mux::MuxError>(surface.id)
            &&& tab_added(m, b, pane, surface.id)
            &&& b.surfaces == a.surfaces.insert(surface.id, surface)
            &&& n.outbox == m.outbox.push(Effect::Emit(MuxEvent::TreeChanged))
        }),
{
    let asked = m.tab_request(
        if named {
            Some(pane)
        } else {
            None
        },
        cwd,
        size,
    )->Ok_0;
    let (n, outcome) = m.one_id_used().attached(asked.place, surface);
    lemma_tab_added(m, pane, surface, false);
    assert(n.outbox =~= m.outbox.push(Effect::Emit(MuxEvent::TreeChanged)));
}

/// `surface` comes last in `pane` and is the active tab there.
pub open spec fn tab_added(m: MuxV, b: StateV, pane: PaneId, surface: SurfaceId) -> bool {
    let p = m.state.panes[pane];
    let q = b.panes[pane];
    let last = p.tabs.len() as int;
    &&& only_pane_differs(m.state, b, pane)
    &&& q.tabs.len() == last + 1
    &&& q.tabs[last] == surface
    &&& forall|j: int| 0 <= j < last ==> #[trigger] q.tabs[j] == p.tabs[j]
    &&& q.active_tab == last
    &&& q.active_at == m.next_active_at
    &&& q.id == p.id && q.name == p.name
}

proof fn lemma_tab_added(m: MuxV, pane: PaneId, surface: Surface, browser: bool)
    requires
        m.wf(),
        m.state.panes.contains_key(pane),
        !surface.dead,
    ensures
        tab_added(
            m,
            m.one_id_used().attached(mux::Place::Tab { pane, browser }, surface).0.state,
            pane,
            surface.id,
        ),
{
}

/// A fresh page is a tab like another.
pub proof fn law_new_browser_tab(
    m: MuxV,
    url: String,
    pane: PaneId,
    named: bool,
    size: Option<(u16, u16)>,
    surface: Surface,
)
    requires
        m.wf(),
        m.ids_left(4),
        m.state.panes.contains_key(pane),
        !named ==> m.state.active_pane() == Some(pane),
        surface.id == m.next_id,
        !surface.dead,
    ensures
        ({
            let a = m.state;
            let asked = m.browser_request(
                url,
                if named {
                    Some(pane)
                } else {
                    None
                },
                size,
            );
            let (n, outcome) = m.one_id_used().attached(asked->Ok_0.place, surface);
            &&& asked is Ok && asked->Ok_0.id == surface.id
            &&& asked->Ok_0.work matches mux::SpawnWork::Browser { url: to, connect, .. } && to
                == url && connect == (m.browser_runtime is None || m.browser_runtime->0.closed)
            &&& outcome == Ok::<SurfaceId, mux::MuxError>(surface.id)
            &&& tab_added(m, n.state, pane, surface.id)
            &&& n.outbox == m.outbox.push(Effect::Emit(MuxEvent::TreeChanged))
        }),
{
    let asked = m.browser_request(
        url,
        if named {
            Some(pane)
        } else {
            None
        },
        size,
    )->Ok_0;
    let (n, outcome) = m.one_id_used().attached(asked.place, surface);
    lemma_tab_added(m, pane, surface, true);
    assert(n.outbox =~= m.outbox.push(Effect::Emit(MuxEvent::TreeChanged)));
}

/// A fresh terminal starts where the tab is that it is put beside: a tab in
/// its directory and at its size, a split at half of it; what is given goes
/// first. No side of a size is zero.
pub proof fn law_starts_beside(
    m: MuxV,
    pane: PaneId,
    cwd: Option<String>,
    size: Option<(u16, u16)>,
    dir: SplitDir,
)
    requires
        m.wf(),
        m.state.panes.contains_key(pane),
    ensures
        ({
            let p = m.state.panes[pane];
            let beside = m.state.surfaces[p.tabs[p.active_tab]];
            let tab = m.tab_request(Some(pane), cwd, size)->Ok_0.work;
            let split = m.split_request(pane, dir, size).work;
            &&& tab matches mux::SpawnWork::Pty { cwd: at, cols, rows } && {
                &&& cwd is Some ==> at == cwd
                &&& cwd is None && beside.pwd is Some ==> at == beside.pwd
                &&& cwd is None && beside.pwd is None ==> at == m.surface_options.cwd
                &&& starts_at(size, (beside.cols, beside.rows), (cols, rows))
            }
            &&& split matches mux::SpawnWork::Pty { cwd: at, cols, rows } && {
                &&& beside.pwd is Some ==> at == beside.pwd
                &&& beside.pwd is None ==> at == m.surface_options.cwd
                &&& size is Some ==> starts_at(size, (0, 0), (cols, rows))
                &&& size is None && dir == SplitDir::Right ==> halved(beside.cols, cols)
                    && at_least(beside.rows, rows)
                &&& size is None && dir == SplitDir::Down ==> halved(beside.rows, rows)
                    && at_least(beside.cols, cols)
            }
        }),
{
    let p = m.state.panes[pane];
    assert(p.wf());
    let t = p.tabs[p.active_tab];
    assert(p.tabs.contains(t));
    assert(m.state.owns(pane, t));
}

/// `used` is `wanted`, but not zero.
pub open spec fn at_least(wanted: u16, used: u16) -> bool {
    used == if wanted == 0 {
        1
    } else {
        wanted
    }
}

/// `part` is half of what a border leaves of `whole`, rounded down, but not
/// zero.
pub open spec fn halved(whole: u16, part: u16) -> bool {
    if whole >= 3 {
        2 * part + 1 <= whole <= 2 * part + 2
    } else {
        part == 1
    }
}

/// `used` is the size that is given, or else that of the neighbor.
pub open spec fn starts_at(given: Option<(u16, u16)>, beside: (u16, u16), used: (u16, u16)) -> bool {
    match given {
        Some(size) => at_least(size.0, used.0) && at_least(size.1, used.1),
        None => at_least(beside.0, used.0) && at_least(beside.1, used.1),
    }
}

/// A surface is given the size that is asked for, each side at least one, and
/// the change is told when there is one.
pub proof fn law_resize(m: MuxV, id: SurfaceId, cols: u16, rows: u16)
    requires
        m.state.surfaces.contains_key(id),
    ensures
        ({
            let (n, changed) = m.resized(id, cols, rows);
            let before = m.state.surfaces[id];
            let after = n.state.surfaces[id];
            let old = m.outbox.len() as int;
            &&& at_least(cols, after.cols) && at_least(rows, after.rows)
            &&& changed == Ok::<bool, mux::MuxError>(
                before.cols != after.cols || before.rows != after.rows,
            )
            &&& n.outbox[old] == (Effect::Resize { surface: id, cols: after.cols, rows: after.rows })
            &&& changed == Ok::<bool, mux::MuxError>(true) ==> n.outbox.len() == old + 2
                && n.outbox[old + 1] == Effect::Emit(
                MuxEvent::SurfaceResized { surface: id, cols: after.cols, rows: after.rows },
            )
            &&& changed == Ok::<bool, mux::MuxError>(false) ==> n.outbox.len() == old + 1
            &&& after == (Surface { cols: after.cols, rows: after.rows, ..before })
            &&& forall|t: SurfaceId|
                t != id ==> #[trigger] n.state.surfaces.contains_key(t)
                    == m.state.surfaces.contains_key(t) && n.state.surfaces[t]
                    == m.state.surfaces[t]
            &&& n.state.panes == m.state.panes && n.state.workspaces == m.state.workspaces
        }),
{
}

/// Names are what they are set to; an empty name of a screen, a pane or a tab
/// is none.
pub proof fn law_rename(
    m: MuxV,
    name: String,
    w: int,
    s: int,
    pane: PaneId,
    surface: SurfaceId,
)
    requires
        m.wf(),
        m.state.has_screen(w, s),
        m.state.panes.contains_key(pane),
        m.state.surfaces.contains_key(surface),
    ensures
        ({
            let a = m.state;
            let kept = if name@.len() > 0 {
                Some(name)
            } else {
                None
            };
            let ws = m.workspace_renamed(a.workspaces[w].id, name@).state;
            let sc = m.screen_renamed(a.screen(w, s).id, name).state;
            let pa = m.pane_renamed(pane, name).state;
            let su = m.surface_renamed(surface, name).state;
            &&& ws.workspaces[w] == (WorkspaceV { name: name@, ..a.workspaces[w] })
            &&& forall|v: int|
                0 <= v < a.workspaces.len() && v != w ==> #[trigger] ws.workspaces[v]
                    == a.workspaces[v]
            &&& only_screen_differs(
                a,
                StateV {
                    workspaces: sc.workspaces.update(
                        w,
                        WorkspaceV {
                            screens: sc.workspaces[w].screens.update(
                                s,
                                crate::model::Screen {
                                    name: a.screen(w, s).name,
                                    ..sc.screen(w, s)
                                },
                            ),
                            ..sc.workspaces[w]
                        },
                    ),
                    ..sc
                },
                w,
                s,
            )
            &&& sc.screen(w, s).name == kept
            &&& sc.screen(w, s).root == a.screen(w, s).root
            &&& only_pane_differs(a, pa, pane)
            &&& pa.panes[pane] == (PaneV { name: kept, ..a.panes[pane] })
            &&& su.surfaces[surface] == (Surface { name: kept, ..a.surfaces[surface] })
            &&& su.panes == a.panes && su.workspaces == a.workspaces
        }),
{
    let a = m.state;
    let id = a.workspaces[w].id;
    assert(a.is_workspace(w, id));
    let v = a.workspace_index(id)->0;
    assert(a.is_workspace(v, id));
    let sid = a.screen(w, s).id;
    assert(a.is_screen(w, s, sid));
    let (x, y) = a.screen_index(sid)->0;
    assert(a.is_screen(x, y, sid));
}

/// New default colors reach every surface, each of which is then drawn anew.
pub proof fn law_recolor(m: MuxV, colors: crate::surface::DefaultColors, n: MuxV, id: SurfaceId)
    requires
        m.recolored(colors, n),
        m.state.surfaces.contains_key(id),
    ensures
        n.default_colors == colors,
        n.state == m.state,
        exists|i: int|
            m.outbox.len() <= i < n.outbox.len() - 1 && #[trigger] n.outbox[i] == (Effect::SetColors {
                surface: id,
                colors,
            }) && n.outbox[i + 1] == Effect::Emit(MuxEvent::SurfaceOutput(id)),
{
    let order = choose|order: Seq<SurfaceId>| #[trigger]
        mux::goes_through(order, m.state) && n == (MuxV { default_colors: colors, ..m }).emitting(
            mux::color_effects(order, colors),
        );
    assert(order.contains(id));
    let k = order.index_of(id);
    lemma_color_effects(order, colors, k);
    assert(n.outbox[m.outbox.len() + 2 * k] == mux::color_effects(order, colors)[2 * k]);
    assert(n.outbox[m.outbox.len() + 2 * k + 1] == mux::color_effects(order, colors)[2 * k + 1]);
}

proof fn lemma_color_effects(order: Seq<SurfaceId>, colors: crate::surface::DefaultColors, k: int)
    requires
        0 <= k < order.len(),
    ensures
        mux::color_effects(order, colors).len() == 2 * order.len(),
        mux::color_effects(order, colors)[2 * k] == (Effect::SetColors { surface: order[k], colors }),
        mux::color_effects(order, colors)[2 * k + 1] == Effect::Emit(
            MuxEvent::SurfaceOutput(order[k]),
        ),
    decreases order.len(),
{
    reveal_with_fuel(mux::color_effects, 2);
    if order.len() > 1 {
        if k < order.len() - 1 {
            lemma_color_effects(order.drop_last(), colors, k);
        } else {
            lemma_color_effects(order.drop_last(), colors, 0);
        }
    }
}

/// The end of a child ends its surface; it is told first that the surface is
/// gone, then that the tree changed, and then, when no workspace is left,
/// that the session is empty. The end of one that is gone already is told,
/// and the tree stays.
pub proof fn law_exit_told(m: MuxV, surface: SurfaceId)
    ensures
        ({
            let n = m.exited(surface);
            let old = m.outbox.len() as int;
            let known = m.state.surfaces.contains_key(surface);
            let gone: int = if n.state.workspaces.len() == 0 {
                1
            } else {
                0
            };
            &&& n.state == m.closed(surface).state
            &&& n.outbox.subrange(0, old) == m.outbox
            &&& known ==> {
                &&& n.outbox.len() == old + 3 + gone
                &&& n.outbox[old] == Effect::Kill(surface)
                &&& n.outbox[old + 1] == Effect::Emit(MuxEvent::SurfaceExited(surface))
                &&& n.outbox[old + 2] == Effect::Emit(MuxEvent::TreeChanged)
            }
            &&& !known ==> {
                &&& n.outbox.len() == old + 1 + gone
                &&& n.outbox[old] == Effect::Emit(MuxEvent::SurfaceExited(surface))
            }
            &&& gone == 1 ==> n.outbox.last() == Effect::Emit(MuxEvent::Empty)
        }),
{
    let n = m.exited(surface);
    assert(n.outbox.subrange(0, m.outbox.len() as int) =~= m.outbox);
}

/// What names something that is not there changes no tree and tells nobody.
pub proof fn law_unknown(
    m: MuxV,
    id: u64,
    dir: SplitDir,
    ratio: Ratio,
    name: String,
    index: Option<usize>,
    delta: Option<isize>,
)
    requires
        m.wf(),
    ensures
        ({
            let idle = |n: MuxV| n.state == m.state && n.outbox == m.outbox && n.next_id == m.next_id;
            &&& !m.state.panes.contains_key(id) ==> {
                &&& idle(m.pane_closed(id))
                &&& idle(m.pane_renamed(id, name))
                &&& idle(m.pane_focused(id))
                &&& idle(m.ratio_set(id, dir, ratio))
                &&& idle(m.tab_selected(Some(id), index, delta))
            }
            &&& !m.state.surfaces.contains_key(id) ==> {
                &&& idle(m.surface_renamed(id, name))
                &&& idle(m.resized(id, 0, 0).0)
                &&& m.resized(id, 0, 0).1 == Err::<bool, mux::MuxError>(
                    mux::MuxError::UnknownSurface(id),
                )
            }
            &&& (forall|w: int|
                0 <= w < m.state.workspaces.len() ==> (#[trigger] m.state.workspaces[w]).id != id)
                ==> {
                &&& idle(m.workspace_closed(id))
                &&& idle(m.workspace_renamed(id, name@))
                &&& idle(m.workspace_moved(id, 0))
            }
        }),
{
    if !m.state.panes.contains_key(id) {
        assert forall|w: int, s: int| !m.state.holds(w, s, id) by {}
        assert(m.state.screen_of(id) is None);
    }
    if forall|w: int|
        0 <= w < m.state.workspaces.len() ==> (#[trigger] m.state.workspaces[w]).id != id {
        assert forall|w: int| !m.state.is_workspace(w, id) by {}
    }
}

/// What is asked for in a place that is not there is refused by the name of
/// that place.
pub proof fn law_asked_elsewhere(
    m: MuxV,
    id: u64,
    url: String,
    cwd: Option<String>,
    size: Option<(u16, u16)>,
)
    ensures
        !m.state.panes.contains_key(id) ==> {
            &&& m.tab_request(Some(id), cwd, size) == Err::<mux::Spawn, mux::MuxError>(
                mux::MuxError::UnknownPane(id),
            )
            &&& m.browser_request(url, Some(id), size) == Err::<mux::Spawn, mux::MuxError>(
                mux::MuxError::UnknownPane(id),
            )
        },
        (forall|w: int|
            0 <= w < m.state.workspaces.len() ==> (#[trigger] m.state.workspaces[w]).id != id)
            ==> m.screen_request(Some(id), size) == Err::<mux::Spawn, mux::MuxError>(
            mux::MuxError::UnknownWorkspace(id),
        ),
{
    if forall|w: int|
        0 <= w < m.state.workspaces.len() ==> (#[trigger] m.state.workspaces[w]).id != id {
        assert forall|w: int| !m.state.is_workspace(w, id) by {}
    }
}

/// A surface whose place has gone while it was made is ended, the tree stays,
/// and the error says which place it was.
pub proof fn law_place_gone(m: MuxV, surface: Surface, pane: PaneId, id: u64, dir: SplitDir)
    requires
        m.wf(),
        !m.state.panes.contains_key(pane),
        forall|w: int|
            0 <= w < m.state.workspaces.len() ==> (#[trigger] m.state.workspaces[w]).id != id,
    ensures
        ({
            let tab = m.attached(mux::Place::Tab { pane, browser: false }, surface);
            let page = m.attached(mux::Place::Tab { pane, browser: true }, surface);
            let split = m.attached(mux::Place::Split { target: pane, dir }, surface);
            let screen = m.attached(mux::Place::Screen { workspace: Some(id) }, surface);
            let ended = |n: MuxV|
                n.state == m.state && n.outbox == m.outbox.push(Effect::Kill(surface.id));
            &&& ended(tab.0) && ended(page.0) && ended(split.0) && ended(screen.0)
            &&& tab.1 == Err::<SurfaceId, mux::MuxError>(mux::MuxError::PaneDisappeared)
            &&& page.1 == Err::<SurfaceId, mux::MuxError>(mux::MuxError::BrowserPaneDisappeared)
            &&& split.1 == Err::<SurfaceId, mux::MuxError>(mux::MuxError::PaneNotFound(pane))
            &&& screen.1 == Err::<SurfaceId, mux::MuxError>(mux::MuxError::WorkspaceDisappeared)
        }),
{
    assert forall|w: int| !m.state.is_workspace(w, id) by {}
    assert forall|w: int, s: int| !m.state.holds(w, s, pane) by {}
    assert(m.outbox + seq![Effect::Kill(surface.id)] =~= m.outbox.push(Effect::Kill(surface.id)));
}

} // verus!
