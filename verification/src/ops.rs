//! Operations on the session model.

use vstd::prelude::*;

use crate::model::{position, PaneV, Screen, State, StateV, WorkspaceV};
use crate::node::{Node, PaneId, ScreenId, SplitDir, SurfaceId, WorkspaceId};
use crate::consistency;
use crate::ratio::Ratio;
use crate::surface::Surface;

verus! {

broadcast use vstd::std_specs::hash::group_hash_axioms;

/// `ids[i]` is the pane that was active last; of panes that were active at
/// the same time, it is the last one.
pub open spec fn is_most_recent(panes: Map<PaneId, PaneV>, ids: Seq<PaneId>, i: int) -> bool {
    &&& 0 <= i < ids.len()
    &&& panes.contains_key(ids[i])
    &&& forall|j: int|
        #![trigger ids[j]]
        0 <= j < ids.len() && panes.contains_key(ids[j]) ==> if j > i {
            panes[ids[j]].active_at < panes[ids[i]].active_at
        } else {
            panes[ids[j]].active_at <= panes[ids[i]].active_at
        }
}

/// The pane among `ids` that was active last.
pub open spec fn most_recent(panes: Map<PaneId, PaneV>, ids: Seq<PaneId>) -> Option<PaneId> {
    if exists|i: int| is_most_recent(panes, ids, i) {
        Some(ids[choose|i: int| is_most_recent(panes, ids, i)])
    } else {
        None
    }
}

/// A screen with one pane.
pub open spec fn lone_screen(id: ScreenId, pane: PaneId) -> Screen {
    Screen { id, name: None, root: Node::Leaf(pane), active_pane: pane }
}

/// The tabs of the panes `ids`, in their order.
pub open spec fn tabs_of(panes: Map<PaneId, PaneV>, ids: Seq<PaneId>) -> Seq<SurfaceId>
    decreases ids.len(),
{
    if ids.len() == 0 {
        seq![]
    } else {
        let rest = tabs_of(panes, ids.drop_last());
        if panes.contains_key(ids.last()) {
            rest + panes[ids.last()].tabs
        } else {
            rest
        }
    }
}

impl StateV {
    /// `pane` was last active at `active_at`.
    pub open spec fn stamped(self, pane: PaneId, active_at: u64) -> StateV {
        if self.panes.contains_key(pane) {
            StateV {
                panes: self.panes.insert(pane, PaneV { active_at, ..self.panes[pane] }),
                ..self
            }
        } else {
            self
        }
    }

    /// Every surface in a screen, pane by pane.
    pub open spec fn screen_tabs(self, screen: Screen) -> Seq<SurfaceId> {
        tabs_of(self.panes, screen.root.leaves())
    }

    /// The session without screen `s` of workspace `w`. A workspace that
    /// loses its last screen goes too; the active workspace stays active, or
    /// the last one becomes active when it was the one that went.
    pub open spec fn without_screen(self, w: int, s: int) -> StateV {
        let ws = self.workspaces[w];
        let screens = ws.screens.remove(s);
        if screens.len() > 0 {
            let active_screen = if ws.active_screen < screens.len() {
                ws.active_screen
            } else {
                screens.len() - 1
            };
            StateV {
                workspaces: self.workspaces.update(w, WorkspaceV { screens, active_screen, ..ws }),
                ..self
            }
        } else {
            let workspaces = self.workspaces.remove(w);
            let active_workspace = if self.active_workspace < w {
                self.active_workspace
            } else if self.active_workspace > w {
                self.active_workspace - 1
            } else if workspaces.len() > 0 {
                workspaces.len() - 1
            } else {
                0
            };
            StateV { workspaces, active_workspace, ..self }
        }
    }

    /// The session with another split tree in screen `s` of workspace `w`,
    /// and its active pane.
    pub open spec fn with_root(self, w: int, s: int, root: Node, active_pane: PaneId) -> StateV {
        let ws = self.workspaces[w];
        let screen = Screen { root, active_pane, ..ws.screens[s] };
        StateV {
            workspaces: self.workspaces.update(
                w,
                WorkspaceV { screens: ws.screens.update(s, screen), ..ws },
            ),
            ..self
        }
    }

    /// The session without `pane`: the split that held it collapses, an
    /// emptied screen or workspace goes, and a screen that loses its active
    /// pane activates the one that was active last.
    pub open spec fn without_pane(self, pane: PaneId) -> StateV {
        let panes = self.panes.remove(pane);
        let rest = StateV { panes, ..self };
        match self.screen_of(pane) {
            None => rest,
            Some((w, s)) => {
                let screen = self.screen(w, s);
                match screen.root.without(pane) {
                    None => rest.without_screen(w, s),
                    Some(root) => {
                        let next = most_recent(panes, root.leaves());
                        let active_pane = if screen.active_pane == pane && next is Some {
                            next->0
                        } else {
                            screen.active_pane
                        };
                        rest.with_root(w, s, root, active_pane)
                    },
                }
            },
        }
    }

    /// The session with the tab `surface` taken out of `pane`. The tab
    /// before it becomes active when it, or one after it, was; a pane that
    /// loses its last tab goes.
    pub open spec fn without_tab(self, pane: PaneId, surface: SurfaceId) -> StateV {
        let p = self.panes[pane];
        let i = p.tabs.index_of(surface);
        if p.tabs.len() == 1 {
            self.without_pane(pane)
        } else {
            let active_tab = if p.active_tab >= i && p.active_tab > 0 {
                p.active_tab - 1
            } else {
                p.active_tab
            };
            StateV {
                panes: self.panes.insert(pane, PaneV { tabs: p.tabs.remove(i), active_tab, ..p }),
                ..self
            }
        }
    }

    /// The session without `surface`.
    pub open spec fn without_surface(self, surface: SurfaceId) -> StateV {
        let rest = StateV { surfaces: self.surfaces.remove(surface), ..self };
        match self.pane_of(surface) {
            None => rest,
            Some(pane) => rest.without_tab(pane, surface),
        }
    }

    /// The session with `pane` active, in its screen and workspace.
    pub open spec fn focused(self, pane: PaneId) -> StateV {
        match self.screen_of(pane) {
            None => self,
            Some((w, s)) => {
                let ws = self.workspaces[w];
                let screen = Screen { active_pane: pane, ..ws.screens[s] };
                StateV {
                    workspaces: self.workspaces.update(
                        w,
                        WorkspaceV {
                            active_screen: s,
                            screens: ws.screens.update(s, screen),
                            ..ws
                        },
                    ),
                    active_workspace: w,
                    ..self
                }
            },
        }
    }

    /// The session with `surface` as the active tab of `pane`, at `index` or
    /// at the end.
    pub open spec fn with_tab(self, pane: PaneId, surface: SurfaceId, index: int) -> StateV {
        let p = self.panes[pane];
        let at = if index < p.tabs.len() {
            index
        } else {
            p.tabs.len() as int
        };
        StateV {
            panes: self.panes.insert(
                pane,
                PaneV { tabs: p.tabs.insert(at, surface), active_tab: at, ..p },
            ),
            ..self
        }
    }

    /// The session with a fresh pane `pane` that has the one tab `surface`.
    pub open spec fn with_pane(self, pane: PaneId, surface: SurfaceId, active_at: u64) -> StateV {
        StateV {
            panes: self.panes.insert(
                pane,
                PaneV {
                    id: pane,
                    name: None,
                    tabs: seq![surface],
                    active_tab: 0,
                    active_at,
                },
            ),
            ..self
        }
    }

    /// The session with a fresh workspace at the end, active, that holds one
    /// screen with the one pane `pane`.
    pub open spec fn with_workspace(
        self,
        id: WorkspaceId,
        name: Seq<char>,
        screen: ScreenId,
        pane: PaneId,
    ) -> StateV {
        StateV {
            workspaces: self.workspaces.push(
                WorkspaceV { id, name, screens: seq![lone_screen(screen, pane)], active_screen: 0 },
            ),
            active_workspace: self.workspaces.len() as int,
            ..self
        }
    }

    /// The session with a fresh screen at the end of workspace `w`, active
    /// there, that holds the one pane `pane`.
    pub open spec fn with_screen(self, w: int, screen: ScreenId, pane: PaneId) -> StateV {
        let ws = self.workspaces[w];
        StateV {
            workspaces: self.workspaces.update(
                w,
                WorkspaceV {
                    screens: ws.screens.push(lone_screen(screen, pane)),
                    active_screen: ws.screens.len() as int,
                    ..ws
                },
            ),
            ..self
        }
    }

    /// The session with `pane` put after `target` in its split tree, and
    /// active there.
    pub open spec fn with_split(self, target: PaneId, dir: SplitDir, pane: PaneId) -> StateV {
        match self.screen_of(target) {
            None => self,
            Some((w, s)) => self.with_root(
                w,
                s,
                self.screen(w, s).root.with_split(target, dir, pane),
                pane,
            ),
        }
    }

    /// The session with another name for workspace `w`.
    pub open spec fn with_workspace_name(self, w: int, name: Seq<char>) -> StateV {
        StateV {
            workspaces: self.workspaces.update(w, WorkspaceV { name, ..self.workspaces[w] }),
            ..self
        }
    }

    /// The session with another name for screen `s` of workspace `w`.
    pub open spec fn with_screen_name(self, w: int, s: int, name: Option<String>) -> StateV {
        let ws = self.workspaces[w];
        let screen = Screen { name, ..ws.screens[s] };
        StateV {
            workspaces: self.workspaces.update(
                w,
                WorkspaceV { screens: ws.screens.update(s, screen), ..ws },
            ),
            ..self
        }
    }

    /// The session with another name for `pane`.
    pub open spec fn with_pane_name(self, pane: PaneId, name: Option<String>) -> StateV {
        StateV { panes: self.panes.insert(pane, PaneV { name, ..self.panes[pane] }), ..self }
    }

    /// The session with another name for `surface`.
    pub open spec fn with_surface_name(self, surface: SurfaceId, name: Option<String>) -> StateV {
        StateV {
            surfaces: self.surfaces.insert(surface, Surface { name, ..self.surfaces[surface] }),
            ..self
        }
    }

    /// The session with another size for `surface`.
    pub open spec fn with_surface_size(self, surface: SurfaceId, size: (u16, u16)) -> StateV {
        StateV {
            surfaces: self.surfaces.insert(
                surface,
                Surface { cols: size.0, rows: size.1, ..self.surfaces[surface] },
            ),
            ..self
        }
    }

    /// The session with the ratio of the deepest split in `dir` on the path
    /// to `pane` set; `None` when there is no such split.
    pub open spec fn with_ratio(self, pane: PaneId, dir: SplitDir, ratio: Ratio) -> Option<StateV> {
        match self.screen_of(pane) {
            Some((w, s)) if self.screen(w, s).root.has_split(pane, dir) => Some(
                self.with_root(
                    w,
                    s,
                    self.screen(w, s).root.with_ratio(pane, dir, ratio),
                    self.screen(w, s).active_pane,
                ),
            ),
            _ => None,
        }
    }

    /// Where place `v` ends up when place `old` goes to `new`.
    pub open spec fn shifted(v: int, old: int, new: int) -> int {
        let m = if v > old {
            v - 1
        } else {
            v
        };
        if v == old {
            new
        } else if m >= new {
            m + 1
        } else {
            m
        }
    }

    /// The session with the workspace `id` put at `index`; `None` when there
    /// is no such workspace, or when it would stay where it is. The active
    /// workspace stays active.
    pub open spec fn with_workspace_moved(self, id: WorkspaceId, index: int) -> Option<StateV> {
        match self.workspace_index(id) {
            None => None,
            Some(old) => {
                let new = Self::landing(old, index, self.workspaces.len() as int);
                if new == old {
                    None
                } else {
                    Some(
                        StateV {
                            workspaces: self.workspaces.remove(old).insert(
                                new,
                                self.workspaces[old],
                            ),
                            active_workspace: Self::shifted(self.active_workspace, old, new),
                            ..self
                        },
                    )
                }
            },
        }
    }

    /// The place that an index or a step selects among `len`, seen from
    /// `active`. A step goes round.
    pub open spec fn selected(
        active: int,
        len: int,
        index: Option<usize>,
        delta: Option<isize>,
    ) -> int {
        match (index, delta) {
            (Some(i), _) => if i < len {
                i as int
            } else {
                active
            },
            (None, Some(d)) => (active + d) % len,
            (None, None) => active,
        }
    }

    /// The session with another tab of `pane` active.
    pub open spec fn with_tab_selected(
        self,
        pane: PaneId,
        index: Option<usize>,
        delta: Option<isize>,
    ) -> StateV {
        let p = self.panes[pane];
        let active_tab = Self::selected(p.active_tab, p.tabs.len() as int, index, delta);
        StateV { panes: self.panes.insert(pane, PaneV { active_tab, ..p }), ..self }
    }

    /// The session with another screen of the active workspace active.
    pub open spec fn with_screen_selected(self, index: Option<usize>, delta: Option<isize>) -> StateV {
        let w = self.active_workspace;
        let ws = self.workspaces[w];
        let active_screen = Self::selected(
            ws.active_screen,
            ws.screens.len() as int,
            index,
            delta,
        );
        StateV {
            workspaces: self.workspaces.update(w, WorkspaceV { active_screen, ..ws }),
            ..self
        }
    }

    /// The session with another workspace active.
    pub open spec fn with_workspace_selected(
        self,
        index: Option<usize>,
        delta: Option<isize>,
    ) -> StateV {
        StateV {
            active_workspace: Self::selected(
                self.active_workspace,
                self.workspaces.len() as int,
                index,
                delta,
            ),
            ..self
        }
    }

    /// The active pane was last active at `active_at`.
    pub open spec fn stamped_active(self, active_at: u64) -> StateV {
        match self.active_pane() {
            Some(pane) => self.stamped(pane, active_at),
            None => self,
        }
    }

    /// Where a tab at `old` comes to stand among `len` when it is put at the
    /// insertion point `index`.
    pub open spec fn landing(old: int, index: int, len: int) -> int {
        let at = if index > old {
            index - 1
        } else {
            index
        };
        if at < len {
            at
        } else {
            len - 1
        }
    }

    /// The session with the tab `surface` put at `index` of `target`, and
    /// active there; `None` when there is no such tab or pane, or when the
    /// tab would stay where it is. A move to another pane takes the focus
    /// along.
    pub open spec fn with_tab_moved(
        self,
        surface: SurfaceId,
        target: PaneId,
        index: int,
    ) -> Option<StateV> {
        match self.pane_of(surface) {
            Some(source) if self.surfaces.contains_key(surface) && self.panes.contains_key(
                target,
            ) => if source == target {
                let p = self.panes[target];
                let old = p.tabs.index_of(surface);
                let new = Self::landing(old, index, p.tabs.len() as int);
                if new == old {
                    None
                } else {
                    Some(
                        StateV {
                            panes: self.panes.insert(
                                target,
                                PaneV {
                                    tabs: p.tabs.remove(old).insert(new, surface),
                                    active_tab: new,
                                    ..p
                                },
                            ),
                            ..self
                        },
                    )
                }
            } else {
                Some(self.without_tab(source, surface).with_tab(target, surface, index).focused(target))
            },
            _ => None,
        }
    }
}

pub proof fn lemma_most_recent_unique(
    panes: Map<PaneId, PaneV>,
    ids: Seq<PaneId>,
    i: int,
    j: int,
)
    requires
        is_most_recent(panes, ids, i),
        is_most_recent(panes, ids, j),
    ensures
        i == j,
{
    assert(panes.contains_key(ids[i]) && panes.contains_key(ids[j]));
}

/// The pane among `panes` that was active last.
pub fn most_recent_pane(state: &State, panes: &[PaneId]) -> (pane: Option<PaneId>)
    ensures
        pane == most_recent(state@.panes, panes@),
{
    let mut best: Option<(usize, u64)> = None;
    let mut i: usize = 0;
    while i < panes.len()
        invariant
            i <= panes.len(),
            match best {
                Some((b, at)) => b < i && is_most_recent(
                    state@.panes,
                    panes@.subrange(0, i as int),
                    b as int,
                ) && at == state@.panes[panes@[b as int]].active_at,
                None => forall|j: int|
                    #![trigger panes@[j]]
                    0 <= j < i ==> !state@.panes.contains_key(panes@[j]),
            },
        decreases panes.len() - i,
    {
        let ghost seen = panes@.subrange(0, i as int);
        let ghost next = panes@.subrange(0, i + 1);
        assert forall|j: int| 0 <= j < i implies #[trigger] next[j] == seen[j] by {}
        if let Some(pane) = state.panes.get(&panes[i]) {
            match best {
                Some((b, at)) => {
                    if at <= pane.active_at {
                        best = Some((i, pane.active_at));
                        assert(is_most_recent(state@.panes, next, i as int));
                    } else {
                        assert(is_most_recent(state@.panes, next, b as int));
                    }
                },
                None => {
                    best = Some((i, pane.active_at));
                    assert(is_most_recent(state@.panes, next, i as int));
                },
            }
        } else {
            assert(!state@.panes.contains_key(next[i as int]));
            if let Some((b, at)) = best {
                assert(is_most_recent(state@.panes, next, b as int));
            }
        }
        i = i + 1;
    }
    assert(panes@.subrange(0, panes@.len() as int) =~= panes@);
    match best {
        Some((b, _)) => {
            proof {
                let k = choose|k: int| is_most_recent(state@.panes, panes@, k);
                lemma_most_recent_unique(state@.panes, panes@, b as int, k);
            }
            Some(panes[b])
        },
        None => None,
    }
}

pub fn stamp_pane(state: &mut State, pane: PaneId, active_at: u64)
    ensures
        final(state)@ == old(state)@.stamped(pane, active_at),
{
    if let Some(mut entry) = state.panes.remove(&pane) {
        entry.active_at = active_at;
        state.panes.insert(pane, entry);
        assert(state@.panes =~= old(state)@.stamped(pane, active_at).panes);
    } else {
        assert(state@.panes =~= old(state)@.panes);
    }
}

/// Every surface in a screen (all panes, all tabs).
pub fn screen_tabs(state: &State, screen: &Screen) -> (tabs: Vec<SurfaceId>)
    ensures
        tabs@ == state@.screen_tabs(*screen),
{
    let mut ids: Vec<PaneId> = Vec::new();
    screen.root.pane_ids(&mut ids);
    let mut tabs: Vec<SurfaceId> = Vec::new();
    let mut i: usize = 0;
    assert(ids@ =~= screen.root.leaves());
    assert(ids@.subrange(0, 0) =~= Seq::<PaneId>::empty());
    while i < ids.len()
        invariant
            i <= ids.len(),
            tabs@ == tabs_of(state@.panes, ids@.subrange(0, i as int)),
        decreases ids.len() - i,
    {
        assert(ids@.subrange(0, i + 1).drop_last() =~= ids@.subrange(0, i as int));
        if let Some(pane) = state.panes.get(&ids[i]) {
            let mut more = pane.tabs.clone();
            assert(more@ =~= pane.tabs@);
            tabs.append(&mut more);
        }
        i = i + 1;
    }
    assert(ids@.subrange(0, ids@.len() as int) =~= ids@);
    tabs
}

/// Takes screen `s` of workspace `w` out of the session.
fn drop_screen(state: &mut State, w: usize, s: usize)
    requires
        old(state)@.has_screen(w as int, s as int),
        old(state)@.selection_wf(),
    ensures
        final(state)@ == old(state)@.without_screen(w as int, s as int),
{
    let ghost want = state@.without_screen(w as int, s as int);
    let ws = &mut state.workspaces[w];
    ws.screens.remove(s);
    let len: usize = ws.screens.len();
    if len > 0 {
        if ws.active_screen >= len {
            ws.active_screen = len - 1;
        }
        assert(state@.workspaces =~= want.workspaces);
        return ;
    }
    state.workspaces.remove(w);
    let left: usize = state.workspaces.len();
    if state.active_workspace > w {
        state.active_workspace = state.active_workspace - 1;
    } else if state.active_workspace == w {
        state.active_workspace = if left > 0 {
            left - 1
        } else {
            0
        };
    }
    assert(state@.workspaces =~= want.workspaces);
}

/// Takes a pane out of the session: its split collapses, and an emptied
/// screen or workspace goes with it.
pub fn collapse_empty_pane(state: &mut State, pane_id: PaneId)
    requires
        old(state)@.tree_wf(),
        old(state)@.selection_wf(),
    ensures
        final(state)@ == old(state)@.without_pane(pane_id),
{
    let place = state.screen_of(pane_id);
    state.panes.remove(&pane_id);
    let ghost rest = StateV { panes: old(state)@.panes.remove(pane_id), ..old(state)@ };
    assert(state@ =~= rest);
    let Some((w, s)) = place else {
        return ;
    };
    let mut root = Node::Leaf(0);
    core::mem::swap(&mut root, &mut state.workspaces[w].screens[s].root);
    let ghost hole = Screen { root: Node::Leaf(0), ..rest.screen(w as int, s as int) };
    assert(state@.workspaces[w as int].screens =~= rest.workspaces[w as int].screens.update(
        s as int,
        hole,
    ));
    assert(state@ =~= rest.with_root(w as int, s as int, hole.root, hole.active_pane));
    match root.remove_leaf(pane_id) {
        Some(root) => {
            let mut active: PaneId = state.workspaces[w].screens[s].active_pane;
            if active == pane_id {
                let mut ids: Vec<PaneId> = Vec::new();
                root.pane_ids(&mut ids);
                assert(ids@ =~= root.leaves());
                assert(state@.panes == rest.panes);
                if let Some(next) = most_recent_pane(state, ids.as_slice()) {
                    active = next;
                }
            }
            let screen = &mut state.workspaces[w].screens[s];
            screen.root = root;
            screen.active_pane = active;
            let ghost want = old(state)@.without_pane(pane_id);
            assert(state@.workspaces[w as int].screens =~= want.workspaces[w as int].screens);
            assert(state@ =~= want);
        },
        None => {
            let ghost held = state@;
            drop_screen(state, w, s);
            assert(held.workspaces[w as int].screens.remove(s as int)
                =~= rest.workspaces[w as int].screens.remove(s as int));
            assert(state@ =~= old(state)@.without_pane(pane_id));
        },
    }
}

/// Takes the tab `surface` out of `pane`.
fn take_tab(state: &mut State, pane: PaneId, surface: SurfaceId)
    requires
        old(state)@.tree_wf(),
        old(state)@.selection_wf(),
        old(state)@.tabs_wf(),
        old(state)@.owns(pane, surface),
    ensures
        final(state)@ == old(state)@.without_tab(pane, surface),
{
    let ghost p = state@.panes[pane];
    let Some(mut entry) = state.panes.remove(&pane) else {
        return ;
    };
    assert(entry@ == p);
    if entry.tabs.len() == 1 {
        state.panes.insert(pane, entry);
        assert(state@ =~= old(state)@);
        collapse_empty_pane(state, pane);
        return ;
    }
    if let Some(i) = position(&entry.tabs, surface) {
        assert(i == p.tabs.index_of(surface));
        entry.tabs.remove(i);
        if entry.active_tab >= i && entry.active_tab > 0 {
            entry.active_tab = entry.active_tab - 1;
        }
    }
    state.panes.insert(pane, entry);
    assert(state@ =~= old(state)@.without_tab(pane, surface));
}

/// Removes one surface from the session: detaches it from its pane, and
/// collapses emptied panes, screens and workspaces. Returns the surface if it
/// was there.
pub fn remove_surface(state: &mut State, target: SurfaceId) -> (removed: Option<Surface>)
    requires
        old(state)@.wf(),
    ensures
        final(state)@ == old(state)@.without_surface(target),
        removed == if old(state)@.surfaces.contains_key(target) {
            Some(old(state)@.surfaces[target])
        } else {
            None
        },
{
    let pane = state.pane_of(target);
    let removed = state.surfaces.remove(&target);
    let ghost rest = StateV { surfaces: old(state)@.surfaces.remove(target), ..old(state)@ };
    assert(state@ =~= rest);
    if let Some(pane) = pane {
        proof {
            consistency::lemma_surfaces_apart(old(state)@, rest);
        }
        take_tab(state, pane, target);
    }
    removed
}

/// Makes `pane` active, in its screen and workspace. Says whether it is in
/// the tree.
pub fn focus(state: &mut State, pane: PaneId) -> (found: bool)
    requires
        old(state)@.tree_wf(),
    ensures
        found == old(state)@.placed(pane),
        final(state)@ == old(state)@.focused(pane),
{
    let Some((w, s)) = state.screen_of(pane) else {
        return false;
    };
    state.active_workspace = w;
    let ws = &mut state.workspaces[w];
    ws.active_screen = s;
    ws.screens[s].active_pane = pane;
    let ghost want = old(state)@.focused(pane);
    assert(state@.workspaces[w as int].screens =~= want.workspaces[w as int].screens);
    assert(state@ =~= want);
    true
}

/// Moves a tab to `index` of the pane that it is in.
fn move_tab_within(state: &mut State, surface: SurfaceId, pane: PaneId, index: usize) -> (moved:
    bool)
    requires
        old(state)@.tabs_wf(),
        old(state)@.owns(pane, surface),
        old(state)@.surfaces.contains_key(surface),
    ensures
        moved == old(state)@.with_tab_moved(surface, pane, index as int) is Some,
        final(state)@ == match old(state)@.with_tab_moved(surface, pane, index as int) {
            Some(next) => next,
            None => old(state)@,
        },
{
    proof {
        consistency::lemma_pane_of(old(state)@, pane, surface);
    }
    let Some(mut entry) = state.panes.remove(&pane) else {
        return false;
    };
    let ghost p = entry@;
    let Some(old_idx) = position(&entry.tabs, surface) else {
        return false;
    };
    assert(old_idx == p.tabs.index_of(surface));
    let new_idx: usize = landing(old_idx, index, entry.tabs.len());
    if new_idx == old_idx {
        state.panes.insert(pane, entry);
        assert(state@ =~= old(state)@);
        return false;
    }
    let tab = entry.tabs.remove(old_idx);
    entry.tabs.insert(new_idx, tab);
    entry.active_tab = new_idx;
    state.panes.insert(pane, entry);
    assert(state@ =~= old(state)@.with_tab_moved(surface, pane, index as int)->0);
    true
}

/// Moves a tab to `index` of `target_pane`. Says whether anything moved.
pub fn move_tab_in_state(
    state: &mut State,
    surface: SurfaceId,
    target_pane: PaneId,
    index: usize,
) -> (moved: bool)
    requires
        old(state)@.wf(),
    ensures
        moved == old(state)@.with_tab_moved(surface, target_pane, index as int) is Some,
        final(state)@ == match old(state)@.with_tab_moved(surface, target_pane, index as int) {
            Some(next) => next,
            None => old(state)@,
        },
{
    if !state.surfaces.contains_key(&surface) || !state.panes.contains_key(&target_pane) {
        return false;
    }
    let Some(source_pane) = state.pane_of(surface) else {
        return false;
    };
    if source_pane == target_pane {
        return move_tab_within(state, surface, target_pane, index);
    }
    take_tab(state, source_pane, surface);
    proof {
        consistency::lemma_without_tab_wf(old(state)@, source_pane, surface);
    }
    let ghost taken = state@;
    assert(taken.panes.contains_key(target_pane));
    let Some(mut entry) = state.panes.remove(&target_pane) else {
        return false;
    };
    let len: usize = entry.tabs.len();
    let at: usize = if index < len {
        index
    } else {
        len
    };
    entry.tabs.insert(at, surface);
    entry.active_tab = at;
    state.panes.insert(target_pane, entry);
    let ghost put = taken.with_tab(target_pane, surface, index as int);
    assert(state@ =~= put);
    proof {
        consistency::lemma_with_tab_wf(taken, target_pane, surface, index as int);
    }
    focus(state, target_pane);
    true
}

/// The place that is `delta` steps from `active`, going round.
fn stepped(active: usize, delta: isize, len: usize) -> (place: usize)
    requires
        active < len,
    ensures
        place == (active + delta) % (len as int),
        place < len,
{
    let n: u128 = len as u128;
    if delta >= 0 {
        ((active as u128 + delta as u128) % n) as usize
    } else {
        let back: u128 = (-(delta as i128)) as u128;
        let rest: u128 = back % n;
        proof {
            let q = back as int / n as int;
            vstd::arithmetic::div_mod::lemma_fundamental_div_mod(back as int, n as int);
            vstd::arithmetic::div_mod::lemma_mod_multiples_vanish(
                q + 1,
                active + delta,
                n as int,
            );
            assert(n * (q + 1) + (active + delta) == active + n - rest) by (nonlinear_arith)
                requires
                    back == n * q + rest,
                    delta == -back,
            ;
        }
        ((active as u128 + n - rest) % n) as usize
    }
}

/// The place that an index or a step selects among `len`.
pub fn select(active: usize, len: usize, index: Option<usize>, delta: Option<isize>) -> (place:
    usize)
    requires
        active < len,
    ensures
        place == StateV::selected(active as int, len as int, index, delta),
        place < len,
{
    match (index, delta) {
        (Some(i), _) => if i < len {
            i
        } else {
            active
        },
        (None, Some(delta)) => stepped(active, delta, len),
        (None, None) => active,
    }
}

/// Where an entry at `old` comes to stand among `len` when it is put at the
/// insertion point `index`.
pub fn landing(old: usize, index: usize, len: usize) -> (place: usize)
    requires
        old < len,
    ensures
        place == StateV::landing(old as int, index as int, len as int),
        place < len,
{
    let at: usize = if index > old {
        index - 1
    } else {
        index
    };
    if at < len {
        at
    } else {
        len - 1
    }
}

} // verus!
