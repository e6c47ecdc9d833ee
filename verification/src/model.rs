//! The session model: workspaces, screens, panes and tabs.

use std::collections::HashMap;

use vstd::prelude::*;

use crate::node::{Node, PaneId, ScreenId, SurfaceId, WorkspaceId};
use crate::surface::Surface;

verus! {

broadcast use vstd::std_specs::hash::group_hash_axioms;

/// A pane: one or more tabs, one of them active.
#[derive(Debug)]
pub struct Pane {
    pub id: PaneId,
    pub name: Option<String>,
    pub tabs: Vec<SurfaceId>,
    pub active_tab: usize,
    /// When the pane was last active, on the session's own clock.
    pub active_at: u64,
}

/// A screen: a split tree of panes, one of them active.
#[derive(Debug)]
pub struct Screen {
    pub id: ScreenId,
    pub name: Option<String>,
    pub root: Node,
    pub active_pane: PaneId,
}

/// A workspace: one or more screens, one of them active.
#[derive(Debug)]
pub struct Workspace {
    pub id: WorkspaceId,
    pub name: String,
    pub screens: Vec<Screen>,
    pub active_screen: usize,
}

/// The whole session.
#[derive(Debug)]
pub struct State {
    pub workspaces: Vec<Workspace>,
    pub active_workspace: usize,
    pub panes: HashMap<PaneId, Pane>,
    pub surfaces: HashMap<SurfaceId, Surface>,
}

/// The mathematical value of a [`Pane`].
#[verifier::ext_equal]
pub struct PaneV {
    pub id: PaneId,
    pub name: Option<String>,
    pub tabs: Seq<SurfaceId>,
    pub active_tab: int,
    pub active_at: u64,
}

/// The mathematical value of a [`Workspace`].
#[verifier::ext_equal]
pub struct WorkspaceV {
    pub id: WorkspaceId,
    pub name: Seq<char>,
    pub screens: Seq<Screen>,
    pub active_screen: int,
}

/// The mathematical value of a [`State`].
#[verifier::ext_equal]
pub struct StateV {
    pub workspaces: Seq<WorkspaceV>,
    pub active_workspace: int,
    pub panes: Map<PaneId, PaneV>,
    pub surfaces: Map<SurfaceId, Surface>,
}

impl View for Pane {
    type V = PaneV;

    open spec fn view(&self) -> PaneV {
        PaneV {
            id: self.id,
            name: self.name,
            tabs: self.tabs@,
            active_tab: self.active_tab as int,
            active_at: self.active_at,
        }
    }
}

impl View for Workspace {
    type V = WorkspaceV;

    open spec fn view(&self) -> WorkspaceV {
        WorkspaceV {
            id: self.id,
            name: self.name@,
            screens: self.screens@,
            active_screen: self.active_screen as int,
        }
    }
}

impl View for State {
    type V = StateV;

    open spec fn view(&self) -> StateV {
        StateV {
            workspaces: self.workspaces@.map_values(|w: Workspace| w@),
            active_workspace: self.active_workspace as int,
            panes: self.panes@.map_values(|p: Pane| p@),
            surfaces: self.surfaces@,
        }
    }
}

impl PaneV {
    /// The surface of the active tab.
    pub open spec fn active_surface(self) -> Option<SurfaceId> {
        if 0 <= self.active_tab < self.tabs.len() {
            Some(self.tabs[self.active_tab])
        } else {
            None
        }
    }

    pub open spec fn wf(self) -> bool {
        &&& 0 <= self.active_tab < self.tabs.len()
        &&& self.tabs.no_duplicates()
    }
}

impl WorkspaceV {
    pub open spec fn wf(self) -> bool {
        0 <= self.active_screen < self.screens.len()
    }
}

impl StateV {
    /// The session has a screen `s` in workspace `w`.
    pub open spec fn has_screen(self, w: int, s: int) -> bool {
        0 <= w < self.workspaces.len() && 0 <= s < self.workspaces[w].screens.len()
    }

    pub open spec fn screen(self, w: int, s: int) -> Screen {
        self.workspaces[w].screens[s]
    }

    /// `pane` is a leaf of screen `s` in workspace `w`.
    pub open spec fn holds(self, w: int, s: int, pane: PaneId) -> bool {
        self.has_screen(w, s) && self.screen(w, s).root.has(pane)
    }

    /// `pane` is a leaf of some screen.
    pub open spec fn placed(self, pane: PaneId) -> bool {
        exists|w: int, s: int| self.holds(w, s, pane)
    }

    /// `surface` is a tab of `pane`.
    pub open spec fn owns(self, pane: PaneId, surface: SurfaceId) -> bool {
        self.panes.contains_key(pane) && self.panes[pane].tabs.contains(surface)
    }

    /// The pane with `surface` among its tabs.
    pub open spec fn pane_of(self, surface: SurfaceId) -> Option<PaneId> {
        if exists|p: PaneId| self.owns(p, surface) {
            Some(choose|p: PaneId| self.owns(p, surface))
        } else {
            None
        }
    }

    /// The workspace and screen with `pane` in the split tree.
    pub open spec fn screen_of(self, pane: PaneId) -> Option<(int, int)> {
        if self.placed(pane) {
            Some(choose|w: int, s: int| self.holds(w, s, pane))
        } else {
            None
        }
    }

    pub open spec fn is_workspace(self, w: int, id: WorkspaceId) -> bool {
        0 <= w < self.workspaces.len() && self.workspaces[w].id == id
    }

    /// The place of the workspace `id`.
    pub open spec fn workspace_index(self, id: WorkspaceId) -> Option<int> {
        if exists|w: int| self.is_workspace(w, id) {
            Some(choose|w: int| self.is_workspace(w, id))
        } else {
            None
        }
    }

    pub open spec fn is_screen(self, w: int, s: int, id: ScreenId) -> bool {
        self.has_screen(w, s) && self.screen(w, s).id == id
    }

    /// The place of the screen `id`.
    pub open spec fn screen_index(self, id: ScreenId) -> Option<(int, int)> {
        if exists|w: int, s: int| self.is_screen(w, s, id) {
            Some(choose|w: int, s: int| self.is_screen(w, s, id))
        } else {
            None
        }
    }

    /// The active pane of the active screen of the active workspace.
    pub open spec fn active_pane(self) -> Option<PaneId> {
        let w = self.active_workspace;
        if 0 <= w < self.workspaces.len() && self.has_screen(w, self.workspaces[w].active_screen) {
            Some(self.screen(w, self.workspaces[w].active_screen).active_pane)
        } else {
            None
        }
    }

    /// Selections point at something.
    pub open spec fn selection_wf(self) -> bool {
        &&& if self.workspaces.len() == 0 {
            self.active_workspace == 0
        } else {
            0 <= self.active_workspace < self.workspaces.len()
        }
        &&& forall|w: int|
            0 <= w < self.workspaces.len() ==> (#[trigger] self.workspaces[w]).wf()
    }

    /// The split trees hold every pane exactly once.
    pub open spec fn tree_wf(self) -> bool {
        &&& forall|w: int, s: int| #[trigger]
            self.has_screen(w, s) ==> self.screen(w, s).root.leaves().no_duplicates()
                && self.screen(w, s).root.has(self.screen(w, s).active_pane)
        &&& forall|w1: int, s1: int, w2: int, s2: int, p: PaneId| #[trigger]
            self.holds(w1, s1, p) && #[trigger] self.holds(w2, s2, p) ==> w1 == w2 && s1 == s2
        &&& forall|w: int, s: int, p: PaneId| #[trigger]
            self.holds(w, s, p) ==> self.panes.contains_key(p)
        &&& forall|p: PaneId| #[trigger] self.panes.contains_key(p) ==> self.placed(p)
    }

    /// Panes hold tabs, and no surface is a tab twice.
    pub open spec fn tabs_wf(self) -> bool {
        &&& forall|p: PaneId| #[trigger]
            self.panes.contains_key(p) ==> self.panes[p].id == p && self.panes[p].wf()
        &&& forall|p: PaneId, q: PaneId, t: SurfaceId| #[trigger]
            self.owns(p, t) && #[trigger] self.owns(q, t) ==> p == q
    }

    /// Ids name one thing each.
    pub open spec fn ids_wf(self) -> bool {
        &&& forall|v: int, w: int, id: WorkspaceId| #[trigger]
            self.is_workspace(v, id) && #[trigger] self.is_workspace(w, id) ==> v == w
        &&& forall|w1: int, s1: int, w2: int, s2: int, id: ScreenId| #[trigger]
            self.is_screen(w1, s1, id) && #[trigger] self.is_screen(w2, s2, id) ==> w1 == w2 && s1
                == s2
        &&& forall|t: SurfaceId| #[trigger]
            self.surfaces.contains_key(t) ==> self.surfaces[t].id == t
    }

    /// Every id in use is smaller than `n`.
    pub open spec fn below(self, n: u64) -> bool {
        &&& forall|p: PaneId| #[trigger] self.panes.contains_key(p) ==> p < n
        &&& forall|p: PaneId, t: SurfaceId| #[trigger] self.owns(p, t) ==> t < n
        &&& forall|w: int, id: WorkspaceId| #[trigger] self.is_workspace(w, id) ==> id < n
        &&& forall|w: int, s: int, id: ScreenId| #[trigger] self.is_screen(w, s, id) ==> id < n
        &&& forall|t: SurfaceId| #[trigger] self.surfaces.contains_key(t) ==> t < n
    }

    /// Every tab shows a surface that the session has.
    pub open spec fn tabs_known(self) -> bool {
        forall|p: PaneId, t: SurfaceId| #[trigger]
            self.owns(p, t) ==> self.surfaces.contains_key(t)
    }

    /// Workspaces, screens, panes and tabs are consistent among themselves.
    pub open spec fn layout_wf(self) -> bool {
        &&& self.selection_wf()
        &&& self.tree_wf()
        &&& self.tabs_wf()
        &&& self.ids_wf()
    }

    /// The session is consistent.
    pub open spec fn wf(self) -> bool {
        &&& self.layout_wf()
        &&& self.tabs_known()
    }
}

impl Pane {
    pub fn active_surface(&self) -> (surface: Option<SurfaceId>)
        ensures
            surface == self@.active_surface(),
    {
        if self.active_tab < self.tabs.len() {
            Some(self.tabs[self.active_tab])
        } else {
            None
        }
    }
}

impl Workspace {
    pub fn active_screen_ref(&self) -> (screen: Option<&Screen>)
        ensures
            match screen {
                Some(screen) => self.active_screen < self.screens@.len() && *screen
                    == self.screens@[self.active_screen as int],
                None => self.active_screen >= self.screens@.len(),
            },
    {
        if self.active_screen < self.screens.len() {
            Some(&self.screens[self.active_screen])
        } else {
            None
        }
    }
}

/// The first place of `id`.
pub fn position(ids: &Vec<SurfaceId>, id: SurfaceId) -> (place: Option<usize>)
    ensures
        match place {
            Some(i) => i < ids@.len() && ids@[i as int] == id && forall|j: int|
                0 <= j < i ==> ids@[j] != id,
            None => !ids@.contains(id),
        },
{
    let mut i: usize = 0;
    while i < ids.len()
        invariant
            i <= ids.len(),
            forall|j: int| 0 <= j < i ==> ids@[j] != id,
        decreases ids.len() - i,
    {
        if ids[i] == id {
            return Some(i);
        }
        i = i + 1;
    }
    None
}

impl State {
    pub fn active_pane(&self) -> (pane: Option<PaneId>)
        ensures
            pane == self@.active_pane(),
    {
        if self.active_workspace < self.workspaces.len() {
            match self.workspaces[self.active_workspace].active_screen_ref() {
                Some(screen) => Some(screen.active_pane),
                None => None,
            }
        } else {
            None
        }
    }

    /// The pane with `surface` among its tabs.
    pub fn pane_of(&self, surface: SurfaceId) -> (pane: Option<PaneId>)
        requires
            self@.tabs_wf(),
        ensures
            pane == self@.pane_of(surface),
    {
        for (id, pane) in entries: self.panes.iter()
            invariant
                self@.tabs_wf(),
                forall|i: int|
                    0 <= i < entries.index() ==> !(#[trigger] entries.seq()[i]).1.tabs@.contains(
                        surface,
                    ),
        {
            if position(&pane.tabs, surface).is_some() {
                assert(self@.owns(*id, surface));
                return Some(*id);
            }
        }
        proof {
            assert forall|p: PaneId| !self@.owns(p, surface) by {
                if self@.owns(p, surface) {
                    assert(self.panes@.contains_key(p));
                }
            }
        }
        None
    }

    /// The workspace and screen with `pane` in the split tree.
    pub fn screen_of(&self, pane: PaneId) -> (place: Option<(usize, usize)>)
        requires
            self@.tree_wf(),
        ensures
            match place {
                Some((w, s)) => self@.screen_of(pane) == Some((w as int, s as int)) && self@.holds(
                    w as int,
                    s as int,
                    pane,
                ),
                None => self@.screen_of(pane) is None,
            },
    {
        let mut w: usize = 0;
        while w < self.workspaces.len()
            invariant
                w <= self.workspaces.len(),
                self@.tree_wf(),
                forall|v: int, s: int| 0 <= v < w ==> !self@.holds(v, s, pane),
            decreases self.workspaces.len() - w,
        {
            let ws = &self.workspaces[w];
            let mut s: usize = 0;
            while s < ws.screens.len()
                invariant
                    w < self.workspaces.len(),
                    s <= ws.screens.len(),
                    ws == self.workspaces[w as int],
                    self@.tree_wf(),
                    forall|t: int| 0 <= t < s ==> !self@.holds(w as int, t, pane),
                decreases ws.screens.len() - s,
            {
                if ws.screens[s].root.contains(pane) {
                    assert(self@.holds(w as int, s as int, pane));
                    return Some((w, s));
                }
                s = s + 1;
            }
            w = w + 1;
        }
        None
    }

    /// The place of the workspace `id`.
    pub fn workspace_index(&self, id: WorkspaceId) -> (place: Option<usize>)
        requires
            self@.ids_wf(),
        ensures
            match place {
                Some(w) => self@.workspace_index(id) == Some(w as int) && self@.is_workspace(
                    w as int,
                    id,
                ),
                None => self@.workspace_index(id) is None,
            },
    {
        let mut w: usize = 0;
        while w < self.workspaces.len()
            invariant
                w <= self.workspaces.len(),
                self@.ids_wf(),
                forall|v: int| 0 <= v < w ==> !self@.is_workspace(v, id),
            decreases self.workspaces.len() - w,
        {
            if self.workspaces[w].id == id {
                assert(self@.is_workspace(w as int, id));
                return Some(w);
            }
            w = w + 1;
        }
        None
    }

    /// The place of the screen `id`.
    pub fn screen_index(&self, id: ScreenId) -> (place: Option<(usize, usize)>)
        requires
            self@.ids_wf(),
        ensures
            match place {
                Some((w, s)) => self@.screen_index(id) == Some((w as int, s as int))
                    && self@.is_screen(w as int, s as int, id),
                None => self@.screen_index(id) is None,
            },
    {
        let mut w: usize = 0;
        while w < self.workspaces.len()
            invariant
                w <= self.workspaces.len(),
                self@.ids_wf(),
                forall|v: int, s: int| 0 <= v < w ==> !self@.is_screen(v, s, id),
            decreases self.workspaces.len() - w,
        {
            let ws = &self.workspaces[w];
            let mut s: usize = 0;
            while s < ws.screens.len()
                invariant
                    w < self.workspaces.len(),
                    s <= ws.screens.len(),
                    ws == self.workspaces[w as int],
                    self@.ids_wf(),
                    forall|t: int| 0 <= t < s ==> !self@.is_screen(w as int, t, id),
                decreases ws.screens.len() - s,
            {
                if ws.screens[s].id == id {
                    assert(self@.is_screen(w as int, s as int, id));
                    return Some((w, s));
                }
                s = s + 1;
            }
            w = w + 1;
        }
        None
    }
}

} // verus!
