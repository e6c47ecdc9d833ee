//! The session's tree, as a frontend keeps it between draws.

use vstd::prelude::*;

use crate::node::{PaneId, ScreenId, SurfaceId, WorkspaceId};
use crate::search;

verus! {

#[derive(Debug)]
pub struct TabView {
    pub surface: SurfaceId,
    pub short_id: String,
    pub name: Option<String>,
    pub title: String,
}

#[derive(Debug)]
pub struct PaneView {
    pub id: PaneId,
    pub short_id: String,
    pub name: Option<String>,
    pub tabs: Vec<TabView>,
    pub active_tab: usize,
}

#[derive(Debug)]
pub struct ScreenView {
    pub id: ScreenId,
    pub name: Option<String>,
    pub active_pane: PaneId,
    pub panes: Vec<PaneView>,
}

#[derive(Debug)]
pub struct WorkspaceView {
    pub id: WorkspaceId,
    pub short_id: String,
    pub name: String,
    pub screens: Vec<ScreenView>,
    pub active_screen: usize,
}

#[derive(Debug)]
pub struct TreeView {
    pub workspaces: Vec<WorkspaceView>,
    pub active_workspace: usize,
}

/// The screens of `workspaces`, workspace by workspace.
pub open spec fn all_screens(workspaces: Seq<WorkspaceView>) -> Seq<ScreenView>
    decreases workspaces.len(),
{
    if workspaces.len() == 0 {
        seq![]
    } else {
        all_screens(workspaces.drop_last()) + workspaces.last().screens@
    }
}

/// The panes of `screens`, screen by screen.
pub open spec fn all_panes(screens: Seq<ScreenView>) -> Seq<PaneView>
    decreases screens.len(),
{
    if screens.len() == 0 {
        seq![]
    } else {
        all_panes(screens.drop_last()) + screens.last().panes@
    }
}

/// The first pane with an id.
pub open spec fn pane_among(panes: Seq<PaneView>, id: PaneId) -> Option<PaneView> {
    match search::first_where(panes, |pane: PaneView| pane.id == id) {
        Some(i) => Some(panes[i]),
        None => None,
    }
}

/// What references lead to.
pub open spec fn values<T>(refs: Seq<&T>) -> Seq<T> {
    Seq::new(refs.len(), |i: int| *refs[i])
}

fn push_all<'a, T>(refs: &mut Vec<&'a T>, items: &'a Vec<T>)
    ensures
        values(final(refs)@) == values(old(refs)@) + items@,
{
    let ghost before = values(refs@);
    let mut i: usize = 0;
    assert(values(refs@) =~= before + items@.subrange(0, 0));
    while i < items.len()
        invariant
            i <= items@.len(),
            values(refs@) == before + items@.subrange(0, i as int),
        decreases items.len() - i,
    {
        let ghost so_far = refs@;
        refs.push(&items[i]);
        assert(values(refs@) =~= values(so_far).push(items@[i as int]));
        assert(values(refs@) =~= before + items@.subrange(0, i + 1));
        i = i + 1;
    }
    assert(items@.subrange(0, items@.len() as int) =~= items@);
}

/// The place of the first tab of a surface.
pub open spec fn tab_index(pane: PaneView, surface: SurfaceId) -> Option<int> {
    search::first_where(pane.tabs@, |tab: TabView| tab.surface == surface)
}

impl PaneView {
    pub open spec fn active(self) -> Option<TabView> {
        if self.active_tab < self.tabs@.len() {
            Some(self.tabs@[self.active_tab as int])
        } else {
            None
        }
    }

    /// The active tab.
    pub fn active_tab(&self) -> (tab: Option<&TabView>)
        ensures
            match tab {
                Some(tab) => self.active() == Some(*tab),
                None => self.active() is None,
            },
    {
        if self.active_tab < self.tabs.len() {
            Some(&self.tabs[self.active_tab])
        } else {
            None
        }
    }

    /// The place of the first tab of a surface.
    fn position(&self, surface: SurfaceId) -> (place: Option<usize>)
        ensures
            match place {
                Some(i) => tab_index(*self, surface) == Some(i as int),
                None => tab_index(*self, surface) is None,
            },
    {
        let ghost p = |tab: TabView| tab.surface == surface;
        let mut i: usize = 0;
        while i < self.tabs.len()
            invariant
                i <= self.tabs.len(),
                p == (|tab: TabView| tab.surface == surface),
                forall|j: int| 0 <= j < i ==> !p(#[trigger] self.tabs@[j]),
            decreases self.tabs.len() - i,
        {
            if self.tabs[i].surface == surface {
                proof {
                    search::lemma_first_at(self.tabs@, p, i as int);
                }
                return Some(i);
            }
            i = i + 1;
        }
        proof {
            search::lemma_first_none(self.tabs@, p);
        }
        None
    }
}

impl ScreenView {
    pub open spec fn find_pane(self, id: PaneId) -> Option<PaneView> {
        pane_among(self.panes@, id)
    }

    pub fn pane(&self, id: PaneId) -> (pane: Option<&PaneView>)
        ensures
            match pane {
                Some(pane) => self.find_pane(id) == Some(*pane),
                None => self.find_pane(id) is None,
            },
    {
        let ghost p = |pane: PaneView| pane.id == id;
        let mut i: usize = 0;
        while i < self.panes.len()
            invariant
                i <= self.panes.len(),
                p == (|pane: PaneView| pane.id == id),
                forall|j: int| 0 <= j < i ==> !p(#[trigger] self.panes@[j]),
            decreases self.panes.len() - i,
        {
            if self.panes[i].id == id {
                proof {
                    search::lemma_first_at(self.panes@, p, i as int);
                }
                return Some(&self.panes[i]);
            }
            i = i + 1;
        }
        proof {
            search::lemma_first_none(self.panes@, p);
        }
        None
    }
}

impl TreeView {
    pub open spec fn the_workspace(self) -> Option<WorkspaceView> {
        if self.active_workspace < self.workspaces@.len() {
            Some(self.workspaces@[self.active_workspace as int])
        } else {
            None
        }
    }

    pub open spec fn the_screen(self) -> Option<ScreenView> {
        match self.the_workspace() {
            Some(ws) if ws.active_screen < ws.screens@.len() => Some(
                ws.screens@[ws.active_screen as int],
            ),
            _ => None,
        }
    }

    /// The panes of all screens.
    pub open spec fn panes(self) -> Seq<PaneView> {
        all_panes(all_screens(self.workspaces@))
    }

    pub open spec fn the_pane(self, id: PaneId) -> Option<PaneView> {
        pane_among(self.panes(), id)
    }

    /// A pane of the active screen.
    pub open spec fn shown_pane(self, id: PaneId) -> Option<PaneView> {
        match self.the_screen() {
            Some(screen) => screen.find_pane(id),
            None => None,
        }
    }

    pub open spec fn the_active_pane(self) -> Option<PaneId> {
        match self.the_screen() {
            Some(screen) => Some(screen.active_pane),
            None => None,
        }
    }

    /// The active tab of a pane.
    pub open spec fn tab_in(self, pane: PaneId) -> Option<TabView> {
        match self.the_pane(pane) {
            Some(pane) => pane.active(),
            None => None,
        }
    }

    pub open spec fn the_active_surface(self) -> Option<SurfaceId> {
        match self.the_screen() {
            Some(screen) => match screen.find_pane(screen.active_pane) {
                Some(pane) => match pane.active() {
                    Some(tab) => Some(tab.surface),
                    None => None,
                },
                None => None,
            },
            None => None,
        }
    }

    pub open spec fn find_workspace(self, id: WorkspaceId) -> Option<int> {
        search::first_where(self.workspaces@, |ws: WorkspaceView| ws.id == id)
    }

    pub open spec fn find_screen(self, id: ScreenId) -> Option<ScreenView> {
        let screens = all_screens(self.workspaces@);
        match search::first_where(screens, |screen: ScreenView| screen.id == id) {
            Some(i) => Some(screens[i]),
            None => None,
        }
    }

    /// The pane and the place of the first tab of a surface.
    pub open spec fn find_tab(self, surface: SurfaceId) -> Option<(PaneId, int)> {
        match search::first_where(
            self.panes(),
            |pane: PaneView| tab_index(pane, surface) is Some,
        ) {
            Some(i) => Some((self.panes()[i].id, tab_index(self.panes()[i], surface)->0)),
            None => None,
        }
    }

    pub fn active_workspace(&self) -> (ws: Option<&WorkspaceView>)
        ensures
            match ws {
                Some(ws) => self.the_workspace() == Some(*ws),
                None => self.the_workspace() is None,
            },
    {
        if self.active_workspace < self.workspaces.len() {
            Some(&self.workspaces[self.active_workspace])
        } else {
            None
        }
    }

    pub fn active_screen(&self) -> (screen: Option<&ScreenView>)
        ensures
            match screen {
                Some(screen) => self.the_screen() == Some(*screen),
                None => self.the_screen() is None,
            },
    {
        match self.active_workspace() {
            Some(ws) => if ws.active_screen < ws.screens.len() {
                Some(&ws.screens[ws.active_screen])
            } else {
                None
            },
            None => None,
        }
    }

    pub fn active_pane(&self) -> (pane: Option<PaneId>)
        ensures
            pane == self.the_active_pane(),
    {
        match self.active_screen() {
            Some(screen) => Some(screen.active_pane),
            None => None,
        }
    }

    pub fn active_surface(&self) -> (surface: Option<SurfaceId>)
        ensures
            surface == self.the_active_surface(),
    {
        match self.active_screen() {
            Some(screen) => match screen.pane(screen.active_pane) {
                Some(pane) => match pane.active_tab() {
                    Some(tab) => Some(tab.surface),
                    None => None,
                },
                None => None,
            },
            None => None,
        }
    }

    fn list_screens(&self) -> (screens: Vec<&ScreenView>)
        ensures
            values(screens@) == all_screens(self.workspaces@),
    {
        let mut screens: Vec<&ScreenView> = Vec::new();
        let mut w: usize = 0;
        assert(self.workspaces@.subrange(0, 0) =~= Seq::<WorkspaceView>::empty());
        assert(values(screens@) =~= all_screens(self.workspaces@.subrange(0, 0)));
        while w < self.workspaces.len()
            invariant
                w <= self.workspaces.len(),
                values(screens@) == all_screens(self.workspaces@.subrange(0, w as int)),
            decreases self.workspaces.len() - w,
        {
            push_all(&mut screens, &self.workspaces[w].screens);
            assert(self.workspaces@.subrange(0, w + 1).drop_last()
                =~= self.workspaces@.subrange(0, w as int));
            w = w + 1;
        }
        assert(self.workspaces@.subrange(0, self.workspaces@.len() as int) =~= self.workspaces@);
        screens
    }

    fn list_panes(&self) -> (panes: Vec<&PaneView>)
        ensures
            values(panes@) == self.panes(),
    {
        let screens = self.list_screens();
        let ghost all = values(screens@);
        let mut panes: Vec<&PaneView> = Vec::new();
        let mut s: usize = 0;
        assert(all.subrange(0, 0) =~= Seq::<ScreenView>::empty());
        assert(values(panes@) =~= all_panes(all.subrange(0, 0)));
        while s < screens.len()
            invariant
                s <= screens.len(),
                all == values(screens@),
                values(panes@) == all_panes(all.subrange(0, s as int)),
            decreases screens.len() - s,
        {
            push_all(&mut panes, &screens[s].panes);
            assert(all.subrange(0, s + 1).drop_last() =~= all.subrange(0, s as int));
            assert(all.subrange(0, s + 1).last() == *screens@[s as int]);
            s = s + 1;
        }
        assert(all.subrange(0, all.len() as int) =~= all);
        panes
    }

    /// A pane of the active screen.
    pub fn pane_shown(&self, id: PaneId) -> (pane: Option<&PaneView>)
        ensures
            match pane {
                Some(pane) => self.shown_pane(id) == Some(*pane),
                None => self.shown_pane(id) is None,
            },
    {
        match self.active_screen() {
            Some(screen) => screen.pane(id),
            None => None,
        }
    }

    pub fn pane(&self, id: PaneId) -> (pane: Option<&PaneView>)
        ensures
            match pane {
                Some(pane) => self.the_pane(id) == Some(*pane),
                None => self.the_pane(id) is None,
            },
    {
        let panes = self.list_panes();
        let ghost all = values(panes@);
        let ghost p = |pane: PaneView| pane.id == id;
        let mut i: usize = 0;
        while i < panes.len()
            invariant
                i <= panes.len(),
                all == values(panes@),
                all == self.panes(),
                p == (|pane: PaneView| pane.id == id),
                forall|j: int| 0 <= j < i ==> !p(#[trigger] all[j]),
            decreases panes.len() - i,
        {
            assert(all[i as int] == *panes@[i as int]);
            if panes[i].id == id {
                proof {
                    search::lemma_first_at(all, p, i as int);
                }
                return Some(panes[i]);
            }
            i = i + 1;
        }
        proof {
            search::lemma_first_none(all, p);
        }
        None
    }

    /// The active tab of a pane.
    pub fn tab(&self, pane: PaneId) -> (tab: Option<&TabView>)
        ensures
            match tab {
                Some(tab) => self.tab_in(pane) == Some(*tab),
                None => self.tab_in(pane) is None,
            },
    {
        match self.pane(pane) {
            Some(pane) => pane.active_tab(),
            None => None,
        }
    }

    pub fn workspace_index(&self, id: WorkspaceId) -> (place: Option<usize>)
        ensures
            match place {
                Some(i) => self.find_workspace(id) == Some(i as int) && i < self.workspaces@.len(),
                None => self.find_workspace(id) is None,
            },
    {
        let ghost p = |ws: WorkspaceView| ws.id == id;
        let mut i: usize = 0;
        while i < self.workspaces.len()
            invariant
                i <= self.workspaces.len(),
                p == (|ws: WorkspaceView| ws.id == id),
                forall|j: int| 0 <= j < i ==> !p(#[trigger] self.workspaces@[j]),
            decreases self.workspaces.len() - i,
        {
            if self.workspaces[i].id == id {
                proof {
                    search::lemma_first_at(self.workspaces@, p, i as int);
                }
                return Some(i);
            }
            i = i + 1;
        }
        proof {
            search::lemma_first_none(self.workspaces@, p);
        }
        None
    }

    pub fn screen(&self, id: ScreenId) -> (screen: Option<&ScreenView>)
        ensures
            match screen {
                Some(screen) => self.find_screen(id) == Some(*screen),
                None => self.find_screen(id) is None,
            },
    {
        let screens = self.list_screens();
        let ghost all = values(screens@);
        let ghost p = |screen: ScreenView| screen.id == id;
        let mut i: usize = 0;
        while i < screens.len()
            invariant
                i <= screens.len(),
                all == values(screens@),
                all == all_screens(self.workspaces@),
                p == (|screen: ScreenView| screen.id == id),
                forall|j: int| 0 <= j < i ==> !p(#[trigger] all[j]),
            decreases screens.len() - i,
        {
            assert(all[i as int] == *screens@[i as int]);
            if screens[i].id == id {
                proof {
                    search::lemma_first_at(all, p, i as int);
                }
                return Some(screens[i]);
            }
            i = i + 1;
        }
        proof {
            search::lemma_first_none(all, p);
        }
        None
    }

    /// The pane and the place of the first tab of a surface.
    pub fn tab_location(&self, surface: SurfaceId) -> (place: Option<(PaneId, usize)>)
        ensures
            match place {
                Some((pane, index)) => self.find_tab(surface) == Some((pane, index as int)),
                None => self.find_tab(surface) is None,
            },
    {
        let panes = self.list_panes();
        let ghost all = values(panes@);
        let ghost p = |pane: PaneView| tab_index(pane, surface) is Some;
        let mut i: usize = 0;
        while i < panes.len()
            invariant
                i <= panes.len(),
                all == values(panes@),
                all == self.panes(),
                p == (|pane: PaneView| tab_index(pane, surface) is Some),
                forall|j: int| 0 <= j < i ==> !p(#[trigger] all[j]),
            decreases panes.len() - i,
        {
            assert(all[i as int] == *panes@[i as int]);
            if let Some(index) = panes[i].position(surface) {
                proof {
                    search::lemma_first_at(all, p, i as int);
                }
                return Some((panes[i].id, index));
            }
            i = i + 1;
        }
        proof {
            search::lemma_first_none(all, p);
        }
        None
    }
}

/// Every pane of every screen is among the tree's panes.
pub proof fn law_panes(tree: TreeView, w: int, s: int, p: int)
    requires
        0 <= w < tree.workspaces@.len(),
        0 <= s < tree.workspaces@[w].screens@.len(),
        0 <= p < tree.workspaces@[w].screens@[s].panes@.len(),
    ensures
        tree.panes().contains(tree.workspaces@[w].screens@[s].panes@[p]),
{
    lemma_all_screens(tree.workspaces@, w, s);
    let screens = all_screens(tree.workspaces@);
    let i = choose|i: int|
        0 <= i < screens.len() && screens[i] == tree.workspaces@[w].screens@[s];
    lemma_all_panes(screens, i, p);
}

proof fn lemma_all_screens(workspaces: Seq<WorkspaceView>, w: int, s: int)
    requires
        0 <= w < workspaces.len(),
        0 <= s < workspaces[w].screens@.len(),
    ensures
        all_screens(workspaces).contains(workspaces[w].screens@[s]),
    decreases workspaces.len(),
{
    let before = all_screens(workspaces.drop_last());
    let all = all_screens(workspaces);
    if w < workspaces.len() - 1 {
        lemma_all_screens(workspaces.drop_last(), w, s);
        let i = choose|i: int|
            0 <= i < before.len() && before[i] == workspaces[w].screens@[s];
        assert(all[i] == before[i]);
    } else {
        assert(all[before.len() + s] == workspaces[w].screens@[s]);
    }
}

proof fn lemma_all_panes(screens: Seq<ScreenView>, s: int, p: int)
    requires
        0 <= s < screens.len(),
        0 <= p < screens[s].panes@.len(),
    ensures
        all_panes(screens).contains(screens[s].panes@[p]),
    decreases screens.len(),
{
    let before = all_panes(screens.drop_last());
    let all = all_panes(screens);
    if s < screens.len() - 1 {
        lemma_all_panes(screens.drop_last(), s, p);
        let i = choose|i: int| 0 <= i < before.len() && before[i] == screens[s].panes@[p];
        assert(all[i] == before[i]);
    } else {
        assert(all[before.len() + p] == screens[s].panes@[p]);
    }
}

/// A pane is found by its id wherever it is, where no other has that id.
pub proof fn law_find_pane(tree: TreeView, w: int, s: int, p: int)
    requires
        0 <= w < tree.workspaces@.len(),
        0 <= s < tree.workspaces@[w].screens@.len(),
        0 <= p < tree.workspaces@[w].screens@[s].panes@.len(),
        forall|i: int, j: int|
            0 <= i < j < tree.panes().len() ==> (#[trigger] tree.panes()[i]).id != (
            #[trigger] tree.panes()[j]).id,
    ensures
        tree.the_pane(tree.workspaces@[w].screens@[s].panes@[p].id) == Some(
            tree.workspaces@[w].screens@[s].panes@[p],
        ),
{
    law_panes(tree, w, s, p);
    let it = tree.workspaces@[w].screens@[s].panes@[p];
    let panes = tree.panes();
    let i = choose|i: int| 0 <= i < panes.len() && panes[i] == it;
    search::lemma_first_at(panes, |pane: PaneView| pane.id == it.id, i);
}

} // verus!
