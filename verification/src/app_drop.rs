//! Where a dragged tab or workspace would land.

use vstd::prelude::*;

use crate::app::{App, AppV};
use crate::geometry::Rect;
use crate::node::PaneId;
use crate::search;
use crate::ui::{Hit, PaneArea};

verus! {

/// A tab of a pane is drawn at `hits[i]`, and the pointer is left of its
/// middle or on it.
pub open spec fn stops(hits: Seq<(Rect, Hit)>, pane: PaneId, x: u16, y: u16, i: int) -> bool {
    &&& 0 <= i < hits.len()
    &&& hits[i].1 matches Hit::Tab { pane: p, .. } && p == pane
    &&& before_middle(hits[i].0, x) || hits[i].0.has(x as int, y as int)
}

/// The column is left of the middle of `rect`.
pub open spec fn before_middle(rect: Rect, x: u16) -> bool {
    x < rect.x + rect.width / 2
}

/// The tab at `hits[i]` is drawn before the one at `hits[j]`.
pub open spec fn drawn_before(hits: Seq<(Rect, Hit)>, i: int, j: int) -> bool {
    let (a, b) = (hits[i].0.x, hits[j].0.x);
    let (k, l) = (hits[i].1->Tab_index, hits[j].1->Tab_index);
    a < b || a == b && (k < l || k == l && i < j)
}

/// The first tab of a pane that stops the pointer.
pub open spec fn is_first_stop(
    hits: Seq<(Rect, Hit)>,
    pane: PaneId,
    x: u16,
    y: u16,
    i: int,
) -> bool {
    &&& stops(hits, pane, x, y, i)
    &&& forall|j: int|
        #![trigger hits[j]]
        stops(hits, pane, x, y, j) && j != i ==> drawn_before(hits, i, j)
}

/// The place among `len` tabs at which a tab that is dropped on the pane's
/// bar lands: before the tab whose first half is under the pointer, after
/// the one whose second half is, else at the end.
pub open spec fn bar_place(
    hits: Seq<(Rect, Hit)>,
    pane: PaneId,
    x: u16,
    y: u16,
    len: int,
) -> int {
    if exists|i: int| is_first_stop(hits, pane, x, y, i) {
        let i = choose|i: int| is_first_stop(hits, pane, x, y, i);
        let index = hits[i].1->Tab_index as int;
        let place = if before_middle(hits[i].0, x) {
            index
        } else {
            index + 1
        };
        if place < len {
            place
        } else {
            len
        }
    } else {
        len
    }
}

/// The workspace entries take three rows each, from the third on; a drop on
/// the first row of one lands before it, else after it.
pub open spec fn entry_place(sidebar_width: u16, len: int, x: u16, y: u16) -> Option<int> {
    if sidebar_width < 3 || x >= sidebar_width - 1 {
        None
    } else if y < 2 {
        Some(0)
    } else {
        let entry = (y - 2) / 3;
        let row = (y - 2) % 3;
        if entry >= len {
            Some(len)
        } else if row == 0 {
            Some(entry)
        } else {
            Some(entry + 1)
        }
    }
}

impl AppV {
    /// The area whose bar or content has a cell.
    pub open spec fn drop_area(self, x: u16, y: u16) -> Option<PaneArea> {
        match search::first_where(self.pane_areas, |area: PaneArea| takes_drop(area, x, y)) {
            Some(i) => Some(self.pane_areas[i]),
            None => None,
        }
    }

    /// The pane and the place at which a tab that is dropped on a cell
    /// lands.
    pub open spec fn tab_drop(self, x: u16, y: u16) -> Option<(PaneId, int)> {
        match self.drop_area(x, y) {
            Some(area) => match self.tree.the_pane(area.pane) {
                Some(pane) => {
                    let len = pane.tabs@.len() as int;
                    if on_bar(area, x, y) {
                        Some((area.pane, bar_place(self.hits, area.pane, x, y, len)))
                    } else {
                        Some((area.pane, len))
                    }
                },
                None => None,
            },
            None => None,
        }
    }

    /// The place at which a workspace that is dropped on a cell lands.
    pub open spec fn workspace_drop(self, x: u16, y: u16) -> Option<int> {
        entry_place(self.sidebar_width, self.tree.workspaces@.len() as int, x, y)
    }
}

/// The cell is on the tab bar.
pub open spec fn on_bar(area: PaneArea, x: u16, y: u16) -> bool {
    area.bar matches Some(bar) && bar.has(x as int, y as int)
}

/// The cell is on the tab bar or in the content.
pub open spec fn takes_drop(area: PaneArea, x: u16, y: u16) -> bool {
    on_bar(area, x, y) || area.content.has(x as int, y as int)
}

/// Whether a cell is on the tab bar.
pub(crate) fn bar_has(area: &PaneArea, x: u16, y: u16) -> (on: bool)
    ensures
        on == on_bar(*area, x, y),
{
    match &area.bar {
        Some(bar) => bar.contains(x, y),
        None => false,
    }
}

/// The first tab that stops the pointer, if there is one, is the one that
/// the definition chooses.
proof fn lemma_first_stop(hits: Seq<(Rect, Hit)>, pane: PaneId, x: u16, y: u16, i: int)
    requires
        is_first_stop(hits, pane, x, y, i),
    ensures
        i == choose|i: int| is_first_stop(hits, pane, x, y, i),
{
    let k = choose|i: int| is_first_stop(hits, pane, x, y, i);
    assert(is_first_stop(hits, pane, x, y, k));
    if k != i {
        assert(hits[k] == hits[k] && hits[i] == hits[i]);
        assert(drawn_before(hits, i, k));
        assert(drawn_before(hits, k, i));
    }
}

impl App {
    fn place_on_bar(&self, pane: PaneId, x: u16, y: u16, len: usize) -> (place: usize)
        ensures
            place == bar_place(self@.hits, pane, x, y, len as int),
    {
        let ghost hits = self.hits@;
        let mut best: Option<(usize, u16, usize, bool)> = None;
        let mut i: usize = 0;
        while i < self.hits.len()
            invariant
                hits == self.hits@,
                i <= hits.len(),
                match best {
                    Some((b, left, index, half)) => {
                        &&& b < i
                        &&& stops(hits, pane, x, y, b as int)
                        &&& left == hits[b as int].0.x
                        &&& index == hits[b as int].1->Tab_index
                        &&& half == before_middle(hits[b as int].0, x)
                        &&& forall|j: int|
                            #![trigger hits[j]]
                            stops(hits, pane, x, y, j) && j != b && j < i ==> drawn_before(
                                hits,
                                b as int,
                                j,
                            )
                    },
                    None => forall|j: int|
                        #![trigger hits[j]]
                        j < i ==> !stops(hits, pane, x, y, j),
                },
            decreases self.hits.len() - i,
        {
            let rect = self.hits[i].0;
            if let Hit::Tab { pane: p, index } = self.hits[i].1 {
                let half = (x as u32) < rect.x as u32 + (rect.width / 2) as u32;
                if p == pane && (half || rect.contains(x, y)) {
                    assert(stops(hits, pane, x, y, i as int));
                    let better = match best {
                        Some((_, left, held, _)) => rect.x < left || (rect.x == left && index
                            < held),
                        None => true,
                    };
                    if better {
                        best = Some((i, rect.x, index, half));
                    }
                }
            }
            i = i + 1;
        }
        match best {
            Some((b, _, index, half)) => {
                assert(is_first_stop(hits, pane, x, y, b as int));
                proof {
                    lemma_first_stop(hits, pane, x, y, b as int);
                }
                if half {
                    if index < len {
                        index
                    } else {
                        len
                    }
                } else if index < len {
                    index + 1
                } else {
                    len
                }
            },
            None => {
                assert forall|k: int| !is_first_stop(hits, pane, x, y, k) by {
                    assert(hits[k] == hits[k]);
                }
                len
            },
        }
    }

    fn find_drop_area(&self, x: u16, y: u16) -> (area: Option<PaneArea>)
        ensures
            area == self@.drop_area(x, y),
    {
        let ghost p = |area: PaneArea| takes_drop(area, x, y);
        let mut i: usize = 0;
        while i < self.pane_areas.len()
            invariant
                i <= self.pane_areas.len(),
                p == (|area: PaneArea| takes_drop(area, x, y)),
                forall|j: int| 0 <= j < i ==> !p(#[trigger] self.pane_areas@[j]),
            decreases self.pane_areas.len() - i,
        {
            if bar_has(&self.pane_areas[i], x, y) || self.pane_areas[i].content.contains(x, y) {
                proof {
                    search::lemma_first_at(self.pane_areas@, p, i as int);
                }
                return Some(self.pane_areas[i]);
            }
            i = i + 1;
        }
        proof {
            search::lemma_first_none(self.pane_areas@, p);
        }
        None
    }

    /// The pane and the place at which a tab that is dropped on a cell
    /// lands.
    pub fn tab_drop_target_at(&self, x: u16, y: u16) -> (target: Option<(PaneId, usize)>)
        ensures
            match target {
                Some((pane, place)) => self@.tab_drop(x, y) == Some((pane, place as int)),
                None => self@.tab_drop(x, y) is None,
            },
    {
        let Some(area) = self.find_drop_area(x, y) else {
            return None;
        };
        let Some(pane) = self.tree.pane(area.pane) else {
            return None;
        };
        let len: usize = pane.tabs.len();
        if bar_has(&area, x, y) {
            Some((area.pane, self.place_on_bar(area.pane, x, y, len)))
        } else {
            Some((area.pane, len))
        }
    }

    /// The place at which a workspace that is dropped on a cell lands.
    pub fn workspace_drop_target_at(&self, x: u16, y: u16) -> (target: Option<usize>)
        ensures
            match target {
                Some(place) => self@.workspace_drop(x, y) == Some(place as int),
                None => self@.workspace_drop(x, y) is None,
            },
    {
        if self.sidebar_width < 3 || x >= self.sidebar_width - 1 {
            return None;
        }
        if y < 2 {
            return Some(0);
        }
        let len: usize = self.tree.workspaces.len();
        let entry: usize = ((y - 2) / 3) as usize;
        if entry >= len {
            Some(len)
        } else if (y - 2) % 3 == 0 {
            Some(entry)
        } else {
            Some(entry + 1)
        }
    }
}

/// What is dropped lands inside the list or at its end.
pub proof fn law_drop_in_range(app: AppV, x: u16, y: u16)
    ensures
        app.workspace_drop(x, y) matches Some(place) ==> 0 <= place
            <= app.tree.workspaces@.len(),
        app.tab_drop(x, y) matches Some((pane, place)) ==> app.tree.the_pane(pane) is Some && 0
            <= place <= app.tree.the_pane(pane)->0.tabs@.len(),
{
}

} // verus!
