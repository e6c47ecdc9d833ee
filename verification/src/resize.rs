//! How moving a pane's edge changes the split that it belongs to.

use vstd::prelude::*;

use crate::geometry::Rect;
use crate::node::{PaneId, SplitDir};
use crate::ui;
use crate::ui::PaneEdge;

verus! {

/// A split: the region that it divides, and a pane by which to name it.
#[derive(Debug, Clone, Copy, PartialEq, Eq, Structural)]
pub struct SplitTarget {
    pub area: Rect,
    pub set_pane: PaneId,
}

/// The part of a split's region that its first side takes: `num` of `den`
/// cells. Growing the pane moves the edge outward or inward.
#[derive(Debug, Clone, Copy, PartialEq, Eq, Structural)]
pub struct EdgeFraction {
    pub num: u32,
    pub den: u16,
    pub dir: SplitDir,
    /// The first side grows with the pane.
    pub outward: bool,
}

/// The better of a choice so far and another split: the one that divides
/// the smaller region.
pub open spec fn closer(
    best: Option<(PaneEdge, SplitTarget)>,
    edge: PaneEdge,
    target: Option<SplitTarget>,
) -> Option<(PaneEdge, SplitTarget)> {
    match (best, target) {
        (_, None) => best,
        (None, Some(target)) => Some((edge, target)),
        (Some((_, held)), Some(target)) => if held.area.size() <= target.area.size() {
            best
        } else {
            Some((edge, target))
        },
    }
}

/// The edge of a pane that a resize moves, out of the splits at its edges.
pub open spec fn nearest(
    right: Option<SplitTarget>,
    left: Option<SplitTarget>,
    bottom: Option<SplitTarget>,
    top: Option<SplitTarget>,
) -> Option<(PaneEdge, SplitTarget)> {
    let best = closer(None, PaneEdge::Right, right);
    let best = closer(best, PaneEdge::Left, left);
    let best = closer(best, PaneEdge::Bottom, bottom);
    closer(best, PaneEdge::Top, top)
}

fn pick(
    best: Option<(PaneEdge, SplitTarget)>,
    edge: PaneEdge,
    target: Option<SplitTarget>,
) -> (next: Option<(PaneEdge, SplitTarget)>)
    ensures
        next == closer(best, edge, target),
{
    match target {
        None => best,
        Some(target) => match best {
            Some((_, held)) if held.area.cells() <= target.area.cells() => best,
            _ => Some((edge, target)),
        },
    }
}

/// The edge of a pane that a resize moves: the one of the innermost split.
pub fn nearest_edge(
    right: Option<SplitTarget>,
    left: Option<SplitTarget>,
    bottom: Option<SplitTarget>,
    top: Option<SplitTarget>,
) -> (edge: Option<(PaneEdge, SplitTarget)>)
    ensures
        edge == nearest(right, left, bottom, top),
{
    let best = pick(None, PaneEdge::Right, right);
    let best = pick(best, PaneEdge::Left, left);
    let best = pick(best, PaneEdge::Bottom, bottom);
    pick(best, PaneEdge::Top, top)
}

/// Which split a resize takes: one at the edge that it names, and none
/// divides a smaller region. There is one as soon as any edge has a split.
pub proof fn law_nearest_edge(
    right: Option<SplitTarget>,
    left: Option<SplitTarget>,
    bottom: Option<SplitTarget>,
    top: Option<SplitTarget>,
)
    ensures
        match nearest(right, left, bottom, top) {
            Some((edge, target)) => {
                &&& match edge {
                    PaneEdge::Right => right,
                    PaneEdge::Left => left,
                    PaneEdge::Bottom => bottom,
                    PaneEdge::Top => top,
                } == Some(target)
                &&& right matches Some(other) ==> target.area.size() <= other.area.size()
                &&& left matches Some(other) ==> target.area.size() <= other.area.size()
                &&& bottom matches Some(other) ==> target.area.size() <= other.area.size()
                &&& top matches Some(other) ==> target.area.size() <= other.area.size()
            },
            None => right is None && left is None && bottom is None && top is None,
        },
{
}

/// Where an edge of a pane is in the region of its split.
pub open spec fn edge_at(pane: Rect, edge: PaneEdge, region: Rect) -> EdgeFraction {
    match edge {
        PaneEdge::Left => EdgeFraction {
            num: ui::minus(pane.x as int, region.x as int) as u32,
            den: crate::browser::at_least_one(region.width),
            dir: SplitDir::Right,
            outward: false,
        },
        PaneEdge::Right => EdgeFraction {
            num: ui::minus(pane.x + pane.width, region.x as int) as u32,
            den: crate::browser::at_least_one(region.width),
            dir: SplitDir::Right,
            outward: true,
        },
        PaneEdge::Top => EdgeFraction {
            num: ui::minus(pane.y as int, region.y as int) as u32,
            den: crate::browser::at_least_one(region.height),
            dir: SplitDir::Down,
            outward: false,
        },
        PaneEdge::Bottom => EdgeFraction {
            num: ui::minus(pane.y + pane.height, region.y as int) as u32,
            den: crate::browser::at_least_one(region.height),
            dir: SplitDir::Down,
            outward: true,
        },
    }
}

pub fn edge_fraction(pane: Rect, edge: PaneEdge, region: Rect) -> (fraction: EdgeFraction)
    ensures
        fraction == edge_at(pane, edge, region),
{
    let (far, start): (u32, u32) = match edge {
        PaneEdge::Left => (pane.x as u32, region.x as u32),
        PaneEdge::Right => (pane.x as u32 + pane.width as u32, region.x as u32),
        PaneEdge::Top => (pane.y as u32, region.y as u32),
        PaneEdge::Bottom => (pane.y as u32 + pane.height as u32, region.y as u32),
    };
    let num: u32 = far.saturating_sub(start);
    match edge {
        PaneEdge::Left | PaneEdge::Right => EdgeFraction {
            num,
            den: crate::browser::clamp_one(region.width),
            dir: SplitDir::Right,
            outward: edge == PaneEdge::Right,
        },
        PaneEdge::Top | PaneEdge::Bottom => EdgeFraction {
            num,
            den: crate::browser::clamp_one(region.height),
            dir: SplitDir::Down,
            outward: edge == PaneEdge::Bottom,
        },
    }
}

/// The fraction at which an edge that is dragged to a cell divides a
/// region; none where the region has no extent.
pub open spec fn edge_to(edge: PaneEdge, region: Rect, x: u16, y: u16) -> Option<(int, u16, SplitDir)> {
    let (at, start, extent, dir) = match edge {
        PaneEdge::Left => (x, region.x, region.width, SplitDir::Right),
        PaneEdge::Right => (ui::plus(x, 1), region.x, region.width, SplitDir::Right),
        PaneEdge::Top => (y, region.y, region.height, SplitDir::Down),
        PaneEdge::Bottom => (ui::plus(y, 1), region.y, region.height, SplitDir::Down),
    };
    if extent == 0 {
        None
    } else {
        Some((ui::minus(at as int, start as int), extent, dir))
    }
}

pub fn drag_fraction(edge: PaneEdge, region: Rect, x: u16, y: u16) -> (fraction: Option<
    (u16, u16, SplitDir),
>)
    ensures
        match fraction {
            Some((num, den, dir)) => edge_to(edge, region, x, y) == Some((num as int, den, dir)),
            None => edge_to(edge, region, x, y) is None,
        },
{
    let (at, start, extent, dir): (u16, u16, u16, SplitDir) = match edge {
        PaneEdge::Left => (x, region.x, region.width, SplitDir::Right),
        PaneEdge::Right => (x.saturating_add(1), region.x, region.width, SplitDir::Right),
        PaneEdge::Top => (y, region.y, region.height, SplitDir::Down),
        PaneEdge::Bottom => (y.saturating_add(1), region.y, region.height, SplitDir::Down),
    };
    if extent == 0 {
        None
    } else {
        Some((at.saturating_sub(start), extent, dir))
    }
}

/// An edge that is dragged to the cells that it already takes stays where it
/// is.
pub proof fn law_drag_in_place(pane: Rect, edge: PaneEdge, region: Rect)
    requires
        pane.fits(),
        pane.width > 0,
        pane.height > 0,
        region.width > 0,
        region.height > 0,
    ensures
        ({
            let x = match edge {
                PaneEdge::Right => (pane.x + pane.width - 1) as u16,
                _ => pane.x,
            };
            let y = match edge {
                PaneEdge::Bottom => (pane.y + pane.height - 1) as u16,
                _ => pane.y,
            };
            let held = edge_at(pane, edge, region);
            edge_to(edge, region, x, y) == Some((held.num as int, held.den, held.dir))
        }),
{
}

/// A vertical edge divides a split to the right, a horizontal one a split
/// down. The first side of a split grows with a pane whose right or bottom
/// edge it is. The edges of what fills the region are at its ends.
pub proof fn law_edges(pane: Rect, edge: PaneEdge, region: Rect)
    ensures
        ({
            let held = edge_at(pane, edge, region);
            let vertical = edge is Left || edge is Right;
            &&& held.dir == if vertical {
                SplitDir::Right
            } else {
                SplitDir::Down
            }
            &&& held.outward == (edge is Right || edge is Bottom)
            &&& pane == region && region.width > 0 && region.height > 0 ==> {
                &&& held.outward ==> held.num == held.den
                &&& !held.outward ==> held.num == 0
                &&& vertical ==> held.den == region.width
                &&& !vertical ==> held.den == region.height
            }
        }),
{
}

/// An edge follows the pointer: each cell further moves it by one cell.
pub proof fn law_edge_follows(edge: PaneEdge, region: Rect, x: u16, y: u16)
    requires
        region.x <= x < 0xfffe,
        region.y <= y < 0xfffe,
        region.width > 0,
        region.height > 0,
    ensures
        ({
            let vertical = edge is Left || edge is Right;
            let there = if vertical {
                edge_to(edge, region, (x + 1) as u16, y)
            } else {
                edge_to(edge, region, x, (y + 1) as u16)
            };
            match (edge_to(edge, region, x, y), there) {
                (Some((num, den, dir)), Some((further, den_there, _))) => {
                    &&& further == num + 1
                    &&& den == den_there
                    &&& vertical ==> den == region.width && dir == SplitDir::Right
                    &&& !vertical ==> den == region.height && dir == SplitDir::Down
                },
                _ => false,
            }
        }),
        match edge_to(edge, region, region.x, region.y) {
            Some((num, _, _)) => num == if edge is Left || edge is Top {
                0int
            } else {
                1int
            },
            None => false,
        },
{
}

} // verus!
