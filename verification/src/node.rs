//! The split tree of a screen.

use vstd::prelude::*;

use crate::ratio::{Ratio, HALF_RATIO};

verus! {

pub type PaneId = u64;

pub type ScreenId = u64;

pub type WorkspaceId = u64;

pub type SurfaceId = u64;

/// The side on which the second child of a split lies.
#[derive(Debug, Clone, Copy, PartialEq, Eq, Structural)]
pub enum SplitDir {
    Right,
    Down,
}

/// A binary split tree with panes at its leaves.
#[derive(Debug)]
pub enum Node {
    Leaf(PaneId),
    Split { dir: SplitDir, ratio: Ratio, a: Box<Node>, b: Box<Node> },
}

impl Node {
    /// The panes in the tree, first child before second.
    pub open spec fn leaves(self) -> Seq<PaneId>
        decreases self,
    {
        match self {
            Node::Leaf(id) => seq![id],
            Node::Split { a, b, .. } => a.leaves() + b.leaves(),
        }
    }

    /// `pane` is a leaf of the tree.
    pub open spec fn has(self, pane: PaneId) -> bool
        decreases self,
    {
        match self {
            Node::Leaf(id) => id == pane,
            Node::Split { a, b, .. } => a.has(pane) || b.has(pane),
        }
    }

    /// The tree with the leaf `target` split in two, `fresh` after it.
    pub open spec fn with_split(self, target: PaneId, dir: SplitDir, fresh: PaneId) -> Node
        decreases self,
    {
        match self {
            Node::Leaf(id) => if id == target {
                Node::Split {
                    dir,
                    ratio: Ratio { bits: HALF_RATIO },
                    a: Box::new(Node::Leaf(id)),
                    b: Box::new(Node::Leaf(fresh)),
                }
            } else {
                self
            },
            Node::Split { dir: d, ratio, a, b } => if a.has(target) {
                Node::Split { dir: d, ratio, a: Box::new(a.with_split(target, dir, fresh)), b }
            } else {
                Node::Split { dir: d, ratio, a, b: Box::new(b.with_split(target, dir, fresh)) }
            },
        }
    }

    /// The tree without `target`: a split that loses a child is replaced by
    /// the other one. `None` when nothing is left.
    pub open spec fn without(self, target: PaneId) -> Option<Node>
        decreases self,
    {
        match self {
            Node::Leaf(id) => if id == target {
                None
            } else {
                Some(self)
            },
            Node::Split { dir, ratio, a, b } => match (a.without(target), b.without(target)) {
                (Some(a), Some(b)) => Some(
                    Node::Split { dir, ratio, a: Box::new(a), b: Box::new(b) },
                ),
                (Some(a), None) => Some(a),
                (None, b) => b,
            },
        }
    }

    /// A split in `dir` lies on the path to `pane`.
    pub open spec fn has_split(self, pane: PaneId, dir: SplitDir) -> bool
        decreases self,
    {
        match self {
            Node::Leaf(_) => false,
            Node::Split { dir: d, a, b, .. } => if a.has(pane) {
                d == dir || a.has_split(pane, dir)
            } else if b.has(pane) {
                d == dir || b.has_split(pane, dir)
            } else {
                false
            },
        }
    }

    /// The tree with the ratio of the deepest split in `dir` on the path to
    /// `pane` set.
    pub open spec fn with_ratio(self, pane: PaneId, dir: SplitDir, ratio: Ratio) -> Node
        decreases self,
    {
        match self {
            Node::Leaf(_) => self,
            Node::Split { dir: d, ratio: r, a, b } => if !self.has_split(pane, dir) {
                self
            } else if a.has_split(pane, dir) && a.has(pane) {
                Node::Split { dir: d, ratio: r, a: Box::new(a.with_ratio(pane, dir, ratio)), b }
            } else if b.has_split(pane, dir) && !a.has(pane) {
                Node::Split { dir: d, ratio: r, a, b: Box::new(b.with_ratio(pane, dir, ratio)) }
            } else {
                Node::Split { dir: d, ratio, a, b }
            },
        }
    }

    pub fn contains(&self, pane: PaneId) -> (found: bool)
        ensures
            found == self.has(pane),
        decreases self,
    {
        match self {
            Node::Leaf(id) => *id == pane,
            Node::Split { a, b, .. } => a.contains(pane) || b.contains(pane),
        }
    }

    /// Appends the panes of the tree to `out`.
    pub fn pane_ids(&self, out: &mut Vec<PaneId>)
        ensures
            final(out)@ == old(out)@ + self.leaves(),
        decreases self,
    {
        match self {
            Node::Leaf(id) => {
                out.push(*id);
            },
            Node::Split { a, b, .. } => {
                a.pane_ids(out);
                b.pane_ids(out);
            },
        }
    }

    /// Splits the leaf `target`, putting `fresh` after it. Says whether the
    /// leaf was there.
    pub fn split_leaf(&mut self, target: PaneId, dir: SplitDir, fresh: PaneId) -> (done: bool)
        ensures
            done == old(self).has(target),
            *final(self) == if old(self).has(target) {
                old(self).with_split(target, dir, fresh)
            } else {
                *old(self)
            },
        decreases *old(self),
    {
        match self {
            Node::Leaf(id) => {
                if *id != target {
                    return false;
                }
            },
            Node::Split { a, b, .. } => {
                return a.split_leaf(target, dir, fresh) || b.split_leaf(target, dir, fresh);
            },
        }
        *self = Node::Split {
            dir,
            ratio: Ratio { bits: HALF_RATIO },
            a: Box::new(Node::Leaf(target)),
            b: Box::new(Node::Leaf(fresh)),
        };
        true
    }

    /// Removes the leaf `target`.
    pub fn remove_leaf(self, target: PaneId) -> (rest: Option<Node>)
        ensures
            rest == self.without(target),
        decreases self,
    {
        match self {
            Node::Leaf(id) => if id == target {
                None
            } else {
                Some(Node::Leaf(id))
            },
            Node::Split { dir, ratio, a, b } => match ((*a).remove_leaf(target), (*b).remove_leaf(
                target,
            )) {
                (Some(a), Some(b)) => Some(
                    Node::Split { dir, ratio, a: Box::new(a), b: Box::new(b) },
                ),
                (Some(a), None) => Some(a),
                (None, b) => b,
            },
        }
    }

    /// Sets the ratio of the deepest split in `dir` on the path to `pane`.
    /// Says whether there is one.
    pub fn set_deepest_ratio(&mut self, pane: PaneId, dir: SplitDir, ratio: Ratio) -> (found: bool)
        ensures
            found == old(self).has_split(pane, dir),
            *final(self) == old(self).with_ratio(pane, dir, ratio),
        decreases *old(self),
    {
        match self {
            Node::Leaf(_) => false,
            Node::Split { dir: d, ratio: r, a, b } => {
                if a.contains(pane) {
                    if a.set_deepest_ratio(pane, dir, ratio) {
                        return true;
                    }
                } else if b.contains(pane) {
                    if b.set_deepest_ratio(pane, dir, ratio) {
                        return true;
                    }
                } else {
                    return false;
                }
                if *d == dir {
                    *r = ratio;
                    true
                } else {
                    false
                }
            },
        }
    }
}

/// A pane is in the tree exactly when it is among its leaves.
pub proof fn lemma_has_leaves(node: Node, pane: PaneId)
    ensures
        node.has(pane) == node.leaves().contains(pane),
    decreases node,
{
    match node {
        Node::Leaf(id) => {
            assert(seq![id][0] == id);
        },
        Node::Split { a, b, .. } => {
            lemma_has_leaves(*a, pane);
            lemma_has_leaves(*b, pane);
            let l = a.leaves();
            let r = b.leaves();
            if l.contains(pane) {
                let i = l.index_of(pane);
                assert((l + r)[i] == pane);
            }
            if r.contains(pane) {
                let i = r.index_of(pane);
                assert((l + r)[l.len() + i] == pane);
            }
        },
    }
}

/// Splitting adds the fresh pane and keeps every other one.
pub proof fn lemma_split_has(
    node: Node,
    target: PaneId,
    dir: SplitDir,
    fresh: PaneId,
    pane: PaneId,
)
    requires
        node.has(target),
    ensures
        node.with_split(target, dir, fresh).has(pane) == (node.has(pane) || pane == fresh),
    decreases node,
{
    match node {
        Node::Leaf(id) => {
            reveal_with_fuel(Node::has, 2);
        },
        Node::Split { a, b, .. } => {
            if a.has(target) {
                lemma_split_has(*a, target, dir, fresh, pane);
            } else {
                lemma_split_has(*b, target, dir, fresh, pane);
            }
        },
    }
}

/// Removal takes exactly one pane out of the tree; nothing is left exactly
/// when it was the only one.
pub proof fn lemma_without_has(node: Node, target: PaneId, pane: PaneId)
    ensures
        match node.without(target) {
            Some(rest) => rest.has(pane) == (node.has(pane) && pane != target),
            None => node.has(pane) ==> pane == target,
        },
        !node.has(target) ==> node.without(target) == Some(node),
    decreases node,
{
    match node {
        Node::Leaf(id) => {},
        Node::Split { a, b, .. } => {
            lemma_without_has(*a, target, pane);
            lemma_without_has(*b, target, pane);
        },
    }
}

/// The leaves that removal leaves behind, in their order.
pub proof fn lemma_without_leaves(node: Node, target: PaneId)
    ensures
        match node.without(target) {
            Some(rest) => rest.leaves() == node.leaves().filter(|p: PaneId| p != target),
            None => node.leaves().filter(|p: PaneId| p != target).len() == 0,
        },
    decreases node,
{
    let keep = |p: PaneId| p != target;
    match node {
        Node::Leaf(id) => {
            reveal_with_fuel(Seq::filter, 2);
            let one = seq![id];
            assert(one.drop_last() =~= Seq::<PaneId>::empty());
            assert(one.filter(keep) =~= if keep(id) {
                one
            } else {
                Seq::empty()
            });
        },
        Node::Split { a, b, .. } => {
            lemma_without_leaves(*a, target);
            lemma_without_leaves(*b, target);
            Seq::filter_distributes_over_add(a.leaves(), b.leaves(), keep);
            let l = a.leaves().filter(keep);
            let r = b.leaves().filter(keep);
            if a.without(target) is None {
                assert(l + r =~= r);
            }
            if b.without(target) is None {
                assert(l + r =~= l);
            }
        },
    }
}

/// Setting a ratio keeps the panes and their order.
pub proof fn law_ratio_keeps_leaves(node: Node, pane: PaneId, dir: SplitDir, ratio: Ratio)
    ensures
        node.with_ratio(pane, dir, ratio).leaves() == node.leaves(),
        !node.has_split(pane, dir) ==> node.with_ratio(pane, dir, ratio) == node,
    decreases node,
{
    match node {
        Node::Leaf(_) => {},
        Node::Split { a, b, .. } => {
            law_ratio_keeps_leaves(*a, pane, dir, ratio);
            law_ratio_keeps_leaves(*b, pane, dir, ratio);
        },
    }
}

/// Closing a pane that a split has just made gives the tree back.
pub proof fn law_split_then_remove(node: Node, target: PaneId, dir: SplitDir, fresh: PaneId)
    requires
        node.has(target),
        !node.has(fresh),
    ensures
        node.with_split(target, dir, fresh).without(fresh) == Some(node),
    decreases node,
{
    match node {
        Node::Leaf(id) => {
            reveal_with_fuel(Node::without, 2);
        },
        Node::Split { a, b, .. } => {
            if a.has(target) {
                law_split_then_remove(*a, target, dir, fresh);
                lemma_without_has(*b, fresh, fresh);
            } else {
                law_split_then_remove(*b, target, dir, fresh);
                lemma_without_has(*a, fresh, fresh);
            }
        },
    }
}

/// A split puts the fresh pane right after its target and moves nothing else.
pub proof fn law_split_order(node: Node, target: PaneId, dir: SplitDir, fresh: PaneId)
    requires
        node.has(target),
        node.leaves().no_duplicates(),
    ensures
        node.with_split(target, dir, fresh).leaves() == node.leaves().insert(
            node.leaves().index_of(target) + 1,
            fresh,
        ),
    decreases node,
{
    lemma_has_leaves(node, target);
    let at = node.leaves().index_of(target);
    match node {
        Node::Leaf(id) => {
            reveal_with_fuel(Node::leaves, 2);
            assert(node.leaves()[0] == target);
            assert(node.with_split(target, dir, fresh).leaves() =~= node.leaves().insert(
                at + 1,
                fresh,
            ));
        },
        Node::Split { a, b, .. } => {
            let l = a.leaves();
            let r = b.leaves();
            lemma_has_leaves(*a, target);
            lemma_has_leaves(*b, target);
            assert(l.no_duplicates()) by {
                assert forall|i: int, j: int|
                    0 <= i < l.len() && 0 <= j < l.len() && i != j implies l[i] != l[j] by {
                    assert((l + r)[i] == l[i] && (l + r)[j] == l[j]);
                }
            }
            assert(r.no_duplicates()) by {
                assert forall|i: int, j: int|
                    0 <= i < r.len() && 0 <= j < r.len() && i != j implies r[i] != r[j] by {
                    assert((l + r)[l.len() + i] == r[i] && (l + r)[l.len() + j] == r[j]);
                }
            }
            if a.has(target) {
                law_split_order(*a, target, dir, fresh);
                let k = l.index_of(target);
                assert((l + r)[k] == target);
                assert(at == k);
                assert(l.insert(k + 1, fresh) + r =~= (l + r).insert(at + 1, fresh));
            } else {
                law_split_order(*b, target, dir, fresh);
                let k = r.index_of(target);
                assert((l + r)[l.len() + k] == target);
                assert(at == l.len() + k);
                assert(l + r.insert(k + 1, fresh) =~= (l + r).insert(at + 1, fresh));
            }
        },
    }
}

/// The part of the tree that a path leads to; each step takes the second
/// child, or else the first.
pub open spec fn part(node: Node, path: Seq<bool>) -> Option<Node>
    decreases path.len(),
{
    if path.len() == 0 {
        Some(node)
    } else {
        match node {
            Node::Leaf(_) => None,
            Node::Split { a, b, .. } => if path[0] {
                part(*b, path.drop_first())
            } else {
                part(*a, path.drop_first())
            },
        }
    }
}

/// `path` leads to `above` or to something below it.
pub open spec fn through(path: Seq<bool>, above: Seq<bool>) -> bool {
    above.len() <= path.len() && path.subrange(0, above.len() as int) == above
}

/// The same pane, or splits with the same direction and ratio; or nothing
/// twice.
pub open spec fn alike(x: Option<Node>, y: Option<Node>) -> bool {
    match (x, y) {
        (None, None) => true,
        (Some(Node::Leaf(p)), Some(Node::Leaf(q))) => p == q,
        (
            Some(Node::Split { dir: d, ratio: r, .. }),
            Some(Node::Split { dir: e, ratio: t, .. }),
        ) => d == e && r == t,
        _ => false,
    }
}

/// In `after`, the place of the leaf `target` in `before` is taken by a split
/// in `dir` at one half, with `target` first and `fresh` second. Nothing else
/// is different.
pub open spec fn split_beside(
    before: Node,
    after: Node,
    target: PaneId,
    dir: SplitDir,
    fresh: PaneId,
) -> bool {
    exists|at: Seq<bool>|
        {
            &&& #[trigger] part(before, at) == Some(Node::Leaf(target))
            &&& part(after, at) == Some(
                Node::Split {
                    dir,
                    ratio: Ratio { bits: 0x3f00_0000 },
                    a: Box::new(Node::Leaf(target)),
                    b: Box::new(Node::Leaf(fresh)),
                },
            )
            &&& forall|path: Seq<bool>|
                !through(path, at) ==> alike(#[trigger] part(after, path), part(before, path))
        }
}

/// `at` leads to a split in `dir` around `pane`.
pub open spec fn split_around(node: Node, at: Seq<bool>, pane: PaneId, dir: SplitDir) -> bool {
    match part(node, at) {
        Some(Node::Split { dir: d, a, b, .. }) => d == dir && (a.leaves().contains(pane)
            || b.leaves().contains(pane)),
        _ => false,
    }
}

/// `after` differs from `before` in the ratio of one split, which is `ratio`
/// now: of those in `dir` around `pane`, it is the one with no other inside.
pub open spec fn innermost_resized(
    before: Node,
    after: Node,
    pane: PaneId,
    dir: SplitDir,
    ratio: Ratio,
) -> bool {
    exists|at: Seq<bool>|
        {
            &&& #[trigger] split_around(before, at, pane, dir)
            &&& forall|path: Seq<bool>|
                #![trigger split_around(before, path, pane, dir)]
                through(path, at) && path != at ==> !split_around(before, path, pane, dir)
            &&& part(after, at) matches Some(Node::Split { dir: d, ratio: r, .. }) && d == dir && r
                == ratio
            &&& forall|path: Seq<bool>|
                path != at ==> alike(#[trigger] part(after, path), part(before, path))
        }
}

/// In `after`, the split that held the leaf `target` is replaced by its other
/// child. Nothing else is different.
pub open spec fn taken_out(before: Node, after: Node, target: PaneId) -> bool {
    exists|at: Seq<bool>, second: bool|
        {
            &&& #[trigger] part(before, at.push(second)) == Some(Node::Leaf(target))
            &&& part(after, at) == part(before, at.push(!second))
            &&& forall|path: Seq<bool>|
                !through(path, at) ==> alike(#[trigger] part(after, path), part(before, path))
        }
}

proof fn lemma_step(node: Node, second: bool, path: Seq<bool>)
    ensures
        part(node, seq![second] + path) == match node {
            Node::Leaf(_) => None,
            Node::Split { a, b, .. } => if second {
                part(*b, path)
            } else {
                part(*a, path)
            },
        },
{
    assert((seq![second] + path).drop_first() =~= path);
    assert((seq![second] + path)[0] == second);
}

/// Paths below a child, seen from above.
proof fn lemma_through(second: bool, path: Seq<bool>, above: Seq<bool>)
    ensures
        through(seq![second] + path, seq![second] + above) == through(path, above),
        through(seq![!second] + path, seq![second] + above) == false,
{
    let long = seq![second] + path;
    let short = seq![second] + above;
    if above.len() <= path.len() {
        if path.subrange(0, above.len() as int) == above {
            assert(long.subrange(0, short.len() as int) =~= short);
        }
        if long.subrange(0, short.len() as int) == short {
            assert forall|i: int| 0 <= i < above.len() implies path[i] == above[i] by {
                assert(long.subrange(0, short.len() as int)[i + 1] == short[i + 1]);
                assert(long[i + 1] == path[i]);
                assert(short[i + 1] == above[i]);
            }
            assert(path.subrange(0, above.len() as int) =~= above);
        }
        let other = seq![!second] + path;
        assert(other.subrange(0, short.len() as int)[0] == !second);
        assert(short[0] == second);
    }
}

proof fn lemma_first_step(path: Seq<bool>)
    requires
        path.len() > 0,
    ensures
        path == seq![path[0]] + path.drop_first(),
{
    assert(path =~= seq![path[0]] + path.drop_first());
}

/// A split puts the fresh pane second in a new split in the given direction,
/// at one half, in the place of its target, and changes nothing else.
pub proof fn law_split_beside(node: Node, target: PaneId, dir: SplitDir, fresh: PaneId)
    requires
        node.has(target),
    ensures
        split_beside(node, node.with_split(target, dir, fresh), target, dir, fresh),
    decreases node,
{
    let after = node.with_split(target, dir, fresh);
    let half = Node::Split {
        dir,
        ratio: Ratio { bits: 0x3f00_0000 },
        a: Box::new(Node::Leaf(target)),
        b: Box::new(Node::Leaf(fresh)),
    };
    match node {
        Node::Leaf(id) => {
            let at = Seq::<bool>::empty();
            assert(part(node, at) == Some(Node::Leaf(target)));
            assert(part(after, at) == Some(half));
            assert forall|path: Seq<bool>| !through(path, at) implies alike(
                #[trigger] part(after, path),
                part(node, path),
            ) by {
                assert(path.subrange(0, 0) =~= at);
            }
        },
        Node::Split { a, b, .. } => {
            let second = !a.has(target);
            let (old, new) = if second {
                (*b, b.with_split(target, dir, fresh))
            } else {
                (*a, a.with_split(target, dir, fresh))
            };
            law_split_beside(old, target, dir, fresh);
            let sub = choose|at: Seq<bool>|
                {
                    &&& #[trigger] part(old, at) == Some(Node::Leaf(target))
                    &&& part(new, at) == Some(half)
                    &&& forall|path: Seq<bool>|
                        !through(path, at) ==> alike(#[trigger] part(new, path), part(old, path))
                };
            let at = seq![second] + sub;
            lemma_step(node, second, sub);
            lemma_step(after, second, sub);
            assert(part(node, at) == Some(Node::Leaf(target)));
            assert forall|path: Seq<bool>| !through(path, at) implies alike(
                #[trigger] part(after, path),
                part(node, path),
            ) by {
                if path.len() > 0 {
                    lemma_first_step(path);
                    lemma_through(second, path.drop_first(), sub);
                    if path[0] == second {
                        assert(alike(
                            part(new, path.drop_first()),
                            part(old, path.drop_first()),
                        ));
                    } else {
                        lemma_alike(part(node, path));
                    }
                }
            }
        },
    }
}

proof fn lemma_alike(x: Option<Node>)
    ensures
        alike(x, x),
{
}

/// A part holds no panes but those of the tree.
proof fn lemma_part_leaves(node: Node, path: Seq<bool>, pane: PaneId)
    ensures
        part(node, path) matches Some(x) && x.has(pane) ==> node.has(pane),
    decreases path.len(),
{
    if path.len() > 0 {
        match node {
            Node::Leaf(_) => {},
            Node::Split { a, b, .. } => if path[0] {
                lemma_part_leaves(*b, path.drop_first(), pane);
            } else {
                lemma_part_leaves(*a, path.drop_first(), pane);
            },
        }
    }
}

/// A split around a pane is on the side of the pane.
proof fn lemma_around(node: Node, path: Seq<bool>, pane: PaneId, dir: SplitDir)
    ensures
        split_around(node, path, pane, dir) ==> node.has(pane),
{
    if split_around(node, path, pane, dir) {
        let x = part(node, path)->0;
        match x {
            Node::Leaf(_) => {},
            Node::Split { a, b, .. } => {
                lemma_has_leaves(*a, pane);
                lemma_has_leaves(*b, pane);
                assert(x.has(pane));
                lemma_part_leaves(node, path, pane);
            },
        }
    }
}

proof fn lemma_child_distinct(node: Node)
    requires
        node.leaves().no_duplicates(),
    ensures
        node matches Node::Split { a, b, .. } ==> {
            &&& a.leaves().no_duplicates()
            &&& b.leaves().no_duplicates()
            &&& forall|pane: PaneId| !(#[trigger] a.has(pane) && b.has(pane))
        },
{
    if let Node::Split { a, b, .. } = node {
        let l = a.leaves();
        let r = b.leaves();
        assert forall|i: int, j: int|
            0 <= i < l.len() && 0 <= j < l.len() && i != j implies l[i] != l[j] by {
            assert((l + r)[i] == l[i] && (l + r)[j] == l[j]);
        }
        assert forall|i: int, j: int|
            0 <= i < r.len() && 0 <= j < r.len() && i != j implies r[i] != r[j] by {
            assert((l + r)[l.len() + i] == r[i] && (l + r)[l.len() + j] == r[j]);
        }
        assert forall|pane: PaneId| !(#[trigger] a.has(pane) && b.has(pane)) by {
            lemma_has_leaves(*a, pane);
            lemma_has_leaves(*b, pane);
            if a.has(pane) && b.has(pane) {
                let i = l.index_of(pane);
                let j = r.index_of(pane);
                assert((l + r)[i] == pane && (l + r)[l.len() + j] == pane);
            }
        }
    }
}

/// Setting a ratio sets that of the innermost split in the given direction
/// around the pane, on whichever side the pane lies, and changes nothing
/// else. Without such a split nothing changes at all.
pub proof fn law_innermost_resized(node: Node, pane: PaneId, dir: SplitDir, ratio: Ratio)
    requires
        node.leaves().no_duplicates(),
    ensures
        node.has_split(pane, dir) == (exists|at: Seq<bool>| split_around(node, at, pane, dir)),
        (exists|at: Seq<bool>| split_around(node, at, pane, dir)) ==> innermost_resized(
            node,
            node.with_ratio(pane, dir, ratio),
            pane,
            dir,
            ratio,
        ),
        !(exists|at: Seq<bool>| split_around(node, at, pane, dir)) ==> node.with_ratio(
            pane,
            dir,
            ratio,
        ) == node,
    decreases node,
{
    let after = node.with_ratio(pane, dir, ratio);
    match node {
        Node::Leaf(_) => {
            assert forall|at: Seq<bool>| !split_around(node, at, pane, dir) by {}
        },
        Node::Split { dir: d, a, b, .. } => {
            lemma_child_distinct(node);
            lemma_has_leaves(*a, pane);
            lemma_has_leaves(*b, pane);
            let second = !a.has(pane);
            let side = if second {
                *b
            } else {
                *a
            };
            law_innermost_resized(side, pane, dir, ratio);
            let root = Seq::<bool>::empty();
            assert forall|path: Seq<bool>| path.len() > 0 implies #[trigger] split_around(
                node,
                path,
                pane,
                dir,
            ) == (path[0] == second && split_around(side, path.drop_first(), pane, dir)) by {
                lemma_around(*a, path.drop_first(), pane, dir);
                lemma_around(*b, path.drop_first(), pane, dir);
            }
            assert(split_around(node, root, pane, dir) == (d == dir && (a.has(pane) || b.has(
                pane,
            ))));
            assert forall|path: Seq<bool>| path != root implies path.len() > 0 by {
                if path.len() == 0 {
                    assert(path =~= root);
                }
            }
            if exists|sub: Seq<bool>| split_around(side, sub, pane, dir) {
                let some = choose|sub: Seq<bool>| split_around(side, sub, pane, dir);
                assert((seq![second] + some).drop_first() =~= some);
                assert(split_around(node, seq![second] + some, pane, dir));
                let new = side.with_ratio(pane, dir, ratio);
                let sub = choose|at: Seq<bool>|
                    {
                        &&& #[trigger] split_around(side, at, pane, dir)
                        &&& forall|path: Seq<bool>|
                            #![trigger split_around(side, path, pane, dir)]
                            through(path, at) && path != at ==> !split_around(side, path, pane, dir)
                        &&& part(new, at) matches Some(Node::Split { dir: d, ratio: r, .. }) && d
                            == dir && r == ratio
                        &&& forall|path: Seq<bool>|
                            path != at ==> alike(#[trigger] part(new, path), part(side, path))
                    };
                let at = seq![second] + sub;
                assert(at.drop_first() =~= sub);
                assert(at[0] == second);
                lemma_around(side, sub, pane, dir);
                lemma_step(after, second, sub);
                assert(split_around(node, at, pane, dir));
                assert forall|path: Seq<bool>|
                    #![trigger split_around(node, path, pane, dir)]
                    through(path, at) && path != at implies !split_around(node, path, pane, dir) by {
                    lemma_first_step(path);
                    lemma_through(second, path.drop_first(), sub);
                    if path[0] == second {
                        assert(path.drop_first() != sub);
                        assert(!split_around(side, path.drop_first(), pane, dir));
                    }
                }
                assert forall|path: Seq<bool>| path != at implies alike(
                    #[trigger] part(after, path),
                    part(node, path),
                ) by {
                    if path.len() > 0 {
                        lemma_first_step(path);
                        if path[0] == second {
                            assert(path.drop_first() != sub);
                            assert(alike(
                                part(new, path.drop_first()),
                                part(side, path.drop_first()),
                            ));
                        } else {
                            lemma_alike(part(node, path));
                        }
                    }
                }
            } else {
                assert forall|path: Seq<bool>| path.len() > 0 implies !(#[trigger] split_around(
                    node,
                    path,
                    pane,
                    dir,
                )) by {}
                if split_around(node, root, pane, dir) {
                    assert forall|path: Seq<bool>| path != root implies alike(
                        #[trigger] part(after, path),
                        part(node, path),
                    ) by {
                        lemma_alike(part(node, path));
                    }
                } else {
                    assert forall|path: Seq<bool>| !(#[trigger] split_around(
                        node,
                        path,
                        pane,
                        dir,
                    )) by {
                        if path.len() == 0 {
                            assert(path =~= root);
                        }
                    }
                }
            }
        },
    }
}

/// Taking a pane out of a tree replaces the split that held it by its other
/// child, and changes nothing else; nothing is left of a tree that was that
/// pane alone.
pub proof fn law_taken_out(node: Node, target: PaneId)
    requires
        node.leaves().no_duplicates(),
        node.has(target),
    ensures
        match node.without(target) {
            None => node == Node::Leaf(target),
            Some(rest) => node != Node::Leaf(target) && taken_out(node, rest, target),
        },
    decreases node,
{
    match node {
        Node::Leaf(_) => {},
        Node::Split { a, b, .. } => {
            lemma_child_distinct(node);
            assert(!(a.has(target) && b.has(target)));
            let second = b.has(target);
            let (side, other) = if second {
                (*b, *a)
            } else {
                (*a, *b)
            };
            lemma_without_has(other, target, target);
            law_taken_out(side, target);
            let after = node.without(target)->0;
            match side.without(target) {
                None => {
                    let at = Seq::<bool>::empty();
                    lemma_step(node, second, at);
                    lemma_step(node, !second, at);
                    assert(at.push(second) =~= seq![second] + at);
                    assert(at.push(!second) =~= seq![!second] + at);
                    assert(part(node, at.push(second)) == Some(Node::Leaf(target)));
                    assert(part(after, at) == part(node, at.push(!second)));
                    assert forall|path: Seq<bool>| !through(path, at) implies alike(
                        #[trigger] part(after, path),
                        part(node, path),
                    ) by {
                        assert(path.subrange(0, 0) =~= at);
                    }
                },
                Some(rest) => {
                    let (sub, last) = choose|at: Seq<bool>, last: bool|
                        {
                            &&& #[trigger] part(side, at.push(last)) == Some(Node::Leaf(target))
                            &&& part(rest, at) == part(side, at.push(!last))
                            &&& forall|path: Seq<bool>|
                                !through(path, at) ==> alike(
                                    #[trigger] part(rest, path),
                                    part(side, path),
                                )
                        };
                    let at = seq![second] + sub;
                    lemma_step(node, second, sub.push(last));
                    lemma_step(node, second, sub.push(!last));
                    lemma_step(after, second, sub);
                    assert(at.push(last) =~= seq![second] + sub.push(last));
                    assert(at.push(!last) =~= seq![second] + sub.push(!last));
                    assert(part(node, at.push(last)) == Some(Node::Leaf(target)));
                    assert(part(after, at) == part(node, at.push(!last)));
                    assert forall|path: Seq<bool>| !through(path, at) implies alike(
                        #[trigger] part(after, path),
                        part(node, path),
                    ) by {
                        if path.len() > 0 {
                            lemma_first_step(path);
                            lemma_through(second, path.drop_first(), sub);
                            if path[0] == second {
                                assert(alike(
                                    part(rest, path.drop_first()),
                                    part(side, path.drop_first()),
                                ));
                            } else {
                                lemma_alike(part(node, path));
                            }
                        }
                    }
                },
            }
        },
    }
}

} // verus!
