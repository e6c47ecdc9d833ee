//! The first item of a sequence that meets a condition.

use vstd::prelude::*;

verus! {

/// The place of the first item that meets `p`.
pub open spec fn first_where<T>(items: Seq<T>, p: spec_fn(T) -> bool) -> Option<int>
    decreases items.len(),
{
    if items.len() == 0 {
        None
    } else {
        match first_where(items.drop_last(), p) {
            Some(i) => Some(i),
            None => if p(items.last()) {
                Some(items.len() - 1)
            } else {
                None
            },
        }
    }
}

pub proof fn lemma_first_where<T>(items: Seq<T>, p: spec_fn(T) -> bool)
    ensures
        match first_where(items, p) {
            Some(i) => 0 <= i < items.len() && p(items[i]) && forall|j: int|
                0 <= j < i ==> !p(#[trigger] items[j]),
            None => forall|j: int| 0 <= j < items.len() ==> !p(#[trigger] items[j]),
        },
    decreases items.len(),
{
    if items.len() > 0 {
        let before = items.drop_last();
        lemma_first_where(before, p);
        assert forall|j: int| 0 <= j < before.len() implies #[trigger] items[j] == before[j] by {}
    }
}

/// An item that meets `p` while none before it does is the first.
pub proof fn lemma_first_at<T>(items: Seq<T>, p: spec_fn(T) -> bool, i: int)
    requires
        0 <= i < items.len(),
        p(items[i]),
        forall|j: int| 0 <= j < i ==> !p(#[trigger] items[j]),
    ensures
        first_where(items, p) == Some(i),
{
    lemma_first_where(items, p);
}

/// Where no item meets `p`, there is no first.
pub proof fn lemma_first_none<T>(items: Seq<T>, p: spec_fn(T) -> bool)
    requires
        forall|j: int| 0 <= j < items.len() ==> !p(#[trigger] items[j]),
    ensures
        first_where(items, p) is None,
{
    lemma_first_where(items, p);
}

} // verus!
