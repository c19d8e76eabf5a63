//! What a filter does to the order and the number of what it is given.

use vstd::prelude::*;

verus! {

/// Filtering a sequence that grew by one element keeps that element behind
/// the others where it passes, and drops it where it does not.
pub(crate) proof fn lemma_filter_push<T>(items: Seq<T>, item: T, keep: spec_fn(T) -> bool)
    ensures
        items.push(item).filter(keep) == if keep(item) {
            items.filter(keep).push(item)
        } else {
            items.filter(keep)
        },
{
    reveal(Seq::filter);
    assert(items.push(item).drop_last() =~= items);
}

/// What a filter keeps of the first `i` elements is the start of what it
/// keeps of them all.
pub(crate) proof fn lemma_filter_prefix<T>(items: Seq<T>, keep: spec_fn(T) -> bool, i: int)
    requires
        0 <= i <= items.len(),
    ensures
        items.take(i).filter(keep).len() <= items.filter(keep).len(),
        items.take(i).filter(keep) == items.filter(keep).take(
            items.take(i).filter(keep).len() as int,
        ),
{
    items.take(i).lemma_filter_monotone(items, keep);
}

/// A filter and its opposite share out a sequence: what one drops the other
/// keeps.
pub(crate) proof fn lemma_filter_shares_out<T>(
    items: Seq<T>,
    keep: spec_fn(T) -> bool,
    drop: spec_fn(T) -> bool,
)
    requires
        forall|item: T| #[trigger] drop(item) == !keep(item),
    ensures
        items.filter(keep).len() + items.filter(drop).len() == items.len(),
    decreases items.len(),
{
    reveal(Seq::filter);
    if items.len() > 0 {
        lemma_filter_shares_out(items.drop_last(), keep, drop);
        assert(drop(items.last()) == !keep(items.last()));
    }
}

/// What a filter keeps, it keeps in order: of two elements that come out, the
/// one that comes out first stood first in the sequence.
pub(crate) proof fn lemma_filter_keeps_order<T>(
    items: Seq<T>,
    keep: spec_fn(T) -> bool,
    i: int,
    j: int,
)
    requires
        0 <= i < j < items.filter(keep).len(),
    ensures
        exists|p: int, q: int|
            0 <= p < q < items.len() && items[p] == items.filter(keep)[i] && items[q]
                == items.filter(keep)[j],
    decreases items.len(),
{
    reveal(Seq::filter);
    let kept = items.filter(keep);
    let front = items.drop_last();
    if keep(items.last()) && j == kept.len() - 1 {
        front.lemma_filter_contains_rev(keep, front.filter(keep)[i]);
        let p = choose|p: int| 0 <= p < front.len() && front[p] == front.filter(keep)[i];
        let q = items.len() - 1;
        assert(0 <= p < q < items.len() && items[p] == kept[i] && items[q] == kept[j]);
    } else {
        lemma_filter_keeps_order(front, keep, i, j);
        let (p, q) = choose|p: int, q: int|
            0 <= p < q < front.len() && front[p] == front.filter(keep)[i] && front[q]
                == front.filter(keep)[j];
        assert(0 <= p < q < items.len() && items[p] == kept[i] && items[q] == kept[j]);
    }
}

} // verus!
