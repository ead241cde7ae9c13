//! Sums over sequences that do not depend on the order of the items.

use vstd::prelude::*;

verus! {

/// The sum of `weight` over the items of `items`.
pub open spec fn weight_sum<T>(items: Seq<T>, weight: spec_fn(T) -> int) -> int
    decreases items.len(),
{
    if items.len() == 0 {
        0
    } else {
        weight_sum(items.drop_last(), weight) + weight(items.last())
    }
}

/// Appending an item adds its weight.
pub proof fn lemma_weight_sum_push<T>(items: Seq<T>, weight: spec_fn(T) -> int, item: T)
    ensures
        weight_sum(items.push(item), weight) == weight_sum(items, weight) + weight(item),
{
    assert(items.push(item).drop_last() =~= items);
}

/// Taking one item out takes its weight out.
pub proof fn lemma_weight_sum_remove<T>(items: Seq<T>, weight: spec_fn(T) -> int, at: int)
    requires
        0 <= at < items.len(),
    ensures
        weight_sum(items, weight) == weight_sum(items.remove(at), weight) + weight(items[at]),
    decreases items.len(),
{
    if at == items.len() - 1 {
        assert(items.remove(at) =~= items.drop_last());
    } else {
        lemma_weight_sum_remove(items.drop_last(), weight, at);
        assert(items.remove(at).drop_last() =~= items.drop_last().remove(at));
        assert(items.remove(at).last() == items.last());
    }
}

/// Two arrangements of the same items have the same sum.
pub proof fn lemma_weight_sum_permutation<T>(
    left: Seq<T>,
    right: Seq<T>,
    weight: spec_fn(T) -> int,
)
    requires
        left.to_multiset() == right.to_multiset(),
    ensures
        weight_sum(left, weight) == weight_sum(right, weight),
    decreases left.len(),
{
    left.to_multiset_ensures();
    right.to_multiset_ensures();
    if left.len() == 0 {
        assert(right.len() == 0);
    } else {
        let item = left.last();
        let last = left.len() - 1;
        assert(left.contains(item));
        assert(left.to_multiset().count(item) > 0);
        assert(right.to_multiset().count(item) > 0);
        assert(right.contains(item));
        let at = right.index_of(item);
        assert(left.remove(last) =~= left.drop_last());
        assert(left.drop_last().to_multiset() == right.remove(at).to_multiset());
        lemma_weight_sum_permutation(left.drop_last(), right.remove(at), weight);
        lemma_weight_sum_remove(right, weight, at);
    }
}

} // verus!
