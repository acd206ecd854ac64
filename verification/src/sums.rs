//! Sums of prices, and what rearranging the prices does to them.

use vstd::prelude::*;
use vstd::seq_lib::{to_multiset_build, to_multiset_contains, to_multiset_len, to_multiset_remove};

verus! {

/// The sum of the numbers in `prices`.
pub open spec fn sum(prices: Seq<int>) -> int
    decreases prices.len(),
{
    if prices.len() == 0 {
        0
    } else {
        sum(prices.drop_last()) + prices.last()
    }
}

/// Whether no number in `prices` is negative.
pub open spec fn none_negative(prices: Seq<int>) -> bool {
    forall|i: int| 0 <= i < prices.len() ==> prices[i] >= 0
}

/// One more number at the end adds itself to the sum.
pub proof fn lemma_sum_with(prices: Seq<int>, price: int)
    ensures
        sum(prices.push(price)) == sum(prices) + price,
{
    assert(prices.push(price).drop_last() == prices);
}

/// Taking one number out of `prices` takes it off the sum.
pub proof fn lemma_sum_without(prices: Seq<int>, at: int)
    requires
        0 <= at < prices.len(),
    ensures
        sum(prices.remove(at)) + prices[at] == sum(prices),
    decreases prices.len(),
{
    if at == prices.len() - 1 {
        assert(prices.remove(at) == prices.drop_last());
    } else {
        lemma_sum_without(prices.drop_last(), at);
        assert(prices.remove(at).drop_last() == prices.drop_last().remove(at));
    }
}

/// Two sequences that hold the same numbers, each as often as the other,
/// have the same sum.
pub proof fn lemma_sum_of_rearranged(prices: Seq<int>, rearranged: Seq<int>)
    requires
        prices.to_multiset() == rearranged.to_multiset(),
    ensures
        sum(prices) == sum(rearranged),
    decreases prices.len(),
{
    to_multiset_len(prices);
    to_multiset_len(rearranged);
    if prices.len() > 0 {
        let last = prices.last();
        let rest = prices.drop_last();
        assert(prices == rest.push(last));
        to_multiset_build(rest, last);
        to_multiset_contains(rearranged, last);
        assert(prices.to_multiset().count(last) > 0);
        let at = choose|at: int| 0 <= at < rearranged.len() && rearranged[at] == last;
        to_multiset_remove(rearranged, at);
        assert(rest.to_multiset() == rearranged.remove(at).to_multiset());
        lemma_sum_of_rearranged(rest, rearranged.remove(at));
        lemma_sum_without(rearranged, at);
    }
}

/// Where no number is negative, the first `count` of them sum to something
/// between zero and the sum of all.
pub proof fn lemma_sum_of_first(prices: Seq<int>, count: int)
    requires
        none_negative(prices),
        0 <= count <= prices.len(),
    ensures
        0 <= sum(prices.take(count)) <= sum(prices),
    decreases prices.len() - count,
{
    if count == prices.len() {
        assert(prices.take(count) == prices);
        lemma_sum_is_not_negative(prices);
    } else {
        lemma_sum_of_first(prices, count + 1);
        assert(prices.take(count + 1).drop_last() == prices.take(count));
        assert(prices.take(count + 1).last() == prices[count]);
        lemma_sum_is_not_negative(prices.take(count));
    }
}

/// Where no number is negative, the sum is not negative.
pub proof fn lemma_sum_is_not_negative(prices: Seq<int>)
    requires
        none_negative(prices),
    ensures
        0 <= sum(prices),
    decreases prices.len(),
{
    if prices.len() > 0 {
        lemma_sum_is_not_negative(prices.drop_last());
    }
}

} // verus!
