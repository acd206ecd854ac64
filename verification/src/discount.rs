//! The volume discount: for every so many parcels of a class, one is free.

use crate::parcel::{lemma_cost_bounds, Parcel, ParcelType};
use crate::sums::{
    lemma_sum_is_not_negative, lemma_sum_of_first, lemma_sum_of_rearranged, lemma_sum_with,
    none_negative, sum,
};
use vstd::prelude::*;
use vstd::relations::{sorted_by, total_ordering};
use vstd::seq_lib::{
    lemma_sorted_unique, to_multiset_build, to_multiset_contains, to_multiset_len,
    to_multiset_remove,
};

verus! {

/// The function that takes a parcel to its price.
pub open spec fn price_of() -> spec_fn(Parcel) -> int {
    |parcel: Parcel| parcel.spec_cost()
}

/// The function that tells whether a parcel is of the class `class`.
pub open spec fn is_of(class: ParcelType) -> spec_fn(Parcel) -> bool {
    |parcel: Parcel| parcel.parcel_type == class
}

/// The prices of `parcels`, in their order.
pub open spec fn costs(parcels: Seq<Parcel>) -> Seq<int> {
    parcels.map_values(price_of())
}

/// The prices of those of `parcels` that are of the class `class`.
pub open spec fn group_costs(parcels: Seq<Parcel>, class: ParcelType) -> Seq<int> {
    costs(parcels.filter(is_of(class)))
}

/// The order in which prices are taken for the discount: dearest first.
pub open spec fn dearest_first() -> spec_fn(int, int) -> bool {
    |dearer: int, cheaper: int| dearer >= cheaper
}

/// What the rule "every `nth` parcel of the class `class` is free" takes off
/// the price of `parcels`, as a number that is never positive: the parcels of
/// the class are put in order, dearest first, and for every full `nth` of
/// them one is free, starting with the dearest.
pub open spec fn group_discount(parcels: Seq<Parcel>, class: ParcelType, nth: int) -> int {
    let prices = group_costs(parcels, class);
    -sum(prices.sort_by(dearest_first()).take(prices.len() as int / nth))
}

/// The volume rule of the class `class`: `Some(n)` where every `n`-th parcel
/// of the class is free, `None` where the class has no such rule. Every
/// fourth small parcel and every third medium parcel is free.
pub open spec fn spec_nth_parcel_free(class: ParcelType) -> Option<usize> {
    match class {
        ParcelType::Small => Some(4usize),
        ParcelType::Medium => Some(3usize),
        _ => None,
    }
}

/// What the volume rule of the class `class`, if it has one, takes off the
/// price of `parcels`, as a number that is never positive.
pub open spec fn class_discount(parcels: Seq<Parcel>, class: ParcelType) -> int {
    match spec_nth_parcel_free(class) {
        Some(nth) => group_discount(parcels, class, nth as int),
        None => 0,
    }
}

/// What the volume rules of all classes take off the price of `parcels`
/// together, as a number that is never positive.
pub open spec fn volume_discount(parcels: Seq<Parcel>) -> int {
    class_discount(parcels, ParcelType::Small) + class_discount(parcels, ParcelType::Medium)
        + class_discount(parcels, ParcelType::Large) + class_discount(parcels, ParcelType::XL)
        + class_discount(parcels, ParcelType::Heavy)
}

/// The volume rule of the class `class`: `Some(n)` where every `n`-th parcel
/// of the class is free, `None` where the class has no such rule.
pub fn nth_parcel_free(class: ParcelType) -> (rule: Option<usize>)
    ensures
        rule == spec_nth_parcel_free(class),
        rule matches Some(nth) ==> nth > 0,
{
    match class {
        ParcelType::Small => Some(4),
        ParcelType::Medium => Some(3),
        _ => None,
    }
}

/// The numbers in `prices` as mathematical integers.
pub open spec fn as_ints(prices: Seq<i32>) -> Seq<int> {
    prices.map_values(|price: i32| price as int)
}

/// Puts `price` into `prices`, which is in order, dearest first, behind
/// every price that is at least as high, and says where it went.
pub(crate) fn insert_descending(prices: &mut Vec<i32>, price: i32) -> (at: usize)
    requires
        sorted_by(as_ints(old(prices)@), dearest_first()),
    ensures
        at <= old(prices)@.len(),
        final(prices)@ == old(prices)@.insert(at as int, price),
        sorted_by(as_ints(final(prices)@), dearest_first()),
        forall|i: int| 0 <= i < at ==> old(prices)@[i] >= price,
        forall|i: int| at <= i < old(prices)@.len() ==> old(prices)@[i] < price,
{
    let mut at: usize = 0;
    while at < prices.len() && prices[at] >= price
        invariant
            at <= prices.len(),
            *prices == *old(prices),
            forall|i: int| 0 <= i < at ==> prices@[i] >= price,
        decreases prices.len() - at,
    {
        at = at + 1;
    }
    proof {
        let before = as_ints(prices@);
        assert forall|i: int| at <= i < prices@.len() implies prices@[i] < price by {
            if at < i {
                assert(dearest_first()(before[at as int], before[i]));
            }
        }
        let after = as_ints(prices@.insert(at as int, price));
        assert forall|i: int, j: int| 0 <= i < j < after.len() implies #[trigger] dearest_first()(
            after[i],
            after[j],
        ) by {
            let from_i = if i < at { i } else { i - 1 };
            let from_j = if j < at { j } else { j - 1 };
            if i != at && j != at {
                assert(dearest_first()(before[from_i], before[from_j]));
            }
        }
    }
    prices.insert(at, price);
    at
}

/// Of two prices, one is at least the other, and this puts prices in a line.
pub proof fn lemma_dearest_first_is_total()
    ensures
        total_ordering(dearest_first()),
{
}

/// No parcels have no prices in any class.
pub proof fn lemma_group_of_none(class: ParcelType)
    ensures
        group_costs(Seq::<Parcel>::empty(), class) == Seq::<int>::empty(),
{
    reveal(Seq::filter);
}

/// One more parcel adds its price to the prices of its class, at the end,
/// and leaves the prices of the other classes as they are.
pub proof fn lemma_group_grows(parcels: Seq<Parcel>, parcel: Parcel, class: ParcelType)
    ensures
        group_costs(parcels.push(parcel), class) == if parcel.parcel_type == class {
            group_costs(parcels, class).push(parcel.spec_cost())
        } else {
            group_costs(parcels, class)
        },
{
    parcels.lemma_filter_push(parcel, is_of(class));
    parcels.filter(is_of(class)).lemma_push_map_commute(price_of(), parcel);
}

/// No price among those of `parcels` is negative.
pub proof fn lemma_no_cost_is_negative(parcels: Seq<Parcel>)
    ensures
        none_negative(costs(parcels)),
{
    assert forall|i: int| 0 <= i < costs(parcels).len() implies costs(parcels)[i] >= 0 by {
        lemma_cost_bounds(parcels[i]);
    }
}

/// The rule "every `nth` parcel of the class is free" never adds to the
/// price, and never takes off more than the parcels of the class cost.
pub proof fn lemma_group_discount_bounds(parcels: Seq<Parcel>, class: ParcelType, nth: int)
    requires
        nth > 0,
    ensures
        -sum(group_costs(parcels, class)) <= group_discount(parcels, class, nth) <= 0,
{
    let prices = group_costs(parcels, class);
    let sorted = prices.sort_by(dearest_first());
    let free = prices.len() as int / nth;
    lemma_dearest_first_is_total();
    prices.lemma_sort_by_ensures(dearest_first());
    to_multiset_len(prices);
    to_multiset_len(sorted);
    lemma_no_cost_is_negative(parcels.filter(is_of(class)));
    assert forall|i: int| 0 <= i < sorted.len() implies sorted[i] >= 0 by {
        to_multiset_contains(sorted, sorted[i]);
        to_multiset_contains(prices, sorted[i]);
        assert(sorted.contains(sorted[i]));
        assert(prices.contains(sorted[i]));
    }
    assert(0 <= free <= prices.len()) by (nonlinear_arith)
        requires
            free == prices.len() as int / nth,
            nth > 0,
    ;
    lemma_sum_of_first(sorted, free);
    lemma_sum_of_rearranged(sorted, prices);
}

/// What the parcels of the five classes cost, class by class, adds up to
/// what all the parcels cost together.
pub proof fn lemma_classes_share_the_total(parcels: Seq<Parcel>)
    ensures
        sum(group_costs(parcels, ParcelType::Small)) + sum(
            group_costs(parcels, ParcelType::Medium),
        ) + sum(group_costs(parcels, ParcelType::Large)) + sum(
            group_costs(parcels, ParcelType::XL),
        ) + sum(group_costs(parcels, ParcelType::Heavy)) == sum(costs(parcels)),
    decreases parcels.len(),
{
    if parcels.len() > 0 {
        let rest = parcels.drop_last();
        let last = parcels.last();
        assert(parcels == rest.push(last));
        lemma_classes_share_the_total(rest);
        assert(costs(parcels).drop_last() == costs(rest));
        lemma_group_sum_grows(rest, last, ParcelType::Small);
        lemma_group_sum_grows(rest, last, ParcelType::Medium);
        lemma_group_sum_grows(rest, last, ParcelType::Large);
        lemma_group_sum_grows(rest, last, ParcelType::XL);
        lemma_group_sum_grows(rest, last, ParcelType::Heavy);
    } else {
        assert(parcels == Seq::<Parcel>::empty());
        lemma_group_of_none(ParcelType::Small);
        lemma_group_of_none(ParcelType::Medium);
        lemma_group_of_none(ParcelType::Large);
        lemma_group_of_none(ParcelType::XL);
        lemma_group_of_none(ParcelType::Heavy);
    }
}

/// One more parcel adds its price to what the parcels of its class cost, and
/// nothing to what the parcels of another class cost.
proof fn lemma_group_sum_grows(parcels: Seq<Parcel>, parcel: Parcel, class: ParcelType)
    ensures
        sum(group_costs(parcels.push(parcel), class)) == sum(group_costs(parcels, class))
            + if parcel.parcel_type == class {
            parcel.spec_cost()
        } else {
            0
        },
{
    lemma_group_grows(parcels, parcel, class);
    lemma_sum_with(group_costs(parcels, class), parcel.spec_cost());
}

/// The volume rules never add to a price, and never take off more than the
/// parcels cost together.
pub proof fn lemma_volume_discount_bounds(parcels: Seq<Parcel>)
    ensures
        -sum(costs(parcels)) <= volume_discount(parcels) <= 0,
{
    lemma_classes_share_the_total(parcels);
    lemma_group_discount_bounds(parcels, ParcelType::Small, 4);
    lemma_group_discount_bounds(parcels, ParcelType::Medium, 3);
    lemma_no_cost_is_negative(parcels.filter(is_of(ParcelType::Large)));
    lemma_no_cost_is_negative(parcels.filter(is_of(ParcelType::XL)));
    lemma_no_cost_is_negative(parcels.filter(is_of(ParcelType::Heavy)));
    lemma_sum_is_not_negative(group_costs(parcels, ParcelType::Large));
    lemma_sum_is_not_negative(group_costs(parcels, ParcelType::XL));
    lemma_sum_is_not_negative(group_costs(parcels, ParcelType::Heavy));
}

/// Two sequences that hold the same parcels, each as often as the other,
/// hold the same prices, each as often as the other.
pub proof fn lemma_costs_of_rearranged(parcels: Seq<Parcel>, rearranged: Seq<Parcel>)
    requires
        parcels.to_multiset() == rearranged.to_multiset(),
    ensures
        costs(parcels).to_multiset() == costs(rearranged).to_multiset(),
    decreases parcels.len(),
{
    to_multiset_len(parcels);
    to_multiset_len(rearranged);
    if parcels.len() == 0 {
        assert(costs(parcels) == costs(rearranged));
    } else {
        let last = parcels.last();
        let rest = parcels.drop_last();
        assert(parcels == rest.push(last));
        to_multiset_build(rest, last);
        to_multiset_contains(rearranged, last);
        assert(parcels.to_multiset().count(last) > 0);
        let at = choose|at: int| 0 <= at < rearranged.len() && rearranged[at] == last;
        to_multiset_remove(rearranged, at);
        assert(rest.to_multiset() == rearranged.remove(at).to_multiset());
        lemma_costs_of_rearranged(rest, rearranged.remove(at));
        assert(costs(parcels) == costs(rest).push(last.spec_cost()));
        to_multiset_build(costs(rest), last.spec_cost());
        assert(costs(rearranged.remove(at)) == costs(rearranged).remove(at));
        to_multiset_remove(costs(rearranged), at);
        to_multiset_contains(costs(rearranged), last.spec_cost());
        assert(costs(rearranged)[at] == last.spec_cost());
        assert(costs(rearranged).to_multiset() == costs(rearranged).remove(at).to_multiset().insert(
            last.spec_cost(),
        ));
    }
}

/// How often a parcel occurs among those of `parcels` that are of the class
/// `class`: as often as in `parcels` if it is of the class, else never.
pub proof fn lemma_count_in_class(parcels: Seq<Parcel>, class: ParcelType, parcel: Parcel)
    ensures
        parcels.filter(is_of(class)).to_multiset().count(parcel) == if parcel.parcel_type
            == class {
            parcels.to_multiset().count(parcel)
        } else {
            0
        },
    decreases parcels.len(),
{
    reveal(Seq::filter);
    if parcels.len() == 0 {
        assert(parcels.to_multiset().len() == 0) by {
            to_multiset_len(parcels);
        }
        assert(parcels.filter(is_of(class)).to_multiset().len() == 0) by {
            to_multiset_len(parcels.filter(is_of(class)));
        }
    } else {
        let last = parcels.last();
        let rest = parcels.drop_last();
        assert(parcels == rest.push(last));
        lemma_count_in_class(rest, class, parcel);
        to_multiset_build(rest, last);
        rest.lemma_filter_push(last, is_of(class));
        to_multiset_build(rest.filter(is_of(class)), last);
    }
}

/// Two sequences that hold the same parcels, each as often as the other, let
/// the rule "every `nth` parcel of the class is free" take off the same.
pub proof fn lemma_group_discount_of_rearranged(
    parcels: Seq<Parcel>,
    rearranged: Seq<Parcel>,
    class: ParcelType,
    nth: int,
)
    requires
        parcels.to_multiset() == rearranged.to_multiset(),
    ensures
        group_discount(parcels, class, nth) == group_discount(rearranged, class, nth),
{
    let group = parcels.filter(is_of(class));
    let regroup = rearranged.filter(is_of(class));
    assert forall|parcel: Parcel|
        group.to_multiset().count(parcel) == regroup.to_multiset().count(parcel) by {
        lemma_count_in_class(parcels, class, parcel);
        lemma_count_in_class(rearranged, class, parcel);
    }
    assert(group.to_multiset() =~= regroup.to_multiset());
    lemma_costs_of_rearranged(group, regroup);
    let prices = costs(group);
    let reprices = costs(regroup);
    lemma_dearest_first_is_total();
    prices.lemma_sort_by_ensures(dearest_first());
    reprices.lemma_sort_by_ensures(dearest_first());
    lemma_sorted_unique(
        prices.sort_by(dearest_first()),
        reprices.sort_by(dearest_first()),
        dearest_first(),
    );
    to_multiset_len(prices);
    to_multiset_len(reprices);
}

} // verus!
