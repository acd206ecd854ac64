//! Orders: what their parcels cost together, what comes off, and what the
//! speed makes of it.

use crate::discount::{
    as_ints, class_discount, costs, dearest_first, group_costs, group_discount, insert_descending,
    lemma_costs_of_rearranged, lemma_dearest_first_is_total, lemma_group_discount_of_rearranged,
    lemma_group_grows, lemma_group_of_none, lemma_volume_discount_bounds, nth_parcel_free,
    volume_discount,
};
use crate::parcel::{lemma_cost_bounds, Parcel, ParcelType};
use crate::shipping_speed::ShippingSpeed;
use crate::sums::{lemma_sum_of_rearranged, sum};
use vstd::prelude::*;
use vstd::relations::sorted_by;
use vstd::seq_lib::{lemma_sorted_unique, to_multiset_build, to_multiset_insert, to_multiset_len};

verus! {

/// An order: its parcels, in the order in which they were given, and the
/// speed at which they travel.
#[derive(Debug)]
pub struct Order {
    pub parcels: Vec<Parcel>,
    pub shipping_speed: ShippingSpeed,
}

impl Order {
    /// What the parcels of this order cost together.
    pub open spec fn spec_partial_total_cost(self) -> int {
        sum(costs(self.parcels@))
    }

    /// What the volume rules take off the price of this order, as a number
    /// that is never positive.
    pub open spec fn spec_discount(self) -> int {
        volume_discount(self.parcels@)
    }

    /// The price of this order: what its parcels cost together, less the
    /// discount, times the factor of its speed.
    pub open spec fn spec_total_cost(self) -> int {
        (self.spec_partial_total_cost() + self.spec_discount())
            * self.shipping_speed.spec_cost_multiplier()
    }

    /// Makes the order of these parcels at this speed.
    pub fn new(parcels: Vec<Parcel>, shipping_speed: ShippingSpeed) -> (order: Order)
        ensures
            order.parcels == parcels,
            order.shipping_speed == shipping_speed,
    {
        Order { parcels, shipping_speed }
    }

    /// The price of this order: what its parcels cost together, less the
    /// discount, times the factor of its speed. The factor applies to the
    /// discounted price. The result is never negative.
    pub fn total_cost(&self) -> (total: i128)
        ensures
            total == self.spec_total_cost(),
            total >= 0,
    {
        proof {
            lemma_total_fits(self.parcels@);
            lemma_count_fits(self.parcels);
        }
        let before_speed = self.partial_total_cost() + self.discount();
        match self.shipping_speed {
            ShippingSpeed::Normal => before_speed,
            ShippingSpeed::Speedy => 2 * before_speed,
        }
    }

    /// What the parcels of this order cost together, before any discount and
    /// whatever the speed.
    pub fn partial_total_cost(&self) -> (total: i128)
        ensures
            total == self.spec_partial_total_cost(),
            total >= 0,
    {
        let mut total: i128 = 0;
        let mut done: usize = 0;
        while done < self.parcels.len()
            invariant
                done <= self.parcels.len(),
                total == sum(costs(self.parcels@.take(done as int))),
                0 <= total <= done * 0x8000_0000,
            decreases self.parcels.len() - done,
        {
            let cost = self.parcels[done].cost();
            proof {
                let before = self.parcels@.take(done as int);
                let after = self.parcels@.take(done + 1);
                assert(after.drop_last() == before);
                assert(costs(after).drop_last() == costs(before));
            }
            total = total + cost as i128;
            done = done + 1;
        }
        proof {
            assert(self.parcels@.take(done as int) == self.parcels@);
        }
        total
    }

    /// What the volume rules take off the price of this order, as a number
    /// that is never positive: for every four small parcels the dearest
    /// small parcel that is not free yet, for every three medium parcels the
    /// dearest such medium parcel, and nothing for the other classes. The
    /// rules never take off more than the parcels cost together.
    pub fn discount(&self) -> (discount: i128)
        ensures
            discount == self.spec_discount(),
            discount == group_discount(self.parcels@, ParcelType::Small, 4) + group_discount(
                self.parcels@,
                ParcelType::Medium,
                3,
            ),
            -self.spec_partial_total_cost() <= discount <= 0,
    {
        proof {
            lemma_count_fits(self.parcels);
            lemma_volume_discount_bounds(self.parcels@);
        }
        self.discount_for_class(ParcelType::Small) + self.discount_for_class(ParcelType::Medium)
            + self.discount_for_class(ParcelType::Large) + self.discount_for_class(
            ParcelType::XL,
        ) + self.discount_for_class(ParcelType::Heavy)
    }

    /// What the volume rule of the class `class`, if it has one, takes off
    /// the price of this order.
    fn discount_for_class(&self, class: ParcelType) -> (discount: i128)
        ensures
            discount == class_discount(self.parcels@, class),
            -(self.parcels@.len() * 0x8000_0000) <= discount <= 0,
    {
        match nth_parcel_free(class) {
            Some(nth) => self.discount_for_type(class, nth),
            None => 0,
        }
    }

    /// What the rule "every `nth_parcel_free`-th parcel of the class
    /// `parcel_type` is free" takes off the price of this order: the prices
    /// of the parcels of the class are put in order, dearest first, and as
    /// many of the first are taken off as the class has full groups of
    /// `nth_parcel_free` parcels.
    fn discount_for_type(&self, parcel_type: ParcelType, nth_parcel_free: usize) -> (discount:
        i128)
        requires
            nth_parcel_free > 0,
        ensures
            discount == group_discount(self.parcels@, parcel_type, nth_parcel_free as int),
            -(self.parcels@.len() * 0x8000_0000) <= discount <= 0,
    {
        let mut sorted_prices: Vec<i32> = Vec::new();
        let mut seen: usize = 0;
        proof {
            assert(self.parcels@.take(0) == Seq::<Parcel>::empty());
            lemma_group_of_none(parcel_type);
            assert(as_ints(sorted_prices@) == Seq::<int>::empty());
        }
        while seen < self.parcels.len()
            invariant
                seen <= self.parcels.len(),
                sorted_prices@.len() <= seen,
                forall|i: int| 0 <= i < sorted_prices@.len() ==> sorted_prices@[i] >= 0,
                sorted_by(as_ints(sorted_prices@), dearest_first()),
                as_ints(sorted_prices@).to_multiset() == group_costs(
                    self.parcels@.take(seen as int),
                    parcel_type,
                ).to_multiset(),
            decreases self.parcels.len() - seen,
        {
            let parcel = &self.parcels[seen];
            proof {
                let before = self.parcels@.take(seen as int);
                assert(self.parcels@.take(seen + 1) == before.push(*parcel));
                lemma_group_grows(before, *parcel, parcel_type);
                lemma_cost_bounds(*parcel);
            }
            if parcel.parcel_type == parcel_type {
                let price = parcel.cost();
                let ghost before = sorted_prices@;
                let at = insert_descending(&mut sorted_prices, price);
                proof {
                    assert(as_ints(sorted_prices@) == as_ints(before).insert(
                        at as int,
                        price as int,
                    ));
                    to_multiset_insert(as_ints(before), at as int, price as int);
                    to_multiset_build(
                        group_costs(self.parcels@.take(seen as int), parcel_type),
                        price as int,
                    );
                }
            }
            seen = seen + 1;
        }
        let number_discounted = sorted_prices.len() / nth_parcel_free;
        proof {
            assert(self.parcels@.take(seen as int) == self.parcels@);
            let prices = group_costs(self.parcels@, parcel_type);
            lemma_dearest_first_is_total();
            prices.lemma_sort_by_ensures(dearest_first());
            lemma_sorted_unique(
                as_ints(sorted_prices@),
                prices.sort_by(dearest_first()),
                dearest_first(),
            );
            to_multiset_len(as_ints(sorted_prices@));
            to_multiset_len(prices);
        }
        let mut discount: i128 = 0;
        let mut taken: usize = 0;
        while taken < number_discounted
            invariant
                taken <= number_discounted <= sorted_prices@.len(),
                discount == -sum(as_ints(sorted_prices@).take(taken as int)),
                -(taken * 0x8000_0000) <= discount <= 0,
                forall|i: int| 0 <= i < sorted_prices@.len() ==> sorted_prices@[i] >= 0,
            decreases number_discounted - taken,
        {
            proof {
                let ahead = as_ints(sorted_prices@).take(taken + 1);
                assert(ahead.drop_last() == as_ints(sorted_prices@).take(taken as int));
            }
            discount = discount - sorted_prices[taken] as i128;
            taken = taken + 1;
        }
        discount
    }
}

/// The volume rules never add to the price of an order, and never take off
/// more than its parcels cost together: no order has a negative price.
pub proof fn lemma_discount_bounds(order: Order)
    ensures
        -order.spec_partial_total_cost() <= order.spec_discount() <= 0,
        0 <= order.spec_total_cost(),
{
    lemma_volume_discount_bounds(order.parcels@);
    let before_speed = order.spec_partial_total_cost() + order.spec_discount();
    let factor = order.shipping_speed.spec_cost_multiplier();
    assert(0 <= before_speed * factor) by (nonlinear_arith)
        requires
            0 <= before_speed,
            0 <= factor,
    ;
}

/// Two orders at the same speed that hold the same parcels, each as often as
/// the other, cost the same and are discounted the same, in whatever order
/// each of them holds its parcels.
pub proof fn lemma_parcel_order_is_irrelevant(order: Order, rearranged: Order)
    requires
        order.parcels@.to_multiset() == rearranged.parcels@.to_multiset(),
        order.shipping_speed == rearranged.shipping_speed,
    ensures
        order.spec_partial_total_cost() == rearranged.spec_partial_total_cost(),
        order.spec_discount() == rearranged.spec_discount(),
        order.spec_total_cost() == rearranged.spec_total_cost(),
{
    lemma_costs_of_rearranged(order.parcels@, rearranged.parcels@);
    lemma_sum_of_rearranged(costs(order.parcels@), costs(rearranged.parcels@));
    lemma_group_discount_of_rearranged(order.parcels@, rearranged.parcels@, ParcelType::Small, 4);
    lemma_group_discount_of_rearranged(order.parcels@, rearranged.parcels@, ParcelType::Medium, 3);
}

/// Speedy delivery costs twice what normal delivery of the same parcels
/// costs.
pub proof fn lemma_speedy_costs_double(normal: Order, speedy: Order)
    requires
        normal.parcels@ == speedy.parcels@,
        normal.shipping_speed == ShippingSpeed::Normal,
        speedy.shipping_speed == ShippingSpeed::Speedy,
    ensures
        normal.spec_total_cost() == normal.spec_partial_total_cost() + normal.spec_discount(),
        speedy.spec_total_cost() == 2 * normal.spec_total_cost(),
{
}

/// Whatever an order is asked, it answers the same each time: two answers to
/// one question about one order are equal.
pub proof fn lemma_order_answers_again(
    order: Order,
    total: i128,
    total_again: i128,
    partial: i128,
    partial_again: i128,
    discount: i128,
    discount_again: i128,
)
    requires
        call_ensures(Order::total_cost, (&order,), total),
        call_ensures(Order::total_cost, (&order,), total_again),
        call_ensures(Order::partial_total_cost, (&order,), partial),
        call_ensures(Order::partial_total_cost, (&order,), partial_again),
        call_ensures(Order::discount, (&order,), discount),
        call_ensures(Order::discount, (&order,), discount_again),
    ensures
        total == total_again,
        partial == partial_again,
        discount == discount_again,
        total == (partial + discount) * order.shipping_speed.spec_cost_multiplier(),
{
}

/// What the parcels cost together fits in as many times 31 bits as there are
/// parcels.
proof fn lemma_total_fits(parcels: Seq<Parcel>)
    ensures
        0 <= sum(costs(parcels)) <= parcels.len() * 0x8000_0000,
    decreases parcels.len(),
{
    if parcels.len() > 0 {
        lemma_total_fits(parcels.drop_last());
        lemma_cost_bounds(parcels.last());
        assert(costs(parcels).drop_last() == costs(parcels.drop_last()));
    }
}

/// No vector holds more parcels than a 64-bit count can number.
proof fn lemma_count_fits(parcels: Vec<Parcel>)
    ensures
        parcels@.len() <= 0xffff_ffff_ffff_ffff,
{
    assert(parcels.len() <= usize::MAX);
}

} // verus!
