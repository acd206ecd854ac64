//! Parcels: how they are classed and what they cost.

use crate::dimensions::Dimensions;
use crate::weight::{lemma_same_grams_same_weight, Weight};
use vstd::prelude::*;

verus! {

/// The price class of a parcel.
#[derive(Debug, Clone, Copy, PartialEq, Eq, Structural, PartialOrd)]
#[non_exhaustive]
pub enum ParcelType {
    Small,
    Medium,
    Large,
    XL,
    Heavy,
}

impl ParcelType {
    /// The price of a parcel of this class that is within its weight limit.
    pub open spec fn base_price(self) -> int {
        match self {
            ParcelType::Small => 300,
            ParcelType::Medium => 800,
            ParcelType::Large => 1500,
            ParcelType::XL => 2500,
            ParcelType::Heavy => 5000,
        }
    }

    /// The weight, in grams, that the base price of this class covers.
    pub open spec fn weight_limit(self) -> int {
        match self {
            ParcelType::Small => 1_000,
            ParcelType::Medium => 3_000,
            ParcelType::Large => 6_000,
            ParcelType::XL => 10_000,
            ParcelType::Heavy => 50_000,
        }
    }

    /// What each whole kilogram above the weight limit adds to the price.
    pub open spec fn surcharge_rate(self) -> int {
        match self {
            ParcelType::Heavy => 100,
            _ => 200,
        }
    }

    /// The price of a parcel of this class that weighs `grams`: the base
    /// price, and the surcharge rate for each whole kilogram by which `grams`
    /// exceeds the weight limit. A started kilogram above the limit is free.
    pub open spec fn price(self, grams: int) -> int {
        self.base_price() + self.surcharge(grams)
    }

    /// The part of the price that is owed to the weight above the limit.
    pub open spec fn surcharge(self, grams: int) -> int {
        if grams > self.weight_limit() {
            self.surcharge_rate() * ((grams - self.weight_limit()) / 1_000)
        } else {
            0
        }
    }
}

/// The class of a parcel with the given sides and weight. The rules are
/// tried in this order and the first that applies decides: 50 kg or more is
/// heavy, whatever the size; otherwise all sides under 10 is small, all sides
/// under 50 is medium, all sides under 100 is large, and anything else is XL.
pub open spec fn classify(dimensions: Dimensions, weight: Weight) -> ParcelType {
    if weight@ >= 50_000 {
        ParcelType::Heavy
    } else if dimensions.all_below(10_000) {
        ParcelType::Small
    } else if dimensions.all_below(50_000) {
        ParcelType::Medium
    } else if dimensions.all_below(100_000) {
        ParcelType::Large
    } else {
        ParcelType::XL
    }
}

/// A parcel: its sides, its weight, and the class that follows from them.
#[derive(Debug, Clone, Copy, PartialEq, Eq, Structural, PartialOrd)]
#[non_exhaustive]
pub struct Parcel {
    pub parcel_type: ParcelType,
    pub dimensions: Dimensions,
    pub weight: Weight,
}

impl Parcel {
    /// Whether the class of this parcel is the one that its sides and its
    /// weight give.
    pub open spec fn well_formed(self) -> bool {
        self.parcel_type == classify(self.dimensions, self.weight)
    }

    /// The price of this parcel.
    pub open spec fn spec_cost(self) -> int {
        self.parcel_type.price(self.weight@)
    }

    /// Makes the parcel with these sides and this weight, and classes it.
    pub fn new(dimensions: Dimensions, weight: Weight) -> (parcel: Parcel)
        ensures
            parcel.dimensions == dimensions,
            parcel.weight == weight,
            parcel.parcel_type == classify(dimensions, weight),
            parcel.well_formed(),
    {
        let parcel_type = if weight.grams() >= 50_000 {
            ParcelType::Heavy
        } else if dimensions.all(|side: i32| -> (below: bool)
            ensures
                below == (side < 10_000),
            { side < 10_000 }) {
            ParcelType::Small
        } else if dimensions.all(|side: i32| -> (below: bool)
            ensures
                below == (side < 50_000),
            { side < 50_000 }) {
            ParcelType::Medium
        } else if dimensions.all(|side: i32| -> (below: bool)
            ensures
                below == (side < 100_000),
            { side < 100_000 }) {
            ParcelType::Large
        } else if dimensions.any(|side: i32| -> (at_least: bool)
            ensures
                at_least == (side >= 100_000),
            { side >= 100_000 }) {
            ParcelType::XL
        } else {
            // a parcel whose sides are not all under 100 has one of 100 or more
            unreached()
        };
        Parcel { parcel_type, dimensions, weight }
    }

    /// The price of this parcel: the base price of its class, and the
    /// surcharge for what it weighs above the limit of its class.
    pub fn cost(&self) -> (cost: i32)
        ensures
            cost == self.spec_cost(),
    {
        self.parcel_type_cost() + self.over_weight_limit_cost()
    }

    /// The base price of the class of this parcel.
    fn parcel_type_cost(&self) -> (price: i32)
        ensures
            price == self.parcel_type.base_price(),
    {
        match self.parcel_type {
            ParcelType::Small => 300,
            ParcelType::Medium => 800,
            ParcelType::Large => 1500,
            ParcelType::XL => 2500,
            ParcelType::Heavy => 5000,
        }
    }

    /// The surcharge for what this parcel weighs above the limit of its
    /// class: the rate of the class for each whole kilogram above the limit,
    /// and nothing where the parcel is within the limit.
    pub fn over_weight_limit_cost(&self) -> (surcharge: i32)
        ensures
            surcharge == self.parcel_type.surcharge(self.weight@),
    {
        let limit = self.weight_limit();
        if self.weight > limit {
            let whole_kilograms: i32 = (self.weight.grams() - limit.grams()) / 1_000;
            self.over_weight_limit_multiplier() * whole_kilograms
        } else {
            0
        }
    }

    /// The weight that the base price of the class of this parcel covers.
    pub fn weight_limit(&self) -> (limit: Weight)
        ensures
            limit@ == self.parcel_type.weight_limit(),
    {
        let grams: i32 = match self.parcel_type {
            ParcelType::Small => 1_000,
            ParcelType::Medium => 3_000,
            ParcelType::Large => 6_000,
            ParcelType::XL => 10_000,
            ParcelType::Heavy => 50_000,
        };
        Weight::new(grams).unwrap()
    }

    /// What each whole kilogram above the weight limit adds to the price of
    /// this parcel.
    pub fn over_weight_limit_multiplier(&self) -> (rate: i32)
        ensures
            rate == self.parcel_type.surcharge_rate(),
    {
        match self.parcel_type {
            ParcelType::Heavy => 100,
            _ => 200,
        }
    }
}

/// A parcel costs at least the base price of its class, and its price fits
/// in 32 bits.
pub proof fn lemma_cost_bounds(parcel: Parcel)
    ensures
        0 < parcel.parcel_type.base_price() <= parcel.spec_cost() <= i32::MAX,
        0 <= parcel.parcel_type.surcharge(parcel.weight@),
{
    let class = parcel.parcel_type;
    let limit = class.weight_limit();
    let rate = class.surcharge_rate();
    if parcel.weight@ > limit {
        let over = (parcel.weight@ - limit) / 1_000;
        assert(0 <= over <= 2_147_483);
        assert(0 <= rate * over <= 200 * 2_147_483) by (nonlinear_arith)
            requires
                0 <= rate <= 200,
                0 <= over <= 2_147_483,
        ;
    }
}

/// Each class by itself, whatever the order in which the rules are tried:
/// weight alone makes a parcel heavy, and below 50 kg its longest side
/// decides between the other four classes.
pub proof fn lemma_class_by_class(dimensions: Dimensions, weight: Weight)
    ensures
        classify(dimensions, weight) == ParcelType::Heavy <==> weight@ >= 50_000,
        classify(dimensions, weight) == ParcelType::Small <==> weight@ < 50_000
            && dimensions.all_below(10_000),
        classify(dimensions, weight) == ParcelType::Medium <==> weight@ < 50_000
            && dimensions.any_at_least(10_000) && dimensions.all_below(50_000),
        classify(dimensions, weight) == ParcelType::Large <==> weight@ < 50_000
            && dimensions.any_at_least(50_000) && dimensions.all_below(100_000),
        classify(dimensions, weight) == ParcelType::XL <==> weight@ < 50_000
            && dimensions.any_at_least(100_000),
{
}

/// The class does not depend on which side is called the length, which the
/// width and which the height: swapping two sides leaves it as it is.
pub proof fn lemma_sides_in_any_order(dimensions: Dimensions, swapped: Dimensions, weight: Weight)
    requires
        swapped@ == (dimensions@.1, dimensions@.0, dimensions@.2) || swapped@ == (
            dimensions@.0,
            dimensions@.2,
            dimensions@.1,
        ) || swapped@ == (dimensions@.2, dimensions@.1, dimensions@.0),
    ensures
        classify(swapped, weight) == classify(dimensions, weight),
{
}

/// The same sides and the same weight always make the same parcel, of the
/// same class.
pub proof fn lemma_same_measurements_same_parcel(
    dimensions: Dimensions,
    weight: Weight,
    parcel: Parcel,
    again: Parcel,
)
    requires
        call_ensures(Parcel::new, (dimensions, weight), parcel),
        call_ensures(Parcel::new, (dimensions, weight), again),
    ensures
        parcel == again,
        parcel.parcel_type == classify(dimensions, weight),
{
}

/// Whatever a parcel is asked, it answers the same each time: two answers to
/// one question about one parcel are equal.
pub proof fn lemma_parcel_answers_again(
    parcel: Parcel,
    cost: i32,
    cost_again: i32,
    surcharge: i32,
    surcharge_again: i32,
    limit: Weight,
    limit_again: Weight,
    rate: i32,
    rate_again: i32,
)
    requires
        call_ensures(Parcel::cost, (&parcel,), cost),
        call_ensures(Parcel::cost, (&parcel,), cost_again),
        call_ensures(Parcel::over_weight_limit_cost, (&parcel,), surcharge),
        call_ensures(Parcel::over_weight_limit_cost, (&parcel,), surcharge_again),
        call_ensures(Parcel::weight_limit, (&parcel,), limit),
        call_ensures(Parcel::weight_limit, (&parcel,), limit_again),
        call_ensures(Parcel::over_weight_limit_multiplier, (&parcel,), rate),
        call_ensures(Parcel::over_weight_limit_multiplier, (&parcel,), rate_again),
    ensures
        cost == cost_again,
        surcharge == surcharge_again,
        limit == limit_again,
        rate == rate_again,
{
    lemma_same_grams_same_weight(limit, limit_again);
}

/// A parcel never costs less than a lighter parcel of the same class.
pub proof fn lemma_cost_grows_with_weight(lighter: Parcel, heavier: Parcel)
    requires
        lighter.parcel_type == heavier.parcel_type,
        lighter.weight@ <= heavier.weight@,
    ensures
        lighter.spec_cost() <= heavier.spec_cost(),
{
    let class = lighter.parcel_type;
    let limit = class.weight_limit();
    let rate = class.surcharge_rate();
    if lighter.weight@ > limit {
        let fewer = (lighter.weight@ - limit) / 1_000;
        let more = (heavier.weight@ - limit) / 1_000;
        assert(fewer <= more);
        assert(rate * fewer <= rate * more) by (nonlinear_arith)
            requires
                0 <= rate,
                fewer <= more,
        ;
    } else if heavier.weight@ > limit {
        let more = (heavier.weight@ - limit) / 1_000;
        assert(0 <= rate * more) by (nonlinear_arith)
            requires
                0 <= rate,
                0 <= more,
        ;
    }
}

} // verus!
