//! The weight of a parcel.

use crate::errors::ParcelError;
use core::cmp::Ordering;
use vstd::prelude::*;

verus! {

/// A weight in grams, that is in thousandths of a kilogram. Every value of
/// this type is strictly positive.
#[derive(Debug, Clone, Copy, PartialEq, Eq, Structural)]
pub struct Weight(i32);

impl View for Weight {
    type V = int;

    /// The weight as a number of grams.
    open spec fn view(&self) -> int {
        self.spec_grams() as int
    }
}

impl Weight {
    /// The weight as a number of grams.
    pub closed spec fn spec_grams(self) -> i32 {
        self.0
    }

    #[verifier::type_invariant]
    spec fn positive(self) -> bool {
        self.0 > 0
    }

    /// Accepts `grams` as a weight exactly when it is strictly positive, and
    /// hands the refused value back otherwise.
    pub fn new(grams: i32) -> (made: Result<Weight, ParcelError>)
        ensures
            grams > 0 ==> (made matches Ok(weight) && weight@ == grams),
            grams <= 0 ==> made == Err::<Weight, ParcelError>(ParcelError::InvalidWeight(grams)),
    {
        if grams <= 0 {
            Err(ParcelError::InvalidWeight(grams))
        } else {
            Ok(Weight(grams))
        }
    }

    /// The weight as a number of grams.
    pub fn grams(self) -> (grams: i32)
        ensures
            grams == self@,
            grams > 0,
    {
        proof {
            use_type_invariant(&self);
        }
        self.0
    }
}

/// A weight is its number of grams: two of the same number are the same.
pub proof fn lemma_same_grams_same_weight(one: Weight, other: Weight)
    requires
        one@ == other@,
    ensures
        one == other,
{
}

impl PartialOrd for Weight {
    /// Weights are ordered as their numbers of grams are.
    fn partial_cmp(&self, other: &Weight) -> (order: Option<Ordering>) {
        if self.0 < other.0 {
            Some(Ordering::Less)
        } else if self.0 > other.0 {
            Some(Ordering::Greater)
        } else {
            Some(Ordering::Equal)
        }
    }
}

impl vstd::std_specs::cmp::PartialOrdSpecImpl for Weight {
    open spec fn obeys_partial_cmp_spec() -> bool {
        true
    }

    open spec fn partial_cmp_spec(&self, other: &Weight) -> Option<Ordering> {
        if self@ < other@ {
            Some(Ordering::Less)
        } else if self@ > other@ {
            Some(Ordering::Greater)
        } else {
            Some(Ordering::Equal)
        }
    }
}

} // verus!
