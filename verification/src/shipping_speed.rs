//! How fast an order travels, and what that does to its price.

use vstd::prelude::*;

verus! {

/// The delivery speed chosen for an order.
#[derive(Debug, Clone, Copy, PartialEq, Eq, Structural, PartialOrd)]
#[non_exhaustive]
pub enum ShippingSpeed {
    Normal,
    Speedy,
}

impl ShippingSpeed {
    /// The factor by which this speed multiplies the price of an order.
    pub open spec fn spec_cost_multiplier(self) -> int {
        match self {
            ShippingSpeed::Normal => 1,
            ShippingSpeed::Speedy => 2,
        }
    }

    /// The factor by which this speed multiplies the price of an order:
    /// 1 for normal delivery, 2 for speedy delivery.
    pub fn cost_multiplier(&self) -> (factor: i32)
        ensures
            factor == self.spec_cost_multiplier(),
    {
        match self {
            ShippingSpeed::Normal => 1,
            ShippingSpeed::Speedy => 2,
        }
    }
}

} // verus!
