//! The three sides of a parcel.

use crate::errors::ParcelError;
use vstd::prelude::*;

verus! {

/// The length, width and height of a parcel, each in thousandths of the unit
/// of length. Every value of this type has three strictly positive sides.
#[derive(Debug, Clone, Copy, PartialEq, Eq, Structural, PartialOrd)]
pub struct Dimensions(i32, i32, i32);

impl View for Dimensions {
    type V = (int, int, int);

    /// Length, width and height, in this order.
    open spec fn view(&self) -> (int, int, int) {
        (self.spec_length() as int, self.spec_width() as int, self.spec_height() as int)
    }
}

impl Dimensions {
    #[verifier::type_invariant]
    spec fn positive(self) -> bool {
        self.0 > 0 && self.1 > 0 && self.2 > 0
    }

    /// The length.
    pub closed spec fn spec_length(self) -> i32 {
        self.0
    }

    /// The width.
    pub closed spec fn spec_width(self) -> i32 {
        self.1
    }

    /// The height.
    pub closed spec fn spec_height(self) -> i32 {
        self.2
    }

    /// Whether every side is shorter than `bound`.
    pub open spec fn all_below(self, bound: int) -> bool {
        self@.0 < bound && self@.1 < bound && self@.2 < bound
    }

    /// Whether some side is at least `bound` long.
    pub open spec fn any_at_least(self, bound: int) -> bool {
        self@.0 >= bound || self@.1 >= bound || self@.2 >= bound
    }

    /// Accepts the three sides exactly when each of them is strictly
    /// positive, and hands the refused values back otherwise.
    pub fn new(length: i32, width: i32, height: i32) -> (made: Result<Dimensions, ParcelError>)
        ensures
            length > 0 && width > 0 && height > 0 ==> (made matches Ok(dimensions)
                && dimensions@ == (length as int, width as int, height as int)),
            length <= 0 || width <= 0 || height <= 0 ==> made == Err::<Dimensions, ParcelError>(
                ParcelError::InvalidDimensions(length, width, height),
            ),
    {
        if length <= 0 || width <= 0 || height <= 0 {
            Err(ParcelError::InvalidDimensions(length, width, height))
        } else {
            Ok(Dimensions(length, width, height))
        }
    }

    /// Whether `holds` accepts at least one of the three sides. The sides are
    /// tried in no promised order, and not all of them need be tried.
    pub fn any<F: Fn(i32) -> bool>(&self, holds: F) -> (found: bool)
        requires
            holds.requires((self.spec_length(),)),
            holds.requires((self.spec_width(),)),
            holds.requires((self.spec_height(),)),
        ensures
            found ==> holds.ensures((self.spec_length(),), true) || holds.ensures(
                (self.spec_width(),),
                true,
            ) || holds.ensures((self.spec_height(),), true),
            !found ==> holds.ensures((self.spec_length(),), false) && holds.ensures(
                (self.spec_width(),),
                false,
            ) && holds.ensures((self.spec_height(),), false),
    {
        holds(self.0) || holds(self.1) || holds(self.2)
    }

    /// Whether `holds` accepts each of the three sides. The sides are tried
    /// in no promised order, and not all of them need be tried.
    pub fn all<F: Fn(i32) -> bool>(&self, holds: F) -> (every: bool)
        requires
            holds.requires((self.spec_length(),)),
            holds.requires((self.spec_width(),)),
            holds.requires((self.spec_height(),)),
        ensures
            every ==> holds.ensures((self.spec_length(),), true) && holds.ensures(
                (self.spec_width(),),
                true,
            ) && holds.ensures((self.spec_height(),), true),
            !every ==> holds.ensures((self.spec_length(),), false) || holds.ensures(
                (self.spec_width(),),
                false,
            ) || holds.ensures((self.spec_height(),), false),
    {
        holds(self.0) && holds(self.1) && holds(self.2)
    }

    /// The length, in thousandths.
    pub fn length(&self) -> (length: i32)
        ensures
            length == self@.0,
            length > 0,
    {
        proof {
            use_type_invariant(self);
        }
        self.0
    }

    /// The width, in thousandths.
    pub fn width(&self) -> (width: i32)
        ensures
            width == self@.1,
            width > 0,
    {
        proof {
            use_type_invariant(self);
        }
        self.1
    }

    /// The height, in thousandths.
    pub fn height(&self) -> (height: i32)
        ensures
            height == self@.2,
            height > 0,
    {
        proof {
            use_type_invariant(self);
        }
        self.2
    }
}

/// Dimensions are their three sides: two with the same sides are the same.
pub proof fn lemma_same_sides_same_dimensions(one: Dimensions, other: Dimensions)
    requires
        one@ == other@,
    ensures
        one == other,
{
}

} // verus!
