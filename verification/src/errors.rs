//! The reasons for which a measurement is refused.

use vstd::prelude::*;

verus! {

/// A measurement that is not strictly positive. Each variant carries the
/// refused values as they were given, in thousandths.
#[derive(Debug, Clone, Copy, PartialEq, Eq, Structural)]
pub enum ParcelError {
    /// At least one of length, width and height is zero or negative.
    InvalidDimensions(i32, i32, i32),
    /// The weight is zero or negative.
    InvalidWeight(i32),
}

} // verus!
