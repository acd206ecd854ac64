//! Shipping prices for orders of parcels.
//!
//! A parcel is sized by its three dimensions and its weight, which put it in
//! one of five price classes. An order sums the prices of its parcels, takes
//! off a volume discount and applies the factor of the chosen shipping speed.
//!
//! Lengths and weights are fixed-point numbers with three decimal places: the
//! integer `n` stands for the quantity `n / 1000`. A weight of 4.23 kg is
//! written `4_230`, a side of 99.9 is written `99_900`. Prices are whole
//! numbers of the smallest currency unit.

pub mod dimensions;
pub mod discount;
pub mod errors;
pub mod order;
pub mod parcel;
pub mod shipping_speed;
pub mod sums;
pub mod weight;
