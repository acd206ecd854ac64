[package]
name = "parcel_pricing"
version = "0.1.0"
edition = "2021"

[dependencies]
thiserror = "1"
