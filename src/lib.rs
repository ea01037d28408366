//! A token launchpad engine: constant-product bonding curves, a fixed fee
//! split applied to every trade, one-way graduation, community takeovers, and
//! swap pools for tokens that already exist.
pub mod curve;
pub mod fees;
pub mod factory;
pub mod math;
pub mod model;
pub mod types;

pub use factory::TokenFactory;
