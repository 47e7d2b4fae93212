//! Pricing core of a bonding-curve market maker: a constant-product curve over
//! virtual plus real reserves, the trading-fee arithmetic, and the small
//! decisions around token balances that trades depend on.

pub mod error;
pub mod curve;
pub mod account;
pub mod fee;
