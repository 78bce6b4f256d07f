//! A StableSwap-style automated market maker: Curve-invariant exchange of
//! closely correlated assets, with pool accounting, per-token exchange
//! rates, and trade-fee attribution.

pub mod account;
pub mod constants;
pub mod errors;
pub mod events;
pub mod fees;
pub mod math;
pub mod mocks;
pub mod pool;
pub mod psp22;
pub mod rate_provider;
pub mod token_rate;
pub mod wide;
