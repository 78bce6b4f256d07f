use vstd::prelude::*;

verus! {

/// Common precision in which all invariant math is performed.
pub const TOKEN_TARGET_DECIMALS: u8 = 18;

/// 10^18, one unit in the common precision.
pub const TOKEN_TARGET_PRECISION: u128 = 1_000_000_000_000_000_000;

/// Number of decimals of an exchange rate.
pub const RATE_DECIMALS: u8 = 12;

/// 10^12, the fixed-point scale of exchange rates.
pub const RATE_PRECISION: u128 = 1_000_000_000_000;

/// Highest admissible trade fee (1%), with `FEE_DENOM` precision.
pub const MAX_TRADE_FEE: u32 = 10_000_000;

/// Highest admissible protocol fee (50% of the trade fee), with
/// `FEE_DENOM` precision.
pub const MAX_PROTOCOL_FEE: u32 = 500_000_000;

/// Denominator of both fee parameters.
pub const FEE_DENOM: u32 = 1_000_000_000;

/// Largest number of tokens a pool may hold.
pub const MAX_COINS: usize = 8;

/// Smallest admissible amplification coefficient.
pub const MIN_AMP: u128 = 1;

/// Largest admissible amplification coefficient.
pub const MAX_AMP: u128 = 1_000_000;

} // verus!
