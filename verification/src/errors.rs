use vstd::prelude::*;

verus! {

/// Failure of a checked arithmetic step. The payload is a small positional
/// tag that identifies the failure site; tags are opaque to callers.
#[derive(Clone, Copy, Debug, PartialEq, Eq, Structural)]
pub enum MathError {
    AddOverflow(u8),
    SubUnderflow(u8),
    MulOverflow(u8),
    DivByZero(u8),
    CastOverflow(u8),
}

/// Failure of an operation on the pool's own share ledger.
#[derive(Clone, Copy, Debug, PartialEq, Eq, Structural)]
pub enum PSP22Error {
    InsufficientBalance,
    InsufficientAllowance,
    SupplyOverflow,
}

/// Failure of a pool operation.
#[derive(Clone, Copy, Debug, PartialEq, Eq, Structural)]
pub enum StablePoolError {
    MathError(MathError),
    PSP22Error(PSP22Error),
    InvalidTokenId(crate::account::AccountId),
    IdenticalTokenId,
    IncorrectAmountsCount,
    InvalidAmpCoef,
    InvalidFee,
    InsufficientLiquidityMinted,
    InsufficientLiquidityBurned,
    InsufficientOutputAmount,
    TooLargeInputAmount,
    InsufficientInputAmount,
    IncorrectTokenCount,
    TooLargeTokenDecimal,
    OnlyOwner,
}

} // verus!
