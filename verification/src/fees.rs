use vstd::prelude::*;

use crate::constants::{FEE_DENOM, MAX_PROTOCOL_FEE, MAX_TRADE_FEE};
use crate::errors::MathError;
use crate::wide::{casted_mul, lim128, lim32, wide_checked_div, Wide};

verus! {

/// `floor(amount * num / denom)`, or the error the checked composition
/// meets: a zero `denom`, or a quotient past `u128`.
pub open spec fn spec_u128_ratio(amount: u128, num: u32, denom: u32) -> Result<u128, MathError> {
    if denom == 0 {
        Err(MathError::DivByZero(61))
    } else if amount * num / (denom as int) >= lim128() {
        Err(MathError::CastOverflow(61))
    } else {
        Ok((amount * num / (denom as int)) as u128)
    }
}

/// `floor(amount * num / denom)` over 256-bit intermediates.
pub fn u128_ratio(amount: u128, num: u32, denom: u32) -> (r: Result<u128, MathError>)
    ensures
        r == spec_u128_ratio(amount, num, denom),
{
    let prod = casted_mul(amount, num as u128);
    let q = match wide_checked_div(prod, Wide::from_u128(denom as u128)) {
        Some(q) => q,
        None => {
            return Err(MathError::DivByZero(61));
        },
    };
    match q.to_u128() {
        Some(v) => Ok(v),
        None => Err(MathError::CastOverflow(61)),
    }
}

/// The pool's fee parameters, both with `FEE_DENOM` fixed-point precision.
///
/// `trade_fee` is charged on the output side of a swap; `protocol_fee` is
/// the portion of the collected fee that is minted to the fee receiver.
#[derive(Clone, Copy, Debug, PartialEq, Eq, Structural)]
pub struct Fees {
    pub trade_fee: u32,
    pub protocol_fee: u32,
}

impl Fees {
    /// Both parameters are within their admissible bounds.
    pub open spec fn valid(self) -> bool {
        self.trade_fee <= MAX_TRADE_FEE && self.protocol_fee <= MAX_PROTOCOL_FEE
    }

    pub open spec fn spec_new(trade_fee: u32, protocol_fee: u32) -> Option<Fees> {
        if trade_fee <= MAX_TRADE_FEE && protocol_fee <= MAX_PROTOCOL_FEE {
            Some(Fees { trade_fee, protocol_fee })
        } else {
            None
        }
    }

    /// Validating constructor: accepts a trade fee up to 1% and a protocol
    /// fee up to 50%, both with `FEE_DENOM` precision.
    #[verifier::when_used_as_spec(spec_new)]
    pub fn new(trade_fee: u32, protocol_fee: u32) -> (r: Option<Fees>)
        ensures
            r == Fees::spec_new(trade_fee, protocol_fee),
    {
        if trade_fee > MAX_TRADE_FEE || protocol_fee > MAX_PROTOCOL_FEE {
            None
        } else {
            Some(Fees { trade_fee, protocol_fee })
        }
    }

    pub fn zero() -> (r: Fees)
        ensures
            r == (Fees { trade_fee: 0u32, protocol_fee: 0u32 }),
    {
        Fees { trade_fee: 0, protocol_fee: 0 }
    }

    pub open spec fn spec_trade_fee_from_gross(self, amount: u128) -> Result<u128, MathError> {
        spec_u128_ratio(amount, self.trade_fee, FEE_DENOM)
    }

    /// The fee contained in a gross output amount:
    /// `floor(amount * trade_fee / FEE_DENOM)`.
    pub fn trade_fee_from_gross(&self, amount: u128) -> (r: Result<u128, MathError>)
        ensures
            r == self.spec_trade_fee_from_gross(amount),
    {
        u128_ratio(amount, self.trade_fee, FEE_DENOM)
    }

    pub open spec fn spec_trade_fee_from_net(self, amount: u128) -> Result<u128, MathError> {
        if self.trade_fee > FEE_DENOM {
            Err(MathError::SubUnderflow(61))
        } else {
            spec_u128_ratio(amount, self.trade_fee, (FEE_DENOM - self.trade_fee) as u32)
        }
    }

    /// The fee to add on top of a net output amount:
    /// `floor(amount * trade_fee / (FEE_DENOM - trade_fee))`.
    pub fn trade_fee_from_net(&self, amount: u128) -> (r: Result<u128, MathError>)
        ensures
            r == self.spec_trade_fee_from_net(amount),
    {
        let denom = match FEE_DENOM.checked_sub(self.trade_fee) {
            Some(d) => d,
            None => {
                return Err(MathError::SubUnderflow(61));
            },
        };
        u128_ratio(amount, self.trade_fee, denom)
    }

    pub open spec fn spec_protocol_trade_fee(self, amount: u128) -> Result<u128, MathError> {
        spec_u128_ratio(amount, self.protocol_fee, FEE_DENOM)
    }

    /// The protocol's portion of a collected fee:
    /// `floor(amount * protocol_fee / FEE_DENOM)`.
    pub fn protocol_trade_fee(&self, amount: u128) -> (r: Result<u128, MathError>)
        ensures
            r == self.spec_protocol_trade_fee(amount),
    {
        u128_ratio(amount, self.protocol_fee, FEE_DENOM)
    }

    /// The imbalance-fee factor `trade_fee * n / (4 * (n - 1))`, with the
    /// errors of its checked composition, then applied as a ratio.
    pub open spec fn spec_normalized_trade_fee(self, num_coins: u32, amount: u128) -> Result<
        u128,
        MathError,
    > {
        if self.trade_fee * num_coins >= lim32() {
            Err(MathError::MulOverflow(61))
        } else if num_coins < 1 {
            Err(MathError::SubUnderflow(62))
        } else if (num_coins - 1) * 4 >= lim32() {
            Err(MathError::MulOverflow(62))
        } else if num_coins == 1 {
            Err(MathError::DivByZero(61))
        } else {
            spec_u128_ratio(
                amount,
                ((self.trade_fee * num_coins) / ((num_coins - 1) * 4)) as u32,
                FEE_DENOM,
            )
        }
    }

    /// Fee on the asymmetric part of a deposit or withdrawal, normalized so
    /// that a balanced operation is not charged twice.
    pub fn normalized_trade_fee(&self, num_coins: u32, amount: u128) -> (r: Result<
        u128,
        MathError,
    >)
        ensures
            r == self.spec_normalized_trade_fee(num_coins, amount),
    {
        let num = match self.trade_fee.checked_mul(num_coins) {
            Some(v) => v,
            None => {
                return Err(MathError::MulOverflow(61));
            },
        };
        let n_sub_one = match num_coins.checked_sub(1) {
            Some(v) => v,
            None => {
                return Err(MathError::SubUnderflow(62));
            },
        };
        let denom = match n_sub_one.checked_mul(4) {
            Some(v) => v,
            None => {
                return Err(MathError::MulOverflow(62));
            },
        };
        let adjusted_trade_fee = match num.checked_div(denom) {
            Some(v) => v,
            None => {
                return Err(MathError::DivByZero(61));
            },
        };
        u128_ratio(amount, adjusted_trade_fee, FEE_DENOM)
    }
}

} // verus!
