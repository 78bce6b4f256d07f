use vstd::prelude::*;

use crate::account::AccountId;
use crate::token_rate::TokenRate;

verus! {

/// Liquidity was deposited: `provider` paid `token_amounts` in and `to`
/// received `shares` LP shares.
#[derive(Debug)]
pub struct AddLiquidity {
    pub provider: AccountId,
    pub token_amounts: Vec<u128>,
    pub shares: u128,
    pub to: AccountId,
}

/// Liquidity was withdrawn: `provider` burned `shares` LP shares and `to`
/// received `token_amounts`.
#[derive(Debug)]
pub struct RemoveLiquidity {
    pub provider: AccountId,
    pub token_amounts: Vec<u128>,
    pub shares: u128,
    pub to: AccountId,
}

/// A swap took place.
#[derive(Clone, Copy, Debug)]
pub struct Swap {
    pub sender: AccountId,
    pub token_in: AccountId,
    pub amount_in: u128,
    pub token_out: AccountId,
    pub amount_out: u128,
    pub to: AccountId,
}

/// The reserve snapshot after an operation.
#[derive(Debug)]
pub struct Sync {
    pub reserves: Vec<u128>,
}

/// The rate-entry snapshot after a refresh changed some cached value.
#[derive(Debug)]
pub struct RatesUpdated {
    pub rates: Vec<TokenRate>,
}

/// An LP-share allowance was set.
#[derive(Clone, Copy, Debug)]
pub struct Approval {
    pub owner: AccountId,
    pub spender: AccountId,
    pub amount: u128,
}

/// LP shares moved; `from` is `None` on a mint, `to` is `None` on a burn.
#[derive(Clone, Copy, Debug)]
pub struct Transfer {
    pub from: Option<AccountId>,
    pub to: Option<AccountId>,
    pub value: u128,
}

/// The pool changed hands.
#[derive(Clone, Copy, Debug)]
pub struct OwnerChanged {
    pub new_owner: AccountId,
}

/// The protocol-fee receiver changed; `None` disables protocol fees.
#[derive(Clone, Copy, Debug)]
pub struct FeeReceiverChanged {
    pub new_fee_receiver: Option<AccountId>,
}

/// The amplification coefficient changed.
#[derive(Clone, Copy, Debug)]
pub struct AmpCoefChanged {
    pub new_amp_coef: u128,
}

/// The fee parameters changed.
#[derive(Clone, Copy, Debug)]
pub struct FeeChanged {
    pub trade_fee: u32,
    pub protocol_fee: u32,
}

} // verus!
