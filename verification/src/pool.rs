use vstd::arithmetic::power::pow;
use vstd::prelude::*;

use crate::account::AccountId;
use crate::constants::{
    MAX_AMP, MAX_COINS, MIN_AMP, RATE_PRECISION, TOKEN_TARGET_DECIMALS,
};
use crate::errors::{MathError, PSP22Error, StablePoolError};
use crate::fees::Fees;
use crate::math::ck_mul;
use crate::psp22::PSP22Data;
use crate::token_rate::TokenRate;
use crate::wide::{lim128, Wide};

verus! {

broadcast use vstd::std_specs::control_flow::group_control_flow_axioms;

/// The pool's own storage: the token list fixed at construction, the
/// per-token precision factors and rate sources, the reserve accounting,
/// and the fee configuration.
#[derive(Debug)]
pub struct StablePoolData {
    /// List of tokens.
    pub tokens: Vec<AccountId>,
    /// Tokens precision factors used for normalization.
    pub precisions: Vec<u128>,
    /// Reserves of tokens.
    pub reserves: Vec<u128>,
    /// Means of getting token rates, either constant or by external query.
    pub token_rates: Vec<TokenRate>,
    /// Amplification coefficient.
    pub amp_coef: u128,
    /// Fees.
    pub fees: Fees,
    /// Who receives protocol fees (if any).
    pub fee_receiver: Option<AccountId>,
}

/// A StableSwap pool: heterogeneous-precision tokens exchanged along the
/// Curve invariant, with LP shares tracked by an embedded ledger.
///
/// The chain environment is injected as plain values: operations that
/// refresh rates take the current time and one fresh oracle reading per
/// token; operations that act for a caller take the caller's identity.
#[derive(Debug)]
pub struct StablePoolContract {
    pub owner: AccountId,
    pub pool: StablePoolData,
    pub psp22: PSP22Data,
}

/// First index of `t` in `tokens` from position `i` on; the length when
/// `t` does not occur.
pub open spec fn spec_find_from(tokens: Seq<AccountId>, t: AccountId, i: int) -> int
    decreases tokens.len() - i,
{
    if i < 0 || i >= tokens.len() {
        tokens.len() as int
    } else if tokens[i] == t {
        i
    } else {
        spec_find_from(tokens, t, i + 1)
    }
}

pub open spec fn spec_find(tokens: Seq<AccountId>, t: AccountId) -> int {
    spec_find_from(tokens, t, 0)
}

pub proof fn lemma_find_from_range(tokens: Seq<AccountId>, t: AccountId, i: int)
    requires
        0 <= i <= tokens.len(),
    ensures
        i <= spec_find_from(tokens, t, i) <= tokens.len(),
        spec_find_from(tokens, t, i) < tokens.len() ==> tokens[spec_find_from(tokens, t, i)] == t,
    decreases tokens.len() - i,
{
    if i < tokens.len() && tokens[i] != t {
        lemma_find_from_range(tokens, t, i + 1);
    }
}

/// The rate entries after a TTL-respecting refresh with one oracle
/// reading per token.
pub open spec fn spec_refreshed(rates: Seq<TokenRate>, now: u64, fresh: Seq<u128>) -> Seq<
    TokenRate,
> {
    Seq::new(rates.len(), |i: int| rates[i].spec_updated(now, fresh[i]))
}

/// The rate entries after an unconditional refresh.
pub open spec fn spec_force_refreshed(rates: Seq<TokenRate>, now: u64, fresh: Seq<u128>) -> Seq<
    TokenRate,
> {
    Seq::new(rates.len(), |i: int| rates[i].spec_force_updated(now, fresh[i]))
}

/// Per-token scaled rates `rate_i * precision_i`, from index `i` on; each
/// product must fit in 128 bits.
pub open spec fn spec_scaled_loop(
    acc: Seq<u128>,
    rates: Seq<TokenRate>,
    precisions: Seq<u128>,
    i: int,
) -> Result<Seq<u128>, MathError>
    decreases rates.len() - i,
{
    if i < 0 || i >= rates.len() {
        Ok(acc)
    } else {
        match ck_mul(lim128(), 114, rates[i].spec_rate() as int, precisions[i] as int) {
            Err(e) => Err(e),
            Ok(v) => spec_scaled_loop(acc.push(v as u128), rates, precisions, i + 1),
        }
    }
}

pub open spec fn spec_scaled_rates(rates: Seq<TokenRate>, precisions: Seq<u128>) -> Result<
    Seq<u128>,
    MathError,
> {
    spec_scaled_loop(Seq::empty(), rates, precisions, 0)
}

impl StablePoolContract {
    /// Structural well-formedness: the per-token vectors agree in length,
    /// the token count is in the supported range, and the share ledger
    /// accounts for its whole supply.
    pub open spec fn wf(self) -> bool {
        &&& 2 <= self.pool.tokens@.len() <= MAX_COINS
        &&& self.pool.precisions@.len() == self.pool.tokens@.len()
        &&& self.pool.reserves@.len() == self.pool.tokens@.len()
        &&& self.pool.token_rates@.len() == self.pool.tokens@.len()
        &&& MIN_AMP <= self.pool.amp_coef <= MAX_AMP
        &&& self.psp22.wf()
    }

    // --- plain views ------------------------------------------------------

    pub fn tokens(&self) -> (r: Vec<AccountId>)
        ensures
            r@ == self.pool.tokens@,
    {
        self.pool.tokens.clone()
    }

    /// The accounting reserves. Each real token balance is at least this
    /// value; rounding drift is always in the pool's favor.
    pub fn reserves(&self) -> (r: Vec<u128>)
        ensures
            r@ == self.pool.reserves@,
    {
        self.pool.reserves.clone()
    }

    pub fn amp_coef(&self) -> (r: u128)
        ensures
            r == self.pool.amp_coef,
    {
        self.pool.amp_coef
    }

    pub fn fees(&self) -> (r: (u32, u32))
        ensures
            r.0 == self.pool.fees.trade_fee,
            r.1 == self.pool.fees.protocol_fee,
    {
        (self.pool.fees.trade_fee, self.pool.fees.protocol_fee)
    }

    pub fn token_decimals(&self) -> (r: u8)
        ensures
            r == TOKEN_TARGET_DECIMALS,
    {
        TOKEN_TARGET_DECIMALS
    }

    // --- token lookup -----------------------------------------------------

    /// The index of `token` in the pool's token list.
    pub fn token_id(&self, token: AccountId) -> (r: Result<usize, StablePoolError>)
        ensures
            r == (if spec_find(self.pool.tokens@, token) < self.pool.tokens@.len() {
                Ok::<usize, StablePoolError>(spec_find(self.pool.tokens@, token) as usize)
            } else {
                Err::<usize, StablePoolError>(StablePoolError::InvalidTokenId(token))
            }),
    {
        let len = self.pool.tokens.len();
        let mut i: usize = 0;
        while i < len
            invariant
                i <= len,
                len == self.pool.tokens@.len(),
                spec_find(self.pool.tokens@, token) == spec_find_from(
                    self.pool.tokens@,
                    token,
                    i as int,
                ),
            decreases len - i,
        {
            if self.pool.tokens[i] == token {
                return Ok(i);
            }
            i += 1;
        }
        Err(StablePoolError::InvalidTokenId(token))
    }

    /// Checks that the two tokens are distinct members of the pool and
    /// resolves their indices.
    pub open spec fn spec_check_tokens(self, token_in: AccountId, token_out: AccountId) -> Result<
        (int, int),
        StablePoolError,
    > {
        if token_in == token_out {
            Err(StablePoolError::IdenticalTokenId)
        } else {
            let i = spec_find(self.pool.tokens@, token_in);
            if i >= self.pool.tokens@.len() {
                Err(StablePoolError::InvalidTokenId(token_in))
            } else {
                let j = spec_find(self.pool.tokens@, token_out);
                if j >= self.pool.tokens@.len() {
                    Err(StablePoolError::InvalidTokenId(token_out))
                } else {
                    Ok((i, j))
                }
            }
        }
    }

    fn check_tokens(&self, token_in: AccountId, token_out: AccountId) -> (r: Result<
        (usize, usize),
        StablePoolError,
    >)
        ensures
            (match r {
                Ok((i, j)) => self.spec_check_tokens(token_in, token_out) == Ok::<
                    (int, int),
                    StablePoolError,
                >((i as int, j as int)) && i < self.pool.tokens@.len() && j
                    < self.pool.tokens@.len() && i != j,
                Err(e) => self.spec_check_tokens(token_in, token_out) == Err::<
                    (int, int),
                    StablePoolError,
                >(e),
            }),
    {
        if token_in == token_out {
            return Err(StablePoolError::IdenticalTokenId);
        }
        let n = self.pool.tokens.len();
        let i = self.token_id(token_in)?;
        let j = self.token_id(token_out)?;
        proof {
            lemma_find_from_range(self.pool.tokens@, token_in, 0);
            lemma_find_from_range(self.pool.tokens@, token_out, 0);
            assert(self.pool.tokens@.len() == n);
            assert(self.pool.tokens@[i as int] != self.pool.tokens@[j as int]);
        }
        Ok((i, j))
    }

    // --- rate plumbing ----------------------------------------------------

    /// The rate entries after a TTL-respecting refresh, without touching
    /// the pool.
    fn refreshed_rates(&self, now: u64, oracle_rates: &Vec<u128>) -> (r: Vec<TokenRate>)
        requires
            oracle_rates@.len() == self.pool.token_rates@.len(),
        ensures
            r@ == spec_refreshed(self.pool.token_rates@, now, oracle_rates@),
    {
        let len = self.pool.token_rates.len();
        let mut out: Vec<TokenRate> = Vec::new();
        let mut i: usize = 0;
        while i < len
            invariant
                i <= len,
                len == self.pool.token_rates@.len() == oracle_rates@.len(),
                out@.len() == i,
                forall|k: int|
                    0 <= k < i ==> out@[k] == self.pool.token_rates@[k].spec_updated(
                        now,
                        oracle_rates@[k],
                    ),
            decreases len - i,
        {
            let mut entry = self.pool.token_rates[i];
            entry.update_rate(now, oracle_rates[i]);
            out.push(entry);
            i += 1;
        }
        proof {
            assert(out@ =~= spec_refreshed(self.pool.token_rates@, now, oracle_rates@));
        }
        out
    }

    /// The scaled rate of each token under the given rate entries:
    /// `rate_i * precision_i`.
    fn scaled_rates(&self, rates: &Vec<TokenRate>) -> (r: Result<Vec<u128>, MathError>)
        requires
            rates@.len() == self.pool.precisions@.len(),
        ensures
            (match r {
                Ok(v) => Ok(v@),
                Err(e) => Err::<Seq<u128>, MathError>(e),
            }) == spec_scaled_rates(rates@, self.pool.precisions@),
            r matches Ok(v) ==> v@.len() == rates@.len(),
    {
        let len = rates.len();
        let mut acc: Vec<u128> = Vec::new();
        let mut i: usize = 0;
        while i < len
            invariant
                i <= len,
                acc@.len() == i,
                len == rates@.len() == self.pool.precisions@.len(),
                spec_scaled_loop(acc@, rates@, self.pool.precisions@, i as int)
                    == spec_scaled_rates(rates@, self.pool.precisions@),
            decreases len - i,
        {
            let v = match rates[i].get_rate().checked_mul(self.pool.precisions[i]) {
                Some(v) => v,
                None => {
                    return Err(MathError::MulOverflow(114));
                },
            };
            acc.push(v);
            i += 1;
        }
        Ok(acc)
    }

    // --- administration ---------------------------------------------------

    /// Hands the pool to a new owner. Only the owner may call this.
    pub fn set_owner(&mut self, caller: AccountId, new_owner: AccountId) -> (r: Result<
        (),
        StablePoolError,
    >)
        ensures
            (match r {
                Ok(()) => caller == old(self).owner && *final(self) == (StablePoolContract {
                    owner: new_owner,
                    ..*old(self)
                }),
                Err(e) => e == StablePoolError::OnlyOwner && caller != old(self).owner && *final(self) == *old(self),
            }),
    {
        if caller.id != self.owner.id {
            return Err(StablePoolError::OnlyOwner);
        }
        self.owner = new_owner;
        Ok(())
    }

    /// Sets who receives protocol-fee shares; `None` disables protocol
    /// fees. Only the owner may call this.
    pub fn set_fee_receiver(&mut self, caller: AccountId, fee_receiver: Option<AccountId>) -> (r:
        Result<(), StablePoolError>)
        ensures
            (match r {
                Ok(()) => caller == old(self).owner && *final(self) == (StablePoolContract {
                    pool: StablePoolData { fee_receiver, ..old(self).pool },
                    ..*old(self)
                }),
                Err(e) => e == StablePoolError::OnlyOwner && caller != old(self).owner && *final(self) == *old(self),
            }),
    {
        if caller.id != self.owner.id {
            return Err(StablePoolError::OnlyOwner);
        }
        self.pool.fee_receiver = fee_receiver;
        Ok(())
    }

    /// Sets the fee parameters, validating them against their bounds.
    /// Only the owner may call this.
    pub fn set_fee(&mut self, caller: AccountId, trade_fee: u32, protocol_fee: u32) -> (r: Result<
        (),
        StablePoolError,
    >)
        ensures
            (match r {
                Ok(()) => caller == old(self).owner && (Fees { trade_fee, protocol_fee }).valid()
                    && *final(self) == (StablePoolContract {
                    pool: StablePoolData {
                        fees: Fees { trade_fee, protocol_fee },
                        ..old(self).pool
                    },
                    ..*old(self)
                }),
                Err(e) => *final(self) == *old(self) && (if caller != old(self).owner {
                    e == StablePoolError::OnlyOwner
                } else {
                    e == StablePoolError::InvalidFee && !(Fees { trade_fee, protocol_fee }).valid()
                }),
            }),
    {
        if caller.id != self.owner.id {
            return Err(StablePoolError::OnlyOwner);
        }
        let fees = match Fees::new(trade_fee, protocol_fee) {
            Some(f) => f,
            None => {
                return Err(StablePoolError::InvalidFee);
            },
        };
        self.pool.fees = fees;
        Ok(())
    }

    /// Sets the amplification coefficient, validating its range. Only the
    /// owner may call this.
    pub fn set_amp_coef(&mut self, caller: AccountId, amp_coef: u128) -> (r: Result<
        (),
        StablePoolError,
    >)
        ensures
            (match r {
                Ok(()) => caller == old(self).owner && MIN_AMP <= amp_coef <= MAX_AMP && *final(self) == (StablePoolContract {
                    pool: StablePoolData { amp_coef, ..old(self).pool },
                    ..*old(self)
                }),
                Err(e) => *final(self) == *old(self) && (if caller != old(self).owner {
                    e == StablePoolError::OnlyOwner
                } else {
                    e == StablePoolError::InvalidAmpCoef && !(MIN_AMP <= amp_coef <= MAX_AMP)
                }),
            }),
    {
        if caller.id != self.owner.id {
            return Err(StablePoolError::OnlyOwner);
        }
        if amp_coef < MIN_AMP || amp_coef > MAX_AMP {
            return Err(StablePoolError::InvalidAmpCoef);
        }
        self.pool.amp_coef = amp_coef;
        Ok(())
    }
}


/// Some pair of positions holds the same token.
pub open spec fn spec_has_duplicate(tokens: Seq<AccountId>) -> bool {
    exists|i: int, j: int| 0 <= i < j < tokens.len() && tokens[i] == tokens[j]
}

fn has_duplicate(tokens: &Vec<AccountId>) -> (r: bool)
    ensures
        r == spec_has_duplicate(tokens@),
{
    let len = tokens.len();
    let mut i: usize = 0;
    while i < len
        invariant
            i <= len,
            len == tokens@.len(),
            forall|a: int, b: int| 0 <= a < b < tokens@.len() && a < i ==> tokens@[a] != tokens@[b],
        decreases len - i,
    {
        let mut j: usize = i + 1;
        while j < len
            invariant
                i < j <= len,
                len == tokens@.len(),
                forall|b: int| i < b < j ==> tokens@[i as int] != tokens@[b],
            decreases len - j,
        {
            if tokens[i] == tokens[j] {
                return true;
            }
            j += 1;
        }
        i += 1;
    }
    false
}

/// `10^e` for exponents up to the common precision.
fn pow10(e: u8) -> (r: u128)
    requires
        e <= 18,
    ensures
        r == pow(10, e as nat),
        1 <= r <= 1_000_000_000_000_000_000,
{
    proof {
        reveal_with_fuel(pow, 19);
    }
    if e == 0 {
        1
    } else if e == 1 {
        10
    } else if e == 2 {
        100
    } else if e == 3 {
        1_000
    } else if e == 4 {
        10_000
    } else if e == 5 {
        100_000
    } else if e == 6 {
        1_000_000
    } else if e == 7 {
        10_000_000
    } else if e == 8 {
        100_000_000
    } else if e == 9 {
        1_000_000_000
    } else if e == 10 {
        10_000_000_000
    } else if e == 11 {
        100_000_000_000
    } else if e == 12 {
        1_000_000_000_000
    } else if e == 13 {
        10_000_000_000_000
    } else if e == 14 {
        100_000_000_000_000
    } else if e == 15 {
        1_000_000_000_000_000
    } else if e == 16 {
        10_000_000_000_000_000
    } else if e == 17 {
        100_000_000_000_000_000
    } else {
        1_000_000_000_000_000_000
    }
}

/// The construction-time validation cascade: the first failing check's
/// error, or `None` when the configuration is admissible.
pub open spec fn spec_new_pool_err(
    tokens: Seq<AccountId>,
    tokens_decimals: Seq<u8>,
    token_rates: Seq<TokenRate>,
    amp_coef: u128,
    fees: Option<Fees>,
) -> Option<StablePoolError> {
    if !(MIN_AMP <= amp_coef <= MAX_AMP) {
        Some(StablePoolError::InvalidAmpCoef)
    } else if spec_has_duplicate(tokens) {
        Some(StablePoolError::IdenticalTokenId)
    } else if !(tokens.len() == tokens_decimals.len() && tokens.len() == token_rates.len()
        && tokens.len() > 1 && tokens.len() <= MAX_COINS) {
        Some(StablePoolError::IncorrectTokenCount)
    } else if exists|k: int| 0 <= k < tokens_decimals.len() && tokens_decimals[k] > TOKEN_TARGET_DECIMALS {
        Some(StablePoolError::TooLargeTokenDecimal)
    } else if fees is None {
        Some(StablePoolError::InvalidFee)
    } else {
        None
    }
}

/// The state a freshly constructed pool holds.
pub open spec fn spec_fresh_pool(
    s: StablePoolContract,
    tokens: Seq<AccountId>,
    tokens_decimals: Seq<u8>,
    token_rates: Seq<TokenRate>,
    amp_coef: u128,
    owner: AccountId,
    fees: Fees,
    fee_receiver: Option<AccountId>,
) -> bool {
    &&& s.owner == owner
    &&& s.pool.tokens@ == tokens
    &&& s.pool.precisions@.len() == tokens.len()
    &&& (forall|k: int|
        0 <= k < tokens.len() ==> s.pool.precisions@[k] == pow(
            10,
            (TOKEN_TARGET_DECIMALS - tokens_decimals[k]) as nat,
        ))
    &&& s.pool.reserves@.len() == tokens.len()
    &&& (forall|k: int| 0 <= k < tokens.len() ==> s.pool.reserves@[k] == 0)
    &&& s.pool.token_rates@ == token_rates
    &&& s.pool.amp_coef == amp_coef
    &&& s.pool.fees == fees
    &&& s.pool.fee_receiver == fee_receiver
    &&& s.psp22.spec_total_supply() == 0
    &&& (forall|a: AccountId| s.psp22.spec_balance_of(a) == 0)
    &&& (forall|a: AccountId, b: AccountId| s.psp22.spec_allowance(a, b) == 0)
    &&& s.wf()
}

impl StablePoolContract {
    /// Builds a pool over the given tokens, decimals and rate entries,
    /// validating the whole configuration; reserves start empty.
    ///
    /// Succeeds if and only if [`spec_new_pool_err`] finds nothing wrong,
    /// and then the state satisfies [`spec_fresh_pool`].
    #[verifier::loop_isolation(false)]
    pub fn new_pool(
        tokens: Vec<AccountId>,
        tokens_decimals: Vec<u8>,
        token_rates: Vec<TokenRate>,
        amp_coef: u128,
        owner: AccountId,
        fees: Option<Fees>,
        fee_receiver: Option<AccountId>,
    ) -> (r: Result<StablePoolContract, StablePoolError>)
        ensures
            (match r {
                Ok(s) => spec_new_pool_err(
                    tokens@,
                    tokens_decimals@,
                    token_rates@,
                    amp_coef,
                    fees,
                ) is None && (fees matches Some(f) && spec_fresh_pool(
                    s,
                    tokens@,
                    tokens_decimals@,
                    token_rates@,
                    amp_coef,
                    owner,
                    f,
                    fee_receiver,
                )),
                Err(e) => spec_new_pool_err(
                    tokens@,
                    tokens_decimals@,
                    token_rates@,
                    amp_coef,
                    fees,
                ) == Some(e),
            }),
    {
        if amp_coef < MIN_AMP || amp_coef > MAX_AMP {
            return Err(StablePoolError::InvalidAmpCoef);
        }
        if has_duplicate(&tokens) {
            return Err(StablePoolError::IdenticalTokenId);
        }
        let token_count = tokens.len();
        if !(token_count == tokens_decimals.len() && token_count == token_rates.len()
            && token_count > 1 && token_count <= MAX_COINS) {
            return Err(StablePoolError::IncorrectTokenCount);
        }
        let mut k: usize = 0;
        while k < token_count
            invariant
                k <= token_count,
                token_count == tokens_decimals@.len(),
                forall|m: int| 0 <= m < k ==> tokens_decimals@[m] <= TOKEN_TARGET_DECIMALS,
            decreases token_count - k,
        {
            if tokens_decimals[k] > TOKEN_TARGET_DECIMALS {
                return Err(StablePoolError::TooLargeTokenDecimal);
            }
            k += 1;
        }
        let fees = match fees {
            Some(f) => f,
            None => {
                return Err(StablePoolError::InvalidFee);
            },
        };
        let mut precisions: Vec<u128> = Vec::new();
        let mut reserves: Vec<u128> = Vec::new();
        let mut i: usize = 0;
        while i < token_count
            invariant
                i <= token_count,
                token_count == tokens_decimals@.len(),
                precisions@.len() == i,
                reserves@.len() == i,
                forall|m: int| 0 <= m < token_count ==> tokens_decimals@[m] <= TOKEN_TARGET_DECIMALS,
                forall|m: int|
                    0 <= m < i ==> precisions@[m] == pow(
                        10,
                        (TOKEN_TARGET_DECIMALS - tokens_decimals@[m]) as nat,
                    ),
                forall|m: int| 0 <= m < i ==> reserves@[m] == 0,
            decreases token_count - i,
        {
            precisions.push(pow10(TOKEN_TARGET_DECIMALS - tokens_decimals[i]));
            reserves.push(0);
            i += 1;
        }
        Ok(
            StablePoolContract {
                owner,
                pool: StablePoolData {
                    tokens,
                    precisions,
                    reserves,
                    token_rates,
                    amp_coef,
                    fees,
                    fee_receiver,
                },
                psp22: PSP22Data::new(),
            },
        )
    }

    /// Builds a pool whose every token has the constant unit rate: the
    /// plain stable-pool constructor.
    #[verifier::loop_isolation(false)]
    pub fn new_stable(
        tokens: Vec<AccountId>,
        tokens_decimals: Vec<u8>,
        init_amp_coef: u128,
        owner: AccountId,
        trade_fee: u32,
        protocol_fee: u32,
        fee_receiver: Option<AccountId>,
    ) -> (r: Result<StablePoolContract, StablePoolError>)
        ensures
            (match r {
                Ok(s) => spec_new_pool_err(
                    tokens@,
                    tokens_decimals@,
                    Seq::new(tokens@.len(), |i: int| TokenRate::Constant(RATE_PRECISION)),
                    init_amp_coef,
                    Fees::new(trade_fee, protocol_fee),
                ) is None && (Fees::new(trade_fee, protocol_fee) matches Some(f)
                    && spec_fresh_pool(
                    s,
                    tokens@,
                    tokens_decimals@,
                    Seq::new(tokens@.len(), |i: int| TokenRate::Constant(RATE_PRECISION)),
                    init_amp_coef,
                    owner,
                    f,
                    fee_receiver,
                )),
                Err(e) => spec_new_pool_err(
                    tokens@,
                    tokens_decimals@,
                    Seq::new(tokens@.len(), |i: int| TokenRate::Constant(RATE_PRECISION)),
                    init_amp_coef,
                    Fees::new(trade_fee, protocol_fee),
                ) == Some(e),
            }),
    {
        let len = tokens.len();
        let mut token_rates: Vec<TokenRate> = Vec::new();
        let mut i: usize = 0;
        while i < len
            invariant
                i <= len,
                token_rates@.len() == i,
                forall|m: int| 0 <= m < i ==> token_rates@[m] == TokenRate::Constant(RATE_PRECISION),
            decreases len - i,
        {
            token_rates.push(TokenRate::new_constant(RATE_PRECISION));
            i += 1;
        }
        proof {
            assert(token_rates@ =~= Seq::new(
                tokens@.len(),
                |i: int| TokenRate::Constant(RATE_PRECISION),
            ));
        }
        Self::new_pool(
            tokens,
            tokens_decimals,
            token_rates,
            init_amp_coef,
            owner,
            Fees::new(trade_fee, protocol_fee),
            fee_receiver,
        )
    }

    /// Builds a pool in which some tokens carry an external rate oracle,
    /// each seeded with the oracle reading in `initial_rates`; the rest
    /// get the constant unit rate.
    #[verifier::loop_isolation(false)]
    pub fn new_rated(
        tokens: Vec<AccountId>,
        tokens_decimals: Vec<u8>,
        external_rates: Vec<Option<AccountId>>,
        rate_expiration_duration_ms: u64,
        init_amp_coef: u128,
        owner: AccountId,
        trade_fee: u32,
        protocol_fee: u32,
        fee_receiver: Option<AccountId>,
        current_time: u64,
        initial_rates: Vec<u128>,
    ) -> (r: Result<StablePoolContract, StablePoolError>)
        requires
            initial_rates@.len() == external_rates@.len(),
        ensures
            (match r {
                Ok(s) => spec_new_pool_err(
                    tokens@,
                    tokens_decimals@,
                    spec_rated_entries(
                        external_rates@,
                        initial_rates@,
                        current_time,
                        rate_expiration_duration_ms,
                    ),
                    init_amp_coef,
                    Fees::new(trade_fee, protocol_fee),
                ) is None && (Fees::new(trade_fee, protocol_fee) matches Some(f)
                    && spec_fresh_pool(
                    s,
                    tokens@,
                    tokens_decimals@,
                    spec_rated_entries(
                        external_rates@,
                        initial_rates@,
                        current_time,
                        rate_expiration_duration_ms,
                    ),
                    init_amp_coef,
                    owner,
                    f,
                    fee_receiver,
                )),
                Err(e) => spec_new_pool_err(
                    tokens@,
                    tokens_decimals@,
                    spec_rated_entries(
                        external_rates@,
                        initial_rates@,
                        current_time,
                        rate_expiration_duration_ms,
                    ),
                    init_amp_coef,
                    Fees::new(trade_fee, protocol_fee),
                ) == Some(e),
            }),
    {
        let len = external_rates.len();
        let mut token_rates: Vec<TokenRate> = Vec::new();
        let mut i: usize = 0;
        while i < len
            invariant
                i <= len,
                len == external_rates@.len() == initial_rates@.len(),
                token_rates@.len() == i,
                forall|m: int|
                    0 <= m < i ==> token_rates@[m] == spec_rated_entries(
                        external_rates@,
                        initial_rates@,
                        current_time,
                        rate_expiration_duration_ms,
                    )[m],
            decreases len - i,
        {
            let entry = match external_rates[i] {
                Some(contract) => TokenRate::new_external(
                    current_time,
                    contract,
                    rate_expiration_duration_ms,
                    initial_rates[i],
                ),
                None => TokenRate::new_constant(RATE_PRECISION),
            };
            token_rates.push(entry);
            i += 1;
        }
        proof {
            assert(token_rates@ =~= spec_rated_entries(
                external_rates@,
                initial_rates@,
                current_time,
                rate_expiration_duration_ms,
            ));
        }
        Self::new_pool(
            tokens,
            tokens_decimals,
            token_rates,
            init_amp_coef,
            owner,
            Fees::new(trade_fee, protocol_fee),
            fee_receiver,
        )
    }
}

/// The rate entries a rated pool starts with: an external entry seeded
/// with its initial oracle reading where an oracle is given, else the
/// constant unit rate.
pub open spec fn spec_rated_entries(
    external_rates: Seq<Option<AccountId>>,
    initial_rates: Seq<u128>,
    current_time: u64,
    expiration_ms: u64,
) -> Seq<TokenRate> {
    Seq::new(
        external_rates.len(),
        |i: int|
            match external_rates[i] {
                Some(contract) => TokenRate::External(
                    crate::token_rate::ExternalTokenRate {
                        cached_token_rate: initial_rates[i],
                        last_token_rate_update_ts: current_time,
                        token_rate_contract: contract,
                        expiration_duration_ms: expiration_ms,
                    },
                ),
                None => TokenRate::Constant(RATE_PRECISION),
            },
    )
}


/// The LP shares to mint to the fee receiver for a collected swap fee
/// `fee` on token `token_id`, valued at the post-swap share price; zero
/// when no receiver is set or the protocol portion vanishes.
/// A deposit vector holding `amount` at position `idx` and zero elsewhere.
pub open spec fn spec_unit_amounts(len: nat, idx: int, amount: u128) -> Seq<u128> {
    Seq::new(len, |k: int| if k == idx { amount } else { 0u128 })
}

pub open spec fn spec_protocol_fee_lp(
    s: StablePoolContract,
    scaled: Seq<u128>,
    reserves_after: Seq<u128>,
    fee: u128,
    token_id: int,
) -> Result<u128, StablePoolError> {
    match s.pool.fee_receiver {
        None => Ok(0),
        Some(_) => match s.pool.fees.spec_protocol_trade_fee(fee) {
            Err(e) => Err(StablePoolError::MathError(e)),
            Ok(pf) => if pf == 0 {
                Ok(0)
            } else if reserves_after[token_id] < pf {
                Err(StablePoolError::MathError(MathError::SubUnderflow(102)))
            } else {
                let r2 = reserves_after.update(
                    token_id,
                    (reserves_after[token_id] - pf) as u128,
                );
                let dep = spec_unit_amounts(reserves_after.len(), token_id, pf);
                match crate::math::spec_rated_lp_for_deposit(
                    scaled,
                    dep,
                    r2,
                    s.psp22.spec_total_supply(),
                    None,
                    s.pool.amp_coef,
                ) {
                    Err(e) => Err(StablePoolError::MathError(e)),
                    Ok((lp, fee_part)) => Ok(lp),
                }
            },
        },
    }
}

impl StablePoolContract {
    /// Executable form of [`spec_protocol_fee_lp`].
    #[verifier::loop_isolation(false)]
    fn protocol_fee_lp(
        &self,
        scaled: &Vec<u128>,
        reserves_after: &Vec<u128>,
        fee: u128,
        token_id: usize,
    ) -> (r: Result<u128, StablePoolError>)
        requires
            self.wf(),
            scaled@.len() == self.pool.tokens@.len(),
            reserves_after@.len() == self.pool.tokens@.len(),
            token_id < self.pool.tokens@.len(),
        ensures
            r == spec_protocol_fee_lp(*self, scaled@, reserves_after@, fee, token_id as int),
    {
        if self.pool.fee_receiver.is_none() {
            return Ok(0);
        }
        let pf = match self.pool.fees.protocol_trade_fee(fee) {
            Ok(v) => v,
            Err(e) => {
                return Err(StablePoolError::MathError(e));
            },
        };
        if pf == 0 {
            return Ok(0);
        }
        if reserves_after[token_id] < pf {
            return Err(StablePoolError::MathError(MathError::SubUnderflow(102)));
        }
        let len = reserves_after.len();
        let mut r2: Vec<u128> = Vec::new();
        let mut dep: Vec<u128> = Vec::new();
        let mut k: usize = 0;
        while k < len
            invariant
                k <= len,
                r2@.len() == k,
                dep@.len() == k,
                forall|m: int|
                    0 <= m < k ==> r2@[m] == (if m == token_id as int {
                        (reserves_after@[m] - pf) as u128
                    } else {
                        reserves_after@[m]
                    }),
                forall|m: int|
                    0 <= m < k ==> dep@[m] == (if m == token_id as int {
                        pf
                    } else {
                        0u128
                    }),
            decreases len - k,
        {
            if k == token_id {
                r2.push(reserves_after[k] - pf);
                dep.push(pf);
            } else {
                r2.push(reserves_after[k]);
                dep.push(0);
            }
            k += 1;
        }
        proof {
            assert(r2@ =~= reserves_after@.update(
                token_id as int,
                (reserves_after@[token_id as int] - pf) as u128,
            ));
            assert(dep@ =~= spec_unit_amounts(reserves_after@.len(), token_id as int, pf));
        }
        match crate::math::rated_compute_lp_amount_for_deposit(
            scaled,
            &dep,
            &r2,
            self.psp22.total_supply(),
            None,
            self.pool.amp_coef,
        ) {
            Ok((lp, _)) => Ok(lp),
            Err(e) => Err(StablePoolError::MathError(e)),
        }
    }

    // --- quotes -----------------------------------------------------------

    /// The `(amount_out, fee)` a swap of `token_in_amount` would yield
    /// right now, under rates refreshed at `now`.
    pub open spec fn spec_get_swap_amount_out(
        self,
        now: u64,
        fresh: Seq<u128>,
        token_in: AccountId,
        token_out: AccountId,
        token_in_amount: u128,
    ) -> Result<(u128, u128), StablePoolError> {
        match self.spec_check_tokens(token_in, token_out) {
            Err(e) => Err(e),
            Ok((i, j)) => {
                let rates2 = spec_refreshed(self.pool.token_rates@, now, fresh);
                match spec_scaled_rates(rates2, self.pool.precisions@) {
                    Err(e) => Err(StablePoolError::MathError(e)),
                    Ok(scaled) => match crate::math::spec_rated_swap_to(
                        scaled,
                        i,
                        token_in_amount,
                        j,
                        self.pool.reserves@,
                        self.pool.fees,
                        self.pool.amp_coef,
                    ) {
                        Err(e) => Err(StablePoolError::MathError(e)),
                        Ok(v) => Ok(v),
                    },
                }
            },
        }
    }

    /// Quotes a swap given the amount paid in, refreshing cached rates
    /// transiently; the pool itself is unchanged.
    pub fn get_swap_amount_out(
        &self,
        now: u64,
        oracle_rates: &Vec<u128>,
        token_in: AccountId,
        token_out: AccountId,
        token_in_amount: u128,
    ) -> (r: Result<(u128, u128), StablePoolError>)
        requires
            self.wf(),
            oracle_rates@.len() == self.pool.tokens@.len(),
        ensures
            r == self.spec_get_swap_amount_out(
                now,
                oracle_rates@,
                token_in,
                token_out,
                token_in_amount,
            ),
    {
        let (i, j) = self.check_tokens(token_in, token_out)?;
        let rates2 = self.refreshed_rates(now, oracle_rates);
        let scaled = match self.scaled_rates(&rates2) {
            Ok(v) => v,
            Err(e) => {
                return Err(StablePoolError::MathError(e));
            },
        };
        match crate::math::rated_swap_to(
            &scaled,
            i,
            token_in_amount,
            j,
            &self.pool.reserves,
            &self.pool.fees,
            self.pool.amp_coef,
        ) {
            Ok(v) => Ok(v),
            Err(e) => Err(StablePoolError::MathError(e)),
        }
    }

    /// The `(amount_in, fee)` required to receive `token_out_amount`
    /// right now, under rates refreshed at `now`.
    pub open spec fn spec_get_swap_amount_in(
        self,
        now: u64,
        fresh: Seq<u128>,
        token_in: AccountId,
        token_out: AccountId,
        token_out_amount: u128,
    ) -> Result<(u128, u128), StablePoolError> {
        match self.spec_check_tokens(token_in, token_out) {
            Err(e) => Err(e),
            Ok((i, j)) => {
                let rates2 = spec_refreshed(self.pool.token_rates@, now, fresh);
                match spec_scaled_rates(rates2, self.pool.precisions@) {
                    Err(e) => Err(StablePoolError::MathError(e)),
                    Ok(scaled) => match crate::math::spec_rated_swap_from(
                        scaled,
                        j,
                        token_out_amount,
                        i,
                        self.pool.reserves@,
                        self.pool.fees,
                        self.pool.amp_coef,
                    ) {
                        Err(e) => Err(StablePoolError::MathError(e)),
                        Ok(v) => Ok(v),
                    },
                }
            },
        }
    }

    /// Quotes a swap given the net amount to be paid out, refreshing
    /// cached rates transiently; the pool itself is unchanged.
    pub fn get_swap_amount_in(
        &self,
        now: u64,
        oracle_rates: &Vec<u128>,
        token_in: AccountId,
        token_out: AccountId,
        token_out_amount: u128,
    ) -> (r: Result<(u128, u128), StablePoolError>)
        requires
            self.wf(),
            oracle_rates@.len() == self.pool.tokens@.len(),
        ensures
            r == self.spec_get_swap_amount_in(
                now,
                oracle_rates@,
                token_in,
                token_out,
                token_out_amount,
            ),
    {
        let (i, j) = self.check_tokens(token_in, token_out)?;
        let rates2 = self.refreshed_rates(now, oracle_rates);
        let scaled = match self.scaled_rates(&rates2) {
            Ok(v) => v,
            Err(e) => {
                return Err(StablePoolError::MathError(e));
            },
        };
        match crate::math::rated_swap_from(
            &scaled,
            i,
            token_out_amount,
            j,
            &self.pool.reserves,
            &self.pool.fees,
            self.pool.amp_coef,
        ) {
            Ok(v) => Ok(v),
            Err(e) => Err(StablePoolError::MathError(e)),
        }
    }

    /// The `(shares, fee_part)` a deposit of `amounts` would mint.
    pub open spec fn spec_get_mint_liquidity_for_amounts(
        self,
        now: u64,
        fresh: Seq<u128>,
        amounts: Seq<u128>,
    ) -> Result<(u128, u128), StablePoolError> {
        if amounts.len() != self.pool.tokens@.len() {
            Err(StablePoolError::IncorrectAmountsCount)
        } else {
            let rates2 = spec_refreshed(self.pool.token_rates@, now, fresh);
            match spec_scaled_rates(rates2, self.pool.precisions@) {
                Err(e) => Err(StablePoolError::MathError(e)),
                Ok(scaled) => match crate::math::spec_rated_lp_for_deposit(
                    scaled,
                    amounts,
                    self.pool.reserves@,
                    self.psp22.spec_total_supply(),
                    Some(self.pool.fees),
                    self.pool.amp_coef,
                ) {
                    Err(e) => Err(StablePoolError::MathError(e)),
                    Ok(v) => Ok(v),
                },
            }
        }
    }

    /// Quotes the LP shares minted for a deposit of `amounts`, with the
    /// share-denominated fee part.
    pub fn get_mint_liquidity_for_amounts(
        &self,
        now: u64,
        oracle_rates: &Vec<u128>,
        amounts: &Vec<u128>,
    ) -> (r: Result<(u128, u128), StablePoolError>)
        requires
            self.wf(),
            oracle_rates@.len() == self.pool.tokens@.len(),
        ensures
            r == self.spec_get_mint_liquidity_for_amounts(now, oracle_rates@, amounts@),
    {
        if amounts.len() != self.pool.tokens.len() {
            return Err(StablePoolError::IncorrectAmountsCount);
        }
        let rates2 = self.refreshed_rates(now, oracle_rates);
        let scaled = match self.scaled_rates(&rates2) {
            Ok(v) => v,
            Err(e) => {
                return Err(StablePoolError::MathError(e));
            },
        };
        match crate::math::rated_compute_lp_amount_for_deposit(
            &scaled,
            amounts,
            &self.pool.reserves,
            self.psp22.total_supply(),
            Some(&self.pool.fees),
            self.pool.amp_coef,
        ) {
            Ok(v) => Ok(v),
            Err(e) => Err(StablePoolError::MathError(e)),
        }
    }

    /// The `(shares, fee_part)` a withdrawal of `amounts` would burn.
    pub open spec fn spec_get_burn_liquidity_for_amounts(
        self,
        now: u64,
        fresh: Seq<u128>,
        amounts: Seq<u128>,
    ) -> Result<(u128, u128), StablePoolError> {
        if amounts.len() != self.pool.tokens@.len() {
            Err(StablePoolError::IncorrectAmountsCount)
        } else {
            let rates2 = spec_refreshed(self.pool.token_rates@, now, fresh);
            match spec_scaled_rates(rates2, self.pool.precisions@) {
                Err(e) => Err(StablePoolError::MathError(e)),
                Ok(scaled) => match crate::math::spec_rated_lp_for_withdraw(
                    scaled,
                    amounts,
                    self.pool.reserves@,
                    self.psp22.spec_total_supply(),
                    Some(self.pool.fees),
                    self.pool.amp_coef,
                ) {
                    Err(e) => Err(StablePoolError::MathError(e)),
                    Ok(v) => Ok(v),
                },
            }
        }
    }

    /// Quotes the LP shares burned for a withdrawal of `amounts`, with
    /// the share-denominated fee part.
    pub fn get_burn_liquidity_for_amounts(
        &self,
        now: u64,
        oracle_rates: &Vec<u128>,
        amounts: &Vec<u128>,
    ) -> (r: Result<(u128, u128), StablePoolError>)
        requires
            self.wf(),
            oracle_rates@.len() == self.pool.tokens@.len(),
        ensures
            r == self.spec_get_burn_liquidity_for_amounts(now, oracle_rates@, amounts@),
    {
        if amounts.len() != self.pool.tokens.len() {
            return Err(StablePoolError::IncorrectAmountsCount);
        }
        let rates2 = self.refreshed_rates(now, oracle_rates);
        let scaled = match self.scaled_rates(&rates2) {
            Ok(v) => v,
            Err(e) => {
                return Err(StablePoolError::MathError(e));
            },
        };
        match crate::math::rated_compute_lp_amount_for_withdraw(
            &scaled,
            amounts,
            &self.pool.reserves,
            self.psp22.total_supply(),
            Some(&self.pool.fees),
            self.pool.amp_coef,
        ) {
            Ok(v) => Ok(v),
            Err(e) => Err(StablePoolError::MathError(e)),
        }
    }

    /// The balanced deposit amounts that mint `liquidity` shares.
    pub fn get_amounts_for_liquidity_mint(&self, liquidity: u128) -> (r: Result<
        Vec<u128>,
        StablePoolError,
    >)
        ensures
            (match r {
                Ok(v) => crate::math::spec_amounts_given_lp(
                    liquidity,
                    self.pool.reserves@,
                    self.psp22.spec_total_supply(),
                ) == Ok::<Seq<u128>, MathError>(v@),
                Err(e) => exists|m: MathError|
                    e == StablePoolError::MathError(m) && crate::math::spec_amounts_given_lp(
                        liquidity,
                        self.pool.reserves@,
                        self.psp22.spec_total_supply(),
                    ) == Err::<Seq<u128>, MathError>(m),
            }),
    {
        match crate::math::compute_amounts_given_lp(
            liquidity,
            &self.pool.reserves,
            self.psp22.total_supply(),
        ) {
            Ok(v) => Ok(v),
            Err(e) => Err(StablePoolError::MathError(e)),
        }
    }

    /// The balanced withdrawal amounts for burning `liquidity` shares.
    pub fn get_amounts_for_liquidity_burn(&self, liquidity: u128) -> (r: Result<
        Vec<u128>,
        StablePoolError,
    >)
        ensures
            (match r {
                Ok(v) => crate::math::spec_amounts_given_lp(
                    liquidity,
                    self.pool.reserves@,
                    self.psp22.spec_total_supply(),
                ) == Ok::<Seq<u128>, MathError>(v@),
                Err(e) => exists|m: MathError|
                    e == StablePoolError::MathError(m) && crate::math::spec_amounts_given_lp(
                        liquidity,
                        self.pool.reserves@,
                        self.psp22.spec_total_supply(),
                    ) == Err::<Seq<u128>, MathError>(m),
            }),
    {
        match crate::math::compute_amounts_given_lp(
            liquidity,
            &self.pool.reserves,
            self.psp22.total_supply(),
        ) {
            Ok(v) => Ok(v),
            Err(e) => Err(StablePoolError::MathError(e)),
        }
    }
}


/// Everything a swap determines: the refreshed rate entries, the updated
/// reserves, the two leg amounts, the collected fee and the LP shares
/// minted to the fee receiver.
pub struct SwapOutcome {
    pub new_rates: Seq<TokenRate>,
    pub new_reserves: Seq<u128>,
    pub amount_in: u128,
    pub amount_out: u128,
    pub fee: u128,
    pub protocol_lp: u128,
}

/// The swap-exact-in transition: what [`StablePoolContract::swap_exact_in`]
/// does to the pool, or the first error it meets, in the order the
/// operation checks them.
pub open spec fn spec_swap_exact_in(
    s: StablePoolContract,
    now: u64,
    fresh: Seq<u128>,
    token_in: AccountId,
    token_out: AccountId,
    token_in_amount: u128,
    min_token_out_amount: u128,
) -> Result<SwapOutcome, StablePoolError> {
    match s.spec_check_tokens(token_in, token_out) {
        Err(e) => Err(e),
        Ok((i, j)) => if token_in_amount == 0 {
            Err(StablePoolError::InsufficientInputAmount)
        } else {
            spec_swap_core(s, now, fresh, i, j, token_in_amount, min_token_out_amount)
        },
    }
}

/// The common trunk of [`spec_swap_exact_in`] and the received-balance
/// variant, entered once the paid-in amount is known and positive.
pub open spec fn spec_swap_core(
    s: StablePoolContract,
    now: u64,
    fresh: Seq<u128>,
    i: int,
    j: int,
    amount_in: u128,
    min_token_out_amount: u128,
) -> Result<SwapOutcome, StablePoolError> {
    let rates2 = spec_refreshed(s.pool.token_rates@, now, fresh);
    match spec_scaled_rates(rates2, s.pool.precisions@) {
        Err(e) => Err(StablePoolError::MathError(e)),
        Ok(scaled) => match crate::math::spec_rated_swap_to(
            scaled,
            i,
            amount_in,
            j,
            s.pool.reserves@,
            s.pool.fees,
            s.pool.amp_coef,
        ) {
            Err(e) => Err(StablePoolError::MathError(e)),
            Ok((amount_out, fee)) => if amount_out < min_token_out_amount {
                Err(StablePoolError::InsufficientOutputAmount)
            } else if s.pool.reserves@[i] + amount_in >= lim128() {
                Err(StablePoolError::MathError(MathError::AddOverflow(101)))
            } else if s.pool.reserves@[j] < amount_out {
                Err(StablePoolError::MathError(MathError::SubUnderflow(101)))
            } else {
                let reserves2 = s.pool.reserves@.update(
                    i,
                    (s.pool.reserves@[i] + amount_in) as u128,
                ).update(j, (s.pool.reserves@[j] - amount_out) as u128);
                match spec_protocol_fee_lp(s, scaled, reserves2, fee, j) {
                    Err(e) => Err(e),
                    Ok(lp) => if s.psp22.spec_total_supply() + lp >= lim128() {
                        Err(StablePoolError::PSP22Error(PSP22Error::SupplyOverflow))
                    } else {
                        Ok(
                            SwapOutcome {
                                new_rates: rates2,
                                new_reserves: reserves2,
                                amount_in,
                                amount_out,
                                fee,
                                protocol_lp: lp,
                            },
                        )
                    },
                }
            },
        },
    }
}

/// The swap-exact-out transition: what
/// [`StablePoolContract::swap_exact_out`] does to the pool, or the first
/// error it meets, in the order the operation checks them.
pub open spec fn spec_swap_exact_out(
    s: StablePoolContract,
    now: u64,
    fresh: Seq<u128>,
    token_in: AccountId,
    token_out: AccountId,
    token_out_amount: u128,
    max_token_in_amount: u128,
) -> Result<SwapOutcome, StablePoolError> {
    match s.spec_check_tokens(token_in, token_out) {
        Err(e) => Err(e),
        Ok((i, j)) => if token_out_amount == 0 {
            Err(StablePoolError::InsufficientOutputAmount)
        } else {
            let rates2 = spec_refreshed(s.pool.token_rates@, now, fresh);
            match spec_scaled_rates(rates2, s.pool.precisions@) {
                Err(e) => Err(StablePoolError::MathError(e)),
                Ok(scaled) => match crate::math::spec_rated_swap_from(
                    scaled,
                    j,
                    token_out_amount,
                    i,
                    s.pool.reserves@,
                    s.pool.fees,
                    s.pool.amp_coef,
                ) {
                    Err(e) => Err(StablePoolError::MathError(e)),
                    Ok((amount_in, fee)) => if amount_in > max_token_in_amount {
                        Err(StablePoolError::TooLargeInputAmount)
                    } else if s.pool.reserves@[i] + amount_in >= lim128() {
                        Err(StablePoolError::MathError(MathError::AddOverflow(101)))
                    } else if s.pool.reserves@[j] < token_out_amount {
                        Err(StablePoolError::MathError(MathError::SubUnderflow(101)))
                    } else {
                        let reserves2 = s.pool.reserves@.update(
                            i,
                            (s.pool.reserves@[i] + amount_in) as u128,
                        ).update(j, (s.pool.reserves@[j] - token_out_amount) as u128);
                        match spec_protocol_fee_lp(s, scaled, reserves2, fee, j) {
                            Err(e) => Err(e),
                            Ok(lp) => if s.psp22.spec_total_supply() + lp >= lim128() {
                                Err(StablePoolError::PSP22Error(PSP22Error::SupplyOverflow))
                            } else if amount_in == 0 {
                                Err(StablePoolError::InsufficientInputAmount)
                            } else {
                                Ok(
                                    SwapOutcome {
                                        new_rates: rates2,
                                        new_reserves: reserves2,
                                        amount_in,
                                        amount_out: token_out_amount,
                                        fee,
                                        protocol_lp: lp,
                                    },
                                )
                            },
                        }
                    },
                },
            }
        },
    }
}

/// The received-balance swap transition: the paid-in amount is the excess
/// of the pool's actual `token_in` balance over its recorded reserve.
pub open spec fn spec_swap_received(
    s: StablePoolContract,
    now: u64,
    fresh: Seq<u128>,
    token_in: AccountId,
    token_out: AccountId,
    token_in_balance: u128,
    min_token_out_amount: u128,
) -> Result<SwapOutcome, StablePoolError> {
    match s.spec_check_tokens(token_in, token_out) {
        Err(e) => Err(e),
        Ok((i, j)) => if token_in_balance < s.pool.reserves@[i] {
            Err(StablePoolError::MathError(MathError::SubUnderflow(103)))
        } else if token_in_balance == s.pool.reserves@[i] {
            Err(StablePoolError::InsufficientInputAmount)
        } else {
            spec_swap_core(
                s,
                now,
                fresh,
                i,
                j,
                (token_in_balance - s.pool.reserves@[i]) as u128,
                min_token_out_amount,
            )
        },
    }
}

impl StablePoolContract {
    /// How a successful swap changes the pool, given its outcome.
    pub open spec fn spec_swap_applied(self, pre: StablePoolContract, o: SwapOutcome) -> bool {
        &&& self.owner == pre.owner
        &&& self.pool.tokens@ == pre.pool.tokens@
        &&& self.pool.precisions@ == pre.pool.precisions@
        &&& self.pool.amp_coef == pre.pool.amp_coef
        &&& self.pool.fees == pre.pool.fees
        &&& self.pool.fee_receiver == pre.pool.fee_receiver
        &&& self.pool.token_rates@ == o.new_rates
        &&& self.pool.reserves@ == o.new_reserves
        &&& self.psp22.spec_total_supply() == pre.psp22.spec_total_supply() + o.protocol_lp
        &&& (forall|a: AccountId|
            self.psp22.spec_balance_of(a) == pre.psp22.spec_balance_of(a) + (
            if pre.pool.fee_receiver == Some(a) {
                o.protocol_lp as int
            } else {
                0
            }))
        &&& self.psp22.allowances@ == pre.psp22.allowances@
    }

    /// Applies a computed swap to the pool: commits the refreshed rates
    /// and updated reserves, and mints the protocol-fee shares.
    fn commit_swap(&mut self, new_rates: Vec<TokenRate>, new_reserves: Vec<u128>, lp: u128)
        requires
            old(self).wf(),
            new_reserves@.len() == old(self).pool.tokens@.len(),
            new_rates@.len() == old(self).pool.tokens@.len(),
            old(self).psp22.spec_total_supply() + lp < lim128(),
            lp > 0 ==> old(self).pool.fee_receiver is Some,
        ensures
            final(self).wf(),
            final(self).spec_swap_applied(
                *old(self),
                SwapOutcome {
                    new_rates: new_rates@,
                    new_reserves: new_reserves@,
                    amount_in: 0,
                    amount_out: 0,
                    fee: 0,
                    protocol_lp: lp,
                },
            ),
    {
        self.pool.token_rates = new_rates;
        self.pool.reserves = new_reserves;
        if lp > 0 {
            match self.pool.fee_receiver {
                Some(fee_to) => {
                    let minted = self.psp22.mint(fee_to, lp);
                    proof {
                        assert(minted is Ok);
                    }
                },
                None => {
                    proof {
                        assert(false);
                    }
                },
            }
        }
    }

    /// Swaps `token_in_amount` of `token_in` for `token_out`, requiring at
    /// least `min_token_out_amount` out. The caller transfers the input
    /// before, and the output to `to` after, this accounting step.
    ///
    /// Returns `(amount_out, fee)` exactly as [`spec_swap_exact_in`]
    /// determines them; on any error the pool is unchanged.
    pub fn swap_exact_in(
        &mut self,
        now: u64,
        oracle_rates: &Vec<u128>,
        token_in: AccountId,
        token_out: AccountId,
        token_in_amount: u128,
        min_token_out_amount: u128,
        to: AccountId,
    ) -> (r: Result<(u128, u128), StablePoolError>)
        requires
            old(self).wf(),
            oracle_rates@.len() == old(self).pool.tokens@.len(),
        ensures
            final(self).wf(),
            (match r {
                Ok((amount_out, fee)) => (spec_swap_exact_in(
                    *old(self),
                    now,
                    oracle_rates@,
                    token_in,
                    token_out,
                    token_in_amount,
                    min_token_out_amount,
                ) matches Ok(o) && amount_out == o.amount_out && fee == o.fee && final(self).spec_swap_applied(*old(self), o)),
                Err(e) => spec_swap_exact_in(
                    *old(self),
                    now,
                    oracle_rates@,
                    token_in,
                    token_out,
                    token_in_amount,
                    min_token_out_amount,
                ) == Err::<SwapOutcome, StablePoolError>(e) && *final(self) == *old(self),
            }),
    {
        let (i, j) = self.check_tokens(token_in, token_out)?;
        if token_in_amount == 0 {
            return Err(StablePoolError::InsufficientInputAmount);
        }
        self.swap_core(now, oracle_rates, i, j, token_in_amount, min_token_out_amount)
    }

    /// The executable trunk shared by the exact-in and received-balance
    /// swaps.
    fn swap_core(
        &mut self,
        now: u64,
        oracle_rates: &Vec<u128>,
        i: usize,
        j: usize,
        amount_in: u128,
        min_token_out_amount: u128,
    ) -> (r: Result<(u128, u128), StablePoolError>)
        requires
            old(self).wf(),
            oracle_rates@.len() == old(self).pool.tokens@.len(),
            i < old(self).pool.tokens@.len(),
            j < old(self).pool.tokens@.len(),
            i != j,
            amount_in > 0,
        ensures
            final(self).wf(),
            (match r {
                Ok((amount_out, fee)) => (spec_swap_core(
                    *old(self),
                    now,
                    oracle_rates@,
                    i as int,
                    j as int,
                    amount_in,
                    min_token_out_amount,
                ) matches Ok(o) && amount_out == o.amount_out && fee == o.fee && final(self).spec_swap_applied(*old(self), o)),
                Err(e) => spec_swap_core(
                    *old(self),
                    now,
                    oracle_rates@,
                    i as int,
                    j as int,
                    amount_in,
                    min_token_out_amount,
                ) == Err::<SwapOutcome, StablePoolError>(e) && *final(self) == *old(self),
            }),
    {
        let new_rates = self.refreshed_rates(now, oracle_rates);
        let scaled = match self.scaled_rates(&new_rates) {
            Ok(v) => v,
            Err(e) => {
                return Err(StablePoolError::MathError(e));
            },
        };
        let (amount_out, fee) = match crate::math::rated_swap_to(
            &scaled,
            i,
            amount_in,
            j,
            &self.pool.reserves,
            &self.pool.fees,
            self.pool.amp_coef,
        ) {
            Ok(v) => v,
            Err(e) => {
                return Err(StablePoolError::MathError(e));
            },
        };
        if amount_out < min_token_out_amount {
            return Err(StablePoolError::InsufficientOutputAmount);
        }
        let new_in = match self.pool.reserves[i].checked_add(amount_in) {
            Some(v) => v,
            None => {
                return Err(StablePoolError::MathError(MathError::AddOverflow(101)));
            },
        };
        let new_out = match self.pool.reserves[j].checked_sub(amount_out) {
            Some(v) => v,
            None => {
                return Err(StablePoolError::MathError(MathError::SubUnderflow(101)));
            },
        };
        let mut new_reserves = self.pool.reserves.clone();
        new_reserves.set(i, new_in);
        new_reserves.set(j, new_out);
        let lp = self.protocol_fee_lp(&scaled, &new_reserves, fee, j)?;
        if self.psp22.total_supply().checked_add(lp).is_none() {
            return Err(StablePoolError::PSP22Error(PSP22Error::SupplyOverflow));
        }
        self.commit_swap(new_rates, new_reserves, lp);
        Ok((amount_out, fee))
    }

    /// Swaps `token_in` for an exact `token_out_amount` of `token_out`,
    /// requiring at most `max_token_in_amount` in. The caller transfers
    /// the input and output around this accounting step.
    ///
    /// Returns `(amount_in, fee)` exactly as [`spec_swap_exact_out`]
    /// determines them; on any error the pool is unchanged.
    pub fn swap_exact_out(
        &mut self,
        now: u64,
        oracle_rates: &Vec<u128>,
        token_in: AccountId,
        token_out: AccountId,
        token_out_amount: u128,
        max_token_in_amount: u128,
        to: AccountId,
    ) -> (r: Result<(u128, u128), StablePoolError>)
        requires
            old(self).wf(),
            oracle_rates@.len() == old(self).pool.tokens@.len(),
        ensures
            final(self).wf(),
            (match r {
                Ok((amount_in, fee)) => (spec_swap_exact_out(
                    *old(self),
                    now,
                    oracle_rates@,
                    token_in,
                    token_out,
                    token_out_amount,
                    max_token_in_amount,
                ) matches Ok(o) && amount_in == o.amount_in && fee == o.fee && final(self).spec_swap_applied(*old(self), o)),
                Err(e) => spec_swap_exact_out(
                    *old(self),
                    now,
                    oracle_rates@,
                    token_in,
                    token_out,
                    token_out_amount,
                    max_token_in_amount,
                ) == Err::<SwapOutcome, StablePoolError>(e) && *final(self) == *old(self),
            }),
    {
        let (i, j) = self.check_tokens(token_in, token_out)?;
        if token_out_amount == 0 {
            return Err(StablePoolError::InsufficientOutputAmount);
        }
        let new_rates = self.refreshed_rates(now, oracle_rates);
        let scaled = match self.scaled_rates(&new_rates) {
            Ok(v) => v,
            Err(e) => {
                return Err(StablePoolError::MathError(e));
            },
        };
        let (amount_in, fee) = match crate::math::rated_swap_from(
            &scaled,
            i,
            token_out_amount,
            j,
            &self.pool.reserves,
            &self.pool.fees,
            self.pool.amp_coef,
        ) {
            Ok(v) => v,
            Err(e) => {
                return Err(StablePoolError::MathError(e));
            },
        };
        if amount_in > max_token_in_amount {
            return Err(StablePoolError::TooLargeInputAmount);
        }
        let new_in = match self.pool.reserves[i].checked_add(amount_in) {
            Some(v) => v,
            None => {
                return Err(StablePoolError::MathError(MathError::AddOverflow(101)));
            },
        };
        let new_out = match self.pool.reserves[j].checked_sub(token_out_amount) {
            Some(v) => v,
            None => {
                return Err(StablePoolError::MathError(MathError::SubUnderflow(101)));
            },
        };
        let mut new_reserves = self.pool.reserves.clone();
        new_reserves.set(i, new_in);
        new_reserves.set(j, new_out);
        let lp = self.protocol_fee_lp(&scaled, &new_reserves, fee, j)?;
        if self.psp22.total_supply().checked_add(lp).is_none() {
            return Err(StablePoolError::PSP22Error(PSP22Error::SupplyOverflow));
        }
        if amount_in == 0 {
            return Err(StablePoolError::InsufficientInputAmount);
        }
        self.commit_swap(new_rates, new_reserves, lp);
        Ok((amount_in, fee))
    }

    /// Swaps whatever excess of `token_in` the pool already holds beyond
    /// its recorded reserve, as reported by `token_in_balance`; used by
    /// routers that pre-transfer the input.
    ///
    /// Returns `(amount_out, fee)` exactly as [`spec_swap_received`]
    /// determines them; on any error the pool is unchanged.
    pub fn swap_received(
        &mut self,
        now: u64,
        oracle_rates: &Vec<u128>,
        token_in: AccountId,
        token_out: AccountId,
        token_in_balance: u128,
        min_token_out_amount: u128,
        to: AccountId,
    ) -> (r: Result<(u128, u128), StablePoolError>)
        requires
            old(self).wf(),
            oracle_rates@.len() == old(self).pool.tokens@.len(),
        ensures
            final(self).wf(),
            (match r {
                Ok((amount_out, fee)) => (spec_swap_received(
                    *old(self),
                    now,
                    oracle_rates@,
                    token_in,
                    token_out,
                    token_in_balance,
                    min_token_out_amount,
                ) matches Ok(o) && amount_out == o.amount_out && fee == o.fee && final(self).spec_swap_applied(*old(self), o)),
                Err(e) => spec_swap_received(
                    *old(self),
                    now,
                    oracle_rates@,
                    token_in,
                    token_out,
                    token_in_balance,
                    min_token_out_amount,
                ) == Err::<SwapOutcome, StablePoolError>(e) && *final(self) == *old(self),
            }),
    {
        let (i, j) = self.check_tokens(token_in, token_out)?;
        let amount_in = match token_in_balance.checked_sub(self.pool.reserves[i]) {
            Some(v) => v,
            None => {
                return Err(StablePoolError::MathError(MathError::SubUnderflow(103)));
            },
        };
        if amount_in == 0 {
            return Err(StablePoolError::InsufficientInputAmount);
        }
        self.swap_core(now, oracle_rates, i, j, amount_in, min_token_out_amount)
    }

    /// Unconditionally refreshes every external rate entry with the given
    /// oracle readings.
    pub fn force_update_rate(&mut self, now: u64, oracle_rates: &Vec<u128>)
        requires
            old(self).wf(),
            oracle_rates@.len() == old(self).pool.tokens@.len(),
        ensures
            final(self).wf(),
            *final(self) == (StablePoolContract {
                pool: StablePoolData {
                    token_rates: final(self).pool.token_rates,
                    ..old(self).pool
                },
                ..*old(self)
            }),
            final(self).pool.token_rates@ == spec_force_refreshed(
                old(self).pool.token_rates@,
                now,
                oracle_rates@,
            ),
    {
        let len = self.pool.token_rates.len();
        let mut out: Vec<TokenRate> = Vec::new();
        let mut i: usize = 0;
        while i < len
            invariant
                i <= len,
                *self == *old(self),
                len == self.pool.token_rates@.len() == oracle_rates@.len(),
                out@.len() == i,
                forall|k: int|
                    0 <= k < i ==> out@[k] == self.pool.token_rates@[k].spec_force_updated(
                        now,
                        oracle_rates@[k],
                    ),
            decreases len - i,
        {
            let mut entry = self.pool.token_rates[i];
            entry.force_update_rate(now, oracle_rates[i]);
            out.push(entry);
            i += 1;
        }
        proof {
            assert(out@ =~= spec_force_refreshed(self.pool.token_rates@, now, oracle_rates@));
        }
        self.pool.token_rates = out;
    }
}


/// Everything a liquidity operation determines: refreshed rates, updated
/// reserves, the shares minted or burned with their fee part, and the LP
/// shares minted to the fee receiver.
pub struct LiquidityOutcome {
    pub new_rates: Seq<TokenRate>,
    pub new_reserves: Seq<u128>,
    pub shares: u128,
    pub fee_part: u128,
    pub protocol_lp: u128,
}

/// Reserves combined element-wise with deposited (`add`) or withdrawn
/// amounts, from index `i` on, appended to `acc`; the error is the
/// reserve-update failure.
pub open spec fn spec_reserves_loop(
    acc: Seq<u128>,
    reserves: Seq<u128>,
    amounts: Seq<u128>,
    add: bool,
    i: int,
) -> Result<Seq<u128>, MathError>
    decreases reserves.len() - i,
{
    if i < 0 || i >= reserves.len() {
        Ok(acc)
    } else {
        let step = if add {
            if reserves[i] + amounts[i] < lim128() {
                Ok(reserves[i] + amounts[i])
            } else {
                Err(MathError::AddOverflow(101))
            }
        } else {
            if reserves[i] >= amounts[i] {
                Ok(reserves[i] - amounts[i])
            } else {
                Err(MathError::SubUnderflow(101))
            }
        };
        match step {
            Err(e) => Err(e),
            Ok(v) => spec_reserves_loop(acc.push(v as u128), reserves, amounts, add, i + 1),
        }
    }
}

/// Executable form of [`spec_reserves_loop`], from index 0.
#[verifier::loop_isolation(false)]
fn updated_reserves(reserves: &Vec<u128>, amounts: &Vec<u128>, add: bool) -> (r: Result<
    Vec<u128>,
    MathError,
>)
    requires
        amounts@.len() == reserves@.len(),
    ensures
        (match r {
            Ok(v) => Ok(v@),
            Err(e) => Err::<Seq<u128>, MathError>(e),
        }) == spec_reserves_loop(Seq::empty(), reserves@, amounts@, add, 0),
        r matches Ok(v) ==> v@.len() == reserves@.len(),
{
    let len = reserves.len();
    let mut acc: Vec<u128> = Vec::new();
    let mut i: usize = 0;
    while i < len
        invariant
            i <= len,
            acc@.len() == i,
            spec_reserves_loop(acc@, reserves@, amounts@, add, i as int) == spec_reserves_loop(
                Seq::empty(),
                reserves@,
                amounts@,
                add,
                0,
            ),
        decreases len - i,
    {
        let v = if add {
            match reserves[i].checked_add(amounts[i]) {
                Some(v) => v,
                None => {
                    return Err(MathError::AddOverflow(101));
                },
            }
        } else {
            match reserves[i].checked_sub(amounts[i]) {
                Some(v) => v,
                None => {
                    return Err(MathError::SubUnderflow(101));
                },
            }
        };
        acc.push(v);
        i += 1;
    }
    Ok(acc)
}

/// The add-liquidity transition: what
/// [`StablePoolContract::add_liquidity`] does to the pool, or the first
/// error it meets, in the order the operation checks them.
pub open spec fn spec_add_liquidity(
    s: StablePoolContract,
    now: u64,
    fresh: Seq<u128>,
    min_share_amount: u128,
    amounts: Seq<u128>,
) -> Result<LiquidityOutcome, StablePoolError> {
    match s.spec_get_mint_liquidity_for_amounts(now, fresh, amounts) {
        Err(e) => Err(e),
        Ok((shares, fee_part)) => if shares < min_share_amount {
            Err(StablePoolError::InsufficientLiquidityMinted)
        } else if s.psp22.spec_total_supply() + shares >= lim128() {
            Err(StablePoolError::PSP22Error(PSP22Error::SupplyOverflow))
        } else {
            match (match s.pool.fee_receiver {
                None => Ok(0u128),
                Some(_) => s.pool.fees.spec_protocol_trade_fee(fee_part),
            }) {
                Err(e) => Err(StablePoolError::MathError(e)),
                Ok(pfee) => if s.psp22.spec_total_supply() + shares + pfee >= lim128() {
                    Err(StablePoolError::PSP22Error(PSP22Error::SupplyOverflow))
                } else {
                    match spec_reserves_loop(Seq::empty(), s.pool.reserves@, amounts, true, 0) {
                        Err(e) => Err(StablePoolError::MathError(e)),
                        Ok(reserves2) => Ok(
                            LiquidityOutcome {
                                new_rates: spec_refreshed(s.pool.token_rates@, now, fresh),
                                new_reserves: reserves2,
                                shares,
                                fee_part,
                                protocol_lp: pfee,
                            },
                        ),
                    }
                },
            }
        },
    }
}

/// The remove-liquidity-by-amounts transition.
pub open spec fn spec_remove_liquidity_by_amounts(
    s: StablePoolContract,
    now: u64,
    fresh: Seq<u128>,
    caller: AccountId,
    max_share_amount: u128,
    amounts: Seq<u128>,
) -> Result<LiquidityOutcome, StablePoolError> {
    match s.spec_get_burn_liquidity_for_amounts(now, fresh, amounts) {
        Err(e) => Err(e),
        Ok((shares, fee_part)) => if shares > max_share_amount {
            Err(StablePoolError::InsufficientLiquidityBurned)
        } else if s.psp22.spec_balance_of(caller) < shares {
            Err(StablePoolError::PSP22Error(PSP22Error::InsufficientBalance))
        } else {
            match (match s.pool.fee_receiver {
                None => Ok(0u128),
                Some(_) => s.pool.fees.spec_protocol_trade_fee(fee_part),
            }) {
                Err(e) => Err(StablePoolError::MathError(e)),
                Ok(pfee) => if s.psp22.spec_total_supply() - shares + pfee >= lim128() {
                    Err(StablePoolError::PSP22Error(PSP22Error::SupplyOverflow))
                } else {
                    match spec_reserves_loop(Seq::empty(), s.pool.reserves@, amounts, false, 0) {
                        Err(e) => Err(StablePoolError::MathError(e)),
                        Ok(reserves2) => Ok(
                            LiquidityOutcome {
                                new_rates: spec_refreshed(s.pool.token_rates@, now, fresh),
                                new_reserves: reserves2,
                                shares,
                                fee_part,
                                protocol_lp: pfee,
                            },
                        ),
                    }
                },
            }
        },
    }
}

/// The remove-liquidity-by-shares transition: the only operation that
/// consults neither the rate entries nor the invariant solver, so that a
/// proportional exit stays possible when every oracle is down.
pub open spec fn spec_remove_liquidity_by_shares(
    s: StablePoolContract,
    caller: AccountId,
    shares: u128,
    min_amounts: Seq<u128>,
) -> Result<(Seq<u128>, Seq<u128>), StablePoolError> {
    match crate::math::spec_amounts_given_lp(
        shares,
        s.pool.reserves@,
        s.psp22.spec_total_supply(),
    ) {
        Err(e) => Err(StablePoolError::MathError(e)),
        Ok(amounts) => if exists|k: int|
            0 <= k < amounts.len() && k < min_amounts.len() && amounts[k] < min_amounts[k] {
            Err(StablePoolError::InsufficientOutputAmount)
        } else {
            match spec_reserves_loop(Seq::empty(), s.pool.reserves@, amounts, false, 0) {
                Err(e) => Err(StablePoolError::MathError(e)),
                Ok(reserves2) => if s.psp22.spec_balance_of(caller) < shares {
                    Err(StablePoolError::PSP22Error(PSP22Error::InsufficientBalance))
                } else {
                    Ok((amounts, reserves2))
                },
            }
        },
    }
}

impl StablePoolContract {
    /// How a successful liquidity change affects the pool, given its
    /// outcome; `to` receives minted shares, `from` loses burned ones.
    pub open spec fn spec_liquidity_applied(
        self,
        pre: StablePoolContract,
        o: LiquidityOutcome,
        minted_to: Option<AccountId>,
        burned_from: Option<AccountId>,
    ) -> bool {
        &&& self.owner == pre.owner
        &&& self.pool.tokens@ == pre.pool.tokens@
        &&& self.pool.precisions@ == pre.pool.precisions@
        &&& self.pool.amp_coef == pre.pool.amp_coef
        &&& self.pool.fees == pre.pool.fees
        &&& self.pool.fee_receiver == pre.pool.fee_receiver
        &&& self.pool.token_rates@ == o.new_rates
        &&& self.pool.reserves@ == o.new_reserves
        &&& self.psp22.spec_total_supply() == pre.psp22.spec_total_supply() + (
        if minted_to is Some {
            o.shares as int
        } else {
            0
        }) - (if burned_from is Some {
            o.shares as int
        } else {
            0
        }) + o.protocol_lp
        &&& (forall|a: AccountId|
            self.psp22.spec_balance_of(a) == pre.psp22.spec_balance_of(a) + (
            if minted_to == Some(a) {
                o.shares as int
            } else {
                0
            }) - (if burned_from == Some(a) {
                o.shares as int
            } else {
                0
            }) + (if pre.pool.fee_receiver == Some(a) {
                o.protocol_lp as int
            } else {
                0
            }))
        &&& self.psp22.allowances@ == pre.psp22.allowances@
    }

    /// Mints LP shares to `to` for an imbalanced deposit of `amounts`;
    /// the caller transfers the amounts in around this accounting step.
    ///
    /// Returns `(minted_shares, fee_part)` exactly as
    /// [`spec_add_liquidity`] determines them; on any error the pool is
    /// unchanged.
    pub fn add_liquidity(
        &mut self,
        now: u64,
        oracle_rates: &Vec<u128>,
        min_share_amount: u128,
        amounts: &Vec<u128>,
        to: AccountId,
    ) -> (r: Result<(u128, u128), StablePoolError>)
        requires
            old(self).wf(),
            oracle_rates@.len() == old(self).pool.tokens@.len(),
        ensures
            final(self).wf(),
            (match r {
                Ok((shares, fee_part)) => (spec_add_liquidity(
                    *old(self),
                    now,
                    oracle_rates@,
                    min_share_amount,
                    amounts@,
                ) matches Ok(o) && shares == o.shares && fee_part == o.fee_part && final(self).spec_liquidity_applied(*old(self), o, Some(to), None)),
                Err(e) => spec_add_liquidity(
                    *old(self),
                    now,
                    oracle_rates@,
                    min_share_amount,
                    amounts@,
                ) == Err::<LiquidityOutcome, StablePoolError>(e) && *final(self) == *old(self),
            }),
    {
        if amounts.len() != self.pool.tokens.len() {
            return Err(StablePoolError::IncorrectAmountsCount);
        }
        let new_rates = self.refreshed_rates(now, oracle_rates);
        let scaled = match self.scaled_rates(&new_rates) {
            Ok(v) => v,
            Err(e) => {
                return Err(StablePoolError::MathError(e));
            },
        };
        let (shares, fee_part) = match crate::math::rated_compute_lp_amount_for_deposit(
            &scaled,
            amounts,
            &self.pool.reserves,
            self.psp22.total_supply(),
            Some(&self.pool.fees),
            self.pool.amp_coef,
        ) {
            Ok(v) => v,
            Err(e) => {
                return Err(StablePoolError::MathError(e));
            },
        };
        if shares < min_share_amount {
            return Err(StablePoolError::InsufficientLiquidityMinted);
        }
        let supply = self.psp22.total_supply();
        let after_mint = match supply.checked_add(shares) {
            Some(v) => v,
            None => {
                return Err(StablePoolError::PSP22Error(PSP22Error::SupplyOverflow));
            },
        };
        let pfee = if self.pool.fee_receiver.is_some() {
            match self.pool.fees.protocol_trade_fee(fee_part) {
                Ok(v) => v,
                Err(e) => {
                    return Err(StablePoolError::MathError(e));
                },
            }
        } else {
            0
        };
        if after_mint.checked_add(pfee).is_none() {
            return Err(StablePoolError::PSP22Error(PSP22Error::SupplyOverflow));
        }
        let new_reserves = match updated_reserves(&self.pool.reserves, amounts, true) {
            Ok(v) => v,
            Err(e) => {
                return Err(StablePoolError::MathError(e));
            },
        };
        self.pool.token_rates = new_rates;
        self.pool.reserves = new_reserves;
        let minted = self.psp22.mint(to, shares);
        proof {
            assert(minted is Ok);
        }
        if pfee > 0 {
            match self.pool.fee_receiver {
                Some(fee_to) => {
                    let minted2 = self.psp22.mint(fee_to, pfee);
                    proof {
                        assert(minted2 is Ok);
                    }
                },
                None => {
                    proof {
                        assert(false);
                    }
                },
            }
        }
        Ok((shares, fee_part))
    }

    /// Burns at most `max_share_amount` of the caller's LP shares to
    /// withdraw exactly `amounts`; the amounts are transferred to `to`
    /// around this accounting step.
    ///
    /// Returns `(burned_shares, fee_part)` exactly as
    /// [`spec_remove_liquidity_by_amounts`] determines them; on any error
    /// the pool is unchanged.
    pub fn remove_liquidity_by_amounts(
        &mut self,
        caller: AccountId,
        now: u64,
        oracle_rates: &Vec<u128>,
        max_share_amount: u128,
        amounts: &Vec<u128>,
        to: AccountId,
    ) -> (r: Result<(u128, u128), StablePoolError>)
        requires
            old(self).wf(),
            oracle_rates@.len() == old(self).pool.tokens@.len(),
        ensures
            final(self).wf(),
            (match r {
                Ok((shares, fee_part)) => (spec_remove_liquidity_by_amounts(
                    *old(self),
                    now,
                    oracle_rates@,
                    caller,
                    max_share_amount,
                    amounts@,
                ) matches Ok(o) && shares == o.shares && fee_part == o.fee_part && final(self).spec_liquidity_applied(*old(self), o, None, Some(caller))),
                Err(e) => spec_remove_liquidity_by_amounts(
                    *old(self),
                    now,
                    oracle_rates@,
                    caller,
                    max_share_amount,
                    amounts@,
                ) == Err::<LiquidityOutcome, StablePoolError>(e) && *final(self) == *old(self),
            }),
    {
        if amounts.len() != self.pool.tokens.len() {
            return Err(StablePoolError::IncorrectAmountsCount);
        }
        let new_rates = self.refreshed_rates(now, oracle_rates);
        let scaled = match self.scaled_rates(&new_rates) {
            Ok(v) => v,
            Err(e) => {
                return Err(StablePoolError::MathError(e));
            },
        };
        let (shares, fee_part) = match crate::math::rated_compute_lp_amount_for_withdraw(
            &scaled,
            amounts,
            &self.pool.reserves,
            self.psp22.total_supply(),
            Some(&self.pool.fees),
            self.pool.amp_coef,
        ) {
            Ok(v) => v,
            Err(e) => {
                return Err(StablePoolError::MathError(e));
            },
        };
        if shares > max_share_amount {
            return Err(StablePoolError::InsufficientLiquidityBurned);
        }
        if self.psp22.balance_of(caller) < shares {
            return Err(StablePoolError::PSP22Error(PSP22Error::InsufficientBalance));
        }
        let pfee = if self.pool.fee_receiver.is_some() {
            match self.pool.fees.protocol_trade_fee(fee_part) {
                Ok(v) => v,
                Err(e) => {
                    return Err(StablePoolError::MathError(e));
                },
            }
        } else {
            0
        };
        let supply = self.psp22.total_supply();
        proof {
            crate::psp22::lemma_bal_lookup_le_sum(self.psp22.balances@, caller);
        }
        if (supply - shares).checked_add(pfee).is_none() {
            return Err(StablePoolError::PSP22Error(PSP22Error::SupplyOverflow));
        }
        let new_reserves = match updated_reserves(&self.pool.reserves, amounts, false) {
            Ok(v) => v,
            Err(e) => {
                return Err(StablePoolError::MathError(e));
            },
        };
        self.pool.token_rates = new_rates;
        self.pool.reserves = new_reserves;
        let burned = self.psp22.burn(caller, shares);
        proof {
            assert(burned is Ok);
        }
        if pfee > 0 {
            match self.pool.fee_receiver {
                Some(fee_to) => {
                    let minted = self.psp22.mint(fee_to, pfee);
                    proof {
                        assert(minted is Ok);
                    }
                },
                None => {
                    proof {
                        assert(false);
                    }
                },
            }
        }
        Ok((shares, fee_part))
    }

    /// Burns `shares` of the caller's LP shares for a balanced withdrawal
    /// of every token, requiring at least `min_amounts` of each; the
    /// amounts are transferred to `to` around this accounting step.
    ///
    /// Consults neither rates nor the invariant solver, so it remains
    /// usable when every rate oracle is down. Returns the withdrawn
    /// amounts, each the floor of `reserve * shares / total_supply`, as
    /// [`spec_remove_liquidity_by_shares`] determines them; on any error
    /// the pool is unchanged.
    #[verifier::loop_isolation(false)]
    pub fn remove_liquidity_by_shares(
        &mut self,
        caller: AccountId,
        shares: u128,
        min_amounts: &Vec<u128>,
        to: AccountId,
    ) -> (r: Result<Vec<u128>, StablePoolError>)
        requires
            old(self).wf(),
        ensures
            final(self).wf(),
            (match r {
                Ok(amounts) => (spec_remove_liquidity_by_shares(
                    *old(self),
                    caller,
                    shares,
                    min_amounts@,
                ) matches Ok(o) && amounts@ == o.0 && final(self).spec_liquidity_applied(
                    *old(self),
                    LiquidityOutcome {
                        new_rates: old(self).pool.token_rates@,
                        new_reserves: o.1,
                        shares,
                        fee_part: 0,
                        protocol_lp: 0,
                    },
                    None,
                    Some(caller),
                )),
                Err(e) => spec_remove_liquidity_by_shares(
                    *old(self),
                    caller,
                    shares,
                    min_amounts@,
                ) == Err::<(Seq<u128>, Seq<u128>), StablePoolError>(e) && *final(self) == *old(self),
            }),
    {
        let amounts = match crate::math::compute_amounts_given_lp(
            shares,
            &self.pool.reserves,
            self.psp22.total_supply(),
        ) {
            Ok(v) => v,
            Err(e) => {
                return Err(StablePoolError::MathError(e));
            },
        };
        let n = amounts.len();
        let m = min_amounts.len();
        let bound = if n < m {
            n
        } else {
            m
        };
        let mut k: usize = 0;
        while k < bound
            invariant
                k <= bound,
                bound == (if n < m {
                    n
                } else {
                    m
                }),
                n == amounts@.len(),
                m == min_amounts@.len(),
                forall|q: int| 0 <= q < k ==> amounts@[q] >= min_amounts@[q],
            decreases bound - k,
        {
            if amounts[k] < min_amounts[k] {
                return Err(StablePoolError::InsufficientOutputAmount);
            }
            k += 1;
        }
        let new_reserves = match updated_reserves(&self.pool.reserves, &amounts, false) {
            Ok(v) => v,
            Err(e) => {
                return Err(StablePoolError::MathError(e));
            },
        };
        if self.psp22.balance_of(caller) < shares {
            return Err(StablePoolError::PSP22Error(PSP22Error::InsufficientBalance));
        }
        self.pool.reserves = new_reserves;
        let burned = self.psp22.burn(caller, shares);
        proof {
            assert(burned is Ok);
        }
        Ok(amounts)
    }
}


impl StablePoolContract {
    // --- the LP share token -----------------------------------------------

    pub fn total_supply(&self) -> (r: u128)
        ensures
            r == self.psp22.spec_total_supply(),
    {
        self.psp22.total_supply()
    }

    pub fn balance_of(&self, owner: AccountId) -> (r: u128)
        ensures
            r == self.psp22.spec_balance_of(owner),
    {
        self.psp22.balance_of(owner)
    }

    pub fn allowance(&self, owner: AccountId, spender: AccountId) -> (r: u128)
        ensures
            r == self.psp22.spec_allowance(owner, spender),
    {
        self.psp22.allowance(owner, spender)
    }

    /// Moves `value` LP shares from the caller to `to`.
    pub fn transfer(&mut self, caller: AccountId, to: AccountId, value: u128) -> (r: Result<
        (),
        PSP22Error,
    >)
        requires
            old(self).wf(),
        ensures
            final(self).wf(),
            final(self).pool == old(self).pool,
            final(self).owner == old(self).owner,
            (match r {
                Ok(()) => old(self).psp22.spec_balance_of(caller) >= value && final(self).psp22.spec_total_supply() == old(self).psp22.spec_total_supply() && (
                if caller == to {
                    final(self).psp22 == old(self).psp22
                } else {
                    final(self).psp22.spec_balance_of(caller) == old(self).psp22.spec_balance_of(
                        caller,
                    ) - value && final(self).psp22.spec_balance_of(to) == old(self).psp22.spec_balance_of(to) + value && (forall|b: AccountId|
                        b != caller && b != to ==> final(self).psp22.spec_balance_of(b) == old(self).psp22.spec_balance_of(b))
                }),
                Err(e) => e == PSP22Error::InsufficientBalance && old(self).psp22.spec_balance_of(caller) < value && *final(self) == *old(self),
            }),
    {
        self.psp22.transfer(caller, to, value)
    }

    /// Moves `value` LP shares from `from` to `to` on the caller's
    /// authority, spending the caller's allowance.
    pub fn transfer_from(
        &mut self,
        caller: AccountId,
        from: AccountId,
        to: AccountId,
        value: u128,
    ) -> (r: Result<(), PSP22Error>)
        requires
            old(self).wf(),
        ensures
            final(self).wf(),
            final(self).pool == old(self).pool,
            final(self).owner == old(self).owner,
            r is Err ==> *final(self) == *old(self),
            (match r {
                Ok(()) => old(self).psp22.spec_balance_of(from) >= value && final(self).psp22.spec_total_supply() == old(self).psp22.spec_total_supply() && (caller
                    != from ==> final(self).psp22.spec_allowance(from, caller) == old(self).psp22.spec_allowance(from, caller) - value) && (from != to ==> final(self).psp22.spec_balance_of(from) == old(self).psp22.spec_balance_of(from) - value
                    && final(self).psp22.spec_balance_of(to) == old(self).psp22.spec_balance_of(
                    to,
                ) + value),
                Err(e) => (e == PSP22Error::InsufficientAllowance && caller != from && old(self).psp22.spec_allowance(from, caller) < value) || (e
                    == PSP22Error::InsufficientBalance && old(self).psp22.spec_balance_of(from)
                    < value),
            }),
    {
        self.psp22.transfer_from(caller, from, to, value)
    }

    /// Sets the allowance of `spender` over the caller's LP shares.
    pub fn approve(&mut self, caller: AccountId, spender: AccountId, value: u128) -> (r: Result<
        (),
        PSP22Error,
    >)
        requires
            old(self).wf(),
        ensures
            final(self).wf(),
            final(self).pool == old(self).pool,
            final(self).owner == old(self).owner,
            r is Ok,
            final(self).psp22.spec_allowance(caller, spender) == value,
            forall|b: AccountId, q: AccountId|
                !(b == caller && q == spender) ==> final(self).psp22.spec_allowance(b, q) == old(self).psp22.spec_allowance(b, q),
            final(self).psp22.balances@ == old(self).psp22.balances@,
            final(self).psp22.spec_total_supply() == old(self).psp22.spec_total_supply(),
    {
        self.psp22.approve(caller, spender, value)
    }

    /// Raises the allowance of `spender` over the caller's LP shares,
    /// saturating at the maximum.
    pub fn increase_allowance(&mut self, caller: AccountId, spender: AccountId, delta: u128) -> (r:
        Result<(), PSP22Error>)
        requires
            old(self).wf(),
        ensures
            final(self).wf(),
            final(self).pool == old(self).pool,
            final(self).owner == old(self).owner,
            r is Ok,
            final(self).psp22.spec_allowance(caller, spender) == (if old(self).psp22.spec_allowance(caller, spender) + delta < lim128() {
                old(self).psp22.spec_allowance(caller, spender) + delta
            } else {
                (lim128() - 1) as int
            }),
            forall|b: AccountId, q: AccountId|
                !(b == caller && q == spender) ==> final(self).psp22.spec_allowance(b, q) == old(self).psp22.spec_allowance(b, q),
            final(self).psp22.balances@ == old(self).psp22.balances@,
            final(self).psp22.spec_total_supply() == old(self).psp22.spec_total_supply(),
    {
        self.psp22.increase_allowance(caller, spender, delta)
    }

    /// Lowers the allowance of `spender` over the caller's LP shares;
    /// fails when it is too small.
    pub fn decrease_allowance(&mut self, caller: AccountId, spender: AccountId, delta: u128) -> (r:
        Result<(), PSP22Error>)
        requires
            old(self).wf(),
        ensures
            final(self).wf(),
            final(self).pool == old(self).pool,
            final(self).owner == old(self).owner,
            (match r {
                Ok(()) => old(self).psp22.spec_allowance(caller, spender) >= delta && final(self).psp22.spec_allowance(caller, spender) == old(self).psp22.spec_allowance(
                    caller,
                    spender,
                ) - delta && (forall|b: AccountId, q: AccountId|
                    !(b == caller && q == spender) ==> final(self).psp22.spec_allowance(b, q)
                        == old(self).psp22.spec_allowance(b, q)) && final(self).psp22.balances@
                    == old(self).psp22.balances@ && final(self).psp22.spec_total_supply() == old(self).psp22.spec_total_supply(),
                Err(e) => e == PSP22Error::InsufficientAllowance && old(self).psp22.spec_allowance(caller, spender) < delta && *final(self) == *old(self),
            }),
    {
        self.psp22.decrease_allowance(caller, spender, delta)
    }
}


// --- the empty-pool invariant ---------------------------------------------

/// A pool with no shares outstanding holds no reserves.
pub open spec fn spec_empty_consistent(s: StablePoolContract) -> bool {
    s.psp22.spec_total_supply() == 0 ==> forall|k: int|
        0 <= k < s.pool.reserves@.len() ==> s.pool.reserves@[k] == 0
}

/// A successful reserve update combines the two vectors element-wise.
proof fn lemma_reserves_loop_elem(
    acc: Seq<u128>,
    reserves: Seq<u128>,
    amounts: Seq<u128>,
    add: bool,
    i: int,
    v: Seq<u128>,
)
    requires
        0 <= i <= reserves.len(),
        spec_reserves_loop(acc, reserves, amounts, add, i) == Ok::<Seq<u128>, MathError>(v),
    ensures
        v.len() == acc.len() + (reserves.len() - i),
        forall|k: int| 0 <= k < acc.len() ==> v[k] == acc[k],
        forall|k: int|
            i <= k < reserves.len() ==> v[acc.len() + (k - i)] == (if add {
                (reserves[k] + amounts[k]) as u128
            } else {
                (reserves[k] - amounts[k]) as u128
            }),
    decreases reserves.len() - i,
{
    if i < reserves.len() {
        let step = if add {
            (reserves[i] + amounts[i]) as u128
        } else {
            (reserves[i] - amounts[i]) as u128
        };
        lemma_reserves_loop_elem(acc.push(step), reserves, amounts, add, i + 1, v);
    }
}

/// A freshly built pool is empty-consistent: it has no shares and no
/// reserves.
pub proof fn lemma_fresh_pool_empty_consistent(
    s: StablePoolContract,
    tokens: Seq<AccountId>,
    tokens_decimals: Seq<u8>,
    token_rates: Seq<TokenRate>,
    amp_coef: u128,
    owner: AccountId,
    fees: Fees,
    fee_receiver: Option<AccountId>,
)
    requires
        spec_fresh_pool(s, tokens, tokens_decimals, token_rates, amp_coef, owner, fees, fee_receiver),
    ensures
        spec_empty_consistent(s),
{
}

/// Depositing liquidity keeps the pool empty-consistent: a first deposit
/// always mints at least one share, because the invariant of positive
/// rated amounts is itself positive.
pub proof fn lemma_add_liquidity_empty_consistent(
    pre: StablePoolContract,
    post: StablePoolContract,
    now: u64,
    fresh: Seq<u128>,
    min_share_amount: u128,
    amounts: Seq<u128>,
    to: AccountId,
    o: LiquidityOutcome,
)
    requires
        pre.wf(),
        spec_add_liquidity(pre, now, fresh, min_share_amount, amounts) == Ok::<
            LiquidityOutcome,
            StablePoolError,
        >(o),
        post.spec_liquidity_applied(pre, o, Some(to), None),
    ensures
        spec_empty_consistent(post),
{
    if pre.psp22.spec_total_supply() == 0 {
        let rg = pre.spec_get_mint_liquidity_for_amounts(now, fresh, amounts);
        assert(rg is Ok && rg->Ok_0.0 == o.shares);
        let rates2 = spec_refreshed(pre.pool.token_rates@, now, fresh);
        let rsc = spec_scaled_rates(rates2, pre.pool.precisions@);
        assert(rsc is Ok);
        let scaled = rsc->Ok_0;
        let r_dep_r = crate::math::spec_to_rated_loop(Seq::empty(), amounts, scaled, 0);
        assert(r_dep_r is Ok);
        let r_dep = r_dep_r->Ok_0;
        crate::math::lemma_to_rated_len(Seq::empty(), amounts, scaled, 0, r_dep);
        assert(!crate::math::spec_has_zero(r_dep));
        assert(forall|k: int| 0 <= k < r_dep.len() ==> r_dep[k] >= 1);
        let rd = crate::math::spec_compute_d(r_dep, pre.pool.amp_coef);
        assert(rd is Ok);
        crate::math::lemma_compute_d_positive(r_dep, pre.pool.amp_coef, rd->Ok_0);
        assert(o.shares >= 1);
        assert(post.psp22.spec_total_supply() >= 1);
    }
}

/// The common-trunk swap cannot touch an empty pool: with zero reserves
/// every path of the output computation fails, so a successful swap
/// implies shares were outstanding, and the pool stays empty-consistent.
pub proof fn lemma_swap_core_empty_consistent(
    pre: StablePoolContract,
    post: StablePoolContract,
    now: u64,
    fresh: Seq<u128>,
    i: int,
    j: int,
    amount_in: u128,
    min_token_out_amount: u128,
    o: SwapOutcome,
)
    requires
        pre.wf(),
        spec_empty_consistent(pre),
        0 <= i < pre.pool.tokens@.len(),
        0 <= j < pre.pool.tokens@.len(),
        i != j,
        spec_swap_core(pre, now, fresh, i, j, amount_in, min_token_out_amount) == Ok::<
            SwapOutcome,
            StablePoolError,
        >(o),
        post.spec_swap_applied(pre, o),
    ensures
        spec_empty_consistent(post),
        pre.psp22.spec_total_supply() > 0,
{
    if pre.psp22.spec_total_supply() == 0 {
        let rates2 = spec_refreshed(pre.pool.token_rates@, now, fresh);
        let rsc = spec_scaled_rates(rates2, pre.pool.precisions@);
        assert(rsc is Ok);
        let scaled = rsc->Ok_0;
        let rrr = crate::math::spec_to_rated_loop(Seq::empty(), pre.pool.reserves@, scaled, 0);
        assert(rrr is Ok);
        let rr = rrr->Ok_0;
        crate::math::lemma_to_rated_zero(Seq::empty(), pre.pool.reserves@, scaled, 0, rr);
        let r_in_r = crate::math::spec_amount_to_rated(amount_in, scaled[i]);
        assert(r_in_r is Ok);
        let r_in = r_in_r->Ok_0;
        let rst = crate::math::spec_swap_to(
            i,
            r_in,
            j,
            rr,
            pre.pool.fees,
            pre.pool.amp_coef,
        );
        assert(rst is Ok);
        assert(rr[i] == 0 && rr[j] == 0);
        let r_new_x = crate::math::ck_add(lim128(), 9, r_in as int, rr[i] as int);
        assert(r_new_x is Ok && r_new_x->Ok_0 == r_in as int);
        let ry = crate::math::spec_compute_y(r_in as int, rr, i, j, pre.pool.amp_coef);
        assert(ry is Ok);
        crate::math::lemma_compute_y_nonneg(r_in as int, rr, i, j, pre.pool.amp_coef, ry->Ok_0);
        let r_dy0 = crate::math::ck_sub(7, rr[j] as int, ry->Ok_0);
        assert(r_dy0 is Ok);
        assert(ry->Ok_0 == 0 && r_dy0->Ok_0 == 0);
        assert(crate::math::ck_sub(8, 0, 1) is Err);
        assert(false);
    }
}

/// The exact-out swap cannot touch an empty pool either: solving for the
/// input against zero reserves fails on a zero divisor.
pub proof fn lemma_swap_exact_out_empty_consistent(
    pre: StablePoolContract,
    post: StablePoolContract,
    now: u64,
    fresh: Seq<u128>,
    token_in: AccountId,
    token_out: AccountId,
    token_out_amount: u128,
    max_token_in_amount: u128,
    o: SwapOutcome,
)
    requires
        pre.wf(),
        spec_empty_consistent(pre),
        spec_swap_exact_out(
            pre,
            now,
            fresh,
            token_in,
            token_out,
            token_out_amount,
            max_token_in_amount,
        ) == Ok::<SwapOutcome, StablePoolError>(o),
        post.spec_swap_applied(pre, o),
    ensures
        spec_empty_consistent(post),
        pre.psp22.spec_total_supply() > 0,
{
    if pre.psp22.spec_total_supply() == 0 {
        let rck = pre.spec_check_tokens(token_in, token_out);
        assert(rck is Ok);
        let (i, j) = rck->Ok_0;
        lemma_find_from_range(pre.pool.tokens@, token_in, 0);
        lemma_find_from_range(pre.pool.tokens@, token_out, 0);
        let rates2 = spec_refreshed(pre.pool.token_rates@, now, fresh);
        let rsc = spec_scaled_rates(rates2, pre.pool.precisions@);
        assert(rsc is Ok);
        let scaled = rsc->Ok_0;
        let rrr = crate::math::spec_to_rated_loop(Seq::empty(), pre.pool.reserves@, scaled, 0);
        assert(rrr is Ok);
        let rr = rrr->Ok_0;
        crate::math::lemma_to_rated_zero(Seq::empty(), pre.pool.reserves@, scaled, 0, rr);
        let r_out_r = crate::math::spec_amount_to_rated(token_out_amount, scaled[j]);
        assert(r_out_r is Ok);
        let r_out = r_out_r->Ok_0;
        let rsf = crate::math::spec_swap_from(
            j,
            r_out,
            i,
            rr,
            pre.pool.fees,
            pre.pool.amp_coef,
        );
        assert(rsf is Ok);
        let r_fee = pre.pool.fees.spec_trade_fee_from_net(r_out);
        assert(r_fee is Ok);
        let r_opf = crate::math::ck_add(lim128(), 11, r_out as int, r_fee->Ok_0 as int);
        assert(r_opf is Ok);
        let r_nor = crate::math::ck_sub(12, rr[j] as int, r_opf->Ok_0);
        assert(r_nor is Ok);
        assert(rr[j] == 0 && r_opf->Ok_0 >= 0 && r_nor->Ok_0 == 0);
        let ry = crate::math::spec_compute_y(0, rr, j, i, pre.pool.amp_coef);
        assert(ry is Ok);
        let rd = crate::math::spec_compute_d(rr, pre.pool.amp_coef);
        assert(rd is Ok);
        let rdd = crate::math::ck_mul(crate::wide::lim256(), 10, rd->Ok_0, rd->Ok_0);
        assert(rdd is Ok);
        assert(crate::math::ck_div(3, rdd->Ok_0, 0) is Err);
        assert(false);
    }
}

/// A proportional exit keeps the pool empty-consistent: burning the whole
/// supply pays out every reserve exactly.
pub proof fn lemma_remove_by_shares_empty_consistent(
    pre: StablePoolContract,
    post: StablePoolContract,
    caller: AccountId,
    shares: u128,
    min_amounts: Seq<u128>,
    amounts: Seq<u128>,
    new_reserves: Seq<u128>,
)
    requires
        pre.wf(),
        spec_remove_liquidity_by_shares(pre, caller, shares, min_amounts) == Ok::<
            (Seq<u128>, Seq<u128>),
            StablePoolError,
        >((amounts, new_reserves)),
        post.spec_liquidity_applied(
            pre,
            LiquidityOutcome {
                new_rates: pre.pool.token_rates@,
                new_reserves,
                shares,
                fee_part: 0,
                protocol_lp: 0,
            },
            None,
            Some(caller),
        ),
    ensures
        spec_empty_consistent(post),
{
    let supply = pre.psp22.spec_total_supply();
    if post.psp22.spec_total_supply() == 0 {
        assert(shares == supply);
        let ra = crate::math::spec_amounts_given_lp(shares, pre.pool.reserves@, supply);
        assert(ra is Ok && ra->Ok_0 == amounts);
        crate::math::lemma_amounts_given_lp_formula(shares, pre.pool.reserves@, supply, amounts);
        assert(supply != 0);
        assert forall|k: int| 0 <= k < pre.pool.reserves@.len() implies amounts[k]
            == pre.pool.reserves@[k] by {
            assert(amounts[k] == pre.pool.reserves@[k] * shares / (supply as int));
            assert(pre.pool.reserves@[k] * shares == pre.pool.reserves@[k] * supply);
            vstd::arithmetic::div_mod::lemma_div_by_multiple(
                pre.pool.reserves@[k] as int,
                supply as int,
            );
            assert((pre.pool.reserves@[k] as int) * (supply as int) / (supply as int)
                == pre.pool.reserves@[k] as int);
        }
        let rl = spec_reserves_loop(Seq::empty(), pre.pool.reserves@, amounts, false, 0);
        assert(rl is Ok && rl->Ok_0 == new_reserves);
        lemma_reserves_loop_elem(Seq::empty(), pre.pool.reserves@, amounts, false, 0, new_reserves);
        assert forall|k: int| 0 <= k < post.pool.reserves@.len() implies post.pool.reserves@[k]
            == 0 by {
            assert(new_reserves[Seq::<u128>::empty().len() + (k - 0)] == (pre.pool.reserves@[k]
                - amounts[k]) as u128);
        }
    }
}

/// An imbalanced withdrawal that leaves some shares outstanding keeps the
/// pool empty-consistent. A withdrawal that burns the whole supply is not
/// covered: rounding could then leave dust reserves behind.
pub proof fn lemma_remove_by_amounts_empty_consistent(
    pre: StablePoolContract,
    post: StablePoolContract,
    now: u64,
    fresh: Seq<u128>,
    caller: AccountId,
    max_share_amount: u128,
    amounts: Seq<u128>,
    o: LiquidityOutcome,
)
    requires
        pre.wf(),
        spec_remove_liquidity_by_amounts(pre, now, fresh, caller, max_share_amount, amounts)
            == Ok::<LiquidityOutcome, StablePoolError>(o),
        o.shares < pre.psp22.spec_total_supply(),
        post.spec_liquidity_applied(pre, o, None, Some(caller)),
    ensures
        spec_empty_consistent(post),
{
}


/// Protocol-fee accrual on deposits: when a fee receiver is set, a
/// successful deposit mints it exactly the protocol portion of the
/// share-denominated fee part; the ledger effect is part of
/// [`StablePoolContract::spec_liquidity_applied`].
pub proof fn lemma_add_liquidity_protocol_accrual(
    pre: StablePoolContract,
    now: u64,
    fresh: Seq<u128>,
    min_share_amount: u128,
    amounts: Seq<u128>,
    o: LiquidityOutcome,
    receiver: AccountId,
)
    requires
        pre.pool.fee_receiver == Some(receiver),
        spec_add_liquidity(pre, now, fresh, min_share_amount, amounts) == Ok::<
            LiquidityOutcome,
            StablePoolError,
        >(o),
    ensures
        pre.pool.fees.spec_protocol_trade_fee(o.fee_part) == Ok::<u128, MathError>(o.protocol_lp),
{
}

/// Protocol-fee accrual on withdrawals, as on deposits.
pub proof fn lemma_remove_by_amounts_protocol_accrual(
    pre: StablePoolContract,
    now: u64,
    fresh: Seq<u128>,
    caller: AccountId,
    max_share_amount: u128,
    amounts: Seq<u128>,
    o: LiquidityOutcome,
    receiver: AccountId,
)
    requires
        pre.pool.fee_receiver == Some(receiver),
        spec_remove_liquidity_by_amounts(pre, now, fresh, caller, max_share_amount, amounts)
            == Ok::<LiquidityOutcome, StablePoolError>(o),
    ensures
        pre.pool.fees.spec_protocol_trade_fee(o.fee_part) == Ok::<u128, MathError>(o.protocol_lp),
{
}

/// Protocol-fee accrual on swaps: the receiver is minted exactly the
/// LP-share value of the protocol's portion of the swap fee, priced at
/// the post-swap reserves.
pub proof fn lemma_swap_core_protocol_accrual(
    pre: StablePoolContract,
    now: u64,
    fresh: Seq<u128>,
    i: int,
    j: int,
    amount_in: u128,
    min_token_out_amount: u128,
    o: SwapOutcome,
)
    requires
        spec_swap_core(pre, now, fresh, i, j, amount_in, min_token_out_amount) == Ok::<
            SwapOutcome,
            StablePoolError,
        >(o),
    ensures
        (spec_scaled_rates(
            spec_refreshed(pre.pool.token_rates@, now, fresh),
            pre.pool.precisions@,
        ) matches Ok(scaled) && spec_protocol_fee_lp(pre, scaled, o.new_reserves, o.fee, j)
            == Ok::<u128, StablePoolError>(o.protocol_lp)),
{
}


/// A quote agrees with the swap that follows it: a successful exact-in
/// swap returns precisely what [`StablePoolContract::get_swap_amount_out`]
/// quoted for the same time and oracle readings.
pub proof fn lemma_quote_matches_swap_exact_in(
    pre: StablePoolContract,
    now: u64,
    fresh: Seq<u128>,
    token_in: AccountId,
    token_out: AccountId,
    token_in_amount: u128,
    min_token_out_amount: u128,
    o: SwapOutcome,
)
    requires
        spec_swap_exact_in(
            pre,
            now,
            fresh,
            token_in,
            token_out,
            token_in_amount,
            min_token_out_amount,
        ) == Ok::<SwapOutcome, StablePoolError>(o),
    ensures
        pre.spec_get_swap_amount_out(now, fresh, token_in, token_out, token_in_amount) == Ok::<
            (u128, u128),
            StablePoolError,
        >((o.amount_out, o.fee)),
{
}

/// A quote agrees with the deposit that follows it: a successful deposit
/// mints precisely what
/// [`StablePoolContract::get_mint_liquidity_for_amounts`] quoted.
pub proof fn lemma_quote_matches_add_liquidity(
    pre: StablePoolContract,
    now: u64,
    fresh: Seq<u128>,
    min_share_amount: u128,
    amounts: Seq<u128>,
    o: LiquidityOutcome,
)
    requires
        spec_add_liquidity(pre, now, fresh, min_share_amount, amounts) == Ok::<
            LiquidityOutcome,
            StablePoolError,
        >(o),
    ensures
        pre.spec_get_mint_liquidity_for_amounts(now, fresh, amounts) == Ok::<
            (u128, u128),
            StablePoolError,
        >((o.shares, o.fee_part)),
{
}

} // verus!
