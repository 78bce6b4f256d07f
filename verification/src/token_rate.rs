use vstd::prelude::*;

use crate::account::AccountId;

verus! {

/// An exchange rate queried from an external oracle contract and cached
/// for `expiration_duration_ms`. The oracle itself lives outside the
/// library: callers query it and pass the fresh reading in.
#[derive(Clone, Copy, Debug, PartialEq, Eq, Structural)]
pub struct ExternalTokenRate {
    pub cached_token_rate: u128,
    pub last_token_rate_update_ts: u64,
    pub token_rate_contract: AccountId,
    pub expiration_duration_ms: u64,
}

impl ExternalTokenRate {
    /// The cache is stale at `current_time` and a refresh is due.
    pub open spec fn spec_is_outdated(self, current_time: u64) -> bool {
        (if current_time >= self.last_token_rate_update_ts {
            current_time - self.last_token_rate_update_ts
        } else {
            0
        }) >= self.expiration_duration_ms
    }

    pub fn new(
        current_time: u64,
        token_rate_contract: AccountId,
        expiration_duration_ms: u64,
        queried_rate: u128,
    ) -> (r: ExternalTokenRate)
        ensures
            r == (ExternalTokenRate {
                cached_token_rate: queried_rate,
                last_token_rate_update_ts: current_time,
                token_rate_contract,
                expiration_duration_ms,
            }),
    {
        ExternalTokenRate {
            cached_token_rate: queried_rate,
            last_token_rate_update_ts: current_time,
            token_rate_contract,
            expiration_duration_ms,
        }
    }

    pub fn get_rate(&self) -> (r: u128)
        ensures
            r == self.cached_token_rate,
    {
        self.cached_token_rate
    }

    fn is_outdated(&self, current_time: u64) -> (r: bool)
        ensures
            r == self.spec_is_outdated(current_time),
    {
        let elapsed = if current_time >= self.last_token_rate_update_ts {
            current_time - self.last_token_rate_update_ts
        } else {
            0
        };
        elapsed >= self.expiration_duration_ms
    }

    fn update(&mut self, current_time: u64, fresh_rate: u128) -> (changed: bool)
        ensures
            final(self).cached_token_rate == fresh_rate,
            final(self).last_token_rate_update_ts == current_time,
            final(self).token_rate_contract == old(self).token_rate_contract,
            final(self).expiration_duration_ms == old(self).expiration_duration_ms,
            changed == (old(self).cached_token_rate != fresh_rate),
    {
        let old_rate = self.cached_token_rate;
        self.cached_token_rate = fresh_rate;
        self.last_token_rate_update_ts = current_time;
        old_rate != fresh_rate
    }

    /// Caches `fresh_rate` if and only if the TTL has expired; returns
    /// whether the cached value changed.
    pub fn update_rate(&mut self, current_time: u64, fresh_rate: u128) -> (changed: bool)
        ensures
            old(self).spec_is_outdated(current_time) ==> *final(self) == (ExternalTokenRate {
                cached_token_rate: fresh_rate,
                last_token_rate_update_ts: current_time,
                ..*old(self)
            }) && changed == (old(self).cached_token_rate != fresh_rate),
            !old(self).spec_is_outdated(current_time) ==> *final(self) == *old(self) && !changed,
    {
        if self.is_outdated(current_time) {
            self.update(current_time, fresh_rate)
        } else {
            false
        }
    }

    /// Caches `fresh_rate` unconditionally; returns whether the cached
    /// value changed.
    pub fn update_rate_no_cache(&mut self, current_time: u64, fresh_rate: u128) -> (changed: bool)
        ensures
            *final(self) == (ExternalTokenRate {
                cached_token_rate: fresh_rate,
                last_token_rate_update_ts: current_time,
                ..*old(self)
            }),
            changed == (old(self).cached_token_rate != fresh_rate),
    {
        self.update(current_time, fresh_rate)
    }
}

/// How a token's exchange rate is obtained: a constant, or an external
/// oracle reading cached with a TTL.
#[derive(Clone, Copy, Debug, PartialEq, Eq, Structural)]
pub enum TokenRate {
    Constant(u128),
    External(ExternalTokenRate),
}

impl TokenRate {
    /// The currently cached rate.
    pub open spec fn spec_rate(self) -> u128 {
        match self {
            TokenRate::Constant(rate) => rate,
            TokenRate::External(external) => external.cached_token_rate,
        }
    }

    /// The rate entry after a TTL-respecting refresh at `current_time`
    /// with the oracle reading `fresh_rate`.
    pub open spec fn spec_updated(self, current_time: u64, fresh_rate: u128) -> TokenRate {
        match self {
            TokenRate::Constant(_) => self,
            TokenRate::External(external) => if external.spec_is_outdated(current_time) {
                TokenRate::External(
                    ExternalTokenRate {
                        cached_token_rate: fresh_rate,
                        last_token_rate_update_ts: current_time,
                        ..external
                    },
                )
            } else {
                self
            },
        }
    }

    /// The rate entry after an unconditional refresh.
    pub open spec fn spec_force_updated(self, current_time: u64, fresh_rate: u128) -> TokenRate {
        match self {
            TokenRate::Constant(_) => self,
            TokenRate::External(external) => TokenRate::External(
                ExternalTokenRate {
                    cached_token_rate: fresh_rate,
                    last_token_rate_update_ts: current_time,
                    ..external
                },
            ),
        }
    }

    pub fn new_constant(rate: u128) -> (r: TokenRate)
        ensures
            r == TokenRate::Constant(rate),
    {
        TokenRate::Constant(rate)
    }

    /// A new external entry whose cache holds the oracle reading
    /// `queried_rate` taken at `current_time`.
    pub fn new_external(
        current_time: u64,
        token_rate_contract: AccountId,
        expiration_duration_ms: u64,
        queried_rate: u128,
    ) -> (r: TokenRate)
        ensures
            r == TokenRate::External(
                ExternalTokenRate {
                    cached_token_rate: queried_rate,
                    last_token_rate_update_ts: current_time,
                    token_rate_contract,
                    expiration_duration_ms,
                },
            ),
    {
        TokenRate::External(
            ExternalTokenRate::new(
                current_time,
                token_rate_contract,
                expiration_duration_ms,
                queried_rate,
            ),
        )
    }

    /// Returns the cached rate; call [`Self::update_rate`] first to make
    /// sure it is current.
    pub fn get_rate(&self) -> (r: u128)
        ensures
            r == self.spec_rate(),
    {
        match self {
            TokenRate::Constant(rate) => *rate,
            TokenRate::External(external) => external.get_rate(),
        }
    }

    /// Refreshes an external entry whose TTL has expired with the oracle
    /// reading `fresh_rate`; returns whether the cached value changed.
    pub fn update_rate(&mut self, current_time: u64, fresh_rate: u128) -> (changed: bool)
        ensures
            *final(self) == old(self).spec_updated(current_time, fresh_rate),
            changed == (old(self).spec_rate() != final(self).spec_rate()),
    {
        match self {
            TokenRate::External(external) => external.update_rate(current_time, fresh_rate),
            TokenRate::Constant(_) => false,
        }
    }

    /// Refreshes an external entry regardless of its TTL; returns whether
    /// the cached value changed.
    pub fn force_update_rate(&mut self, current_time: u64, fresh_rate: u128) -> (changed: bool)
        ensures
            *final(self) == old(self).spec_force_updated(current_time, fresh_rate),
            changed == (old(self).spec_rate() != final(self).spec_rate()),
    {
        match self {
            TokenRate::External(external) => external.update_rate_no_cache(
                current_time,
                fresh_rate,
            ),
            TokenRate::Constant(_) => false,
        }
    }
}

} // verus!
