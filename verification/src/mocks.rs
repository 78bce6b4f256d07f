use vstd::prelude::*;

use crate::constants::RATE_PRECISION;

verus! {

/// A rate provider for tests that returns whatever rate it was last set
/// to; it starts at the unit rate.
#[derive(Clone, Copy, Debug, PartialEq, Eq, Structural)]
pub struct MockSazeroRateContract {
    pub rate: u128,
}

impl MockSazeroRateContract {
    pub fn new() -> (r: MockSazeroRateContract)
        ensures
            r.rate == RATE_PRECISION,
    {
        MockSazeroRateContract { rate: RATE_PRECISION }
    }

    pub fn set_rate(&mut self, rate: u128)
        ensures
            final(self).rate == rate,
    {
        self.rate = rate;
    }

    pub fn get_rate(&self) -> (r: u128)
        ensures
            r == self.rate,
    {
        self.rate
    }
}

/// A rate provider for tests whose rate grows by one basis point of the
/// unit rate every minute after construction.
#[derive(Clone, Copy, Debug, PartialEq, Eq, Structural)]
pub struct SazeroMockContract {
    pub initial_ts: u64,
}

impl SazeroMockContract {
    pub fn new(current_time: u64) -> (r: SazeroMockContract)
        ensures
            r.initial_ts == current_time,
    {
        SazeroMockContract { initial_ts: current_time }
    }

    /// The mocked exchange rate at `now`:
    /// `RATE_PRECISION * (1 + elapsed_ms / 600_000_000)`.
    pub fn get_rate(&self, now: u64) -> (r: u128)
        requires
            now >= self.initial_ts,
        ensures
            r == RATE_PRECISION + RATE_PRECISION * ((now - self.initial_ts) as int)
                / 600000000,
    {
        let time_d = (now - self.initial_ts) as u128;
        proof {
            assert(RATE_PRECISION * time_d < crate::wide::lim128()) by (nonlinear_arith)
                requires
                    RATE_PRECISION == 1_000_000_000_000u128,
                    time_d <= u64::MAX,
                    crate::wide::lim128()
                        == 0x1_0000_0000_0000_0000_0000_0000_0000_0000int,
            ;
        }
        RATE_PRECISION + RATE_PRECISION * time_d / 600000000
    }
}


impl crate::rate_provider::RateProvider for MockSazeroRateContract {
    fn get_rate(&mut self) -> u128 {
        self.rate
    }
}

} // verus!
