use vstd::prelude::*;

verus! {

/// The contract an external rate oracle implements: the current exchange
/// rate of its token against the pool's base asset, as a fixed-point
/// value with `RATE_PRECISION` precision.
///
/// The pool never calls an oracle directly; its callers query one and
/// hand the reading in, so a stale or failing provider can only ever
/// delay a refresh.
pub trait RateProvider {
    fn get_rate(&mut self) -> u128;
}

} // verus!
