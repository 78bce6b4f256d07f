use vstd::prelude::*;

use crate::errors::MathError;

verus! {

/// 2^128, the first value that does not fit in a `u128` limb.
pub open spec fn lim128() -> int {
    0x1_0000_0000_0000_0000_0000_0000_0000_0000int
}

/// 2^256, the first value that does not fit in a [`Wide`].
pub open spec fn lim256() -> int {
    lim128() * lim128()
}

/// 2^32, the first value that does not fit in a `u32`.
pub open spec fn lim32() -> int {
    0x1_0000_0000int
}

/// A 256-bit unsigned integer held as two 128-bit limbs.
///
/// The solver's intermediate products live in this type; its arithmetic is
/// performed by `primitive_types::U256` behind checked wrappers.
#[derive(Clone, Copy, Debug, PartialEq, Eq, Structural)]
pub struct Wide {
    pub lo: u128,
    pub hi: u128,
}

impl View for Wide {
    type V = int;

    open spec fn view(&self) -> int {
        self.hi * lim128() + self.lo
    }
}

impl Wide {
    pub open spec fn spec_from_u128(x: u128) -> Wide {
        Wide { lo: x, hi: 0 }
    }

    pub proof fn lemma_view_bounds(self)
        ensures
            0 <= self@ < lim256(),
    {
        assert(0 <= self.hi * lim128() + self.lo < lim128() * lim128())
            by (nonlinear_arith)
            requires
                0 <= self.hi < lim128(),
                0 <= self.lo < lim128(),
        ;
    }

    #[verifier::when_used_as_spec(spec_from_u128)]
    pub fn from_u128(x: u128) -> (r: Wide)
        ensures
            r@ == x,
    {
        Wide { lo: x, hi: 0 }
    }

    /// Narrowing to a `u128`; `None` when the value does not fit.
    pub fn to_u128(self) -> (r: Option<u128>)
        ensures
            self@ < lim128() ==> r == Some(self.lo) && self.lo == self@,
            self@ >= lim128() ==> r is None,
    {
        proof {
            if self.hi != 0 {
                assert(self.hi * lim128() >= lim128()) by (nonlinear_arith)
                    requires
                        self.hi >= 1,
                ;
            }
        }
        if self.hi == 0 {
            Some(self.lo)
        } else {
            None
        }
    }

    pub fn is_zero(self) -> (r: bool)
        ensures
            r == (self@ == 0),
    {
        proof {
            self.lemma_view_bounds();
            if self.hi != 0 {
                assert(self.hi * lim128() >= lim128()) by (nonlinear_arith)
                    requires
                        self.hi >= 1,
                ;
            }
        }
        self.lo == 0 && self.hi == 0
    }

    pub fn gt(self, other: Wide) -> (r: bool)
        ensures
            r == (self@ > other@),
    {
        proof {
            lemma_limb_order(self, other);
        }
        if self.hi != other.hi {
            self.hi > other.hi
        } else {
            self.lo > other.lo
        }
    }
}

/// Limb-wise comparison agrees with the numeric order of the views.
proof fn lemma_limb_order(a: Wide, b: Wide)
    ensures
        a.hi > b.hi ==> a@ > b@,
        a.hi < b.hi ==> a@ < b@,
        a.hi == b.hi ==> (a@ > b@ <==> a.lo > b.lo),
{
    if a.hi > b.hi {
        assert(a.hi * lim128() + a.lo > b.hi * lim128() + b.lo) by (nonlinear_arith)
            requires
                a.hi >= b.hi + 1,
                0 <= a.lo,
                b.lo < lim128(),
        ;
    }
    if a.hi < b.hi {
        assert(a.hi * lim128() + a.lo < b.hi * lim128() + b.lo) by (nonlinear_arith)
            requires
                b.hi >= a.hi + 1,
                0 <= b.lo,
                a.lo < lim128(),
        ;
    }
}

/// Relies on `primitive_types::U256::checked_add`: 256-bit sum, or `None`
/// on overflow past 2^256.
#[verifier::external_body]
pub fn wide_checked_add(a: Wide, b: Wide) -> (r: Option<Wide>)
    ensures
        match r {
            Some(w) => a@ + b@ < lim256() && w@ == a@ + b@,
            None => a@ + b@ >= lim256(),
        },
{
    let av = (primitive_types::U256::from(a.hi) << 128) | primitive_types::U256::from(a.lo);
    let bv = (primitive_types::U256::from(b.hi) << 128) | primitive_types::U256::from(b.lo);
    av.checked_add(bv).map(|x| Wide { lo: x.low_u128(), hi: (x >> 128).low_u128() })
}

/// Relies on `primitive_types::U256::checked_sub`: 256-bit difference, or
/// `None` when it would be negative.
#[verifier::external_body]
pub fn wide_checked_sub(a: Wide, b: Wide) -> (r: Option<Wide>)
    ensures
        match r {
            Some(w) => a@ >= b@ && w@ == a@ - b@,
            None => a@ < b@,
        },
{
    let av = (primitive_types::U256::from(a.hi) << 128) | primitive_types::U256::from(a.lo);
    let bv = (primitive_types::U256::from(b.hi) << 128) | primitive_types::U256::from(b.lo);
    av.checked_sub(bv).map(|x| Wide { lo: x.low_u128(), hi: (x >> 128).low_u128() })
}

/// Relies on `primitive_types::U256::checked_mul`: 256-bit product, or
/// `None` on overflow past 2^256.
#[verifier::external_body]
pub fn wide_checked_mul(a: Wide, b: Wide) -> (r: Option<Wide>)
    ensures
        match r {
            Some(w) => a@ * b@ < lim256() && w@ == a@ * b@,
            None => a@ * b@ >= lim256(),
        },
{
    let av = (primitive_types::U256::from(a.hi) << 128) | primitive_types::U256::from(a.lo);
    let bv = (primitive_types::U256::from(b.hi) << 128) | primitive_types::U256::from(b.lo);
    av.checked_mul(bv).map(|x| Wide { lo: x.low_u128(), hi: (x >> 128).low_u128() })
}

/// Relies on `primitive_types::U256::checked_div`: 256-bit floor division,
/// or `None` for a zero divisor.
#[verifier::external_body]
pub fn wide_checked_div(a: Wide, b: Wide) -> (r: Option<Wide>)
    ensures
        match r {
            Some(w) => b@ != 0 && w@ == a@ / b@,
            None => b@ == 0,
        },
{
    let av = (primitive_types::U256::from(a.hi) << 128) | primitive_types::U256::from(a.lo);
    let bv = (primitive_types::U256::from(b.hi) << 128) | primitive_types::U256::from(b.lo);
    av.checked_div(bv).map(|x| Wide { lo: x.low_u128(), hi: (x >> 128).low_u128() })
}

/// Relies on `primitive_types::U256::mul` applied to values promoted from
/// `u128`: the full 256-bit product, which cannot overflow.
#[verifier::external_body]
pub fn casted_mul(a: u128, b: u128) -> (r: Wide)
    ensures
        r@ == a * b,
{
    let x = primitive_types::U256::from(a) * primitive_types::U256::from(b);
    Wide { lo: x.low_u128(), hi: (x >> 128).low_u128() }
}


/// The two word limits are ordered: 2^256 dwarfs 2^128.
pub proof fn lemma_lim_bounds()
    ensures
        lim128() > 1,
        lim256() > lim128(),
{
    assert(lim128() * lim128() > lim128()) by (nonlinear_arith)
        requires
            lim128() > 1,
    ;
}

} // verus!
