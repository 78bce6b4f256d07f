use vstd::arithmetic::power::pow;
use vstd::prelude::*;

use crate::constants::{MAX_COINS, RATE_PRECISION};
use crate::errors::MathError;
use crate::fees::Fees;
use crate::wide::{
    casted_mul, lim128, lim256, wide_checked_add, wide_checked_div, wide_checked_mul,
    wide_checked_sub, Wide,
};

verus! {

broadcast use vstd::std_specs::control_flow::group_control_flow_axioms;

/// Iteration cap of the Newton–Raphson solvers.
pub const MAX_ITERATIONS: u8 = 255;

// Checked arithmetic, in specification form: each helper states the value
// a checked step yields, or the error it raises, at the given bound.
pub open spec fn ck_add(lim: int, t: u8, a: int, b: int) -> Result<int, MathError> {
    if a + b < lim {
        Ok(a + b)
    } else {
        Err(MathError::AddOverflow(t))
    }
}

pub open spec fn ck_sub(t: u8, a: int, b: int) -> Result<int, MathError> {
    if a >= b {
        Ok(a - b)
    } else {
        Err(MathError::SubUnderflow(t))
    }
}

pub open spec fn ck_mul(lim: int, t: u8, a: int, b: int) -> Result<int, MathError> {
    if a * b < lim {
        Ok(a * b)
    } else {
        Err(MathError::MulOverflow(t))
    }
}

pub open spec fn ck_div(t: u8, a: int, b: int) -> Result<int, MathError> {
    if b == 0 {
        Err(MathError::DivByZero(t))
    } else {
        Ok(a / b)
    }
}

pub open spec fn ck_cast(lim: int, t: u8, a: int) -> Result<int, MathError> {
    if a < lim {
        Ok(a)
    } else {
        Err(MathError::CastOverflow(t))
    }
}

/// The result of a fallible computation over [`Wide`] values, as the
/// mathematical integer it stands for.
pub open spec fn wide_res(r: Result<Wide, MathError>) -> Result<int, MathError> {
    match r {
        Ok(w) => Ok(w@),
        Err(e) => Err(e),
    }
}

/// Same for a `u128` result.
pub open spec fn u128_res(r: Result<u128, MathError>) -> Result<int, MathError> {
    match r {
        Ok(v) => Ok(v as int),
        Err(e) => Err(e),
    }
}

/// Sum of a sequence of token amounts.
pub open spec fn seq_sum(s: Seq<u128>) -> int
    decreases s.len(),
{
    if s.len() == 0 {
        0
    } else {
        seq_sum(s.drop_last()) + s.last()
    }
}

pub proof fn lemma_seq_sum_nonneg(s: Seq<u128>)
    ensures
        seq_sum(s) >= 0,
    decreases s.len(),
{
    if s.len() > 0 {
        lemma_seq_sum_nonneg(s.drop_last());
    }
}

pub proof fn lemma_seq_sum_bound(s: Seq<u128>)
    ensures
        seq_sum(s) <= s.len() * (lim128() - 1),
    decreases s.len(),
{
    if s.len() == 0 {
    } else {
        lemma_seq_sum_bound(s.drop_last());
        assert((s.len() - 1) * (lim128() - 1) + (lim128() - 1) == s.len() * (lim128() - 1))
            by (nonlinear_arith);
    }
}

/// `n^n` for the pool sizes the invariant solver admits.
fn nn_pow(n: usize) -> (r: u128)
    requires
        2 <= n <= MAX_COINS,
    ensures
        r == pow(n as int, n as nat),
        4 <= r <= 16777216,
{
    proof {
        reveal_with_fuel(pow, 10);
        assert(pow(2, 2) == 4);
        assert(pow(3, 3) == 27);
        assert(pow(4, 4) == 256);
        assert(pow(5, 5) == 3125);
        assert(pow(6, 6) == 46656);
        assert(pow(7, 7) == 823543);
        assert(pow(8, 8) == 16777216);
    }
    if n == 2 {
        4
    } else if n == 3 {
        27
    } else if n == 4 {
        256
    } else if n == 5 {
        3125
    } else if n == 6 {
        46656
    } else if n == 7 {
        823543
    } else {
        16777216
    }
}

/// Sum of the amounts, in 256-bit form. The sum of at most `MAX_COINS`
/// 128-bit values cannot overflow 256 bits.
fn sum_wide(amounts: &Vec<u128>) -> (r: Wide)
    requires
        amounts@.len() <= MAX_COINS,
    ensures
        r@ == seq_sum(amounts@),
{
    let mut acc = Wide::from_u128(0);
    let n = amounts.len();
    let mut i: usize = 0;
    while i < n
        invariant
            i <= n,
            n == amounts@.len() <= MAX_COINS,
            acc@ == seq_sum(amounts@.take(i as int)),
        decreases n - i,
    {
        proof {
            lemma_seq_sum_bound(amounts@.take(i as int));
            lemma_seq_sum_nonneg(amounts@.take(i as int));
            assert(amounts@.take(i as int).len() == i);
            assert(i as int * (lim128() - 1) <= 8 * (lim128() - 1)) by (nonlinear_arith)
                requires
                    0 <= i as int <= 8,
            ;
            assert(8 * (lim128() - 1) + lim128() < lim256());
            assert(amounts@.take(i + 1).drop_last() =~= amounts@.take(i as int));
            assert(seq_sum(amounts@.take(i + 1)) == acc@ + amounts@[i as int]);
        }
        acc = match wide_checked_add(acc, Wide::from_u128(amounts[i])) {
            Some(w) => w,
            None => {
                proof {
                    assert(false);
                }
                acc
            },
        };
        i += 1;
    }
    proof {
        assert(amounts@.take(n as int) =~= amounts@);
    }
    acc
}

// --- the invariant D ------------------------------------------------------

/// One pass of the product `d_prod = d_prod * d_prev / (x_i * n)` over the
/// amounts from index `i` on, with the errors of its checked steps.
pub open spec fn spec_d_prod_loop(p: int, d_prev: int, amounts: Seq<u128>, n: int, i: int) -> Result<
    int,
    MathError,
>
    decreases amounts.len() - i,
{
    if i < 0 || i >= amounts.len() {
        Ok(p)
    } else {
        match ck_mul(lim256(), 3, p, d_prev) {
            Err(e) => Err(e),
            Ok(pd) => match ck_mul(lim128(), 4, amounts[i] as int, n) {
                Err(e) => Err(e),
                Ok(xn) => match ck_div(1, pd, xn) {
                    Err(e) => Err(e),
                    Ok(p2) => spec_d_prod_loop(p2, d_prev, amounts, n, i + 1),
                },
            },
        }
    }
}

/// One Newton step for D.
pub open spec fn spec_d_next(d_prev: int, amounts: Seq<u128>, n: int, ann_sum: int, ann_sub_one: int) -> Result<
    int,
    MathError,
> {
    match spec_d_prod_loop(d_prev, d_prev, amounts, n, 0) {
        Err(e) => Err(e),
        Ok(d_prod) => match ck_mul(lim256(), 5, d_prod, n) {
            Err(e) => Err(e),
            Ok(pn) => match ck_add(lim256(), 3, pn, ann_sum) {
                Err(e) => Err(e),
                Ok(num_inner) => match ck_mul(lim256(), 6, d_prev, num_inner) {
                    Err(e) => Err(e),
                    Ok(numerator) => match ck_mul(lim256(), 7, d_prev, ann_sub_one) {
                        Err(e) => Err(e),
                        Ok(den_left) => match ck_mul(lim256(), 8, d_prod, n + 1) {
                            Err(e) => Err(e),
                            Ok(den_right) => match ck_add(lim256(), 4, den_left, den_right) {
                                Err(e) => Err(e),
                                Ok(denominator) => ck_div(2, numerator, denominator),
                            },
                        },
                    },
                },
            },
        },
    }
}

/// The Newton iteration for D: step until two successive iterates differ by
/// at most one (returning the older of the two), or the iteration budget is
/// spent (returning the last iterate).
pub open spec fn spec_d_loop(
    d: int,
    amounts: Seq<u128>,
    n: int,
    ann_sum: int,
    ann_sub_one: int,
    iters: nat,
) -> Result<int, MathError>
    decreases iters,
{
    if iters == 0 {
        Ok(d)
    } else {
        match spec_d_next(d, amounts, n, ann_sum, ann_sub_one) {
            Err(e) => Err(e),
            Ok(dn) => if dn - d <= 1 && d - dn <= 1 {
                Ok(d)
            } else {
                spec_d_loop(dn, amounts, n, ann_sum, ann_sub_one, (iters - 1) as nat)
            },
        }
    }
}

/// The stable-swap invariant D of the given amounts, under amplification
/// coefficient `amp_coef`, exactly as the fixed-point Newton iteration
/// computes it; or the first error of its checked arithmetic.
pub open spec fn spec_compute_d(amounts: Seq<u128>, amp_coef: u128) -> Result<int, MathError> {
    let s = seq_sum(amounts);
    if s == 0 {
        Ok(0)
    } else {
        let n = amounts.len() as int;
        let ann = amp_coef * pow(n, amounts.len());
        match ck_mul(lim256(), 2, ann, s) {
            Err(e) => Err(e),
            Ok(ann_sum) => match ck_sub(1, ann, 1) {
                Err(e) => Err(e),
                Ok(ann_sub_one) => spec_d_loop(s, amounts, n, ann_sum, ann_sub_one, 255),
            },
        }
    }
}

/// One Newton step for D (executable form).
fn compute_d_next(d_prev: Wide, amounts: &Vec<u128>, ann_sum: Wide, ann_sub_one: Wide) -> (r:
    Result<Wide, MathError>)
    requires
        2 <= amounts@.len() <= MAX_COINS,
    ensures
        wide_res(r) == spec_d_next(
            d_prev@,
            amounts@,
            amounts@.len() as int,
            ann_sum@,
            ann_sub_one@,
        ),
{
    let len = amounts.len();
    let n: u128 = len as u128;
    let ghost nn = len as int;
    let mut d_prod = d_prev;
    let mut i: usize = 0;
    while i < len
        invariant
            i <= len,
            len == amounts@.len(),
            2 <= len <= MAX_COINS,
            n == len as u128,
            nn == len as int,
            spec_d_prod_loop(d_prod@, d_prev@, amounts@, nn, i as int) == spec_d_prod_loop(
                d_prev@,
                d_prev@,
                amounts@,
                nn,
                0,
            ),
        decreases len - i,
    {
        let pd = match wide_checked_mul(d_prod, d_prev) {
            Some(w) => w,
            None => {
                return Err(MathError::MulOverflow(3));
            },
        };
        let xn = match amounts[i].checked_mul(n) {
            Some(v) => v,
            None => {
                return Err(MathError::MulOverflow(4));
            },
        };
        let p2 = match wide_checked_div(pd, Wide::from_u128(xn)) {
            Some(w) => w,
            None => {
                return Err(MathError::DivByZero(1));
            },
        };
        d_prod = p2;
        i += 1;
    }
    let pn = match wide_checked_mul(d_prod, Wide::from_u128(n)) {
        Some(w) => w,
        None => {
            return Err(MathError::MulOverflow(5));
        },
    };
    let num_inner = match wide_checked_add(pn, ann_sum) {
        Some(w) => w,
        None => {
            return Err(MathError::AddOverflow(3));
        },
    };
    let numerator = match wide_checked_mul(d_prev, num_inner) {
        Some(w) => w,
        None => {
            return Err(MathError::MulOverflow(6));
        },
    };
    let den_left = match wide_checked_mul(d_prev, ann_sub_one) {
        Some(w) => w,
        None => {
            return Err(MathError::MulOverflow(7));
        },
    };
    let den_right = match wide_checked_mul(d_prod, Wide::from_u128(n + 1)) {
        Some(w) => w,
        None => {
            return Err(MathError::MulOverflow(8));
        },
    };
    let denominator = match wide_checked_add(den_left, den_right) {
        Some(w) => w,
        None => {
            return Err(MathError::AddOverflow(4));
        },
    };
    match wide_checked_div(numerator, denominator) {
        Some(w) => Ok(w),
        None => Err(MathError::DivByZero(2)),
    }
}

/// Computes the stable swap invariant D of `amounts` under `amp_coef`.
///
/// The result, in 256-bit form, is exactly [`spec_compute_d`] of the
/// inputs, error for error.
pub fn compute_d(amounts: &Vec<u128>, amp_coef: u128) -> (r: Result<Wide, MathError>)
    requires
        2 <= amounts@.len() <= MAX_COINS,
    ensures
        wide_res(r) == spec_compute_d(amounts@, amp_coef),
{
    let sum = sum_wide(amounts);
    proof {
        lemma_seq_sum_nonneg(amounts@);
    }
    if sum.is_zero() {
        return Ok(Wide::from_u128(0));
    }
    let len = amounts.len();
    let ghost nn_g = len as int;
    let nn = nn_pow(len);
    let ann = casted_mul(amp_coef, nn);
    let ann_sum = match wide_checked_mul(ann, sum) {
        Some(w) => w,
        None => {
            return Err(MathError::MulOverflow(2));
        },
    };
    let ann_sub_one = match wide_checked_sub(ann, Wide::from_u128(1)) {
        Some(w) => w,
        None => {
            return Err(MathError::SubUnderflow(1));
        },
    };
    let mut d = sum;
    let mut i: u8 = 0;
    while i < MAX_ITERATIONS
        invariant
            i <= MAX_ITERATIONS,
            2 <= len == amounts@.len() <= MAX_COINS,
            nn_g == len as int,
            spec_d_loop(d@, amounts@, nn_g, ann_sum@, ann_sub_one@, (MAX_ITERATIONS - i) as nat)
                == spec_d_loop(sum@, amounts@, nn_g, ann_sum@, ann_sub_one@, 255),
            spec_compute_d(amounts@, amp_coef) == spec_d_loop(
                sum@,
                amounts@,
                nn_g,
                ann_sum@,
                ann_sub_one@,
                255,
            ),
        decreases MAX_ITERATIONS - i,
    {
        let d_next = compute_d_next(d, amounts, ann_sum, ann_sub_one)?;
        if d_next.gt(d) {
            let diff = match wide_checked_sub(d_next, d) {
                Some(w) => w,
                None => {
                    proof {
                        assert(false);
                    }
                    d
                },
            };
            if !diff.gt(Wide::from_u128(1)) {
                return Ok(d);
            }
        } else {
            let diff = match wide_checked_sub(d, d_next) {
                Some(w) => w,
                None => {
                    proof {
                        assert(false);
                    }
                    d
                },
            };
            if !diff.gt(Wide::from_u128(1)) {
                return Ok(d);
            }
        }
        d = d_next;
        i += 1;
    }
    Ok(d)
}

// --- the per-coordinate solve for y ---------------------------------------

/// Accumulation of the reserve sum and the product `c` over every index
/// other than `x` and `y`, from index `i` on.
pub open spec fn spec_y_sum_c_loop(
    sum: int,
    c: int,
    d: int,
    reserves: Seq<u128>,
    x: int,
    y: int,
    i: int,
) -> Result<(int, int), MathError>
    decreases reserves.len() - i,
{
    if i < 0 || i >= reserves.len() {
        Ok((sum, c))
    } else if i == x || i == y {
        spec_y_sum_c_loop(sum, c, d, reserves, x, y, i + 1)
    } else {
        match ck_add(lim256(), 5, sum, reserves[i] as int) {
            Err(e) => Err(e),
            Ok(sum2) => match ck_mul(lim256(), 11, c, d) {
                Err(e) => Err(e),
                Ok(cd) => match ck_div(4, cd, reserves[i] as int) {
                    Err(e) => Err(e),
                    Ok(c2) => spec_y_sum_c_loop(sum2, c2, d, reserves, x, y, i + 1),
                },
            },
        }
    }
}

/// One Newton step for y.
pub open spec fn spec_y_next(y_prev: int, b: int, c: int, d: int) -> Result<int, MathError> {
    match ck_mul(lim256(), 15, y_prev, y_prev) {
        Err(e) => Err(e),
        Ok(y2) => match ck_add(lim256(), 7, y2, c) {
            Err(e) => Err(e),
            Ok(numerator) => match ck_mul(lim256(), 16, y_prev, 2) {
                Err(e) => Err(e),
                Ok(yd) => match ck_add(lim256(), 8, yd, b) {
                    Err(e) => Err(e),
                    Ok(den_sum) => match ck_sub(6, den_sum, d) {
                        Err(e) => Err(e),
                        Ok(denominator) => ck_div(7, numerator, denominator),
                    },
                },
            },
        },
    }
}

/// The Newton iteration for y: step until two successive iterates differ
/// by at most one (returning the newer), or the budget is spent (returning
/// the last iterate); the result is narrowed to `u128`.
pub open spec fn spec_y_loop(y_prev: int, b: int, c: int, d: int, iters: nat) -> Result<
    int,
    MathError,
>
    decreases iters,
{
    if iters == 0 {
        ck_cast(lim128(), 1, y_prev)
    } else {
        match spec_y_next(y_prev, b, c, d) {
            Err(e) => Err(e),
            Ok(yn) => if yn - y_prev <= 1 && y_prev - yn <= 1 {
                ck_cast(lim128(), 1, yn)
            } else {
                spec_y_loop(yn, b, c, d, (iters - 1) as nat)
            },
        }
    }
}

/// The new reserve of token `y` that preserves D when token `x`'s reserve
/// becomes `new_reserve_x`, exactly as the fixed-point iteration computes
/// it; or the first error of its checked arithmetic.
pub open spec fn spec_compute_y(
    new_reserve_x: int,
    reserves: Seq<u128>,
    x: int,
    y: int,
    amp_coef: u128,
) -> Result<int, MathError> {
    let n = reserves.len() as int;
    let ann = amp_coef * pow(n, reserves.len());
    match spec_compute_d(reserves, amp_coef) {
        Err(e) => Err(e),
        Ok(d) => match ck_mul(lim256(), 10, d, d) {
            Err(e) => Err(e),
            Ok(dd) => match ck_div(3, dd, new_reserve_x) {
                Err(e) => Err(e),
                Ok(c0) => match spec_y_sum_c_loop(new_reserve_x, c0, d, reserves, x, y, 0) {
                    Err(e) => Err(e),
                    Ok((reserves_sum, c1)) => match ck_mul(lim256(), 12, c1, d) {
                        Err(e) => Err(e),
                        Ok(c1d) => match ck_div(5, c1d, ann * pow(n, reserves.len())) {
                            Err(e) => Err(e),
                            Ok(c) => match ck_div(6, d, ann) {
                                Err(e) => Err(e),
                                Ok(d_ann) => match ck_add(lim256(), 6, d_ann, reserves_sum) {
                                    Err(e) => Err(e),
                                    Ok(b) => spec_y_loop(d, b, c, d, 255),
                                },
                            },
                        },
                    },
                },
            },
        },
    }
}

/// Returns the new reserve of token `y` given the new reserve of token `x`.
///
/// The result is exactly [`spec_compute_y`] of the inputs, error for error.
/// Zero reserves at positions other than `y` surface as a division error.
#[verifier::loop_isolation(false)]
pub fn compute_y(
    new_reserve_x: u128,
    reserves: &Vec<u128>,
    token_x_id: usize,
    token_y_id: usize,
    amp_coef: u128,
) -> (r: Result<u128, MathError>)
    requires
        2 <= reserves@.len() <= MAX_COINS,
        token_x_id < reserves@.len(),
        token_y_id < reserves@.len(),
        token_x_id != token_y_id,
    ensures
        u128_res(r) == spec_compute_y(
            new_reserve_x as int,
            reserves@,
            token_x_id as int,
            token_y_id as int,
            amp_coef,
        ),
{
    let len = reserves.len();
    let nn = nn_pow(len);
    let ann = casted_mul(amp_coef, nn);
    let d = compute_d(reserves, amp_coef)?;
    let dd = match wide_checked_mul(d, d) {
        Some(w) => w,
        None => {
            return Err(MathError::MulOverflow(10));
        },
    };
    let mut c = match wide_checked_div(dd, Wide::from_u128(new_reserve_x)) {
        Some(w) => w,
        None => {
            return Err(MathError::DivByZero(3));
        },
    };
    let mut reserves_sum = Wide::from_u128(new_reserve_x);
    let ghost c0 = c@;
    let ghost xg = token_x_id as int;
    let ghost yg = token_y_id as int;
    let mut i: usize = 0;
    while i < len
        invariant
            i <= len,
            len == reserves@.len(),
            xg == token_x_id as int,
            yg == token_y_id as int,
            spec_y_sum_c_loop(reserves_sum@, c@, d@, reserves@, xg, yg, i as int)
                == spec_y_sum_c_loop(new_reserve_x as int, c0, d@, reserves@, xg, yg, 0),
        decreases len - i,
    {
        if i != token_x_id && i != token_y_id {
            reserves_sum = match wide_checked_add(reserves_sum, Wide::from_u128(reserves[i])) {
                Some(w) => w,
                None => {
                    return Err(MathError::AddOverflow(5));
                },
            };
            let cd = match wide_checked_mul(c, d) {
                Some(w) => w,
                None => {
                    return Err(MathError::MulOverflow(11));
                },
            };
            c = match wide_checked_div(cd, Wide::from_u128(reserves[i])) {
                Some(w) => w,
                None => {
                    return Err(MathError::DivByZero(4));
                },
            };
        }
        i += 1;
    }
    let ann_nn = match wide_checked_mul(ann, Wide::from_u128(nn)) {
        Some(w) => w,
        None => {
            proof {
                assert(ann@ * nn < lim256()) by (nonlinear_arith)
                    requires
                        ann@ == amp_coef * nn,
                        0 <= nn <= 16777216,
                        lim256()
                            >= 0x1_0000_0000_0000_0000_0000_0000_0000_0000_0000_0000_0000_0000_0000_0000_0000_0000int,
                ;
                assert(false);
            }
            return Err(MathError::MulOverflow(14));
        },
    };
    let cd = match wide_checked_mul(c, d) {
        Some(w) => w,
        None => {
            return Err(MathError::MulOverflow(12));
        },
    };
    let c_final = match wide_checked_div(cd, ann_nn) {
        Some(w) => w,
        None => {
            return Err(MathError::DivByZero(5));
        },
    };
    let d_ann = match wide_checked_div(d, ann) {
        Some(w) => w,
        None => {
            return Err(MathError::DivByZero(6));
        },
    };
    let b = match wide_checked_add(d_ann, reserves_sum) {
        Some(w) => w,
        None => {
            return Err(MathError::AddOverflow(6));
        },
    };
    let mut y_prev = d;
    let mut k: u8 = 0;
    while k < MAX_ITERATIONS
        invariant
            k <= MAX_ITERATIONS,
            spec_y_loop(y_prev@, b@, c_final@, d@, (MAX_ITERATIONS - k) as nat) == spec_y_loop(
                d@,
                b@,
                c_final@,
                d@,
                255,
            ),
        decreases MAX_ITERATIONS - k,
    {
        let y = compute_y_next(y_prev, b, c_final, d)?;
        if y.gt(y_prev) {
            let diff = match wide_checked_sub(y, y_prev) {
                Some(w) => w,
                None => {
                    proof {
                        assert(false);
                    }
                    y
                },
            };
            if !diff.gt(Wide::from_u128(1)) {
                return match y.to_u128() {
                    Some(v) => Ok(v),
                    None => Err(MathError::CastOverflow(1)),
                };
            }
        } else {
            let diff = match wide_checked_sub(y_prev, y) {
                Some(w) => w,
                None => {
                    proof {
                        assert(false);
                    }
                    y
                },
            };
            if !diff.gt(Wide::from_u128(1)) {
                return match y.to_u128() {
                    Some(v) => Ok(v),
                    None => Err(MathError::CastOverflow(1)),
                };
            }
        }
        y_prev = y;
        k += 1;
    }
    match y_prev.to_u128() {
        Some(v) => Ok(v),
        None => Err(MathError::CastOverflow(1)),
    }
}

/// One Newton step for y (executable form).
fn compute_y_next(y_prev: Wide, b: Wide, c: Wide, d: Wide) -> (r: Result<Wide, MathError>)
    ensures
        wide_res(r) == spec_y_next(y_prev@, b@, c@, d@),
{
    let y2 = match wide_checked_mul(y_prev, y_prev) {
        Some(w) => w,
        None => {
            return Err(MathError::MulOverflow(15));
        },
    };
    let numerator = match wide_checked_add(y2, c) {
        Some(w) => w,
        None => {
            return Err(MathError::AddOverflow(7));
        },
    };
    let yd = match wide_checked_mul(y_prev, Wide::from_u128(2)) {
        Some(w) => w,
        None => {
            return Err(MathError::MulOverflow(16));
        },
    };
    let den_sum = match wide_checked_add(yd, b) {
        Some(w) => w,
        None => {
            return Err(MathError::AddOverflow(8));
        },
    };
    let denominator = match wide_checked_sub(den_sum, d) {
        Some(w) => w,
        None => {
            return Err(MathError::SubUnderflow(6));
        },
    };
    match wide_checked_div(numerator, denominator) {
        Some(w) => Ok(w),
        None => Err(MathError::DivByZero(7)),
    }
}


// --- swaps ----------------------------------------------------------------

/// Outcome `(amount_out, fee)` of swapping `token_in_amount` of token `i`
/// for token `j`: the new reserve of `j` is solved for, one unit is kept
/// back against rounding, and the trade fee is taken from the gross output.
pub open spec fn spec_swap_to(
    i: int,
    token_in_amount: u128,
    j: int,
    reserves: Seq<u128>,
    fees: Fees,
    amp_coef: u128,
) -> Result<(u128, u128), MathError> {
    match ck_add(lim128(), 9, token_in_amount as int, reserves[i] as int) {
        Err(e) => Err(e),
        Ok(new_x) => match spec_compute_y(new_x, reserves, i, j, amp_coef) {
            Err(e) => Err(e),
            Ok(y) => match ck_sub(7, reserves[j] as int, y) {
                Err(e) => Err(e),
                Ok(dy0) => match ck_sub(8, dy0, 1) {
                    Err(e) => Err(e),
                    Ok(dy) => match fees.spec_trade_fee_from_gross(dy as u128) {
                        Err(e) => Err(e),
                        Ok(fee) => match ck_sub(9, dy, fee as int) {
                            Err(e) => Err(e),
                            Ok(out) => Ok((out as u128, fee)),
                        },
                    },
                },
            },
        },
    }
}

/// Computes `(amount_out, fee)` of a swap given the amount paid in.
///
/// The fee is applied to the output token. The result is exactly
/// [`spec_swap_to`] of the inputs, error for error.
pub fn swap_to(
    token_in_idx: usize,
    token_in_amount: u128,
    token_out_idx: usize,
    current_reserves: &Vec<u128>,
    fees: &Fees,
    amp_coef: u128,
) -> (r: Result<(u128, u128), MathError>)
    requires
        2 <= current_reserves@.len() <= MAX_COINS,
        token_in_idx < current_reserves@.len(),
        token_out_idx < current_reserves@.len(),
        token_in_idx != token_out_idx,
    ensures
        r == spec_swap_to(
            token_in_idx as int,
            token_in_amount,
            token_out_idx as int,
            current_reserves@,
            *fees,
            amp_coef,
        ),
{
    let new_x = match token_in_amount.checked_add(current_reserves[token_in_idx]) {
        Some(v) => v,
        None => {
            return Err(MathError::AddOverflow(9));
        },
    };
    let y = compute_y(new_x, current_reserves, token_in_idx, token_out_idx, amp_coef)?;
    let dy0 = match current_reserves[token_out_idx].checked_sub(y) {
        Some(v) => v,
        None => {
            return Err(MathError::SubUnderflow(7));
        },
    };
    let dy = match dy0.checked_sub(1) {
        Some(v) => v,
        None => {
            return Err(MathError::SubUnderflow(8));
        },
    };
    let fee = fees.trade_fee_from_gross(dy)?;
    let amount_swapped = match dy.checked_sub(fee) {
        Some(v) => v,
        None => {
            return Err(MathError::SubUnderflow(9));
        },
    };
    Ok((amount_swapped, fee))
}

/// Outcome `(amount_in, fee)` of swapping for `token_out_amount` (net) of
/// token `j`: the fee is recovered from the net amount, the reserve of `j`
/// is lowered by the gross amount, and one unit is added to the solved
/// input against rounding.
pub open spec fn spec_swap_from(
    j: int,
    token_out_amount: u128,
    i: int,
    reserves: Seq<u128>,
    fees: Fees,
    amp_coef: u128,
) -> Result<(u128, u128), MathError> {
    match fees.spec_trade_fee_from_net(token_out_amount) {
        Err(e) => Err(e),
        Ok(fee) => match ck_add(lim128(), 11, token_out_amount as int, fee as int) {
            Err(e) => Err(e),
            Ok(out_plus_fee) => match ck_sub(12, reserves[j] as int, out_plus_fee) {
                Err(e) => Err(e),
                Ok(new_out_reserve) => match spec_compute_y(
                    new_out_reserve,
                    reserves,
                    j,
                    i,
                    amp_coef,
                ) {
                    Err(e) => Err(e),
                    Ok(y) => match ck_sub(13, y, reserves[i] as int) {
                        Err(e) => Err(e),
                        Ok(dy0) => match ck_add(lim128(), 12, dy0, 1) {
                            Err(e) => Err(e),
                            Ok(dy) => Ok((dy as u128, fee)),
                        },
                    },
                },
            },
        },
    }
}

/// Computes `(amount_in, fee)` of a swap given the net amount paid out.
///
/// The fee is applied to the output token, as in [`swap_to`]. The result
/// is exactly [`spec_swap_from`] of the inputs, error for error.
pub fn swap_from(
    token_out_idx: usize,
    token_out_amount: u128,
    token_in_idx: usize,
    current_reserves: &Vec<u128>,
    fees: &Fees,
    amp_coef: u128,
) -> (r: Result<(u128, u128), MathError>)
    requires
        2 <= current_reserves@.len() <= MAX_COINS,
        token_in_idx < current_reserves@.len(),
        token_out_idx < current_reserves@.len(),
        token_in_idx != token_out_idx,
    ensures
        r == spec_swap_from(
            token_out_idx as int,
            token_out_amount,
            token_in_idx as int,
            current_reserves@,
            *fees,
            amp_coef,
        ),
{
    let fee = fees.trade_fee_from_net(token_out_amount)?;
    let out_plus_fee = match token_out_amount.checked_add(fee) {
        Some(v) => v,
        None => {
            return Err(MathError::AddOverflow(11));
        },
    };
    let new_out_reserve = match current_reserves[token_out_idx].checked_sub(out_plus_fee) {
        Some(v) => v,
        None => {
            return Err(MathError::SubUnderflow(12));
        },
    };
    let y = compute_y(new_out_reserve, current_reserves, token_out_idx, token_in_idx, amp_coef)?;
    let dy0 = match y.checked_sub(current_reserves[token_in_idx]) {
        Some(v) => v,
        None => {
            return Err(MathError::SubUnderflow(13));
        },
    };
    let dy = match dy0.checked_add(1) {
        Some(v) => v,
        None => {
            return Err(MathError::AddOverflow(12));
        },
    };
    Ok((dy, fee))
}


// --- liquidity provision and withdrawal -----------------------------------

/// `floor(supply * (da - db) / d0)` with the errors of its checked steps,
/// narrowed to `u128`: the share-count formulas all take this shape.
pub open spec fn spec_share_ratio(
    supply: u128,
    da: int,
    db: int,
    d0: int,
    ts: u8,
    tm: u8,
    td: u8,
    tc: u8,
) -> Result<int, MathError> {
    match ck_sub(ts, da, db) {
        Err(e) => Err(e),
        Ok(delta) => match ck_mul(lim256(), tm, supply as int, delta) {
            Err(e) => Err(e),
            Ok(p) => match ck_div(td, p, d0) {
                Err(e) => Err(e),
                Ok(q) => ck_cast(lim128(), tc, q),
            },
        },
    }
}

/// Executable form of [`spec_share_ratio`].
fn share_ratio(supply: u128, da: Wide, db: Wide, d0: Wide, ts: u8, tm: u8, td: u8, tc: u8) -> (r:
    Result<u128, MathError>)
    ensures
        u128_res(r) == spec_share_ratio(supply, da@, db@, d0@, ts, tm, td, tc),
{
    let delta = match wide_checked_sub(da, db) {
        Some(w) => w,
        None => {
            return Err(MathError::SubUnderflow(ts));
        },
    };
    let p = match wide_checked_mul(Wide::from_u128(supply), delta) {
        Some(w) => w,
        None => {
            return Err(MathError::MulOverflow(tm));
        },
    };
    let q = match wide_checked_div(p, d0) {
        Some(w) => w,
        None => {
            return Err(MathError::DivByZero(td));
        },
    };
    match q.to_u128() {
        Some(v) => Ok(v),
        None => Err(MathError::CastOverflow(tc)),
    }
}

/// Element-wise checked combination of old reserves with deposited or
/// withdrawn amounts, from index `i` on, appended to `acc`. `add` selects
/// the direction; the error tag mirrors the reserve-update failure site.
pub open spec fn spec_combine_loop(
    acc: Seq<u128>,
    old: Seq<u128>,
    amounts: Seq<u128>,
    add: bool,
    t: u8,
    i: int,
) -> Result<Seq<u128>, MathError>
    decreases old.len() - i,
{
    if i < 0 || i >= old.len() {
        Ok(acc)
    } else {
        let step = if add {
            ck_add(lim128(), t, old[i] as int, amounts[i] as int)
        } else {
            if old[i] >= amounts[i] {
                Ok(old[i] - amounts[i])
            } else {
                Err(MathError::AddOverflow(t))
            }
        };
        match step {
            Err(e) => Err(e),
            Ok(v) => spec_combine_loop(acc.push(v as u128), old, amounts, add, t, i + 1),
        }
    }
}

/// Executable form of [`spec_combine_loop`], from index 0.
fn combine_reserves(old: &Vec<u128>, amounts: &Vec<u128>, add: bool, t: u8) -> (r: Result<
    Vec<u128>,
    MathError,
>)
    requires
        old@.len() == amounts@.len(),
    ensures
        (match r {
            Ok(v) => Ok(v@),
            Err(e) => Err::<Seq<u128>, MathError>(e),
        }) == spec_combine_loop(Seq::empty(), old@, amounts@, add, t, 0),
        r matches Ok(v) ==> v@.len() == old@.len(),
{
    let len = old.len();
    let mut acc: Vec<u128> = Vec::new();
    let mut i: usize = 0;
    while i < len
        invariant
            i <= len,
            acc@.len() == i,
            len == old@.len() == amounts@.len(),
            spec_combine_loop(acc@, old@, amounts@, add, t, i as int) == spec_combine_loop(
                Seq::empty(),
                old@,
                amounts@,
                add,
                t,
                0,
            ),
        decreases len - i,
    {
        let v = if add {
            match old[i].checked_add(amounts[i]) {
                Some(v) => v,
                None => {
                    return Err(MathError::AddOverflow(t));
                },
            }
        } else {
            match old[i].checked_sub(amounts[i]) {
                Some(v) => v,
                None => {
                    return Err(MathError::AddOverflow(t));
                },
            }
        };
        acc.push(v);
        i += 1;
    }
    Ok(acc)
}

/// Per-token imbalance-fee adjustment: each reserve is charged the
/// normalized trade fee on its distance from the ideal balanced reserve
/// `old_i * d1 / d0`, from index `i` on.
pub open spec fn spec_fee_adjust_loop(
    nr: Seq<u128>,
    old: Seq<u128>,
    d0: int,
    d1: int,
    fees: Fees,
    n_coins: u32,
    t_sub: u8,
    i: int,
) -> Result<Seq<u128>, MathError>
    decreases nr.len() - i,
{
    if i < 0 || i >= nr.len() {
        Ok(nr)
    } else {
        match ck_mul(lim256(), if t_sub == 18 { 17u8 } else { 22u8 }, d1, old[i] as int) {
            Err(e) => Err(e),
            Ok(p) => match ck_div(if t_sub == 18 { 9u8 } else { 14u8 }, p, d0) {
                Err(e) => Err(e),
                Ok(q) => match ck_cast(lim128(), 2, q) {
                    Err(e) => Err(e),
                    Ok(ideal) => {
                        let diff = if ideal > nr[i] as int {
                            ideal - nr[i]
                        } else {
                            nr[i] - ideal
                        };
                        match fees.spec_normalized_trade_fee(n_coins, diff as u128) {
                            Err(e) => Err(e),
                            Ok(fee) => if nr[i] >= fee {
                                spec_fee_adjust_loop(
                                    nr.update(i, (nr[i] - fee) as u128),
                                    old,
                                    d0,
                                    d1,
                                    fees,
                                    n_coins,
                                    t_sub,
                                    i + 1,
                                )
                            } else {
                                Err(MathError::SubUnderflow(t_sub))
                            },
                        }
                    },
                },
            },
        }
    }
}

/// Executable form of [`spec_fee_adjust_loop`], from index 0; `nr` is
/// adjusted in place.
#[verifier::loop_isolation(false)]
fn fee_adjust(nr: &mut Vec<u128>, old_reserves: &Vec<u128>, d0: Wide, d1: Wide, fees: &Fees, t_sub: u8) -> (r:
    Result<(), MathError>)
    requires
        old(nr)@.len() == old_reserves@.len() <= MAX_COINS,
    ensures
        (match r {
            Ok(()) => Ok(final(nr)@),
            Err(e) => Err::<Seq<u128>, MathError>(e),
        }) == spec_fee_adjust_loop(
            old(nr)@,
            old_reserves@,
            d0@,
            d1@,
            *fees,
            old_reserves@.len() as u32,
            t_sub,
            0,
        ),
        final(nr)@.len() == old(nr)@.len(),
{
    let len = nr.len();
    let n_coins: u32 = len as u32;
    let ghost nr0 = nr@;
    let mut i: usize = 0;
    while i < len
        invariant
            i <= len,
            len == nr@.len() == old_reserves@.len() <= MAX_COINS,
            n_coins == len as u32,
            spec_fee_adjust_loop(nr@, old_reserves@, d0@, d1@, *fees, n_coins, t_sub, i as int)
                == spec_fee_adjust_loop(nr0, old_reserves@, d0@, d1@, *fees, n_coins, t_sub, 0),
        decreases len - i,
    {
        let p = match wide_checked_mul(d1, Wide::from_u128(old_reserves[i])) {
            Some(w) => w,
            None => {
                return Err(MathError::MulOverflow(if t_sub == 18 { 17 } else { 22 }));
            },
        };
        let q = match wide_checked_div(p, d0) {
            Some(w) => w,
            None => {
                return Err(MathError::DivByZero(if t_sub == 18 { 9 } else { 14 }));
            },
        };
        let ideal = match q.to_u128() {
            Some(v) => v,
            None => {
                return Err(MathError::CastOverflow(2));
            },
        };
        let diff = if ideal > nr[i] {
            ideal - nr[i]
        } else {
            nr[i] - ideal
        };
        let fee = fees.normalized_trade_fee(n_coins, diff)?;
        let adjusted = match nr[i].checked_sub(fee) {
            Some(v) => v,
            None => {
                return Err(MathError::SubUnderflow(t_sub));
            },
        };
        nr.set(i, adjusted);
        i += 1;
    }
    Ok(())
}


/// Whether some amount in the sequence is zero.
pub open spec fn spec_has_zero(s: Seq<u128>) -> bool {
    exists|k: int| 0 <= k < s.len() && s[k] == 0
}

fn contains_zero(amounts: &Vec<u128>) -> (r: bool)
    ensures
        r == spec_has_zero(amounts@),
{
    let len = amounts.len();
    let mut i: usize = 0;
    while i < len
        invariant
            i <= len,
            len == amounts@.len(),
            forall|k: int| 0 <= k < i ==> amounts@[k] != 0,
        decreases len - i,
    {
        if amounts[i] == 0 {
            return true;
        }
        i += 1;
    }
    false
}

/// Shares minted for a deposit, and the share-denominated fee part:
/// on the first deposit, D of the amounts; afterwards the supply scaled by
/// the relative growth of D, net of per-token imbalance fees.
pub open spec fn spec_compute_lp_amount_for_deposit(
    deposit_amounts: Seq<u128>,
    old_reserves: Seq<u128>,
    pool_token_supply: u128,
    fees: Option<Fees>,
    amp_coef: u128,
) -> Result<(u128, u128), MathError> {
    if pool_token_supply == 0 {
        if spec_has_zero(deposit_amounts) {
            Err(MathError::DivByZero(8))
        } else {
            match spec_compute_d(deposit_amounts, amp_coef) {
                Err(e) => Err(e),
                Ok(d) => match ck_cast(lim128(), 1, d) {
                    Err(e) => Err(e),
                    Ok(v) => Ok((v as u128, 0u128)),
                },
            }
        }
    } else {
        match spec_compute_d(old_reserves, amp_coef) {
            Err(e) => Err(e),
            Ok(d0) => match spec_combine_loop(
                Seq::empty(),
                old_reserves,
                deposit_amounts,
                true,
                14,
                0,
            ) {
                Err(e) => Err(e),
                Ok(nr1) => match spec_compute_d(nr1, amp_coef) {
                    Err(e) => Err(e),
                    Ok(d1) => match fees {
                        Some(f) => match spec_fee_adjust_loop(
                            nr1,
                            old_reserves,
                            d0,
                            d1,
                            f,
                            old_reserves.len() as u32,
                            18,
                            0,
                        ) {
                            Err(e) => Err(e),
                            Ok(nr2) => match spec_compute_d(nr2, amp_coef) {
                                Err(e) => Err(e),
                                Ok(d2) => match spec_share_ratio(
                                    pool_token_supply,
                                    d2,
                                    d0,
                                    d0,
                                    19,
                                    18,
                                    10,
                                    3,
                                ) {
                                    Err(e) => Err(e),
                                    Ok(mint) => match spec_share_ratio(
                                        pool_token_supply,
                                        d1,
                                        d0,
                                        d0,
                                        20,
                                        19,
                                        11,
                                        4,
                                    ) {
                                        Err(e) => Err(e),
                                        Ok(diff) => match ck_sub(21, diff, mint) {
                                            Err(e) => Err(e),
                                            Ok(fee_part) => Ok((mint as u128, fee_part as u128)),
                                        },
                                    },
                                },
                            },
                        },
                        None => match spec_share_ratio(pool_token_supply, d1, d0, d0, 22, 20, 12, 5) {
                            Err(e) => Err(e),
                            Ok(mint) => Ok((mint as u128, 0u128)),
                        },
                    },
                },
            },
        }
    }
}

/// Computes the amount of LP shares to mint for a deposit, with the
/// share-denominated fee part: `(lp_amount_to_mint, lp_fee_part)`.
///
/// The result is exactly [`spec_compute_lp_amount_for_deposit`] of the
/// inputs, error for error. A first deposit with any zero amount is
/// rejected with a division error.
pub fn compute_lp_amount_for_deposit(
    deposit_amounts: &Vec<u128>,
    old_reserves: &Vec<u128>,
    pool_token_supply: u128,
    fees: Option<&Fees>,
    amp_coef: u128,
) -> (r: Result<(u128, u128), MathError>)
    requires
        2 <= old_reserves@.len() <= MAX_COINS,
        deposit_amounts@.len() == old_reserves@.len(),
    ensures
        r == spec_compute_lp_amount_for_deposit(
            deposit_amounts@,
            old_reserves@,
            pool_token_supply,
            (match fees {
                Some(f) => Some(*f),
                None => None,
            }),
            amp_coef,
        ),
{
    if pool_token_supply == 0 {
        if contains_zero(deposit_amounts) {
            return Err(MathError::DivByZero(8));
        }
        let d = compute_d(deposit_amounts, amp_coef)?;
        match d.to_u128() {
            Some(v) => Ok((v, 0)),
            None => Err(MathError::CastOverflow(1)),
        }
    } else {
        let d_0 = compute_d(old_reserves, amp_coef)?;
        let mut new_reserves = combine_reserves(old_reserves, deposit_amounts, true, 14)?;
        let d_1 = compute_d(&new_reserves, amp_coef)?;
        match fees {
            Some(f) => {
                fee_adjust(&mut new_reserves, old_reserves, d_0, d_1, f, 18)?;
                let d_2 = compute_d(&new_reserves, amp_coef)?;
                let mint_shares = share_ratio(pool_token_supply, d_2, d_0, d_0, 19, 18, 10, 3)?;
                let diff_shares = share_ratio(pool_token_supply, d_1, d_0, d_0, 20, 19, 11, 4)?;
                let fee_part = match diff_shares.checked_sub(mint_shares) {
                    Some(v) => v,
                    None => {
                        return Err(MathError::SubUnderflow(21));
                    },
                };
                Ok((mint_shares, fee_part))
            },
            None => {
                let mint_shares = share_ratio(pool_token_supply, d_1, d_0, d_0, 22, 20, 12, 5)?;
                Ok((mint_shares, 0))
            },
        }
    }
}

/// Shares burned for a withdrawal, and the share-denominated fee part:
/// the supply scaled by the relative shrinkage of D, grossed up by the
/// per-token imbalance fees.
pub open spec fn spec_compute_lp_amount_for_withdraw(
    withdraw_amounts: Seq<u128>,
    old_reserves: Seq<u128>,
    pool_token_supply: u128,
    fees: Option<Fees>,
    amp_coef: u128,
) -> Result<(u128, u128), MathError> {
    match spec_compute_d(old_reserves, amp_coef) {
        Err(e) => Err(e),
        Ok(d0) => match spec_combine_loop(
            Seq::empty(),
            old_reserves,
            withdraw_amounts,
            false,
            14,
            0,
        ) {
            Err(e) => Err(e),
            Ok(nr1) => match spec_compute_d(nr1, amp_coef) {
                Err(e) => Err(e),
                Ok(d1) => match fees {
                    Some(f) => match spec_fee_adjust_loop(
                        nr1,
                        old_reserves,
                        d0,
                        d1,
                        f,
                        old_reserves.len() as u32,
                        27,
                        0,
                    ) {
                        Err(e) => Err(e),
                        Ok(nr2) => match spec_compute_d(nr2, amp_coef) {
                            Err(e) => Err(e),
                            Ok(d2) => match spec_share_ratio(
                                pool_token_supply,
                                d0,
                                d2,
                                d0,
                                28,
                                23,
                                15,
                                3,
                            ) {
                                Err(e) => Err(e),
                                Ok(burn) => match spec_share_ratio(
                                    pool_token_supply,
                                    d0,
                                    d1,
                                    d0,
                                    29,
                                    24,
                                    16,
                                    4,
                                ) {
                                    Err(e) => Err(e),
                                    Ok(diff) => match ck_sub(30, burn, diff) {
                                        Err(e) => Err(e),
                                        Ok(fee_part) => Ok((burn as u128, fee_part as u128)),
                                    },
                                },
                            },
                        },
                    },
                    None => match spec_share_ratio(pool_token_supply, d0, d1, d0, 31, 25, 17, 5) {
                        Err(e) => Err(e),
                        Ok(burn) => Ok((burn as u128, 0u128)),
                    },
                },
            },
        },
    }
}

/// Computes the amount of LP shares to burn for a withdrawal, with the
/// share-denominated fee part: `(lp_amount_to_burn, lp_fee_part)`.
///
/// The result is exactly [`spec_compute_lp_amount_for_withdraw`] of the
/// inputs, error for error.
pub fn compute_lp_amount_for_withdraw(
    withdraw_amounts: &Vec<u128>,
    old_reserves: &Vec<u128>,
    pool_token_supply: u128,
    fees: Option<&Fees>,
    amp_coef: u128,
) -> (r: Result<(u128, u128), MathError>)
    requires
        2 <= old_reserves@.len() <= MAX_COINS,
        withdraw_amounts@.len() == old_reserves@.len(),
    ensures
        r == spec_compute_lp_amount_for_withdraw(
            withdraw_amounts@,
            old_reserves@,
            pool_token_supply,
            (match fees {
                Some(f) => Some(*f),
                None => None,
            }),
            amp_coef,
        ),
{
    let d_0 = compute_d(old_reserves, amp_coef)?;
    let mut new_reserves = combine_reserves(old_reserves, withdraw_amounts, false, 14)?;
    let d_1 = compute_d(&new_reserves, amp_coef)?;
    match fees {
        Some(f) => {
            fee_adjust(&mut new_reserves, old_reserves, d_0, d_1, f, 27)?;
            let d_2 = compute_d(&new_reserves, amp_coef)?;
            let burn_shares = share_ratio(pool_token_supply, d_0, d_2, d_0, 28, 23, 15, 3)?;
            let diff_shares = share_ratio(pool_token_supply, d_0, d_1, d_0, 29, 24, 16, 4)?;
            let fee_part = match burn_shares.checked_sub(diff_shares) {
                Some(v) => v,
                None => {
                    return Err(MathError::SubUnderflow(30));
                },
            };
            Ok((burn_shares, fee_part))
        },
        None => {
            let burn_shares = share_ratio(pool_token_supply, d_0, d_1, d_0, 31, 25, 17, 5)?;
            Ok((burn_shares, 0))
        },
    }
}


/// Proportional share of each reserve for `lp_amount` of `supply` shares,
/// paired with the reserves after the deposit or withdrawal, from index
/// `i` on. `add` selects the direction; the tags mirror each direction's
/// failure sites.
pub open spec fn spec_amounts_for_lp_loop(
    acc_a: Seq<u128>,
    acc_n: Seq<u128>,
    old: Seq<u128>,
    lp_amount: u128,
    supply: u128,
    add: bool,
    tm: u8,
    tdv: u8,
    tc: u8,
    tn: u8,
    i: int,
) -> Result<(Seq<u128>, Seq<u128>), MathError>
    decreases old.len() - i,
{
    if i < 0 || i >= old.len() {
        Ok((acc_a, acc_n))
    } else {
        match ck_mul(lim256(), tm, old[i] as int, lp_amount as int) {
            Err(e) => Err(e),
            Ok(p) => match ck_div(tdv, p, supply as int) {
                Err(e) => Err(e),
                Ok(q) => match ck_cast(lim128(), tc, q) {
                    Err(e) => Err(e),
                    Ok(amt) => {
                        let step = if add {
                            if old[i] + amt < lim128() {
                                Ok(old[i] + amt)
                            } else {
                                Err(MathError::SubUnderflow(tn))
                            }
                        } else {
                            if old[i] >= amt {
                                Ok(old[i] - amt)
                            } else {
                                Err(MathError::SubUnderflow(tn))
                            }
                        };
                        match step {
                            Err(e) => Err(e),
                            Ok(nv) => spec_amounts_for_lp_loop(
                                acc_a.push(amt as u128),
                                acc_n.push(nv as u128),
                                old,
                                lp_amount,
                                supply,
                                add,
                                tm,
                                tdv,
                                tc,
                                tn,
                                i + 1,
                            ),
                        }
                    },
                },
            },
        }
    }
}

/// Shared executable form of the two ideal-amounts computations.
#[verifier::loop_isolation(false)]
fn amounts_for_lp(
    lp_amount: u128,
    old_reserves: &Vec<u128>,
    pool_token_supply: u128,
    add: bool,
    tm: u8,
    tdv: u8,
    tc: u8,
    tn: u8,
) -> (r: Result<(Vec<u128>, Vec<u128>), MathError>)
    ensures
        (match r {
            Ok((a, n)) => Ok((a@, n@)),
            Err(e) => Err::<(Seq<u128>, Seq<u128>), MathError>(e),
        }) == spec_amounts_for_lp_loop(
            Seq::empty(),
            Seq::empty(),
            old_reserves@,
            lp_amount,
            pool_token_supply,
            add,
            tm,
            tdv,
            tc,
            tn,
            0,
        ),
        r matches Ok(v) ==> v.0@.len() == old_reserves@.len() && v.1@.len()
            == old_reserves@.len(),
{
    let len = old_reserves.len();
    let mut amounts: Vec<u128> = Vec::new();
    let mut new_reserves: Vec<u128> = Vec::new();
    let mut i: usize = 0;
    while i < len
        invariant
            i <= len,
            amounts@.len() == i,
            new_reserves@.len() == i,
            spec_amounts_for_lp_loop(
                amounts@,
                new_reserves@,
                old_reserves@,
                lp_amount,
                pool_token_supply,
                add,
                tm,
                tdv,
                tc,
                tn,
                i as int,
            ) == spec_amounts_for_lp_loop(
                Seq::empty(),
                Seq::empty(),
                old_reserves@,
                lp_amount,
                pool_token_supply,
                add,
                tm,
                tdv,
                tc,
                tn,
                0,
            ),
        decreases len - i,
    {
        let p = casted_mul(old_reserves[i], lp_amount);
        let q = match wide_checked_div(p, Wide::from_u128(pool_token_supply)) {
            Some(w) => w,
            None => {
                return Err(MathError::DivByZero(tdv));
            },
        };
        let amt = match q.to_u128() {
            Some(v) => v,
            None => {
                return Err(MathError::CastOverflow(tc));
            },
        };
        let nv = if add {
            match old_reserves[i].checked_add(amt) {
                Some(v) => v,
                None => {
                    return Err(MathError::SubUnderflow(tn));
                },
            }
        } else {
            match old_reserves[i].checked_sub(amt) {
                Some(v) => v,
                None => {
                    return Err(MathError::SubUnderflow(tn));
                },
            }
        };
        amounts.push(amt);
        new_reserves.push(nv);
        i += 1;
    }
    Ok((amounts, new_reserves))
}

/// Computes the balanced deposit amounts that mint `lp_amount` shares:
/// `(deposit_amounts, new_reserves)`, exactly as
/// [`spec_amounts_for_lp_loop`] states, error for error.
pub fn compute_deposit_amounts_for_lp(
    lp_amount: u128,
    old_reserves: &Vec<u128>,
    pool_token_supply: u128,
) -> (r: Result<(Vec<u128>, Vec<u128>), MathError>)
    ensures
        (match r {
            Ok((a, n)) => Ok((a@, n@)),
            Err(e) => Err::<(Seq<u128>, Seq<u128>), MathError>(e),
        }) == spec_amounts_for_lp_loop(
            Seq::empty(),
            Seq::empty(),
            old_reserves@,
            lp_amount,
            pool_token_supply,
            true,
            21,
            13,
            6,
            23,
            0,
        ),
        r matches Ok(v) ==> v.0@.len() == old_reserves@.len() && v.1@.len()
            == old_reserves@.len(),
{
    amounts_for_lp(lp_amount, old_reserves, pool_token_supply, true, 21, 13, 6, 23)
}

/// Computes the balanced withdrawal amounts for burning `lp_amount`
/// shares: `(withdraw_amounts, new_reserves)`, exactly as
/// [`spec_amounts_for_lp_loop`] states, error for error.
pub fn compute_withdraw_amounts_for_lp(
    lp_amount: u128,
    old_reserves: &Vec<u128>,
    pool_token_supply: u128,
) -> (r: Result<(Vec<u128>, Vec<u128>), MathError>)
    ensures
        (match r {
            Ok((a, n)) => Ok((a@, n@)),
            Err(e) => Err::<(Seq<u128>, Seq<u128>), MathError>(e),
        }) == spec_amounts_for_lp_loop(
            Seq::empty(),
            Seq::empty(),
            old_reserves@,
            lp_amount,
            pool_token_supply,
            false,
            26,
            18,
            7,
            32,
            0,
        ),
        r matches Ok(v) ==> v.0@.len() == old_reserves@.len() && v.1@.len()
            == old_reserves@.len(),
{
    amounts_for_lp(lp_amount, old_reserves, pool_token_supply, false, 26, 18, 7, 32)
}

/// The proportional claim of `lp_amount` shares on each reserve:
/// `floor(reserve_i * lp_amount / supply)` for every token.
pub open spec fn spec_amounts_given_lp(
    lp_amount: u128,
    reserves: Seq<u128>,
    supply: u128,
) -> Result<Seq<u128>, MathError> {
    if supply == 0 {
        Err(MathError::DivByZero(18))
    } else if exists|k: int|
        0 <= k < reserves.len() && reserves[k] * lp_amount / (supply as int) >= lim128() {
        Err(MathError::CastOverflow(7))
    } else {
        Ok(Seq::new(reserves.len(), |k: int| (reserves[k] * lp_amount / (supply as int)) as u128))
    }
}

/// Computes each token's share of the reserves for `lp_amount` of the
/// `pool_token_supply` outstanding shares, rounding down.
///
/// Succeeds if and only if the supply is non-zero and every quotient fits
/// in 128 bits; consults neither rates nor the invariant.
#[verifier::loop_isolation(false)]
pub fn compute_amounts_given_lp(
    lp_amount: u128,
    reserves: &Vec<u128>,
    pool_token_supply: u128,
) -> (r: Result<Vec<u128>, MathError>)
    ensures
        (match r {
            Ok(v) => Ok(v@),
            Err(e) => Err::<Seq<u128>, MathError>(e),
        }) == spec_amounts_given_lp(lp_amount, reserves@, pool_token_supply),
{
    if pool_token_supply == 0 {
        return Err(MathError::DivByZero(18));
    }
    let len = reserves.len();
    let mut amounts: Vec<u128> = Vec::new();
    let mut i: usize = 0;
    while i < len
        invariant
            i <= len,
            amounts@.len() == i,
            forall|k: int|
                0 <= k < i ==> reserves@[k] * lp_amount / (pool_token_supply as int) < lim128(),
            forall|k: int|
                0 <= k < i ==> amounts@[k] == (reserves@[k] * lp_amount / (
                pool_token_supply as int)) as u128,
        decreases len - i,
    {
        let p = casted_mul(reserves[i], lp_amount);
        let q = match wide_checked_div(p, Wide::from_u128(pool_token_supply)) {
            Some(w) => w,
            None => {
                proof {
                    assert(false);
                }
                return Err(MathError::DivByZero(18));
            },
        };
        let amt = match q.to_u128() {
            Some(v) => v,
            None => {
                return Err(MathError::CastOverflow(7));
            },
        };
        amounts.push(amt);
        i += 1;
    }
    proof {
        assert(amounts@ =~= Seq::new(
            reserves@.len(),
            |k: int| (reserves@[k] * lp_amount / (pool_token_supply as int)) as u128,
        ));
    }
    Ok(amounts)
}


// --- the rated (common-precision) layer -----------------------------------

/// A token amount taken into invariant space:
/// `floor(amount * rate / RATE_PRECISION)`, where `rate` is the token's
/// scaled rate (exchange rate times precision factor).
pub open spec fn spec_amount_to_rated(amount: u128, rate: u128) -> Result<u128, MathError> {
    if amount * rate / (RATE_PRECISION as int) >= lim128() {
        Err(MathError::CastOverflow(33))
    } else {
        Ok((amount * rate / (RATE_PRECISION as int)) as u128)
    }
}

/// Converts a token amount to its rated, common-precision form.
pub fn amount_to_rated_amount(amount: u128, rate: u128) -> (r: Result<u128, MathError>)
    ensures
        r == spec_amount_to_rated(amount, rate),
{
    let p = casted_mul(amount, rate);
    let q = match wide_checked_div(p, Wide::from_u128(RATE_PRECISION)) {
        Some(w) => w,
        None => {
            proof {
                assert(false);
            }
            return Err(MathError::DivByZero(33));
        },
    };
    match q.to_u128() {
        Some(v) => Ok(v),
        None => Err(MathError::CastOverflow(33)),
    }
}

/// A rated amount taken back to token units:
/// `floor(rated * RATE_PRECISION / rate)`, rounding in the pool's favor.
pub open spec fn spec_rated_to_amount(rated: u128, rate: u128) -> Result<u128, MathError> {
    if rate == 0 {
        Err(MathError::DivByZero(34))
    } else if rated * RATE_PRECISION / (rate as int) >= lim128() {
        Err(MathError::CastOverflow(35))
    } else {
        Ok((rated * RATE_PRECISION / (rate as int)) as u128)
    }
}

/// Converts a rated, common-precision amount back to token units.
pub fn rated_amount_to_amount(rated_amount: u128, rate: u128) -> (r: Result<u128, MathError>)
    ensures
        r == spec_rated_to_amount(rated_amount, rate),
{
    let p = casted_mul(rated_amount, RATE_PRECISION);
    let q = match wide_checked_div(p, Wide::from_u128(rate)) {
        Some(w) => w,
        None => {
            return Err(MathError::DivByZero(34));
        },
    };
    match q.to_u128() {
        Some(v) => Ok(v),
        None => Err(MathError::CastOverflow(35)),
    }
}

/// Element-wise [`spec_amount_to_rated`], from index `i` on.
pub open spec fn spec_to_rated_loop(
    acc: Seq<u128>,
    amounts: Seq<u128>,
    rates: Seq<u128>,
    i: int,
) -> Result<Seq<u128>, MathError>
    decreases amounts.len() - i,
{
    if i < 0 || i >= amounts.len() {
        Ok(acc)
    } else {
        match spec_amount_to_rated(amounts[i], rates[i]) {
            Err(e) => Err(e),
            Ok(v) => spec_to_rated_loop(acc.push(v), amounts, rates, i + 1),
        }
    }
}

/// Converts a vector of token amounts to rated form, element-wise.
#[verifier::loop_isolation(false)]
pub fn amounts_to_rated_amounts(amounts: &Vec<u128>, rates: &Vec<u128>) -> (r: Result<
    Vec<u128>,
    MathError,
>)
    requires
        amounts@.len() == rates@.len(),
    ensures
        (match r {
            Ok(v) => Ok(v@),
            Err(e) => Err::<Seq<u128>, MathError>(e),
        }) == spec_to_rated_loop(Seq::empty(), amounts@, rates@, 0),
        r matches Ok(v) ==> v@.len() == amounts@.len(),
{
    let len = amounts.len();
    let mut acc: Vec<u128> = Vec::new();
    let mut i: usize = 0;
    while i < len
        invariant
            i <= len,
            acc@.len() == i,
            spec_to_rated_loop(acc@, amounts@, rates@, i as int) == spec_to_rated_loop(
                Seq::empty(),
                amounts@,
                rates@,
                0,
            ),
        decreases len - i,
    {
        let v = amount_to_rated_amount(amounts[i], rates[i])?;
        acc.push(v);
        i += 1;
    }
    Ok(acc)
}

/// Element-wise [`spec_rated_to_amount`], from index `i` on.
pub open spec fn spec_from_rated_loop(
    acc: Seq<u128>,
    rated: Seq<u128>,
    rates: Seq<u128>,
    i: int,
) -> Result<Seq<u128>, MathError>
    decreases rated.len() - i,
{
    if i < 0 || i >= rated.len() {
        Ok(acc)
    } else {
        match spec_rated_to_amount(rated[i], rates[i]) {
            Err(e) => Err(e),
            Ok(v) => spec_from_rated_loop(acc.push(v), rated, rates, i + 1),
        }
    }
}

/// Converts a vector of rated amounts back to token units, element-wise.
#[verifier::loop_isolation(false)]
pub fn rated_amounts_to_amounts(rated_amounts: &Vec<u128>, rates: &Vec<u128>) -> (r: Result<
    Vec<u128>,
    MathError,
>)
    requires
        rated_amounts@.len() == rates@.len(),
    ensures
        (match r {
            Ok(v) => Ok(v@),
            Err(e) => Err::<Seq<u128>, MathError>(e),
        }) == spec_from_rated_loop(Seq::empty(), rated_amounts@, rates@, 0),
        r matches Ok(v) ==> v@.len() == rated_amounts@.len(),
{
    let len = rated_amounts.len();
    let mut acc: Vec<u128> = Vec::new();
    let mut i: usize = 0;
    while i < len
        invariant
            i <= len,
            acc@.len() == i,
            spec_from_rated_loop(acc@, rated_amounts@, rates@, i as int) == spec_from_rated_loop(
                Seq::empty(),
                rated_amounts@,
                rates@,
                0,
            ),
        decreases len - i,
    {
        let v = rated_amount_to_amount(rated_amounts[i], rates[i])?;
        acc.push(v);
        i += 1;
    }
    Ok(acc)
}

/// [`spec_swap_to`] carried out in rated space: reserves and the paid-in
/// amount are rated, and the output and fee are taken back to token units.
pub open spec fn spec_rated_swap_to(
    rates: Seq<u128>,
    i: int,
    token_in_amount: u128,
    j: int,
    reserves: Seq<u128>,
    fees: Fees,
    amp_coef: u128,
) -> Result<(u128, u128), MathError> {
    match spec_to_rated_loop(Seq::empty(), reserves, rates, 0) {
        Err(e) => Err(e),
        Ok(r_reserves) => match spec_amount_to_rated(token_in_amount, rates[i]) {
            Err(e) => Err(e),
            Ok(r_in) => match spec_swap_to(i, r_in, j, r_reserves, fees, amp_coef) {
                Err(e) => Err(e),
                Ok((r_out, r_fee)) => match spec_rated_to_amount(r_out, rates[j]) {
                    Err(e) => Err(e),
                    Ok(out) => match spec_rated_to_amount(r_fee, rates[j]) {
                        Err(e) => Err(e),
                        Ok(fee) => Ok((out, fee)),
                    },
                },
            },
        },
    }
}

/// [`swap_to`] under per-token scaled rates; the result is exactly
/// [`spec_rated_swap_to`], error for error.
pub fn rated_swap_to(
    rates: &Vec<u128>,
    token_in_idx: usize,
    token_in_amount: u128,
    token_out_idx: usize,
    current_reserves: &Vec<u128>,
    fees: &Fees,
    amp_coef: u128,
) -> (r: Result<(u128, u128), MathError>)
    requires
        2 <= current_reserves@.len() <= MAX_COINS,
        rates@.len() == current_reserves@.len(),
        token_in_idx < current_reserves@.len(),
        token_out_idx < current_reserves@.len(),
        token_in_idx != token_out_idx,
    ensures
        r == spec_rated_swap_to(
            rates@,
            token_in_idx as int,
            token_in_amount,
            token_out_idx as int,
            current_reserves@,
            *fees,
            amp_coef,
        ),
{
    let r_reserves = amounts_to_rated_amounts(current_reserves, rates)?;
    let r_in = amount_to_rated_amount(token_in_amount, rates[token_in_idx])?;
    let (r_out, r_fee) = swap_to(
        token_in_idx,
        r_in,
        token_out_idx,
        &r_reserves,
        fees,
        amp_coef,
    )?;
    let out = rated_amount_to_amount(r_out, rates[token_out_idx])?;
    let fee = rated_amount_to_amount(r_fee, rates[token_out_idx])?;
    Ok((out, fee))
}

/// [`spec_swap_from`] carried out in rated space.
pub open spec fn spec_rated_swap_from(
    rates: Seq<u128>,
    j: int,
    token_out_amount: u128,
    i: int,
    reserves: Seq<u128>,
    fees: Fees,
    amp_coef: u128,
) -> Result<(u128, u128), MathError> {
    match spec_to_rated_loop(Seq::empty(), reserves, rates, 0) {
        Err(e) => Err(e),
        Ok(r_reserves) => match spec_amount_to_rated(token_out_amount, rates[j]) {
            Err(e) => Err(e),
            Ok(r_out) => match spec_swap_from(j, r_out, i, r_reserves, fees, amp_coef) {
                Err(e) => Err(e),
                Ok((r_in, r_fee)) => match spec_rated_to_amount(r_in, rates[i]) {
                    Err(e) => Err(e),
                    Ok(amount_in) => match spec_rated_to_amount(r_fee, rates[j]) {
                        Err(e) => Err(e),
                        Ok(fee) => Ok((amount_in, fee)),
                    },
                },
            },
        },
    }
}

/// [`swap_from`] under per-token scaled rates; the result is exactly
/// [`spec_rated_swap_from`], error for error.
pub fn rated_swap_from(
    rates: &Vec<u128>,
    token_in_idx: usize,
    token_out_amount: u128,
    token_out_idx: usize,
    current_reserves: &Vec<u128>,
    fees: &Fees,
    amp_coef: u128,
) -> (r: Result<(u128, u128), MathError>)
    requires
        2 <= current_reserves@.len() <= MAX_COINS,
        rates@.len() == current_reserves@.len(),
        token_in_idx < current_reserves@.len(),
        token_out_idx < current_reserves@.len(),
        token_in_idx != token_out_idx,
    ensures
        r == spec_rated_swap_from(
            rates@,
            token_out_idx as int,
            token_out_amount,
            token_in_idx as int,
            current_reserves@,
            *fees,
            amp_coef,
        ),
{
    let r_reserves = amounts_to_rated_amounts(current_reserves, rates)?;
    let r_out = amount_to_rated_amount(token_out_amount, rates[token_out_idx])?;
    let (r_in, r_fee) = swap_from(
        token_out_idx,
        r_out,
        token_in_idx,
        &r_reserves,
        fees,
        amp_coef,
    )?;
    let amount_in = rated_amount_to_amount(r_in, rates[token_in_idx])?;
    let fee = rated_amount_to_amount(r_fee, rates[token_out_idx])?;
    Ok((amount_in, fee))
}

/// [`spec_compute_lp_amount_for_deposit`] carried out in rated space; the
/// share amounts themselves need no conversion.
pub open spec fn spec_rated_lp_for_deposit(
    rates: Seq<u128>,
    deposit_amounts: Seq<u128>,
    old_reserves: Seq<u128>,
    pool_token_supply: u128,
    fees: Option<Fees>,
    amp_coef: u128,
) -> Result<(u128, u128), MathError> {
    match spec_to_rated_loop(Seq::empty(), deposit_amounts, rates, 0) {
        Err(e) => Err(e),
        Ok(r_dep) => match spec_to_rated_loop(Seq::empty(), old_reserves, rates, 0) {
            Err(e) => Err(e),
            Ok(r_old) => spec_compute_lp_amount_for_deposit(
                r_dep,
                r_old,
                pool_token_supply,
                fees,
                amp_coef,
            ),
        },
    }
}

/// [`compute_lp_amount_for_deposit`] under per-token scaled rates.
pub fn rated_compute_lp_amount_for_deposit(
    rates: &Vec<u128>,
    deposit_amounts: &Vec<u128>,
    old_reserves: &Vec<u128>,
    pool_token_supply: u128,
    fees: Option<&Fees>,
    amp_coef: u128,
) -> (r: Result<(u128, u128), MathError>)
    requires
        2 <= old_reserves@.len() <= MAX_COINS,
        deposit_amounts@.len() == old_reserves@.len(),
        rates@.len() == old_reserves@.len(),
    ensures
        r == spec_rated_lp_for_deposit(
            rates@,
            deposit_amounts@,
            old_reserves@,
            pool_token_supply,
            (match fees {
                Some(f) => Some(*f),
                None => None,
            }),
            amp_coef,
        ),
{
    let r_dep = amounts_to_rated_amounts(deposit_amounts, rates)?;
    let r_old = amounts_to_rated_amounts(old_reserves, rates)?;
    compute_lp_amount_for_deposit(&r_dep, &r_old, pool_token_supply, fees, amp_coef)
}

/// [`spec_compute_lp_amount_for_withdraw`] carried out in rated space.
pub open spec fn spec_rated_lp_for_withdraw(
    rates: Seq<u128>,
    withdraw_amounts: Seq<u128>,
    old_reserves: Seq<u128>,
    pool_token_supply: u128,
    fees: Option<Fees>,
    amp_coef: u128,
) -> Result<(u128, u128), MathError> {
    match spec_to_rated_loop(Seq::empty(), withdraw_amounts, rates, 0) {
        Err(e) => Err(e),
        Ok(r_w) => match spec_to_rated_loop(Seq::empty(), old_reserves, rates, 0) {
            Err(e) => Err(e),
            Ok(r_old) => spec_compute_lp_amount_for_withdraw(
                r_w,
                r_old,
                pool_token_supply,
                fees,
                amp_coef,
            ),
        },
    }
}

/// [`compute_lp_amount_for_withdraw`] under per-token scaled rates.
pub fn rated_compute_lp_amount_for_withdraw(
    rates: &Vec<u128>,
    withdraw_amounts: &Vec<u128>,
    old_reserves: &Vec<u128>,
    pool_token_supply: u128,
    fees: Option<&Fees>,
    amp_coef: u128,
) -> (r: Result<(u128, u128), MathError>)
    requires
        2 <= old_reserves@.len() <= MAX_COINS,
        withdraw_amounts@.len() == old_reserves@.len(),
        rates@.len() == old_reserves@.len(),
    ensures
        r == spec_rated_lp_for_withdraw(
            rates@,
            withdraw_amounts@,
            old_reserves@,
            pool_token_supply,
            (match fees {
                Some(f) => Some(*f),
                None => None,
            }),
            amp_coef,
        ),
{
    let r_w = amounts_to_rated_amounts(withdraw_amounts, rates)?;
    let r_old = amounts_to_rated_amounts(old_reserves, rates)?;
    compute_lp_amount_for_withdraw(&r_w, &r_old, pool_token_supply, fees, amp_coef)
}


// --- sign and positivity of the iterates ----------------------------------

/// The running product stays non-negative.
proof fn lemma_d_prod_nonneg(p: int, d_prev: int, amounts: Seq<u128>, n: int, i: int, v: int)
    requires
        p >= 0,
        d_prev >= 0,
        n >= 0,
        spec_d_prod_loop(p, d_prev, amounts, n, i) == Ok::<int, MathError>(v),
    ensures
        v >= 0,
    decreases amounts.len() - i,
{
    if 0 <= i < amounts.len() {
        let pd = ck_mul(lim256(), 3, p, d_prev);
        assert(pd is Ok && pd->Ok_0 == p * d_prev);
        assert(p * d_prev >= 0) by (nonlinear_arith)
            requires
                p >= 0,
                d_prev >= 0,
        ;
        let xn = ck_mul(lim128(), 4, amounts[i] as int, n);
        assert(xn is Ok);
        assert(amounts[i] * n >= 0) by (nonlinear_arith)
            requires
                n >= 0,
        ;
        let q = ck_div(1, pd->Ok_0, xn->Ok_0);
        assert(q is Ok);
        assert(q->Ok_0 >= 0) by {
            vstd::arithmetic::div_mod::lemma_div_pos_is_pos(pd->Ok_0, xn->Ok_0);
        }
        lemma_d_prod_nonneg(q->Ok_0, d_prev, amounts, n, i + 1, v);
    }
}

/// One Newton step for D keeps the iterate non-negative.
proof fn lemma_d_next_nonneg(
    d: int,
    amounts: Seq<u128>,
    n: int,
    ann_sum: int,
    ann_sub_one: int,
    dn: int,
)
    requires
        d >= 0,
        n >= 0,
        ann_sum >= 0,
        ann_sub_one >= 0,
        spec_d_next(d, amounts, n, ann_sum, ann_sub_one) == Ok::<int, MathError>(dn),
    ensures
        dn >= 0,
{
    let rp = spec_d_prod_loop(d, d, amounts, n, 0);
    assert(rp is Ok);
    let p = rp->Ok_0;
    lemma_d_prod_nonneg(d, d, amounts, n, 0, p);
    let num = d * (p * n + ann_sum);
    let den = d * ann_sub_one + p * (n + 1);
    assert(num >= 0 && den >= 0) by (nonlinear_arith)
        requires
            d >= 0,
            p >= 0,
            n >= 0,
            ann_sum >= 0,
            ann_sub_one >= 0,
            num == d * (p * n + ann_sum),
            den == d * ann_sub_one + p * (n + 1),
    ;
    let q = ck_div(2, num, den);
    assert(q is Ok && q->Ok_0 == dn);
    vstd::arithmetic::div_mod::lemma_div_pos_is_pos(num, den);
}

/// Every iterate of the D loop is non-negative.
proof fn lemma_d_loop_nonneg(
    d: int,
    amounts: Seq<u128>,
    n: int,
    ann_sum: int,
    ann_sub_one: int,
    iters: nat,
    v: int,
)
    requires
        d >= 0,
        n >= 0,
        ann_sum >= 0,
        ann_sub_one >= 0,
        spec_d_loop(d, amounts, n, ann_sum, ann_sub_one, iters) == Ok::<int, MathError>(v),
    ensures
        v >= 0,
    decreases iters,
{
    if iters > 0 {
        let rn = spec_d_next(d, amounts, n, ann_sum, ann_sub_one);
        assert(rn is Ok);
        lemma_d_next_nonneg(d, amounts, n, ann_sum, ann_sub_one, rn->Ok_0);
        if !(rn->Ok_0 - d <= 1 && d - rn->Ok_0 <= 1) {
            lemma_d_loop_nonneg(rn->Ok_0, amounts, n, ann_sum, ann_sub_one, (iters - 1) as nat, v);
        }
    }
}

/// A successfully computed invariant D is non-negative.
pub proof fn lemma_compute_d_nonneg(amounts: Seq<u128>, amp_coef: u128, d: int)
    requires
        spec_compute_d(amounts, amp_coef) == Ok::<int, MathError>(d),
    ensures
        d >= 0,
{
    let s = seq_sum(amounts);
    lemma_seq_sum_nonneg(amounts);
    if s != 0 {
        let n = amounts.len() as int;
        let ann = amp_coef * pow(n, amounts.len());
        vstd::arithmetic::power::lemma_pow_positive(n, amounts.len());
        assert(ann >= 0) by (nonlinear_arith)
            requires
                amp_coef >= 0,
                pow(n, amounts.len()) > 0,
                ann == amp_coef * pow(n, amounts.len()),
        ;
        let r_ann_sum = ck_mul(lim256(), 2, ann, s);
        assert(r_ann_sum is Ok);
        assert(ann * s >= 0) by (nonlinear_arith)
            requires
                ann >= 0,
                s >= 0,
        ;
        let r_aso = ck_sub(1, ann, 1);
        assert(r_aso is Ok);
        lemma_d_loop_nonneg(s, amounts, n, r_ann_sum->Ok_0, r_aso->Ok_0, 255, d);
    }
}

/// The reserve sum and product accumulator of the y solve stay
/// non-negative.
proof fn lemma_y_sum_c_nonneg(
    sum: int,
    c: int,
    d: int,
    reserves: Seq<u128>,
    x: int,
    y: int,
    i: int,
    out_sum: int,
    out_c: int,
)
    requires
        sum >= 0,
        c >= 0,
        d >= 0,
        spec_y_sum_c_loop(sum, c, d, reserves, x, y, i) == Ok::<(int, int), MathError>(
            (out_sum, out_c),
        ),
    ensures
        out_sum >= 0,
        out_c >= 0,
    decreases reserves.len() - i,
{
    if 0 <= i < reserves.len() {
        if i == x || i == y {
            lemma_y_sum_c_nonneg(sum, c, d, reserves, x, y, i + 1, out_sum, out_c);
        } else {
            let rs = ck_add(lim256(), 5, sum, reserves[i] as int);
            assert(rs is Ok);
            let rcd = ck_mul(lim256(), 11, c, d);
            assert(rcd is Ok && rcd->Ok_0 == c * d);
            assert(c * d >= 0) by (nonlinear_arith)
                requires
                    c >= 0,
                    d >= 0,
            ;
            let rq = ck_div(4, rcd->Ok_0, reserves[i] as int);
            assert(rq is Ok);
            vstd::arithmetic::div_mod::lemma_div_pos_is_pos(rcd->Ok_0, reserves[i] as int);
            lemma_y_sum_c_nonneg(rs->Ok_0, rq->Ok_0, d, reserves, x, y, i + 1, out_sum, out_c);
        }
    }
}

/// Every iterate of the y loop stays at least `d - b` and non-negative,
/// so the value the loop returns is non-negative.
proof fn lemma_y_loop_nonneg(y_prev: int, b: int, c: int, d: int, iters: nat, v: int)
    requires
        y_prev >= 0,
        y_prev >= d - b,
        b >= 0,
        c >= 0,
        d >= 0,
        spec_y_loop(y_prev, b, c, d, iters) == Ok::<int, MathError>(v),
    ensures
        0 <= v < lim128(),
    decreases iters,
{
    if iters == 0 {
        assert(ck_cast(lim128(), 1, y_prev) == Ok::<int, MathError>(v));
    } else {
        let rn = spec_y_next(y_prev, b, c, d);
        assert(rn is Ok);
        let yn = rn->Ok_0;
        let num = y_prev * y_prev + c;
        let den = y_prev * 2 + b - d;
        assert(yn == num / den && den != 0);
        assert(num >= (d - b) * den) by (nonlinear_arith)
            requires
                y_prev >= d - b,
                y_prev >= 0,
                c >= 0,
                num == y_prev * y_prev + c,
                den == y_prev * 2 + b - d,
        ;
        assert(num >= 0) by (nonlinear_arith)
            requires
                y_prev >= 0,
                c >= 0,
                num == y_prev * y_prev + c,
        ;
        assert(den >= 1);
        assert(yn >= d - b) by {
            if d - b > 0 {
                vstd::arithmetic::div_mod::lemma_div_is_ordered((d - b) * den, num, den);
                vstd::arithmetic::div_mod::lemma_div_by_multiple(d - b, den);
            } else {
                vstd::arithmetic::div_mod::lemma_div_pos_is_pos(num, den);
            }
        }
        vstd::arithmetic::div_mod::lemma_div_pos_is_pos(num, den);
        if yn - y_prev <= 1 && y_prev - yn <= 1 {
            assert(ck_cast(lim128(), 1, yn) == Ok::<int, MathError>(v));
        } else {
            lemma_y_loop_nonneg(yn, b, c, d, (iters - 1) as nat, v);
        }
    }
}

/// A successfully solved reserve y is non-negative (and below 2^128, by
/// its final narrowing).
pub proof fn lemma_compute_y_nonneg(
    new_reserve_x: int,
    reserves: Seq<u128>,
    x: int,
    y: int,
    amp_coef: u128,
    v: int,
)
    requires
        reserves.len() >= 1,
        new_reserve_x >= 0,
        spec_compute_y(new_reserve_x, reserves, x, y, amp_coef) == Ok::<int, MathError>(v),
    ensures
        0 <= v < lim128(),
{
    let n = reserves.len() as int;
    let ann = amp_coef * pow(n, reserves.len());
    vstd::arithmetic::power::lemma_pow_positive(n, reserves.len());
    assert(ann >= 0) by (nonlinear_arith)
        requires
            amp_coef >= 0,
            pow(n, reserves.len()) > 0,
            ann == amp_coef * pow(n, reserves.len()),
    ;
    let rd = spec_compute_d(reserves, amp_coef);
    assert(rd is Ok);
    let d = rd->Ok_0;
    lemma_compute_d_nonneg(reserves, amp_coef, d);
    let rdd = ck_mul(lim256(), 10, d, d);
    assert(rdd is Ok && rdd->Ok_0 == d * d);
    assert(d * d >= 0) by (nonlinear_arith)
        requires
            d >= 0,
    ;
    let rc0 = ck_div(3, rdd->Ok_0, new_reserve_x);
    assert(rc0 is Ok);
    vstd::arithmetic::div_mod::lemma_div_pos_is_pos(rdd->Ok_0, new_reserve_x);
    let rsc = spec_y_sum_c_loop(new_reserve_x, rc0->Ok_0, d, reserves, x, y, 0);
    assert(rsc is Ok);
    let (reserves_sum, c1) = rsc->Ok_0;
    lemma_y_sum_c_nonneg(new_reserve_x, rc0->Ok_0, d, reserves, x, y, 0, reserves_sum, c1);
    let rc1d = ck_mul(lim256(), 12, c1, d);
    assert(rc1d is Ok && rc1d->Ok_0 == c1 * d);
    assert(c1 * d >= 0) by (nonlinear_arith)
        requires
            c1 >= 0,
            d >= 0,
    ;
    let rc = ck_div(5, rc1d->Ok_0, ann * pow(n, reserves.len()));
    assert(rc is Ok);
    assert(ann * pow(n, reserves.len()) != 0);
    assert(ann * pow(n, reserves.len()) > 0) by (nonlinear_arith)
        requires
            ann >= 0,
            ann * pow(n, reserves.len()) != 0,
            pow(n, reserves.len()) > 0,
    ;
    vstd::arithmetic::div_mod::lemma_div_pos_is_pos(rc1d->Ok_0, ann * pow(n, reserves.len()));
    let rdann = ck_div(6, d, ann);
    assert(rdann is Ok && ann != 0);
    vstd::arithmetic::div_mod::lemma_div_pos_is_pos(d, ann);
    let rb = ck_add(lim256(), 6, rdann->Ok_0, reserves_sum);
    assert(rb is Ok);
    let b = rb->Ok_0;
    assert(spec_y_loop(d, b, rc->Ok_0, d, 255) == Ok::<int, MathError>(v));
    lemma_y_loop_nonneg(d, b, rc->Ok_0, d, 255, v);
    assert(v < lim128());
}

/// A sequence of positive amounts sums to at least its length.
pub proof fn lemma_seq_sum_lower(s: Seq<u128>)
    requires
        forall|k: int| 0 <= k < s.len() ==> s[k] >= 1,
    ensures
        seq_sum(s) >= s.len(),
    decreases s.len(),
{
    if s.len() > 0 {
        lemma_seq_sum_lower(s.drop_last());
    }
}

/// One Newton step for D keeps the iterate positive: for positive
/// amounts, the numerator never falls below the denominator.
proof fn lemma_d_next_ge_one(
    d: int,
    amounts: Seq<u128>,
    n: int,
    s: int,
    ann: int,
    dn: int,
)
    requires
        d >= 1,
        2 <= n == amounts.len(),
        forall|k: int| 0 <= k < amounts.len() ==> amounts[k] >= 1,
        s >= 2,
        ann >= 2,
        spec_d_next(d, amounts, n, ann * s, ann - 1) == Ok::<int, MathError>(dn),
    ensures
        dn >= 1,
{
    let rp = spec_d_prod_loop(d, d, amounts, n, 0);
    assert(rp is Ok);
    let p = rp->Ok_0;
    lemma_d_prod_nonneg(d, d, amounts, n, 0, p);
    let num = d * (p * n + ann * s);
    let den = d * (ann - 1) + p * (n + 1);
    assert(den >= 1) by (nonlinear_arith)
        requires
            d >= 1,
            ann >= 2,
            p >= 0,
            n >= 2,
            den == d * (ann - 1) + p * (n + 1),
    ;
    if d == 1 {
        // the first product step floors to zero, and zero is absorbing
        let pd = ck_mul(lim256(), 3, 1, 1);
        let xn = ck_mul(lim128(), 4, amounts[0] as int, n);
        assert(xn is Ok);
        assert(amounts[0] * n >= 2) by (nonlinear_arith)
            requires
                amounts[0] >= 1,
                n >= 2,
        ;
        let q = ck_div(1, 1, xn->Ok_0);
        assert(q is Ok);
        assert(xn->Ok_0 >= 2);
        assert(1int / xn->Ok_0 == 0) by (nonlinear_arith)
            requires
                xn->Ok_0 >= 2,
        ;
        assert(spec_d_prod_loop(1, 1, amounts, n, 0) == Ok::<int, MathError>(p));
        crate::wide::lemma_lim_bounds();
        assert(lim256() > 1);
        assert(1int * 1int == 1int) by (nonlinear_arith);
        assert(ck_mul(lim256(), 3, 1, 1) == Ok::<int, MathError>(1));
        assert(ck_div(1, 1, xn->Ok_0) == Ok::<int, MathError>(0));
        assert(spec_d_prod_loop(1, 1, amounts, n, 0) == spec_d_prod_loop(0, 1, amounts, n, 1));
        assert(spec_d_prod_loop(0, 1, amounts, n, 1) == Ok::<int, MathError>(p));
        lemma_d_prod_zero_from(1, amounts, n, 1, p);
        assert(p == 0);
        assert(num == ann * s && den == ann - 1) by (nonlinear_arith)
            requires
                d == 1,
                p == 0,
                num == d * (p * n + ann * s),
                den == d * (ann - 1) + p * (n + 1),
    ;
        assert(num >= den) by (nonlinear_arith)
            requires
                num == ann * s,
                den == ann - 1,
                ann >= 2,
                s >= 2,
        ;
    } else {
        assert(num >= den) by (nonlinear_arith)
            requires
                d >= 2,
                p >= 0,
                n >= 2,
                s >= 2,
                ann >= 2,
                num == d * (p * n + ann * s),
                den == d * (ann - 1) + p * (n + 1),
        ;
    }
    assert(dn == num / den);
    assert(dn >= 1) by {
        vstd::arithmetic::div_mod::lemma_div_by_self(den);
        vstd::arithmetic::div_mod::lemma_div_is_ordered(den, num, den);
    }
}

/// Zero is absorbing for the product loop, from any position on.
proof fn lemma_d_prod_zero_from(d_prev: int, amounts: Seq<u128>, n: int, i: int, v: int)
    requires
        spec_d_prod_loop(0, d_prev, amounts, n, i) == Ok::<int, MathError>(v),
    ensures
        v == 0,
    decreases amounts.len() - i,
{
    if 0 <= i < amounts.len() {
        let xn = ck_mul(lim128(), 4, amounts[i] as int, n);
        assert(xn is Ok);
        let q = ck_div(1, 0, xn->Ok_0);
        assert(q is Ok && q->Ok_0 == 0int / xn->Ok_0);
        assert(0int / xn->Ok_0 == 0) by {
            vstd::arithmetic::div_mod::lemma_div_of0(xn->Ok_0);
        }
        lemma_d_prod_zero_from(d_prev, amounts, n, i + 1, v);
    }
}

/// Every iterate of the D loop stays positive for positive amounts.
proof fn lemma_d_loop_ge_one(
    d: int,
    amounts: Seq<u128>,
    n: int,
    s: int,
    ann: int,
    iters: nat,
    v: int,
)
    requires
        d >= 1,
        2 <= n == amounts.len(),
        forall|k: int| 0 <= k < amounts.len() ==> amounts[k] >= 1,
        s >= 2,
        ann >= 2,
        spec_d_loop(d, amounts, n, ann * s, ann - 1, iters) == Ok::<int, MathError>(v),
    ensures
        v >= 1,
    decreases iters,
{
    if iters > 0 {
        let rn = spec_d_next(d, amounts, n, ann * s, ann - 1);
        assert(rn is Ok);
        lemma_d_next_ge_one(d, amounts, n, s, ann, rn->Ok_0);
        if !(rn->Ok_0 - d <= 1 && d - rn->Ok_0 <= 1) {
            lemma_d_loop_ge_one(rn->Ok_0, amounts, n, s, ann, (iters - 1) as nat, v);
        }
    }
}

/// The invariant of a pool whose every amount is positive is itself
/// positive: a first deposit always mints at least one share.
pub proof fn lemma_compute_d_positive(amounts: Seq<u128>, amp_coef: u128, d: int)
    requires
        2 <= amounts.len() <= 8,
        forall|k: int| 0 <= k < amounts.len() ==> amounts[k] >= 1,
        amp_coef >= 1,
        spec_compute_d(amounts, amp_coef) == Ok::<int, MathError>(d),
    ensures
        d >= 1,
{
    let s = seq_sum(amounts);
    lemma_seq_sum_lower(amounts);
    assert(s >= 2);
    let n = amounts.len() as int;
    let ann = amp_coef * pow(n, amounts.len());
    assert(pow(n, amounts.len()) >= 4) by {
        reveal_with_fuel(pow, 10);
        assert(pow(2, 2) == 4);
        assert(pow(3, 3) == 27);
        assert(pow(4, 4) == 256);
        assert(pow(5, 5) == 3125);
        assert(pow(6, 6) == 46656);
        assert(pow(7, 7) == 823543);
        assert(pow(8, 8) == 16777216);
    }
    assert(ann >= 4) by (nonlinear_arith)
        requires
            amp_coef >= 1,
            pow(n, amounts.len()) >= 4,
            ann == amp_coef * pow(n, amounts.len()),
    ;
    let r_ann_sum = ck_mul(lim256(), 2, ann, s);
    assert(r_ann_sum is Ok && r_ann_sum->Ok_0 == ann * s);
    let r_aso = ck_sub(1, ann, 1);
    assert(r_aso is Ok && r_aso->Ok_0 == ann - 1);
    lemma_d_loop_ge_one(s, amounts, n, s, ann, 255, d);
}

/// Converting all-zero amounts yields all-zero rated amounts.
pub proof fn lemma_to_rated_zero(
    acc: Seq<u128>,
    amounts: Seq<u128>,
    rates: Seq<u128>,
    i: int,
    r: Seq<u128>,
)
    requires
        0 <= i <= amounts.len(),
        forall|k: int| 0 <= k < acc.len() ==> acc[k] == 0,
        forall|k: int| i <= k < amounts.len() ==> amounts[k] == 0,
        spec_to_rated_loop(acc, amounts, rates, i) == Ok::<Seq<u128>, MathError>(r),
    ensures
        forall|k: int| 0 <= k < r.len() ==> r[k] == 0,
        r.len() == acc.len() + (amounts.len() - i),
    decreases amounts.len() - i,
{
    if 0 <= i < amounts.len() {
        let rv = spec_amount_to_rated(amounts[i], rates[i]);
        assert(amounts[i] * rates[i] == 0) by (nonlinear_arith)
            requires
                amounts[i] == 0,
        ;
        assert(0int / (RATE_PRECISION as int) == 0) by {
            vstd::arithmetic::div_mod::lemma_div_of0(RATE_PRECISION as int);
        }
        assert(rv == Ok::<u128, MathError>(0));
        lemma_to_rated_zero(acc.push(0), amounts, rates, i + 1, r);
    }
}

/// A successful rated conversion yields one entry per remaining amount.
pub proof fn lemma_to_rated_len(
    acc: Seq<u128>,
    amounts: Seq<u128>,
    rates: Seq<u128>,
    i: int,
    r: Seq<u128>,
)
    requires
        0 <= i <= amounts.len(),
        spec_to_rated_loop(acc, amounts, rates, i) == Ok::<Seq<u128>, MathError>(r),
    ensures
        r.len() == acc.len() + (amounts.len() - i),
    decreases amounts.len() - i,
{
    if i < amounts.len() {
        let rv = spec_amount_to_rated(amounts[i], rates[i]);
        assert(rv is Ok);
        lemma_to_rated_len(acc.push(rv->Ok_0), amounts, rates, i + 1, r);
    }
}

// --- stated properties ----------------------------------------------------

/// The reported swap fee is exact: a successful [`swap_to`] returns a fee
/// that is precisely the trade-fee fraction of the gross output, rounded
/// down, and therefore non-negative and at most that fraction; the amount
/// out and the fee always reassemble the gross output.
pub proof fn lemma_swap_fee_bound(
    i: int,
    token_in_amount: u128,
    j: int,
    reserves: Seq<u128>,
    fees: Fees,
    amp_coef: u128,
    amount_out: u128,
    fee: u128,
)
    requires
        0 <= i < reserves.len(),
        0 <= j < reserves.len(),
        spec_swap_to(i, token_in_amount, j, reserves, fees, amp_coef) == Ok::<
            (u128, u128),
            MathError,
        >((amount_out, fee)),
    ensures
        fee == (amount_out + fee) * fees.trade_fee / (crate::constants::FEE_DENOM as int),
        fee * crate::constants::FEE_DENOM <= (amount_out + fee) * fees.trade_fee,
{
    let r_new_x = ck_add(lim128(), 9, token_in_amount as int, reserves[i] as int);
    assert(r_new_x is Ok);
    let r_y = spec_compute_y(r_new_x->Ok_0, reserves, i, j, amp_coef);
    assert(r_y is Ok);
    lemma_compute_y_nonneg(r_new_x->Ok_0, reserves, i, j, amp_coef, r_y->Ok_0);
    let r_dy0 = ck_sub(7, reserves[j] as int, r_y->Ok_0);
    assert(r_dy0 is Ok);
    let r_dy = ck_sub(8, r_dy0->Ok_0, 1);
    assert(r_dy is Ok);
    let dy = r_dy->Ok_0;
    let r_fee = fees.spec_trade_fee_from_gross(dy as u128);
    assert(r_fee is Ok && r_fee->Ok_0 == fee);
    let r_out = ck_sub(9, dy, fee as int);
    assert(r_out is Ok && r_out->Ok_0 == amount_out);
    let gross = (amount_out + fee) as u128;
    assert(gross == dy);
    assert(fees.spec_trade_fee_from_gross(gross) == Ok::<u128, MathError>(fee));
    vstd::arithmetic::div_mod::lemma_fundamental_div_mod(
        gross * fees.trade_fee,
        crate::constants::FEE_DENOM as int,
    );
    assert(fee * crate::constants::FEE_DENOM <= gross * fees.trade_fee) by (nonlinear_arith)
        requires
            fee == gross * fees.trade_fee / (crate::constants::FEE_DENOM as int),
            gross * fees.trade_fee >= 0,
            crate::constants::FEE_DENOM > 0,
    ;
}

/// The proportional-withdrawal formula is exact: a successful
/// [`compute_amounts_given_lp`] pays out, for every token, the floor of
/// `reserve * lp_amount / supply`, and succeeds for a non-zero supply
/// whenever every such quotient fits the amount type.
pub proof fn lemma_amounts_given_lp_formula(
    lp_amount: u128,
    reserves: Seq<u128>,
    supply: u128,
    amounts: Seq<u128>,
)
    requires
        spec_amounts_given_lp(lp_amount, reserves, supply) == Ok::<Seq<u128>, MathError>(amounts),
    ensures
        supply != 0,
        amounts.len() == reserves.len(),
        forall|k: int|
            0 <= k < reserves.len() ==> amounts[k] == reserves[k] * lp_amount / (supply as int),
{
}

} // verus!
