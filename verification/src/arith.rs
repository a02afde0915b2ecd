//! Checked 128-bit arithmetic with floor division.
//!
//! All quantities of the pool are `i128`. An operation whose exact result
//! leaves that range reports `ArithmeticOverflow` instead of wrapping, and a
//! quotient is always rounded towards negative infinity.

use vstd::prelude::*;
use vstd::arithmetic::div_mod::lemma_fundamental_div_mod;
use vstd::arithmetic::div_mod::lemma_div_pos_is_pos;
use crate::error::PoolError;

verus! {

/// Whether `x` can be held in an `i128`.
pub open spec fn fits_i128(x: int) -> bool {
    i128::MIN <= x <= i128::MAX
}

/// `floor(a * b / d)`, for a positive divisor.
pub open spec fn mul_div(a: int, b: int, d: int) -> int {
    (a * b) / d
}

/// Whether `r` is the largest integer whose square does not exceed `x`.
pub open spec fn is_floor_sqrt(r: int, x: int) -> bool {
    0 <= r && r * r <= x && x < (r + 1) * (r + 1)
}

/// The floor of the square root of a non-negative `x`.
pub open spec fn floor_sqrt(x: int) -> int {
    choose|r: int| is_floor_sqrt(r, x)
}

/// At most one integer is the floor of the square root of `x`.
pub proof fn lemma_floor_sqrt_unique(r: int, s: int, x: int)
    requires
        is_floor_sqrt(r, x),
        is_floor_sqrt(s, x),
    ensures
        r == s,
{
    if r < s {
        assert((r + 1) * (r + 1) <= s * s) by (nonlinear_arith)
            requires
                0 <= r,
                r + 1 <= s,
        ;
    } else if s < r {
        assert((s + 1) * (s + 1) <= r * r) by (nonlinear_arith)
            requires
                0 <= s,
                s + 1 <= r,
        ;
    }
}

/// A quotient by a positive divisor is no further from zero than the dividend.
pub proof fn lemma_quotient_fits(n: int, d: int)
    requires
        d > 0,
        fits_i128(n),
    ensures
        fits_i128(n / d),
        n >= 0 ==> 0 <= n / d <= n,
        n < 0 ==> n <= n / d < 0,
{
    lemma_fundamental_div_mod(n, d);
    let q = n / d;
    let m = n % d;
    assert(0 <= m < d);
    if n >= 0 {
        lemma_div_pos_is_pos(n, d);
        assert(q <= d * q) by (nonlinear_arith)
            requires
                d >= 1,
                q >= 0,
        ;
    } else {
        assert(q < 0) by (nonlinear_arith)
            requires
                d * q + m == n,
                n < 0,
                0 <= m,
                d > 0,
        ;
        assert(d * q + m <= q) by (nonlinear_arith)
            requires
                d >= 1,
                q < 0,
                0 <= m < d,
        ;
    }
}

/// `a + b`, or `ArithmeticOverflow` when the sum leaves the `i128` range.
pub(crate) fn checked_sum(a: i128, b: i128) -> (r: Result<i128, PoolError>)
    ensures
        fits_i128(a + b) ==> r == Ok::<i128, PoolError>((a + b) as i128),
        !fits_i128(a + b) ==> r == Err::<i128, PoolError>(PoolError::ArithmeticOverflow),
{
    match a.checked_add(b) {
        Some(s) => Ok(s),
        None => Err(PoolError::ArithmeticOverflow),
    }
}

/// `a - b`, or `ArithmeticOverflow` when the difference leaves the `i128` range.
pub(crate) fn checked_difference(a: i128, b: i128) -> (r: Result<i128, PoolError>)
    ensures
        fits_i128(a - b) ==> r == Ok::<i128, PoolError>((a - b) as i128),
        !fits_i128(a - b) ==> r == Err::<i128, PoolError>(PoolError::ArithmeticOverflow),
{
    match a.checked_sub(b) {
        Some(s) => Ok(s),
        None => Err(PoolError::ArithmeticOverflow),
    }
}

/// `a * b`, or `ArithmeticOverflow` when the product leaves the `i128` range.
pub(crate) fn checked_product(a: i128, b: i128) -> (r: Result<i128, PoolError>)
    ensures
        fits_i128(a * b) ==> r == Ok::<i128, PoolError>((a * b) as i128),
        !fits_i128(a * b) ==> r == Err::<i128, PoolError>(PoolError::ArithmeticOverflow),
{
    match a.checked_mul(b) {
        Some(s) => Ok(s),
        None => Err(PoolError::ArithmeticOverflow),
    }
}

/// `floor(n / d)`: `DivisionByZero` for a zero divisor. The divisor is never
/// negative in this crate, so the quotient always fits.
pub(crate) fn floor_quotient(n: i128, d: i128) -> (r: Result<i128, PoolError>)
    requires
        d >= 0,
    ensures
        d == 0 ==> r == Err::<i128, PoolError>(PoolError::DivisionByZero),
        d > 0 ==> r == Ok::<i128, PoolError>((n as int / d as int) as i128) && fits_i128(
            n as int / d as int,
        ),
{
    if d == 0 {
        return Err(PoolError::DivisionByZero);
    }
    proof {
        lemma_quotient_fits(n as int, d as int);
    }
    match n.checked_div_euclid(d) {
        Some(q) => Ok(q),
        None => Err(PoolError::DivisionByZero),
    }
}

/// `floor(a * b / d)` with the product formed first: `DivisionByZero` for a
/// zero divisor, `ArithmeticOverflow` when `a * b` leaves the `i128` range.
pub(crate) fn mul_div_floor(a: i128, b: i128, d: i128) -> (r: Result<i128, PoolError>)
    requires
        d >= 0,
    ensures
        d == 0 ==> r == Err::<i128, PoolError>(PoolError::DivisionByZero),
        d > 0 && !fits_i128(a * b) ==> r == Err::<i128, PoolError>(
            PoolError::ArithmeticOverflow,
        ),
        d > 0 && fits_i128(a * b) ==> r == Ok::<i128, PoolError>(
            mul_div(a as int, b as int, d as int) as i128,
        ) && fits_i128(mul_div(a as int, b as int, d as int)),
{
    if d == 0 {
        return Err(PoolError::DivisionByZero);
    }
    let n: i128 = checked_product(a, b)?;
    floor_quotient(n, d)
}

/// The floor of the square root of `x`, computed by `num_integer::Roots::sqrt`.
///
/// Trusted: the result `r` of that method is taken to be non-negative with
/// `r * r <= x < (r + 1) * (r + 1)`, as its documentation states. The method
/// panics on a negative argument, which the precondition rules out.
#[verifier::external_body]
pub(crate) fn integer_sqrt(x: i128) -> (r: i128)
    requires
        x >= 0,
    ensures
        is_floor_sqrt(r as int, x as int),
{
    num_integer::Roots::sqrt(&x)
}

/// `x` as an `i128`, converted by `cast::i128`.
///
/// Trusted: for a `u64` argument that function is an integer promotion, so
/// the result has the value of `x`.
#[verifier::external_body]
pub(crate) fn widen(x: u64) -> (r: i128)
    ensures
        r == x,
{
    cast::i128(x)
}

} // verus!
