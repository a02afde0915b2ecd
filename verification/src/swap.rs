//! Constant-product pricing with a fee of three parts in a thousand.
//!
//! A trade names the amount that leaves the pool. The price is the amount of
//! the other asset that has to come in so that the product of the reserves,
//! with the fee taken off what came in, does not decrease.

use vstd::prelude::*;
use vstd::arithmetic::div_mod::lemma_fundamental_div_mod;
use vstd::arithmetic::div_mod::lemma_div_pos_is_pos;
use crate::arith::{checked_difference, checked_product, checked_sum, fits_i128, floor_quotient};
use crate::error::PoolError;

verus! {

/// The part of an incoming amount that counts towards the product, in thousandths.
pub const RESIDUE_NUMERATOR: i128 = 997;

/// The scale of [`RESIDUE_NUMERATOR`].
pub const RESIDUE_DENOMINATOR: i128 = 1000;

/// The reserve of the asset that the trader hands in.
pub open spec fn reserve_sold(buy_a: bool, reserve_a: int, reserve_b: int) -> int {
    if buy_a {
        reserve_b
    } else {
        reserve_a
    }
}

/// The reserve of the asset that the trader receives.
pub open spec fn reserve_bought(buy_a: bool, reserve_a: int, reserve_b: int) -> int {
    if buy_a {
        reserve_a
    } else {
        reserve_b
    }
}

/// What has to be sold to take `out` from the pool:
/// `floor(reserve_sell * out * 1000 / ((reserve_buy - out) * 997)) + 1`.
pub open spec fn required_input(reserve_sell: int, reserve_buy: int, out: int) -> int {
    (reserve_sell * out * 1000) / ((reserve_buy - out) * 997) + 1
}

/// Whether every value met on the way to [`required_input`] fits into an `i128`.
pub open spec fn price_fits(reserve_sell: int, reserve_buy: int, out: int) -> bool {
    &&& fits_i128(reserve_sell * out * 1000)
    &&& fits_i128((reserve_buy - out) * 997)
    &&& fits_i128(required_input(reserve_sell, reserve_buy, out))
}

/// The outcome of pricing a trade that takes `out` of the bought asset.
pub open spec fn quote(reserve_sell: int, reserve_buy: int, out: int) -> Result<i128, PoolError> {
    if out >= reserve_buy {
        Err(PoolError::InvalidAmount)
    } else if !price_fits(reserve_sell, reserve_buy, out) {
        Err(PoolError::ArithmeticOverflow)
    } else {
        Ok(required_input(reserve_sell, reserve_buy, out) as i128)
    }
}

/// What the pool holds of one asset beyond its reserve and the amount paid
/// out, as it counts towards the product: a surplus counts with the fee taken
/// off, a shortfall counts in full.
pub open spec fn adjusted_delta(delta: int) -> int {
    if delta > 0 {
        997 * delta
    } else {
        1000 * delta
    }
}

/// The weight of one asset in the product after a trade.
pub open spec fn invariant_factor(balance: int, reserve: int, out: int) -> int {
    1000 * reserve + adjusted_delta(balance - reserve - out)
}

/// Whether every value met on the way to [`invariant_factor`] fits into an `i128`.
pub open spec fn factor_fits(balance: int, reserve: int, out: int) -> bool {
    &&& fits_i128(balance - reserve)
    &&& fits_i128(balance - reserve - out)
    &&& fits_i128(adjusted_delta(balance - reserve - out))
    &&& fits_i128(1000 * reserve)
    &&& fits_i128(invariant_factor(balance, reserve, out))
}

/// The product of the two weights before a trade.
pub open spec fn product_before(reserve_a: int, reserve_b: int) -> int {
    (1000 * reserve_a) * (1000 * reserve_b)
}

/// The product of the two weights after a trade.
pub open spec fn product_after(
    reserve_a: int,
    reserve_b: int,
    balance_a: int,
    balance_b: int,
    out_a: int,
    out_b: int,
) -> int {
    invariant_factor(balance_a, reserve_a, out_a) * invariant_factor(balance_b, reserve_b, out_b)
}

/// Whether the check of a trade can be computed in `i128`.
pub open spec fn check_fits(
    reserve_a: int,
    reserve_b: int,
    balance_a: int,
    balance_b: int,
    out_a: int,
    out_b: int,
) -> bool {
    &&& factor_fits(balance_a, reserve_a, out_a)
    &&& factor_fits(balance_b, reserve_b, out_b)
    &&& fits_i128(product_after(reserve_a, reserve_b, balance_a, balance_b, out_a, out_b))
    &&& fits_i128(product_before(reserve_a, reserve_b))
}

/// The outcome of checking a trade against the constant-product rule.
pub open spec fn trade_check(
    reserve_a: int,
    reserve_b: int,
    balance_a: int,
    balance_b: int,
    out_a: int,
    out_b: int,
) -> Result<(), PoolError> {
    if !check_fits(reserve_a, reserve_b, balance_a, balance_b, out_a, out_b) {
        Err(PoolError::ArithmeticOverflow)
    } else if product_after(reserve_a, reserve_b, balance_a, balance_b, out_a, out_b)
        < product_before(reserve_a, reserve_b) {
        Err(PoolError::InvariantViolated)
    } else {
        Ok(())
    }
}

/// Prices a trade that takes `out` of one asset: the amount of the other
/// asset that has to be handed in. `buy_a` says that asset A is taken out.
///
/// The trade is refused with `InvalidAmount` when `out` is not strictly below
/// the reserve it is taken from.
pub fn price_for_output(buy_a: bool, out: i128, reserve_a: i128, reserve_b: i128) -> (r: Result<
    i128,
    PoolError,
>)
    ensures
        r == quote(
            reserve_sold(buy_a, reserve_a as int, reserve_b as int),
            reserve_bought(buy_a, reserve_a as int, reserve_b as int),
            out as int,
        ),
{
    let (reserve_sell, reserve_buy) = if buy_a {
        (reserve_b, reserve_a)
    } else {
        (reserve_a, reserve_b)
    };
    if out >= reserve_buy {
        return Err(PoolError::InvalidAmount);
    }
    let scaled: i128 = checked_product(reserve_sell, out)?;
    let n: i128 = checked_product(scaled, RESIDUE_DENOMINATOR)?;
    let gap: i128 = checked_difference(reserve_buy, out)?;
    let d: i128 = checked_product(gap, RESIDUE_NUMERATOR)?;
    let q: i128 = floor_quotient(n, d)?;
    checked_sum(q, 1)
}

/// Computes [`invariant_factor`], or `ArithmeticOverflow` when a value on the
/// way leaves the `i128` range.
pub fn new_invariant_factor(balance: i128, reserve: i128, out: i128) -> (r: Result<
    i128,
    PoolError,
>)
    ensures
        factor_fits(balance as int, reserve as int, out as int) ==> r == Ok::<i128, PoolError>(
            invariant_factor(balance as int, reserve as int, out as int) as i128,
        ),
        !factor_fits(balance as int, reserve as int, out as int) ==> r == Err::<i128, PoolError>(
            PoolError::ArithmeticOverflow,
        ),
{
    let grown: i128 = checked_difference(balance, reserve)?;
    let delta: i128 = checked_difference(grown, out)?;
    let adjusted: i128 = if delta > 0 {
        checked_product(RESIDUE_NUMERATOR, delta)?
    } else {
        checked_product(RESIDUE_DENOMINATOR, delta)?
    };
    let base: i128 = checked_product(RESIDUE_DENOMINATOR, reserve)?;
    checked_sum(base, adjusted)
}

/// Checks a trade against the constant-product rule. The balances are those
/// that the pool holds once the sold amount has come in and before anything
/// has been paid out; `out_a` and `out_b` are what is about to be paid out.
pub fn check_invariant(
    reserve_a: i128,
    reserve_b: i128,
    balance_a: i128,
    balance_b: i128,
    out_a: i128,
    out_b: i128,
) -> (r: Result<(), PoolError>)
    ensures
        r == trade_check(
            reserve_a as int,
            reserve_b as int,
            balance_a as int,
            balance_b as int,
            out_a as int,
            out_b as int,
        ),
        r is Ok ==> product_after(
            reserve_a as int,
            reserve_b as int,
            balance_a as int,
            balance_b as int,
            out_a as int,
            out_b as int,
        ) >= product_before(reserve_a as int, reserve_b as int),
{
    let new_inv_a: i128 = new_invariant_factor(balance_a, reserve_a, out_a)?;
    let new_inv_b: i128 = new_invariant_factor(balance_b, reserve_b, out_b)?;
    let old_inv_a: i128 = checked_product(RESIDUE_DENOMINATOR, reserve_a)?;
    let old_inv_b: i128 = checked_product(RESIDUE_DENOMINATOR, reserve_b)?;
    let new_product: i128 = checked_product(new_inv_a, new_inv_b)?;
    let old_product: i128 = checked_product(old_inv_a, old_inv_b)?;
    if new_product < old_product {
        Err(PoolError::InvariantViolated)
    } else {
        Ok(())
    }
}

/// The price rounds in the pool's favour: a trade that takes a non-negative
/// `out` below the reserve, and brings in exactly the priced amount, never
/// lowers the product of the weights.
pub proof fn lemma_priced_trade_keeps_product(buy_a: bool, reserve_a: int, reserve_b: int, out: int)
    requires
        reserve_a >= 0,
        reserve_b >= 0,
        0 <= out < reserve_bought(buy_a, reserve_a, reserve_b),
    ensures
        ({
            let paid = required_input(
                reserve_sold(buy_a, reserve_a, reserve_b),
                reserve_bought(buy_a, reserve_a, reserve_b),
                out,
            );
            if buy_a {
                product_after(reserve_a, reserve_b, reserve_a, reserve_b + paid, out, 0)
                    >= product_before(reserve_a, reserve_b)
            } else {
                product_after(reserve_a, reserve_b, reserve_a + paid, reserve_b, 0, out)
                    >= product_before(reserve_a, reserve_b)
            }
        }),
{
    let s = reserve_sold(buy_a, reserve_a, reserve_b);
    let b = reserve_bought(buy_a, reserve_a, reserve_b);
    let g = b - out;
    let n = s * out * 1000;
    let d = g * 997;
    let q = n / d;
    let paid = q + 1;
    assert(n >= 0) by (nonlinear_arith)
        requires
            n == s * out * 1000,
            s >= 0,
            out >= 0,
    ;
    lemma_fundamental_div_mod(n, d);
    lemma_div_pos_is_pos(n, d);
    assert(d * paid > n) by (nonlinear_arith)
        requires
            n == d * q + n % d,
            0 <= n % d < d,
            paid == q + 1,
    ;
    let fs = invariant_factor(s + paid, s, 0);
    let fb = invariant_factor(b, b, out);
    assert(fs == 1000 * s + 997 * paid);
    assert(fb == 1000 * g);
    assert(fs * fb >= (1000 * s) * (1000 * b)) by (nonlinear_arith)
        requires
            fs == 1000 * s + 997 * paid,
            fb == 1000 * g,
            g == b - out,
            (g * 997) * paid > s * out * 1000,
    ;
    assert(fb * fs == fs * fb) by (nonlinear_arith);
    assert((1000 * b) * (1000 * s) == (1000 * s) * (1000 * b)) by (nonlinear_arith);
}

} // verus!
