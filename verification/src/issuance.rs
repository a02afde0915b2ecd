//! Issuing and redeeming pool shares.
//!
//! A deposit into a pool that already holds both assets has to come in the
//! ratio of the reserves, and earns shares in proportion to what it adds. The
//! first deposit sets the ratio and earns the geometric mean of its two
//! amounts. A redemption pays out the same fraction of each asset as the
//! fraction of all shares that is handed back.

use vstd::prelude::*;
use vstd::arithmetic::div_mod::lemma_fundamental_div_mod;
use crate::arith::{
    checked_difference,
    checked_product,
    fits_i128,
    floor_sqrt,
    integer_sqrt,
    is_floor_sqrt,
    lemma_floor_sqrt_unique,
    mul_div,
    mul_div_floor,
};
use crate::error::PoolError;

verus! {

/// The amounts that a deposit is accepted with.
///
/// Into a pool without reserves everything that is offered goes in. Otherwise
/// all of asset A goes in with the matching amount of asset B, if that much B
/// is offered; else all of asset B goes in with the matching amount of A.
/// Either way both amounts have to reach the minimum set for them.
pub open spec fn deposit_amounts(
    desired_a: i128,
    min_a: i128,
    desired_b: i128,
    min_b: i128,
    reserve_a: i128,
    reserve_b: i128,
) -> Result<(i128, i128), PoolError> {
    let amount_b = mul_div(desired_a as int, reserve_b as int, reserve_a as int);
    let amount_a = mul_div(desired_b as int, reserve_a as int, reserve_b as int);
    if reserve_a == 0 && reserve_b == 0 {
        Ok((desired_a, desired_b))
    } else if reserve_a == 0 || reserve_b == 0 {
        Err(PoolError::DivisionByZero)
    } else if !fits_i128(desired_a * reserve_b) {
        Err(PoolError::ArithmeticOverflow)
    } else if amount_b <= desired_b {
        if amount_b < min_b || desired_a < min_a {
            Err(PoolError::MinNotSatisfied)
        } else {
            Ok((desired_a, amount_b as i128))
        }
    } else if !fits_i128(desired_b * reserve_a) {
        Err(PoolError::ArithmeticOverflow)
    } else if amount_a < min_a || desired_b < min_b {
        Err(PoolError::MinNotSatisfied)
    } else {
        Ok((amount_a as i128, desired_b))
    }
}

/// Whether shares are issued in proportion to the reserves: the pool has
/// shares outstanding and holds both assets.
pub open spec fn issues_in_proportion(reserve_a: i128, reserve_b: i128, total_shares: i128) -> bool {
    total_shares > 0 && reserve_a > 0 && reserve_b > 0
}

/// The number of shares outstanding after a deposit that has brought the
/// balances of the pool to `balance_a` and `balance_b`.
///
/// In proportion: the smaller of `floor(balance_a * total_shares / reserve_a)`
/// and `floor(balance_b * total_shares / reserve_b)`, so that a lopsided
/// deposit earns by its smaller side. Otherwise
/// `floor(sqrt(balance_a * balance_b))`.
pub open spec fn shares_after_deposit(
    balance_a: i128,
    balance_b: i128,
    reserve_a: i128,
    reserve_b: i128,
    total_shares: i128,
) -> Result<i128, PoolError> {
    let shares_a = mul_div(balance_a as int, total_shares as int, reserve_a as int);
    let shares_b = mul_div(balance_b as int, total_shares as int, reserve_b as int);
    if issues_in_proportion(reserve_a, reserve_b, total_shares) {
        if !fits_i128(balance_a * total_shares) || !fits_i128(balance_b * total_shares) {
            Err(PoolError::ArithmeticOverflow)
        } else if shares_a <= shares_b {
            Ok(shares_a as i128)
        } else {
            Ok(shares_b as i128)
        }
    } else if !fits_i128(balance_a * balance_b) {
        Err(PoolError::ArithmeticOverflow)
    } else if balance_a * balance_b < 0 {
        Err(PoolError::InvalidAmount)
    } else {
        Ok(floor_sqrt(balance_a * balance_b) as i128)
    }
}

/// The shares that a deposit earns: what is outstanding after it less what
/// was outstanding before. A deposit cannot earn a negative number of shares.
pub open spec fn shares_minted(
    balance_a: i128,
    balance_b: i128,
    reserve_a: i128,
    reserve_b: i128,
    total_shares: i128,
) -> Result<i128, PoolError> {
    match shares_after_deposit(balance_a, balance_b, reserve_a, reserve_b, total_shares) {
        Err(e) => Err(e),
        Ok(after) => if !fits_i128(after - total_shares) {
            Err(PoolError::ArithmeticOverflow)
        } else if after < total_shares {
            Err(PoolError::InvalidAmount)
        } else {
            Ok((after - total_shares) as i128)
        },
    }
}

/// What a redemption of `balance_shares` shares pays out of a balance:
/// `floor(balance * balance_shares / total_shares)`.
pub open spec fn payout(balance: int, balance_shares: int, total_shares: int) -> int {
    mul_div(balance, balance_shares, total_shares)
}

/// The two amounts that a redemption pays out, each of which has to reach the
/// minimum set for it.
pub open spec fn withdrawal_amounts(
    balance_a: i128,
    balance_b: i128,
    balance_shares: i128,
    total_shares: i128,
    min_a: i128,
    min_b: i128,
) -> Result<(i128, i128), PoolError> {
    let out_a = payout(balance_a as int, balance_shares as int, total_shares as int);
    let out_b = payout(balance_b as int, balance_shares as int, total_shares as int);
    if total_shares == 0 {
        Err(PoolError::DivisionByZero)
    } else if !fits_i128(balance_a * balance_shares) || !fits_i128(balance_b * balance_shares) {
        Err(PoolError::ArithmeticOverflow)
    } else if out_a < min_a || out_b < min_b {
        Err(PoolError::MinNotSatisfied)
    } else {
        Ok((out_a as i128, out_b as i128))
    }
}

/// The side that is cut down to the ratio never exceeds what was offered.
proof fn lemma_matching_amount_below_desired(
    desired_a: int,
    desired_b: int,
    reserve_a: int,
    reserve_b: int,
)
    requires
        reserve_a > 0,
        reserve_b > 0,
        mul_div(desired_a, reserve_b, reserve_a) > desired_b,
    ensures
        mul_div(desired_b, reserve_a, reserve_b) < desired_a,
{
    let n = desired_a * reserve_b;
    let q = n / reserve_a;
    lemma_fundamental_div_mod(n, reserve_a);
    assert(reserve_a * desired_b < n) by (nonlinear_arith)
        requires
            n == reserve_a * q + n % reserve_a,
            0 <= n % reserve_a,
            q >= desired_b + 1,
            reserve_a > 0,
    ;
    let m = desired_b * reserve_a;
    let p = m / reserve_b;
    lemma_fundamental_div_mod(m, reserve_b);
    assert(p < desired_a) by (nonlinear_arith)
        requires
            m == reserve_b * p + m % reserve_b,
            0 <= m % reserve_b,
            m == desired_b * reserve_a,
            reserve_a * desired_b < desired_a * reserve_b,
            reserve_b > 0,
    ;
}

/// In a pool that issues in proportion, the shares that a deposit has earned
/// redeem no more than the deposit has added.
proof fn lemma_proportional_payout(balance: int, reserve: int, total_shares: int, after: int)
    requires
        reserve > 0,
        total_shares > 0,
        after >= total_shares,
        after <= mul_div(balance, total_shares, reserve),
    ensures
        payout(balance, after - total_shares, after) <= balance - reserve,
{
    let n = balance * total_shares;
    let earned = n / reserve;
    lemma_fundamental_div_mod(n, reserve);
    assert(reserve * after <= n) by (nonlinear_arith)
        requires
            n == reserve * earned + n % reserve,
            0 <= n % reserve,
            after <= earned,
            reserve > 0,
    ;
    let m = balance * (after - total_shares);
    let out = m / after;
    lemma_fundamental_div_mod(m, after);
    assert(out <= balance - reserve) by (nonlinear_arith)
        requires
            m == after * out + m % after,
            0 <= m % after,
            m == balance * (after - total_shares),
            reserve * after <= balance * total_shares,
            after > 0,
    ;
}

/// A part of the shares redeems no more than the whole balance.
proof fn lemma_partial_payout(balance: int, shares: int, total_shares: int)
    requires
        balance >= 0,
        0 <= shares <= total_shares,
        total_shares > 0,
    ensures
        payout(balance, shares, total_shares) <= balance,
{
    let m = balance * shares;
    let out = m / total_shares;
    lemma_fundamental_div_mod(m, total_shares);
    assert(out <= balance) by (nonlinear_arith)
        requires
            m == total_shares * out + m % total_shares,
            0 <= m % total_shares,
            m == balance * shares,
            balance >= 0,
            0 <= shares <= total_shares,
            total_shares > 0,
    ;
}

/// Redeeming is the inverse of depositing, up to rounding in the pool's
/// favour: the shares that a deposit has earned redeem, right after it, no
/// more of either asset than the deposit has added to the pool.
///
/// This holds of a pool that issues in proportion and of a pool without
/// reserves. It does not hold of a pool that holds assets while no shares are
/// outstanding: there the first depositor's shares redeem what was left
/// behind as well.
pub proof fn lemma_minted_shares_redeem_no_more(
    balance_a: i128,
    balance_b: i128,
    reserve_a: i128,
    reserve_b: i128,
    total_shares: i128,
)
    requires
        reserve_a >= 0,
        reserve_b >= 0,
        total_shares >= 0,
        balance_a >= 0,
        balance_b >= 0,
        issues_in_proportion(reserve_a, reserve_b, total_shares) || (reserve_a == 0 && reserve_b
            == 0),
        shares_minted(balance_a, balance_b, reserve_a, reserve_b, total_shares) is Ok,
        total_shares + shares_minted(
            balance_a,
            balance_b,
            reserve_a,
            reserve_b,
            total_shares,
        )->Ok_0 > 0,
    ensures
        ({
            let minted = shares_minted(
                balance_a,
                balance_b,
                reserve_a,
                reserve_b,
                total_shares,
            )->Ok_0;
            &&& payout(balance_a as int, minted as int, total_shares + minted) <= balance_a
                - reserve_a
            &&& payout(balance_b as int, minted as int, total_shares + minted) <= balance_b
                - reserve_b
        }),
{
    let after = shares_after_deposit(balance_a, balance_b, reserve_a, reserve_b, total_shares)->Ok_0;
    let minted = shares_minted(balance_a, balance_b, reserve_a, reserve_b, total_shares)->Ok_0;
    assert(minted == after - total_shares);
    if issues_in_proportion(reserve_a, reserve_b, total_shares) {
        lemma_proportional_payout(
            balance_a as int,
            reserve_a as int,
            total_shares as int,
            after as int,
        );
        lemma_proportional_payout(
            balance_b as int,
            reserve_b as int,
            total_shares as int,
            after as int,
        );
    } else {
        lemma_partial_payout(balance_a as int, minted as int, after as int);
        lemma_partial_payout(balance_b as int, minted as int, after as int);
    }
}

/// Decides the amounts that a deposit is accepted with, for a pool with the
/// given reserves.
///
/// Unless the pool is empty, an accepted amount lies between the minimum and
/// the offer for its asset. `MinNotSatisfied` says that the amounts in the
/// ratio of the reserves do not; `DivisionByZero` that the pool holds only one
/// of the two assets, so that it has no ratio.
pub fn get_deposit_amounts(
    desired_a: i128,
    min_a: i128,
    desired_b: i128,
    min_b: i128,
    reserve_a: i128,
    reserve_b: i128,
) -> (r: Result<(i128, i128), PoolError>)
    requires
        reserve_a >= 0,
        reserve_b >= 0,
    ensures
        r == deposit_amounts(desired_a, min_a, desired_b, min_b, reserve_a, reserve_b),
        r matches Ok(amounts) ==> {
            ||| reserve_a == 0 && reserve_b == 0
            ||| (min_a <= amounts.0 <= desired_a && min_b <= amounts.1 <= desired_b)
        },
{
    if reserve_a == 0 && reserve_b == 0 {
        return Ok((desired_a, desired_b));
    }
    if reserve_a == 0 || reserve_b == 0 {
        return Err(PoolError::DivisionByZero);
    }
    let amount_b: i128 = mul_div_floor(desired_a, reserve_b, reserve_a)?;
    if amount_b <= desired_b {
        if amount_b < min_b || desired_a < min_a {
            return Err(PoolError::MinNotSatisfied);
        }
        Ok((desired_a, amount_b))
    } else {
        let amount_a: i128 = mul_div_floor(desired_b, reserve_a, reserve_b)?;
        proof {
            lemma_matching_amount_below_desired(
                desired_a as int,
                desired_b as int,
                reserve_a as int,
                reserve_b as int,
            );
        }
        if amount_a < min_a || desired_b < min_b {
            return Err(PoolError::MinNotSatisfied);
        }
        Ok((amount_a, desired_b))
    }
}

/// Computes the shares that a deposit earns, once it has brought the balances
/// of the pool to `balance_a` and `balance_b`.
pub fn shares_to_mint(
    balance_a: i128,
    balance_b: i128,
    reserve_a: i128,
    reserve_b: i128,
    total_shares: i128,
) -> (r: Result<i128, PoolError>)
    requires
        reserve_a >= 0,
        reserve_b >= 0,
        total_shares >= 0,
    ensures
        r == shares_minted(balance_a, balance_b, reserve_a, reserve_b, total_shares),
        r matches Ok(minted) ==> minted >= 0,
{
    let after: i128 = if total_shares > 0 && reserve_a > 0 && reserve_b > 0 {
        let shares_a: i128 = mul_div_floor(balance_a, total_shares, reserve_a)?;
        let shares_b: i128 = mul_div_floor(balance_b, total_shares, reserve_b)?;
        if shares_a <= shares_b {
            shares_a
        } else {
            shares_b
        }
    } else {
        let product: i128 = checked_product(balance_a, balance_b)?;
        if product < 0 {
            return Err(PoolError::InvalidAmount);
        }
        let root: i128 = integer_sqrt(product);
        proof {
            assert(is_floor_sqrt(floor_sqrt(product as int), product as int));
            lemma_floor_sqrt_unique(root as int, floor_sqrt(product as int), product as int);
        }
        root
    };
    let minted: i128 = checked_difference(after, total_shares)?;
    if minted < 0 {
        return Err(PoolError::InvalidAmount);
    }
    Ok(minted)
}

/// Computes what a redemption pays out. `balance_shares` is the number of
/// shares handed back, out of `total_shares` outstanding.
pub fn get_withdrawal_amounts(
    balance_a: i128,
    balance_b: i128,
    balance_shares: i128,
    total_shares: i128,
    min_a: i128,
    min_b: i128,
) -> (r: Result<(i128, i128), PoolError>)
    requires
        total_shares >= 0,
    ensures
        r == withdrawal_amounts(balance_a, balance_b, balance_shares, total_shares, min_a, min_b),
        r matches Ok(paid) ==> {
            &&& paid.0 == payout(balance_a as int, balance_shares as int, total_shares as int)
            &&& paid.1 == payout(balance_b as int, balance_shares as int, total_shares as int)
            &&& paid.0 >= min_a
            &&& paid.1 >= min_b
        },
{
    if total_shares == 0 {
        return Err(PoolError::DivisionByZero);
    }
    let out_a: i128 = mul_div_floor(balance_a, balance_shares, total_shares)?;
    let out_b: i128 = mul_div_floor(balance_b, balance_shares, total_shares)?;
    if out_a < min_a || out_b < min_b {
        return Err(PoolError::MinNotSatisfied);
    }
    Ok((out_a, out_b))
}

} // verus!
