use liquidity_pool::swap::{check_invariant, new_invariant_factor, price_for_output};
use liquidity_pool::{Address, LiquidityPool, PoolError, PoolState, RewardAccumulator, RewardConfig};

fn swap_pool(reserve_a: i128, reserve_b: i128, total_shares: i128) -> LiquidityPool {
    LiquidityPool::restore(
        PoolState { reserve_a, reserve_b, total_shares },
        RewardConfig::none(),
        RewardAccumulator::zero(),
    )
    .unwrap()
}

#[test]
fn price_of_a_tenth_of_the_reserve() {
    // floor(1000 * 100 * 1000 / ((1000 - 100) * 997)) + 1 = 111 + 1
    assert_eq!(price_for_output(true, 100, 1000, 1000), Ok(112));
    assert_eq!(price_for_output(false, 100, 1000, 1000), Ok(112));
}

#[test]
fn price_depends_on_the_side() {
    // buying A: floor(4000 * 10 * 1000 / (990 * 997)) + 1 = 40 + 1
    assert_eq!(price_for_output(true, 10, 1000, 4000), Ok(41));
    // buying B: floor(1000 * 10 * 1000 / (3990 * 997)) + 1 = 2 + 1
    assert_eq!(price_for_output(false, 10, 1000, 4000), Ok(3));
}

#[test]
fn price_of_nothing_is_one() {
    assert_eq!(price_for_output(true, 0, 1000, 1000), Ok(1));
}

#[test]
fn price_of_the_whole_reserve_is_refused() {
    assert_eq!(price_for_output(true, 1000, 1000, 5000), Err(PoolError::InvalidAmount));
    assert_eq!(price_for_output(true, 1001, 1000, 5000), Err(PoolError::InvalidAmount));
    assert_eq!(price_for_output(false, 5000, 1000, 5000), Err(PoolError::InvalidAmount));
    assert_eq!(price_for_output(true, 999, 1000, 5000), Ok(5_010_031));
}

#[test]
fn price_that_does_not_fit_overflows() {
    assert_eq!(price_for_output(true, 1, 10, i128::MAX), Err(PoolError::ArithmeticOverflow));
    assert_eq!(price_for_output(true, i128::MIN, 10, 10), Err(PoolError::ArithmeticOverflow));
}

#[test]
fn factor_takes_the_fee_off_a_surplus() {
    // delta = 1112 - 1000 - 0 = 112, 1000 * 1000 + 997 * 112
    assert_eq!(new_invariant_factor(1112, 1000, 0), Ok(1_111_664));
}

#[test]
fn factor_counts_a_shortfall_in_full() {
    // delta = 1000 - 1000 - 100 = -100, 1000 * 1000 + 1000 * -100
    assert_eq!(new_invariant_factor(1000, 1000, 100), Ok(900_000));
    assert_eq!(new_invariant_factor(1000, 1000, 0), Ok(1_000_000));
}

#[test]
fn factor_that_does_not_fit_overflows() {
    assert_eq!(new_invariant_factor(i128::MAX, -1, 0), Err(PoolError::ArithmeticOverflow));
    assert_eq!(new_invariant_factor(0, i128::MAX / 500, 0), Err(PoolError::ArithmeticOverflow));
}

#[test]
fn invariant_holds_at_the_quoted_price() {
    assert_eq!(check_invariant(1000, 1000, 1000, 1112, 100, 0), Ok(()));
}

#[test]
fn invariant_fails_one_below_the_quoted_price() {
    // 900_000 * (1_000_000 + 997 * 111) = 999_600_300_000 < 10^12
    assert_eq!(check_invariant(1000, 1000, 1000, 1111, 100, 0), Err(PoolError::InvariantViolated));
}

#[test]
fn invariant_check_overflows_on_huge_reserves() {
    let big: i128 = 1_000_000_000_000_000_000;
    assert_eq!(check_invariant(big, big, big, big, 0, 0), Err(PoolError::ArithmeticOverflow));
}

#[test]
fn swap_quotes_and_keeps_the_reserves() {
    let mut pool = swap_pool(1000, 1000, 1000);
    assert_eq!(pool.swap(true, 0, true, 100, 112), Ok(112));
    assert_eq!(pool.get_rsrvs(), (1000, 1000));
}

#[test]
fn swap_over_the_maximum_is_refused() {
    let mut pool = swap_pool(1000, 1000, 1000);
    let before = pool;
    assert_eq!(pool.swap(true, 0, true, 100, 111), Err(PoolError::SlippageExceeded));
    assert_eq!(pool, before);
}

#[test]
fn swap_of_the_whole_reserve_is_refused() {
    let mut pool = swap_pool(1000, 2000, 1000);
    let before = pool;
    assert_eq!(pool.swap(true, 0, true, 1000, i128::MAX), Err(PoolError::InvalidAmount));
    assert_eq!(pool.swap(true, 0, true, 1500, i128::MAX), Err(PoolError::InvalidAmount));
    assert_eq!(pool.swap(true, 0, false, 2000, i128::MAX), Err(PoolError::InvalidAmount));
    assert_eq!(pool, before);
}

#[test]
fn swap_needs_authorization() {
    let mut pool = swap_pool(1000, 1000, 1000);
    let before = pool;
    assert_eq!(pool.swap(false, 0, true, 100, 112), Err(PoolError::Unauthorized));
    assert_eq!(pool, before);
}

#[test]
fn swap_settles_the_reward_stream() {
    let mut pool = LiquidityPool::restore(
        PoolState { reserve_a: 1000, reserve_b: 1000, total_shares: 1000 },
        RewardConfig { rate_per_second: 100, expiration_time: 60 },
        RewardAccumulator::zero(),
    )
    .unwrap();
    assert_eq!(pool.swap(true, 30, true, 100, 112), Ok(112));
    assert_eq!(
        pool.get_reward_accumulator(),
        RewardAccumulator { update_sequence: 1, accumulated_per_share: 3, last_settled_time: 30 }
    );
}

#[test]
fn execute_swap_books_the_trade() {
    let mut pool = swap_pool(1000, 1000, 1000);
    let paid = pool.swap(true, 0, true, 100, 200).unwrap();
    assert_eq!(pool.execute_swap(true, 100, 1000, 1000 + paid), Ok(()));
    assert_eq!(pool.get_rsrvs(), (900, 1112));
    assert_eq!(pool.get_state().total_shares, 1000);
}

#[test]
fn execute_swap_of_the_other_side() {
    let mut pool = swap_pool(1000, 4000, 2000);
    let paid = pool.swap(true, 0, false, 10, 200).unwrap();
    assert_eq!(paid, 3);
    assert_eq!(pool.execute_swap(false, 10, 1003, 4000), Ok(()));
    assert_eq!(pool.get_rsrvs(), (1003, 3990));
}

#[test]
fn execute_swap_never_lowers_the_product() {
    for out in [0i128, 1, 7, 100, 499, 998, 999] {
        for buy_a in [true, false] {
            let mut pool = swap_pool(1000, 3000, 1000);
            let (reserve_a, reserve_b) = pool.get_rsrvs();
            if let Ok(paid) = pool.swap(true, 0, buy_a, out, i128::MAX) {
                let (balance_a, balance_b) =
                    if buy_a { (reserve_a, reserve_b + paid) } else { (reserve_a + paid, reserve_b) };
                assert_eq!(pool.execute_swap(buy_a, out, balance_a, balance_b), Ok(()));
                let (new_a, new_b) = pool.get_rsrvs();
                assert!(new_a * new_b >= reserve_a * reserve_b);
            }
        }
    }
}

#[test]
fn execute_swap_refuses_a_short_payment() {
    let mut pool = swap_pool(1000, 1000, 1000);
    let before = pool;
    assert_eq!(pool.execute_swap(true, 100, 1000, 1111), Err(PoolError::InvariantViolated));
    assert_eq!(pool, before);
}

#[test]
fn execute_swap_credits_a_surplus() {
    let mut pool = swap_pool(1000, 1000, 1000);
    assert_eq!(pool.execute_swap(true, 100, 1050, 1200), Ok(()));
    assert_eq!(pool.get_rsrvs(), (950, 1200));
}

#[test]
fn execute_swap_refuses_negative_reserves() {
    let mut pool = swap_pool(0, 0, 0);
    let before = pool;
    // both weights are negative, so their product is not below the old one
    assert_eq!(pool.execute_swap(true, 5, 0, -3), Err(PoolError::InvalidAmount));
    assert_eq!(pool.execute_swap(true, 5, 0, 10), Err(PoolError::InvariantViolated));
    assert_eq!(pool, before);
}

#[test]
fn estimate_matches_the_swap() {
    let mut pool = swap_pool(1000, 1000, 1000);
    assert_eq!(pool.estimate_swap_out(true, 100), Ok(112));
    assert_eq!(pool.estimate_swap_out(true, 1000), Err(PoolError::InvalidAmount));
    assert_eq!(pool.swap(true, 0, true, 100, 112), pool.estimate_swap_out(true, 100));
}

#[test]
fn tokens_are_ordered_by_their_bytes() {
    let a = Address::new(vec![1, 2, 3]);
    let b = Address::new(vec![1, 2, 4]);
    let short = Address::new(vec![1, 2]);
    assert!(a.comes_before(&b));
    assert!(!b.comes_before(&a));
    assert!(!a.comes_before(&a));
    assert!(short.comes_before(&a));
    assert!(!a.comes_before(&short));
    assert!(Address::new(vec![]).comes_before(&short));
    assert!(Address::new(vec![0, 255]).comes_before(&Address::new(vec![1])));
    assert_eq!(a.as_bytes(), &vec![1u8, 2, 3]);
}
