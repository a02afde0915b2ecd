use liquidity_pool::rewards::{preview, settle_user};
use liquidity_pool::{
    LiquidityPool, PoolError, PoolState, RewardAccumulator, RewardConfig, RewardsInfo,
    UserRewardRecord,
};

fn rewarding_pool(total_shares: i128) -> LiquidityPool {
    LiquidityPool::restore(
        PoolState { reserve_a: 1000, reserve_b: 1000, total_shares },
        RewardConfig { rate_per_second: 100, expiration_time: 60 },
        RewardAccumulator::zero(),
    )
    .unwrap()
}

fn record(sequence: u64, snapshot: i128, balance: i128) -> UserRewardRecord {
    UserRewardRecord {
        last_seen_sequence: sequence,
        accumulated_per_share_snapshot: snapshot,
        claimable_balance: balance,
    }
}

#[test]
fn stream_rate_is_the_amount_per_second() {
    assert_eq!(
        RewardConfig::derive(6_000_000_000, 100, 160),
        Ok(RewardConfig { rate_per_second: 100_000_000, expiration_time: 160 })
    );
    // floor(100 / 7) = 14, floor(-100 / 7) = -15
    assert_eq!(
        RewardConfig::derive(100, 0, 7),
        Ok(RewardConfig { rate_per_second: 14, expiration_time: 7 })
    );
    assert_eq!(
        RewardConfig::derive(-100, 0, 7),
        Ok(RewardConfig { rate_per_second: -15, expiration_time: 7 })
    );
    assert_eq!(
        RewardConfig::derive(5, 0, u64::MAX),
        Ok(RewardConfig { rate_per_second: 0, expiration_time: u64::MAX })
    );
}

#[test]
fn stream_has_to_end_in_the_future() {
    assert_eq!(RewardConfig::derive(100, 160, 160), Err(PoolError::InvalidAmount));
    assert_eq!(RewardConfig::derive(100, 161, 160), Err(PoolError::InvalidAmount));
}

#[test]
fn settle_accrues_per_share() {
    let config = RewardConfig { rate_per_second: 100, expiration_time: 60 };
    // floor(30 * 100 / 1000) = 3
    assert_eq!(
        RewardAccumulator::zero().settle(&config, 30, 1000),
        Ok(RewardAccumulator { update_sequence: 1, accumulated_per_share: 3, last_settled_time: 30 })
    );
    // floor(30 * 100 / 7) = 428
    assert_eq!(
        RewardAccumulator::zero().settle(&config, 30, 7),
        Ok(RewardAccumulator {
            update_sequence: 1,
            accumulated_per_share: 428,
            last_settled_time: 30,
        })
    );
}

#[test]
fn settle_stops_at_the_expiration() {
    let config = RewardConfig { rate_per_second: 100, expiration_time: 60 };
    let at_end = RewardAccumulator::zero().settle(&config, 1000, 1000).unwrap();
    assert_eq!(
        at_end,
        RewardAccumulator { update_sequence: 1, accumulated_per_share: 6, last_settled_time: 60 }
    );
    assert_eq!(at_end.settle(&config, 2000, 1000), Ok(at_end));
}

#[test]
fn settle_without_elapsed_time_changes_nothing() {
    let config = RewardConfig { rate_per_second: 100, expiration_time: 60 };
    let start =
        RewardAccumulator { update_sequence: 4, accumulated_per_share: 9, last_settled_time: 30 };
    assert_eq!(start.settle(&config, 30, 1000), Ok(start));
    assert_eq!(start.settle(&config, 10, 1000), Ok(start));
}

#[test]
fn settle_without_shares_moves_the_clock_only() {
    let config = RewardConfig { rate_per_second: 100, expiration_time: 60 };
    let start =
        RewardAccumulator { update_sequence: 4, accumulated_per_share: 9, last_settled_time: 10 };
    assert_eq!(
        start.settle(&config, 30, 0),
        Ok(RewardAccumulator { update_sequence: 5, accumulated_per_share: 9, last_settled_time: 30 })
    );
}

#[test]
fn settle_never_decreases_the_total() {
    let config = RewardConfig { rate_per_second: 7, expiration_time: 500 };
    let mut accumulator = RewardAccumulator::zero();
    let mut shares: i128 = 0;
    for now in [0u64, 3, 3, 10, 9, 250, 499, 500, 501, 1000] {
        let next = accumulator.settle(&config, now, shares).unwrap();
        assert!(next.accumulated_per_share >= accumulator.accumulated_per_share);
        assert!(next.last_settled_time >= accumulator.last_settled_time);
        assert!(next.last_settled_time <= 500);
        if shares == 0 {
            assert_eq!(next.accumulated_per_share, accumulator.accumulated_per_share);
        }
        accumulator = next;
        shares = (shares + 13) % 40;
    }
    assert_eq!(accumulator.last_settled_time, 500);
}

#[test]
fn settle_that_does_not_fit_overflows() {
    let config = RewardConfig { rate_per_second: i128::MAX, expiration_time: 60 };
    assert_eq!(
        RewardAccumulator::zero().settle(&config, 30, 1),
        Err(PoolError::ArithmeticOverflow)
    );
    let config = RewardConfig { rate_per_second: 1, expiration_time: 60 };
    let full = RewardAccumulator {
        update_sequence: 0,
        accumulated_per_share: i128::MAX,
        last_settled_time: 0,
    };
    assert_eq!(full.settle(&config, 30, 1), Err(PoolError::ArithmeticOverflow));
    let last = RewardAccumulator {
        update_sequence: u64::MAX,
        accumulated_per_share: 0,
        last_settled_time: 0,
    };
    assert_eq!(last.settle(&config, 30, 1), Err(PoolError::ArithmeticOverflow));
    assert_eq!(last.settle(&config, 0, 1), Ok(last));
}

#[test]
fn holder_earns_shares_times_growth() {
    let accumulator =
        RewardAccumulator { update_sequence: 5, accumulated_per_share: 13, last_settled_time: 30 };
    // 7 + 250 * (13 - 3)
    assert_eq!(
        settle_user(Some(record(2, 3, 7)), &accumulator, 250),
        Ok(record(5, 13, 2507))
    );
    assert_eq!(settle_user(Some(record(2, 13, 7)), &accumulator, 250), Ok(record(5, 13, 7)));
    assert_eq!(settle_user(Some(record(2, 3, 7)), &accumulator, 0), Ok(record(5, 13, 7)));
}

#[test]
fn new_holder_starts_from_now() {
    let accumulator =
        RewardAccumulator { update_sequence: 5, accumulated_per_share: 13, last_settled_time: 30 };
    assert_eq!(settle_user(None, &accumulator, 250), Ok(record(5, 13, 0)));
}

#[test]
fn holder_settlement_that_does_not_fit_overflows() {
    let accumulator = RewardAccumulator {
        update_sequence: 5,
        accumulated_per_share: i128::MAX,
        last_settled_time: 30,
    };
    assert_eq!(
        settle_user(Some(record(2, -1, 0)), &accumulator, 1),
        Err(PoolError::ArithmeticOverflow)
    );
    assert_eq!(
        settle_user(Some(record(2, 0, 0)), &accumulator, 2),
        Err(PoolError::ArithmeticOverflow)
    );
    assert_eq!(
        settle_user(Some(record(2, 0, 1)), &accumulator, 1),
        Err(PoolError::ArithmeticOverflow)
    );
}

#[test]
fn preview_settles_copies() {
    let config = RewardConfig { rate_per_second: 100, expiration_time: 60 };
    let accumulator = RewardAccumulator::zero();
    // 7 + 250 * floor(30 * 100 / 1000)
    assert_eq!(preview(Some(record(0, 0, 7)), &accumulator, &config, 30, 1000, 250), Ok(757));
    assert_eq!(preview(None, &accumulator, &config, 30, 1000, 250), Ok(0));
    assert_eq!(accumulator, RewardAccumulator::zero());
}

#[test]
fn set_rewards_config_installs_the_stream() {
    let mut pool = rewarding_pool(1000);
    assert_eq!(pool.set_rewards_config(true, true, 30, 130, 5000), Ok(()));
    assert_eq!(
        pool.get_reward_config(),
        RewardConfig { rate_per_second: 50, expiration_time: 130 }
    );
    // settled under the old stream: floor(30 * 100 / 1000)
    assert_eq!(
        pool.get_reward_accumulator(),
        RewardAccumulator { update_sequence: 1, accumulated_per_share: 3, last_settled_time: 30 }
    );
    assert_eq!(pool.get_rsrvs(), (1000, 1000));
}

#[test]
fn set_rewards_config_needs_the_administrator() {
    let mut pool = rewarding_pool(1000);
    let before = pool;
    assert_eq!(pool.set_rewards_config(false, true, 30, 130, 5000), Err(PoolError::Unauthorized));
    assert_eq!(pool.set_rewards_config(true, false, 30, 130, 5000), Err(PoolError::Unauthorized));
    assert_eq!(pool, before);
}

#[test]
fn set_rewards_config_refuses_a_past_expiration() {
    let mut pool = rewarding_pool(1000);
    let before = pool;
    assert_eq!(pool.set_rewards_config(true, true, 30, 30, 5000), Err(PoolError::InvalidAmount));
    assert_eq!(pool.set_rewards_config(true, true, 30, 29, 5000), Err(PoolError::InvalidAmount));
    assert_eq!(pool, before);
}

#[test]
fn rewards_info_reports_the_settled_copies() {
    let pool = rewarding_pool(1000);
    assert_eq!(
        pool.get_rewards_info(30, Some(record(0, 1, 7)), 250),
        Ok(RewardsInfo {
            tps: 100,
            exp_at: 60,
            acc: 3,
            last_time: 30,
            pool_acc: 3,
            block: 1,
            usr_block: 1,
            to_claim: 507,
        })
    );
    assert_eq!(pool.get_reward_accumulator(), RewardAccumulator::zero());
}

#[test]
fn rewards_info_widens_large_times() {
    let pool = LiquidityPool::restore(
        PoolState { reserve_a: 0, reserve_b: 0, total_shares: 0 },
        RewardConfig { rate_per_second: 0, expiration_time: u64::MAX },
        RewardAccumulator {
            update_sequence: u64::MAX - 1,
            accumulated_per_share: 0,
            last_settled_time: 5,
        },
    )
    .unwrap();
    let info = pool.get_rewards_info(u64::MAX, None, 0).unwrap();
    assert_eq!(info.exp_at, 18_446_744_073_709_551_615);
    assert_eq!(info.last_time, 18_446_744_073_709_551_615);
    assert_eq!(info.block, 18_446_744_073_709_551_615);
    assert_eq!(info.usr_block, 18_446_744_073_709_551_615);
}

#[test]
fn user_reward_is_a_preview() {
    let pool = rewarding_pool(1000);
    assert_eq!(pool.get_user_reward(30, Some(record(0, 0, 7)), 250), Ok(757));
    assert_eq!(pool.get_user_reward(30, None, 250), Ok(0));
    assert_eq!(pool.get_reward_accumulator(), RewardAccumulator::zero());
}

#[test]
fn claim_pays_the_preview_and_leaves_nothing() {
    let mut pool = rewarding_pool(1000);
    let mut user = Some(record(0, 0, 7));
    let shown = pool.get_user_reward(30, user, 250).unwrap();
    assert_eq!(shown, 757);
    assert_eq!(pool.claim(true, 30, &mut user, 250), Ok(shown));
    assert_eq!(user, Some(record(1, 3, 0)));
    assert_eq!(pool.get_user_reward(30, user, 250), Ok(0));
    assert_eq!(pool.claim(true, 30, &mut user, 250), Ok(0));
}

#[test]
fn claim_needs_authorization() {
    let mut pool = rewarding_pool(1000);
    let before = pool;
    let mut user = Some(record(0, 0, 7));
    assert_eq!(pool.claim(false, 30, &mut user, 250), Err(PoolError::Unauthorized));
    assert_eq!(pool, before);
    assert_eq!(user, Some(record(0, 0, 7)));
}

#[test]
fn stream_is_paid_out_in_full() {
    let mut pool = rewarding_pool(1000);
    let mut user = Some(record(0, 0, 0));
    assert_eq!(pool.claim(true, 30, &mut user, 1000), Ok(3000));
    assert_eq!(pool.claim(true, 100, &mut user, 1000), Ok(3000));
    assert_eq!(pool.claim(true, 200, &mut user, 1000), Ok(0));
}
