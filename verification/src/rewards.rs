//! Time-weighted rewards for share holders.
//!
//! A reward stream pays a fixed rate per second until it expires. The pool
//! keeps one running total, the reward earned so far by a single share, and
//! brings it up to date whenever it is touched. Each holder keeps the value of
//! that total at the last visit; the difference, times the shares held since
//! then, is what the holder has earned in between.

use vstd::prelude::*;
use crate::arith::{
    checked_difference,
    checked_product,
    checked_sum,
    fits_i128,
    floor_quotient,
    mul_div_floor,
    widen,
};
use crate::error::PoolError;

verus! {

/// The reward stream that is being paid out.
#[derive(Clone, Copy, Debug, PartialEq, Eq, Structural)]
pub struct RewardConfig {
    /// Reward units released per second, shared by all holders.
    pub rate_per_second: i128,
    /// The time at which the stream ends.
    pub expiration_time: u64,
}

/// The running total of the pool.
#[derive(Clone, Copy, Debug, PartialEq, Eq, Structural)]
pub struct RewardAccumulator {
    /// Counts the settlements that moved the clock.
    pub update_sequence: u64,
    /// The reward earned so far by one share.
    pub accumulated_per_share: i128,
    /// The time up to which rewards have been accounted for.
    pub last_settled_time: u64,
}

/// What the pool remembers of one holder.
#[derive(Clone, Copy, Debug, PartialEq, Eq, Structural)]
pub struct UserRewardRecord {
    /// The sequence number of the accumulator at the holder's last visit.
    pub last_seen_sequence: u64,
    /// The accumulated reward per share at the holder's last visit.
    pub accumulated_per_share_snapshot: i128,
    /// The reward that the holder has earned and not yet claimed.
    pub claimable_balance: i128,
}

/// The time up to which a settlement at `now` accounts: the stream pays
/// nothing after it has expired.
pub open spec fn settle_target(config: RewardConfig, now: u64) -> u64 {
    if now <= config.expiration_time {
        now
    } else {
        config.expiration_time
    }
}

/// The seconds that a settlement at `now` adds to the clock.
pub open spec fn elapsed(accumulator: RewardAccumulator, config: RewardConfig, now: u64) -> int {
    let target = settle_target(config, now);
    if target > accumulator.last_settled_time {
        target - accumulator.last_settled_time
    } else {
        0
    }
}

/// What one share earns in `seconds` seconds: `floor(seconds * rate / total_shares)`.
pub open spec fn accrual(config: RewardConfig, seconds: int, total_shares: int) -> int {
    (seconds * config.rate_per_second) / total_shares
}

/// The accumulator after a settlement at `now`.
///
/// Where no time has passed nothing changes. Otherwise the clock moves to the
/// target and the sequence number goes up by one; the total grows by the
/// accrual if there are shares to earn it, and stays as it is if there are none.
pub open spec fn settled(
    accumulator: RewardAccumulator,
    config: RewardConfig,
    now: u64,
    total_shares: i128,
) -> Result<RewardAccumulator, PoolError> {
    let seconds = elapsed(accumulator, config, now);
    let growth = accrual(config, seconds, total_shares as int);
    if seconds == 0 {
        Ok(accumulator)
    } else if accumulator.update_sequence == u64::MAX {
        Err(PoolError::ArithmeticOverflow)
    } else if total_shares <= 0 {
        Ok(
            RewardAccumulator {
                update_sequence: (accumulator.update_sequence + 1) as u64,
                accumulated_per_share: accumulator.accumulated_per_share,
                last_settled_time: settle_target(config, now),
            },
        )
    } else if !fits_i128(seconds * config.rate_per_second) || !fits_i128(
        accumulator.accumulated_per_share + growth,
    ) {
        Err(PoolError::ArithmeticOverflow)
    } else {
        Ok(
            RewardAccumulator {
                update_sequence: (accumulator.update_sequence + 1) as u64,
                accumulated_per_share: (accumulator.accumulated_per_share + growth) as i128,
                last_settled_time: settle_target(config, now),
            },
        )
    }
}

/// What a holder of `shares` shares has earned since the record was written.
pub open spec fn reward_delta(
    record: UserRewardRecord,
    accumulator: RewardAccumulator,
    shares: int,
) -> int {
    shares * (accumulator.accumulated_per_share - record.accumulated_per_share_snapshot)
}

/// The record of a holder who visits for the first time: nothing earned yet,
/// and earning from now on.
pub open spec fn fresh_record(accumulator: RewardAccumulator) -> UserRewardRecord {
    UserRewardRecord {
        last_seen_sequence: accumulator.update_sequence,
        accumulated_per_share_snapshot: accumulator.accumulated_per_share,
        claimable_balance: 0,
    }
}

/// The record of a holder after a visit, given the settled accumulator and
/// the shares that the holder has held since the last visit.
pub open spec fn user_settled(
    record: Option<UserRewardRecord>,
    accumulator: RewardAccumulator,
    shares: i128,
) -> Result<UserRewardRecord, PoolError> {
    match record {
        None => Ok(fresh_record(accumulator)),
        Some(known) => {
            let delta = reward_delta(known, accumulator, shares as int);
            if !fits_i128(
                accumulator.accumulated_per_share - known.accumulated_per_share_snapshot,
            ) || !fits_i128(delta) || !fits_i128(known.claimable_balance + delta) {
                Err(PoolError::ArithmeticOverflow)
            } else {
                Ok(
                    UserRewardRecord {
                        last_seen_sequence: accumulator.update_sequence,
                        accumulated_per_share_snapshot: accumulator.accumulated_per_share,
                        claimable_balance: (known.claimable_balance + delta) as i128,
                    },
                )
            }
        },
    }
}

/// What a holder could claim at `now`: the balance of the record after the
/// pool and the holder have been settled on copies.
pub open spec fn previewed(
    record: Option<UserRewardRecord>,
    accumulator: RewardAccumulator,
    config: RewardConfig,
    now: u64,
    total_shares: i128,
    shares: i128,
) -> Result<i128, PoolError> {
    match settled(accumulator, config, now, total_shares) {
        Err(e) => Err(e),
        Ok(current) => match user_settled(record, current, shares) {
            Err(e) => Err(e),
            Ok(visited) => Ok(visited.claimable_balance),
        },
    }
}

/// The stream that releases `total_amount` evenly between `now` and
/// `expiration_time`. A stream has to end in the future.
pub open spec fn stream(total_amount: i128, now: u64, expiration_time: u64) -> Result<
    RewardConfig,
    PoolError,
> {
    if expiration_time <= now {
        Err(PoolError::InvalidAmount)
    } else {
        Ok(
            RewardConfig {
                rate_per_second: (total_amount as int / (expiration_time - now)) as i128,
                expiration_time,
            },
        )
    }
}

impl RewardConfig {
    /// The configuration of a pool that pays no reward.
    pub fn none() -> (r: RewardConfig)
        ensures
            r == (RewardConfig { rate_per_second: 0, expiration_time: 0 }),
    {
        RewardConfig { rate_per_second: 0, expiration_time: 0 }
    }

    /// Derives the stream that releases `total_amount` evenly between `now`
    /// and `expiration_time`: `InvalidAmount` unless the end lies after `now`.
    pub fn derive(total_amount: i128, now: u64, expiration_time: u64) -> (r: Result<
        RewardConfig,
        PoolError,
    >)
        ensures
            r == stream(total_amount, now, expiration_time),
    {
        if expiration_time <= now {
            return Err(PoolError::InvalidAmount);
        }
        let span: i128 = widen(expiration_time - now);
        let rate: i128 = floor_quotient(total_amount, span)?;
        Ok(RewardConfig { rate_per_second: rate, expiration_time })
    }
}

impl RewardAccumulator {
    /// The accumulator of a pool on which no time has passed.
    pub fn zero() -> (r: RewardAccumulator)
        ensures
            r == (RewardAccumulator {
                update_sequence: 0,
                accumulated_per_share: 0,
                last_settled_time: 0,
            }),
    {
        RewardAccumulator { update_sequence: 0, accumulated_per_share: 0, last_settled_time: 0 }
    }

    /// Brings the accumulator up to date at `now`, for a pool with
    /// `total_shares` shares outstanding.
    ///
    /// The clock never runs backwards and never passes the end of the stream.
    /// The total does not decrease while the rate is not negative, and stays
    /// put while there are no shares.
    pub fn settle(self, config: &RewardConfig, now: u64, total_shares: i128) -> (r: Result<
        RewardAccumulator,
        PoolError,
    >)
        ensures
            r == settled(self, *config, now, total_shares),
            r matches Ok(next) ==> {
                &&& next.update_sequence >= self.update_sequence
                &&& next.last_settled_time >= self.last_settled_time
                &&& self.last_settled_time <= settle_target(*config, now)
                    ==> next.last_settled_time == settle_target(*config, now)
                &&& config.rate_per_second >= 0 ==> next.accumulated_per_share
                    >= self.accumulated_per_share
                &&& total_shares <= 0 ==> next.accumulated_per_share == self.accumulated_per_share
            },
    {
        let target: u64 = if now <= config.expiration_time {
            now
        } else {
            config.expiration_time
        };
        if target <= self.last_settled_time {
            return Ok(self);
        }
        if self.update_sequence == u64::MAX {
            return Err(PoolError::ArithmeticOverflow);
        }
        let sequence: u64 = self.update_sequence + 1;
        if total_shares <= 0 {
            return Ok(
                RewardAccumulator {
                    update_sequence: sequence,
                    accumulated_per_share: self.accumulated_per_share,
                    last_settled_time: target,
                },
            );
        }
        let seconds: i128 = widen(target - self.last_settled_time);
        let growth: i128 = mul_div_floor(seconds, config.rate_per_second, total_shares)?;
        proof {
            if config.rate_per_second >= 0 {
                lemma_accrual_sign(*config, seconds as int, total_shares as int);
            }
        }
        let total: i128 = checked_sum(self.accumulated_per_share, growth)?;
        Ok(
            RewardAccumulator {
                update_sequence: sequence,
                accumulated_per_share: total,
                last_settled_time: target,
            },
        )
    }
}

/// A stream with a rate that is not negative never takes anything back.
pub proof fn lemma_accrual_sign(config: RewardConfig, seconds: int, total_shares: int)
    requires
        seconds >= 0,
        total_shares > 0,
        config.rate_per_second >= 0,
    ensures
        accrual(config, seconds, total_shares) >= 0,
{
    let n = seconds * config.rate_per_second;
    assert(n >= 0) by (nonlinear_arith)
        requires
            n == seconds * config.rate_per_second,
            seconds >= 0,
            config.rate_per_second >= 0,
    ;
    vstd::arithmetic::div_mod::lemma_div_pos_is_pos(n, total_shares);
}

/// Settles a holder against an accumulator that is up to date. `user_shares`
/// is the number of shares that the holder has held since the last visit; a
/// holder without a record gets one that starts now.
///
/// The holder earns `user_shares` times the growth of the accumulated reward
/// per share since the last visit. The balance of a holder whose shares are
/// not negative does not shrink while the accumulated reward does not.
pub fn settle_user(
    record: Option<UserRewardRecord>,
    accumulator: &RewardAccumulator,
    user_shares: i128,
) -> (r: Result<UserRewardRecord, PoolError>)
    ensures
        r == user_settled(record, *accumulator, user_shares),
        r matches Ok(visited) ==> {
            &&& visited.accumulated_per_share_snapshot == accumulator.accumulated_per_share
            &&& visited.last_seen_sequence == accumulator.update_sequence
            &&& record is None ==> visited.claimable_balance == 0
            &&& (record matches Some(known) && user_shares >= 0
                && known.accumulated_per_share_snapshot <= accumulator.accumulated_per_share)
                ==> visited.claimable_balance >= record->Some_0.claimable_balance
        },
{
    match record {
        None => Ok(
            UserRewardRecord {
                last_seen_sequence: accumulator.update_sequence,
                accumulated_per_share_snapshot: accumulator.accumulated_per_share,
                claimable_balance: 0,
            },
        ),
        Some(known) => {
            let per_share: i128 = checked_difference(
                accumulator.accumulated_per_share,
                known.accumulated_per_share_snapshot,
            )?;
            let delta: i128 = checked_product(user_shares, per_share)?;
            proof {
                if user_shares >= 0 && per_share >= 0 {
                    assert(user_shares * per_share >= 0) by (nonlinear_arith)
                        requires
                            user_shares >= 0,
                            per_share >= 0,
                    ;
                }
            }
            let balance: i128 = checked_sum(known.claimable_balance, delta)?;
            Ok(
                UserRewardRecord {
                    last_seen_sequence: accumulator.update_sequence,
                    accumulated_per_share_snapshot: accumulator.accumulated_per_share,
                    claimable_balance: balance,
                },
            )
        },
    }
}

/// What a holder could claim at `now`. Nothing is written: the pool and the
/// holder are settled on copies.
pub fn preview(
    record: Option<UserRewardRecord>,
    accumulator: &RewardAccumulator,
    config: &RewardConfig,
    now: u64,
    total_shares: i128,
    user_shares: i128,
) -> (r: Result<i128, PoolError>)
    ensures
        r == previewed(record, *accumulator, *config, now, total_shares, user_shares),
{
    let current: RewardAccumulator = accumulator.settle(config, now, total_shares)?;
    let visited: UserRewardRecord = settle_user(record, &current, user_shares)?;
    Ok(visited.claimable_balance)
}

/// Settling twice at the same time is settling once: the second settlement
/// finds that no time has passed.
pub proof fn lemma_settle_idempotent(
    accumulator: RewardAccumulator,
    config: RewardConfig,
    now: u64,
    total_shares: i128,
)
    requires
        settled(accumulator, config, now, total_shares) is Ok,
    ensures
        settled(settled(accumulator, config, now, total_shares)->Ok_0, config, now, total_shares)
            == settled(accumulator, config, now, total_shares),
{
}

/// While the rate is not negative the accumulated reward per share never
/// decreases from one settlement to the next, however the number of shares
/// changes in between; a settlement of a pool without shares moves the clock
/// and leaves the accumulated reward as it is.
pub proof fn lemma_accumulator_monotone(
    accumulator: RewardAccumulator,
    config: RewardConfig,
    now: u64,
    total_shares: i128,
    later: u64,
    later_shares: i128,
)
    requires
        config.rate_per_second >= 0,
        settled(accumulator, config, now, total_shares) is Ok,
        settled(
            settled(accumulator, config, now, total_shares)->Ok_0,
            config,
            later,
            later_shares,
        ) is Ok,
    ensures
        ({
            let first = settled(accumulator, config, now, total_shares)->Ok_0;
            let second = settled(first, config, later, later_shares)->Ok_0;
            &&& accumulator.accumulated_per_share <= first.accumulated_per_share
            &&& first.accumulated_per_share <= second.accumulated_per_share
            &&& total_shares <= 0 ==> first.accumulated_per_share
                == accumulator.accumulated_per_share
            &&& later_shares <= 0 ==> second.accumulated_per_share == first.accumulated_per_share
            &&& accumulator.last_settled_time <= first.last_settled_time
                <= second.last_settled_time
        }),
{
    let first = settled(accumulator, config, now, total_shares)->Ok_0;
    if total_shares > 0 {
        lemma_accrual_sign(config, elapsed(accumulator, config, now), total_shares as int);
    }
    if later_shares > 0 {
        lemma_accrual_sign(config, elapsed(first, config, later), later_shares as int);
    }
}

} // verus!
