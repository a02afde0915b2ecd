//! The pool: reserves, shares and the reward stream, kept together.
//!
//! Every operation settles the reward stream before it looks at the reserves.
//! A failing operation leaves the pool, and the record of the holder it served,
//! exactly as they were.
//!
//! Tokens are moved by the embedding program. An operation that has to wait
//! for a transfer comes in two steps: the first decides what is to be moved,
//! the second takes the balances that the pool holds afterwards and books the
//! outcome. The two steps are one operation: when a transfer or the second
//! step fails, the embedding program has to drop what the first step has
//! changed as well. A pool is a plain value, so a copy taken before the first
//! step is all that this needs.

use vstd::prelude::*;
use crate::address::{precedes, Address};
use crate::arith::{checked_difference, fits_i128, widen};
use crate::error::PoolError;
use crate::issuance::{
    deposit_amounts,
    get_deposit_amounts,
    get_withdrawal_amounts,
    shares_minted,
    shares_to_mint,
    withdrawal_amounts,
};
use crate::rewards::{
    preview,
    previewed,
    settle_user,
    settled,
    stream,
    user_settled,
    RewardAccumulator,
    RewardConfig,
    UserRewardRecord,
};
use crate::swap::{
    check_invariant,
    price_for_output,
    product_after,
    product_before,
    quote,
    reserve_bought,
    reserve_sold,
    trade_check,
};

verus! {

/// The reserves of the two assets and the shares outstanding.
#[derive(Clone, Copy, Debug, PartialEq, Eq, Structural)]
pub struct PoolState {
    /// What the pool accounts for of asset A.
    pub reserve_a: i128,
    /// What the pool accounts for of asset B.
    pub reserve_b: i128,
    /// The pool shares outstanding.
    pub total_shares: i128,
}

impl PoolState {
    /// None of the three quantities is negative.
    pub open spec fn wf(self) -> bool {
        self.reserve_a >= 0 && self.reserve_b >= 0 && self.total_shares >= 0
    }

    /// The state with the reserves replaced.
    pub open spec fn with_reserves(self, reserve_a: i128, reserve_b: i128) -> PoolState {
        PoolState { reserve_a, reserve_b, total_shares: self.total_shares }
    }

    /// The state of a pool that holds nothing.
    pub fn empty() -> (r: PoolState)
        ensures
            r == (PoolState { reserve_a: 0, reserve_b: 0, total_shares: 0 }),
            r.wf(),
    {
        PoolState { reserve_a: 0, reserve_b: 0, total_shares: 0 }
    }

    /// Replaces the reserves. Nothing is checked but that neither is
    /// negative: `InvalidAmount` if one is, and then nothing changes.
    pub fn set_reserves(&mut self, reserve_a: i128, reserve_b: i128) -> (r: Result<(), PoolError>)
        ensures
            reserve_a >= 0 && reserve_b >= 0 ==> r is Ok && *final(self) == old(self).with_reserves(
                reserve_a,
                reserve_b,
            ),
            reserve_a < 0 || reserve_b < 0 ==> r == Err::<(), PoolError>(PoolError::InvalidAmount)
                && *final(self) == *old(self),
    {
        if reserve_a < 0 || reserve_b < 0 {
            return Err(PoolError::InvalidAmount);
        }
        self.reserve_a = reserve_a;
        self.reserve_b = reserve_b;
        Ok(())
    }
}

/// What a pool is, to its contracts.
pub struct PoolView {
    /// Whether the pool has been set up for a pair of tokens.
    pub initialized: bool,
    /// Reserves and shares.
    pub state: PoolState,
    /// The reward stream that is being paid out.
    pub config: RewardConfig,
    /// The running total of the reward stream.
    pub accumulator: RewardAccumulator,
}

impl PoolView {
    /// The quantities of the pool are not negative.
    pub open spec fn wf(self) -> bool {
        self.state.wf()
    }

    /// A pool that has not been set up.
    pub open spec fn blank() -> PoolView {
        PoolView {
            initialized: false,
            state: PoolState { reserve_a: 0, reserve_b: 0, total_shares: 0 },
            config: RewardConfig { rate_per_second: 0, expiration_time: 0 },
            accumulator: RewardAccumulator {
                update_sequence: 0,
                accumulated_per_share: 0,
                last_settled_time: 0,
            },
        }
    }

    /// A pool that has just been set up: no reserves, no shares, no rewards.
    pub open spec fn fresh() -> PoolView {
        PoolView { initialized: true, ..PoolView::blank() }
    }

    /// Setting the pool up for the pair `(token_a, token_b)`. A pool is set up
    /// once, and only for a pair in which the first token comes first.
    pub open spec fn initialize(self, token_a: Seq<u8>, token_b: Seq<u8>) -> Result<
        PoolView,
        PoolError,
    > {
        if self.initialized {
            Err(PoolError::AlreadyInitialized)
        } else if !precedes(token_a, token_b) {
            Err(PoolError::InvalidOrdering)
        } else {
            Ok(PoolView::fresh())
        }
    }
}

/// What a holder is told about the reward stream.
#[derive(Clone, Copy, Debug, PartialEq, Eq, Structural)]
pub struct RewardsInfo {
    /// The rate of the stream, per second.
    pub tps: i128,
    /// The time at which the stream ends.
    pub exp_at: i128,
    /// The reward earned so far by one share.
    pub acc: i128,
    /// The time up to which rewards have been accounted for.
    pub last_time: i128,
    /// The reward per share up to which the holder has been settled.
    pub pool_acc: i128,
    /// The sequence number of the accumulator.
    pub block: i128,
    /// The sequence number up to which the holder has been settled.
    pub usr_block: i128,
    /// The reward that the holder can claim.
    pub to_claim: i128,
}

impl PoolView {
    /// The pool with its accumulator replaced.
    pub open spec fn with_accumulator(self, accumulator: RewardAccumulator) -> PoolView {
        PoolView { accumulator, ..self }
    }

    /// The pool with its reserves and shares replaced.
    pub open spec fn with_state(self, state: PoolState) -> PoolView {
        PoolView { state, ..self }
    }

    /// The accumulator after a settlement at `now`.
    pub open spec fn settle(self, now: u64) -> Result<RewardAccumulator, PoolError> {
        settled(self.accumulator, self.config, now, self.state.total_shares)
    }

    /// A visit of a holder at `now`: the pool is settled, then the holder.
    pub open spec fn visit(self, now: u64, user: Option<UserRewardRecord>, user_shares: i128)
        -> Result<(RewardAccumulator, UserRewardRecord), PoolError> {
        match self.settle(now) {
            Err(e) => Err(e),
            Ok(accumulator) => match user_settled(user, accumulator, user_shares) {
                Err(e) => Err(e),
                Ok(record) => Ok((accumulator, record)),
            },
        }
    }

    /// The first step of a deposit: the holder is settled and the amounts to
    /// be moved into the pool are decided.
    pub open spec fn deposit(
        self,
        authorized: bool,
        now: u64,
        user: Option<UserRewardRecord>,
        user_shares: i128,
        desired_a: i128,
        min_a: i128,
        desired_b: i128,
        min_b: i128,
    ) -> Result<(PoolView, UserRewardRecord, (i128, i128)), PoolError> {
        if !authorized {
            Err(PoolError::Unauthorized)
        } else {
            match self.visit(now, user, user_shares) {
                Err(e) => Err(e),
                Ok((accumulator, record)) => match deposit_amounts(
                    desired_a,
                    min_a,
                    desired_b,
                    min_b,
                    self.state.reserve_a,
                    self.state.reserve_b,
                ) {
                    Err(e) => Err(e),
                    Ok(amounts) => Ok((self.with_accumulator(accumulator), record, amounts)),
                },
            }
        }
    }

    /// The second step of a deposit: shares are issued for what has come in,
    /// and the balances become the reserves.
    pub open spec fn complete_deposit(self, balance_a: i128, balance_b: i128) -> Result<
        (PoolView, i128),
        PoolError,
    > {
        if balance_a < 0 || balance_b < 0 {
            Err(PoolError::InvalidAmount)
        } else {
            match shares_minted(
                balance_a,
                balance_b,
                self.state.reserve_a,
                self.state.reserve_b,
                self.state.total_shares,
            ) {
                Err(e) => Err(e),
                Ok(minted) => Ok(
                    (
                        self.with_state(
                            PoolState {
                                reserve_a: balance_a,
                                reserve_b: balance_b,
                                total_shares: (self.state.total_shares + minted) as i128,
                            },
                        ),
                        minted,
                    ),
                ),
            }
        }
    }

    /// The price of taking `out` from the pool, as things stand.
    pub open spec fn estimate_swap_out(self, buy_a: bool, out: i128) -> Result<i128, PoolError> {
        quote(
            reserve_sold(buy_a, self.state.reserve_a as int, self.state.reserve_b as int),
            reserve_bought(buy_a, self.state.reserve_a as int, self.state.reserve_b as int),
            out as int,
        )
    }

    /// The first step of a trade: the trade is priced, and the price is held
    /// against the most that the trader is willing to hand in.
    pub open spec fn swap(self, authorized: bool, now: u64, buy_a: bool, out: i128, in_max: i128)
        -> Result<(PoolView, i128), PoolError> {
        if !authorized {
            Err(PoolError::Unauthorized)
        } else if out >= reserve_bought(
            buy_a,
            self.state.reserve_a as int,
            self.state.reserve_b as int,
        ) {
            Err(PoolError::InvalidAmount)
        } else {
            match self.settle(now) {
                Err(e) => Err(e),
                Ok(accumulator) => match self.estimate_swap_out(buy_a, out) {
                    Err(e) => Err(e),
                    Ok(sell_amount) => if sell_amount > in_max {
                        Err(PoolError::SlippageExceeded)
                    } else {
                        Ok((self.with_accumulator(accumulator), sell_amount))
                    },
                },
            }
        }
    }

    /// What a trade pays out of asset A.
    pub open spec fn out_a(buy_a: bool, out: i128) -> i128 {
        if buy_a {
            out
        } else {
            0
        }
    }

    /// What a trade pays out of asset B.
    pub open spec fn out_b(buy_a: bool, out: i128) -> i128 {
        if buy_a {
            0
        } else {
            out
        }
    }

    /// The second step of a trade: the balances that the pool holds after the
    /// sold amount has come in are checked against the constant-product rule,
    /// and become the reserves, less what is paid out.
    pub open spec fn execute_swap(self, buy_a: bool, out: i128, balance_a: i128, balance_b: i128)
        -> Result<PoolView, PoolError> {
        let out_a = PoolView::out_a(buy_a, out);
        let out_b = PoolView::out_b(buy_a, out);
        match trade_check(
            self.state.reserve_a as int,
            self.state.reserve_b as int,
            balance_a as int,
            balance_b as int,
            out_a as int,
            out_b as int,
        ) {
            Err(e) => Err(e),
            Ok(_) => if !fits_i128(balance_a - out_a) || !fits_i128(balance_b - out_b) {
                Err(PoolError::ArithmeticOverflow)
            } else if balance_a - out_a < 0 || balance_b - out_b < 0 {
                Err(PoolError::InvalidAmount)
            } else {
                Ok(
                    self.with_state(
                        self.state.with_reserves(
                            (balance_a - out_a) as i128,
                            (balance_b - out_b) as i128,
                        ),
                    ),
                )
            },
        }
    }

    /// A redemption: the holder is settled, the shares that the pool holds
    /// are paid out and retired.
    pub open spec fn withdraw(
        self,
        authorized: bool,
        now: u64,
        user: Option<UserRewardRecord>,
        user_shares: i128,
        balance_a: i128,
        balance_b: i128,
        balance_shares: i128,
        min_a: i128,
        min_b: i128,
    ) -> Result<(PoolView, UserRewardRecord, (i128, i128)), PoolError> {
        if !authorized {
            Err(PoolError::Unauthorized)
        } else {
            match self.visit(now, user, user_shares) {
                Err(e) => Err(e),
                Ok((accumulator, record)) => match withdrawal_amounts(
                    balance_a,
                    balance_b,
                    balance_shares,
                    self.state.total_shares,
                    min_a,
                    min_b,
                ) {
                    Err(e) => Err(e),
                    Ok(paid) => if !fits_i128(balance_a - paid.0) || !fits_i128(balance_b - paid.1)
                        || !fits_i128(self.state.total_shares - balance_shares) {
                        Err(PoolError::ArithmeticOverflow)
                    } else if balance_a - paid.0 < 0 || balance_b - paid.1 < 0
                        || self.state.total_shares - balance_shares < 0 {
                        Err(PoolError::InvalidAmount)
                    } else {
                        Ok(
                            (
                                PoolView {
                                    state: PoolState {
                                        reserve_a: (balance_a - paid.0) as i128,
                                        reserve_b: (balance_b - paid.1) as i128,
                                        total_shares: (self.state.total_shares
                                            - balance_shares) as i128,
                                    },
                                    accumulator,
                                    ..self
                                },
                                record,
                                paid,
                            ),
                        )
                    },
                },
            }
        }
    }

    /// A change of the reward stream: the pool is settled under the old
    /// stream, then the new one takes its place.
    pub open spec fn set_rewards_config(
        self,
        authorized: bool,
        is_admin: bool,
        now: u64,
        expired_at: u64,
        amount: i128,
    ) -> Result<PoolView, PoolError> {
        if !authorized || !is_admin {
            Err(PoolError::Unauthorized)
        } else {
            match self.settle(now) {
                Err(e) => Err(e),
                Ok(accumulator) => match stream(amount, now, expired_at) {
                    Err(e) => Err(e),
                    Ok(config) => Ok(PoolView { config, accumulator, ..self }),
                },
            }
        }
    }

    /// What a holder is told at `now`.
    pub open spec fn rewards_info(self, now: u64, user: Option<UserRewardRecord>, user_shares: i128)
        -> Result<RewardsInfo, PoolError> {
        match self.visit(now, user, user_shares) {
            Err(e) => Err(e),
            Ok((accumulator, record)) => Ok(
                RewardsInfo {
                    tps: self.config.rate_per_second,
                    exp_at: self.config.expiration_time as i128,
                    acc: accumulator.accumulated_per_share,
                    last_time: accumulator.last_settled_time as i128,
                    pool_acc: record.accumulated_per_share_snapshot,
                    block: accumulator.update_sequence as i128,
                    usr_block: record.last_seen_sequence as i128,
                    to_claim: record.claimable_balance,
                },
            ),
        }
    }

    /// What a holder could claim at `now`.
    pub open spec fn user_reward(self, now: u64, user: Option<UserRewardRecord>, user_shares: i128)
        -> Result<i128, PoolError> {
        previewed(user, self.accumulator, self.config, now, self.state.total_shares, user_shares)
    }

    /// A claim: the holder is settled, and everything that the record holds
    /// is paid out.
    pub open spec fn claim(
        self,
        authorized: bool,
        now: u64,
        user: Option<UserRewardRecord>,
        user_shares: i128,
    ) -> Result<(PoolView, UserRewardRecord, i128), PoolError> {
        if !authorized {
            Err(PoolError::Unauthorized)
        } else {
            match self.visit(now, user, user_shares) {
                Err(e) => Err(e),
                Ok((accumulator, record)) => Ok(
                    (
                        self.with_accumulator(accumulator),
                        UserRewardRecord { claimable_balance: 0, ..record },
                        record.claimable_balance,
                    ),
                ),
            }
        }
    }
}

/// A two-asset pool with its reward stream.
#[derive(Clone, Copy, Debug, PartialEq, Eq)]
pub struct LiquidityPool {
    initialized: bool,
    state: PoolState,
    config: RewardConfig,
    accumulator: RewardAccumulator,
}

impl View for LiquidityPool {
    type V = PoolView;

    closed spec fn view(&self) -> PoolView {
        PoolView {
            initialized: self.initialized,
            state: self.state,
            config: self.config,
            accumulator: self.accumulator,
        }
    }
}

impl LiquidityPool {
    #[verifier::type_invariant]
    spec fn quantities_not_negative(self) -> bool {
        self.state.wf()
    }

    /// A pool that has not been set up yet.
    pub fn new() -> (r: LiquidityPool)
        ensures
            r@ == PoolView::blank(),
            r@.wf(),
    {
        LiquidityPool {
            initialized: false,
            state: PoolState::empty(),
            config: RewardConfig::none(),
            accumulator: RewardAccumulator::zero(),
        }
    }

    /// Puts together a pool that has been set up before, from the parts that
    /// were stored of it: `InvalidAmount` if one of the quantities is negative.
    pub fn restore(state: PoolState, config: RewardConfig, accumulator: RewardAccumulator) -> (r:
        Result<LiquidityPool, PoolError>)
        ensures
            state.wf() ==> r is Ok && r->Ok_0@ == (PoolView {
                initialized: true,
                state,
                config,
                accumulator,
            }),
            !state.wf() ==> r == Err::<LiquidityPool, PoolError>(PoolError::InvalidAmount),
            r matches Ok(pool) ==> pool@.wf(),
    {
        if state.reserve_a < 0 || state.reserve_b < 0 || state.total_shares < 0 {
            return Err(PoolError::InvalidAmount);
        }
        Ok(LiquidityPool { initialized: true, state, config, accumulator })
    }

    /// Whether the pool has been set up.
    pub fn is_initialized(&self) -> (r: bool)
        ensures
            r == self@.initialized,
    {
        self.initialized
    }

    /// Reserves and shares.
    pub fn get_state(&self) -> (r: PoolState)
        ensures
            r == self@.state,
            r.wf(),
    {
        proof {
            use_type_invariant(self);
        }
        self.state
    }

    /// The reward stream that is being paid out.
    pub fn get_reward_config(&self) -> (r: RewardConfig)
        ensures
            r == self@.config,
    {
        self.config
    }

    /// The running total of the reward stream.
    pub fn get_reward_accumulator(&self) -> (r: RewardAccumulator)
        ensures
            r == self@.accumulator,
    {
        self.accumulator
    }

    /// The reserves of asset A and asset B.
    pub fn get_rsrvs(&self) -> (r: (i128, i128))
        ensures
            r == (self@.state.reserve_a, self@.state.reserve_b),
            r.0 >= 0,
            r.1 >= 0,
    {
        proof {
            use_type_invariant(self);
        }
        (self.state.reserve_a, self.state.reserve_b)
    }

    /// The version of the pool's rules.
    pub fn version() -> (r: u32)
        ensures
            r == 1,
    {
        1
    }

    /// Sets the pool up for the pair `(token_a, token_b)`.
    ///
    /// Fails with `AlreadyInitialized` on a pool that has been set up, and
    /// with `InvalidOrdering` unless `token_a` comes strictly before
    /// `token_b`. On success the pool holds nothing and pays no reward.
    pub fn initialize(&mut self, token_a: &Address, token_b: &Address) -> (r: Result<
        (),
        PoolError,
    >)
        ensures
            match old(self)@.initialize(token_a@, token_b@) {
                Ok(next) => r is Ok && final(self)@ == next,
                Err(e) => r == Err::<(), PoolError>(e) && final(self)@ == old(self)@,
            },
            final(self)@.wf(),
    {
        proof {
            use_type_invariant(&*self);
        }
        if self.initialized {
            return Err(PoolError::AlreadyInitialized);
        }
        if !token_a.comes_before(token_b) {
            return Err(PoolError::InvalidOrdering);
        }
        *self = LiquidityPool {
            initialized: true,
            state: PoolState::empty(),
            config: RewardConfig::none(),
            accumulator: RewardAccumulator::zero(),
        };
        Ok(())
    }
}

impl LiquidityPool {
    /// The first step of a deposit by an authorized holder.
    ///
    /// The reward stream and the holder's record are settled, with the
    /// `user_shares` that the holder has held up to now. Then the amounts are
    /// decided that the holder is to move into the pool: into an empty pool
    /// all that is offered, otherwise amounts in the ratio of the reserves,
    /// between the minimum and the offer for each asset. They are returned;
    /// reserves and shares change only in the second step.
    pub fn deposit(
        &mut self,
        authorized: bool,
        now: u64,
        user: &mut Option<UserRewardRecord>,
        user_shares: i128,
        desired_a: i128,
        min_a: i128,
        desired_b: i128,
        min_b: i128,
    ) -> (r: Result<(i128, i128), PoolError>)
        requires
            old(self)@.initialized,
        ensures
            match old(self)@.deposit(
                authorized,
                now,
                *old(user),
                user_shares,
                desired_a,
                min_a,
                desired_b,
                min_b,
            ) {
                Ok((next, record, amounts)) => r == Ok::<(i128, i128), PoolError>(amounts)
                    && final(self)@ == next && *final(user) == Some(record),
                Err(e) => r == Err::<(i128, i128), PoolError>(e) && final(self)@ == old(self)@
                    && *final(user) == *old(user),
            },
            final(self)@.state == old(self)@.state,
            final(self)@.wf(),
    {
        proof {
            use_type_invariant(&*self);
        }
        if !authorized {
            return Err(PoolError::Unauthorized);
        }
        let accumulator: RewardAccumulator = self.accumulator.settle(
            &self.config,
            now,
            self.state.total_shares,
        )?;
        let record: UserRewardRecord = settle_user(*user, &accumulator, user_shares)?;
        let amounts: (i128, i128) = get_deposit_amounts(
            desired_a,
            min_a,
            desired_b,
            min_b,
            self.state.reserve_a,
            self.state.reserve_b,
        )?;
        self.accumulator = accumulator;
        *user = Some(record);
        Ok(amounts)
    }

    /// The second step of a deposit. `balance_a` and `balance_b` are what the
    /// pool holds of the two assets now that the deposit has come in.
    ///
    /// Returns the number of shares to issue to the depositor. A pool with
    /// shares outstanding and both assets in reserve issues in proportion to
    /// the smaller of the two relative increases; otherwise the deposit earns
    /// `floor(sqrt(balance_a * balance_b))`. The balances become the reserves.
    pub fn complete_deposit(&mut self, balance_a: i128, balance_b: i128) -> (r: Result<
        i128,
        PoolError,
    >)
        requires
            old(self)@.initialized,
        ensures
            match old(self)@.complete_deposit(balance_a, balance_b) {
                Ok((next, minted)) => r == Ok::<i128, PoolError>(minted) && final(self)@ == next,
                Err(e) => r == Err::<i128, PoolError>(e) && final(self)@ == old(self)@,
            },
            r matches Ok(minted) ==> minted >= 0 && final(self)@.state.total_shares == old(self)@.state.total_shares + minted,
            final(self)@.wf(),
    {
        proof {
            use_type_invariant(&*self);
        }
        if balance_a < 0 || balance_b < 0 {
            return Err(PoolError::InvalidAmount);
        }
        let minted: i128 = shares_to_mint(
            balance_a,
            balance_b,
            self.state.reserve_a,
            self.state.reserve_b,
            self.state.total_shares,
        )?;
        let total_shares: i128 = self.state.total_shares + minted;
        self.state = PoolState { reserve_a: balance_a, reserve_b: balance_b, total_shares };
        Ok(minted)
    }

    /// The first step of a trade by an authorized trader, who takes `out` of
    /// asset A if `buy_a` is set and of asset B if not, and hands in the other
    /// asset.
    ///
    /// Returns what the trader has to hand in:
    /// `floor(reserve_sell * out * 1000 / ((reserve_buy - out) * 997)) + 1`.
    /// The trade is refused with `InvalidAmount` if `out` is not strictly
    /// below the reserve it is taken from, and with `SlippageExceeded` if the
    /// price exceeds `in_max`. The reward stream is settled; the reserves
    /// change only in the second step.
    pub fn swap(&mut self, authorized: bool, now: u64, buy_a: bool, out: i128, in_max: i128) -> (r:
        Result<i128, PoolError>)
        requires
            old(self)@.initialized,
        ensures
            match old(self)@.swap(authorized, now, buy_a, out, in_max) {
                Ok((next, sell_amount)) => r == Ok::<i128, PoolError>(sell_amount) && final(self)@
                    == next,
                Err(e) => r == Err::<i128, PoolError>(e) && final(self)@ == old(self)@,
            },
            authorized && out >= reserve_bought(
                buy_a,
                old(self)@.state.reserve_a as int,
                old(self)@.state.reserve_b as int,
            ) ==> r == Err::<i128, PoolError>(PoolError::InvalidAmount),
            r matches Ok(sell_amount) ==> sell_amount <= in_max,
            final(self)@.state == old(self)@.state,
            final(self)@.wf(),
    {
        proof {
            use_type_invariant(&*self);
        }
        if !authorized {
            return Err(PoolError::Unauthorized);
        }
        let reserve_buy: i128 = if buy_a {
            self.state.reserve_a
        } else {
            self.state.reserve_b
        };
        if out >= reserve_buy {
            return Err(PoolError::InvalidAmount);
        }
        let accumulator: RewardAccumulator = self.accumulator.settle(
            &self.config,
            now,
            self.state.total_shares,
        )?;
        let sell_amount: i128 = price_for_output(
            buy_a,
            out,
            self.state.reserve_a,
            self.state.reserve_b,
        )?;
        if sell_amount > in_max {
            return Err(PoolError::SlippageExceeded);
        }
        self.accumulator = accumulator;
        Ok(sell_amount)
    }

    /// The second step of a trade. `balance_a` and `balance_b` are what the
    /// pool holds once the sold amount has come in, before `out` is paid.
    ///
    /// The trade is booked only if the product of the fee-adjusted weights
    /// does not fall below the product before the trade; otherwise it fails
    /// with `InvariantViolated`. The reserves become the balances less what
    /// is paid out.
    pub fn execute_swap(&mut self, buy_a: bool, out: i128, balance_a: i128, balance_b: i128) -> (r:
        Result<(), PoolError>)
        requires
            old(self)@.initialized,
        ensures
            match old(self)@.execute_swap(buy_a, out, balance_a, balance_b) {
                Ok(next) => r is Ok && final(self)@ == next,
                Err(e) => r == Err::<(), PoolError>(e) && final(self)@ == old(self)@,
            },
            r is Ok ==> product_after(
                old(self)@.state.reserve_a as int,
                old(self)@.state.reserve_b as int,
                balance_a as int,
                balance_b as int,
                PoolView::out_a(buy_a, out) as int,
                PoolView::out_b(buy_a, out) as int,
            ) >= product_before(
                old(self)@.state.reserve_a as int,
                old(self)@.state.reserve_b as int,
            ),
            final(self)@.wf(),
    {
        proof {
            use_type_invariant(&*self);
        }
        let (out_a, out_b) = if buy_a {
            (out, 0)
        } else {
            (0, out)
        };
        check_invariant(
            self.state.reserve_a,
            self.state.reserve_b,
            balance_a,
            balance_b,
            out_a,
            out_b,
        )?;
        let reserve_a: i128 = checked_difference(balance_a, out_a)?;
        let reserve_b: i128 = checked_difference(balance_b, out_b)?;
        let mut state: PoolState = self.state;
        state.set_reserves(reserve_a, reserve_b)?;
        self.state = state;
        Ok(())
    }

    /// The price of taking `out` from the pool as it stands. Nothing is
    /// settled and nothing changes.
    pub fn estimate_swap_out(&self, buy_a: bool, out: i128) -> (r: Result<i128, PoolError>)
        requires
            self@.initialized,
        ensures
            r == self@.estimate_swap_out(buy_a, out),
    {
        price_for_output(buy_a, out, self.state.reserve_a, self.state.reserve_b)
    }

    /// A redemption by an authorized holder, who has handed shares back to
    /// the pool. `user_shares` is what the holder held before that;
    /// `balance_shares` is the number of shares that the pool holds now, and
    /// `balance_a`, `balance_b` are what it holds of the two assets.
    ///
    /// The reward stream and the holder's record are settled. All shares
    /// that the pool holds are retired, and the holder is paid
    /// `floor(balance * balance_shares / total_shares)` of each asset, which
    /// are returned. The redemption fails with `MinNotSatisfied` if either
    /// amount is below its minimum.
    pub fn withdraw(
        &mut self,
        authorized: bool,
        now: u64,
        user: &mut Option<UserRewardRecord>,
        user_shares: i128,
        balance_a: i128,
        balance_b: i128,
        balance_shares: i128,
        min_a: i128,
        min_b: i128,
    ) -> (r: Result<(i128, i128), PoolError>)
        requires
            old(self)@.initialized,
        ensures
            match old(self)@.withdraw(
                authorized,
                now,
                *old(user),
                user_shares,
                balance_a,
                balance_b,
                balance_shares,
                min_a,
                min_b,
            ) {
                Ok((next, record, paid)) => r == Ok::<(i128, i128), PoolError>(paid) && final(self)@ == next && *final(user) == Some(record),
                Err(e) => r == Err::<(i128, i128), PoolError>(e) && final(self)@ == old(self)@
                    && *final(user) == *old(user),
            },
            r matches Ok(paid) ==> paid.0 >= min_a && paid.1 >= min_b,
            final(self)@.wf(),
    {
        proof {
            use_type_invariant(&*self);
        }
        if !authorized {
            return Err(PoolError::Unauthorized);
        }
        let accumulator: RewardAccumulator = self.accumulator.settle(
            &self.config,
            now,
            self.state.total_shares,
        )?;
        let record: UserRewardRecord = settle_user(*user, &accumulator, user_shares)?;
        let paid: (i128, i128) = get_withdrawal_amounts(
            balance_a,
            balance_b,
            balance_shares,
            self.state.total_shares,
            min_a,
            min_b,
        )?;
        let reserve_a: i128 = checked_difference(balance_a, paid.0)?;
        let reserve_b: i128 = checked_difference(balance_b, paid.1)?;
        let total_shares: i128 = checked_difference(self.state.total_shares, balance_shares)?;
        if reserve_a < 0 || reserve_b < 0 || total_shares < 0 {
            return Err(PoolError::InvalidAmount);
        }
        self.state = PoolState { reserve_a, reserve_b, total_shares };
        self.accumulator = accumulator;
        *user = Some(record);
        Ok(paid)
    }

    /// Replaces the reward stream, for an authorized administrator.
    ///
    /// The pool is settled under the old stream first, so that nothing earned
    /// so far changes. The new stream releases `amount` evenly from `now` to
    /// `expired_at`, at `floor(amount / (expired_at - now))` per second; it is
    /// refused with `InvalidAmount` unless `expired_at` lies after `now`.
    ///
    /// The clock of the pool stays where the settlement under the old stream
    /// has put it. A stream that replaces one that has expired therefore pays
    /// for the time since the old one ended, too.
    pub fn set_rewards_config(
        &mut self,
        authorized: bool,
        is_admin: bool,
        now: u64,
        expired_at: u64,
        amount: i128,
    ) -> (r: Result<(), PoolError>)
        requires
            old(self)@.initialized,
        ensures
            match old(self)@.set_rewards_config(authorized, is_admin, now, expired_at, amount) {
                Ok(next) => r is Ok && final(self)@ == next,
                Err(e) => r == Err::<(), PoolError>(e) && final(self)@ == old(self)@,
            },
            final(self)@.state == old(self)@.state,
            final(self)@.wf(),
    {
        proof {
            use_type_invariant(&*self);
        }
        if !authorized || !is_admin {
            return Err(PoolError::Unauthorized);
        }
        let accumulator: RewardAccumulator = self.accumulator.settle(
            &self.config,
            now,
            self.state.total_shares,
        )?;
        let config: RewardConfig = RewardConfig::derive(amount, now, expired_at)?;
        self.accumulator = accumulator;
        self.config = config;
        Ok(())
    }

    /// What a holder is told about the reward stream at `now`. The pool and
    /// the holder are settled on copies; nothing changes.
    pub fn get_rewards_info(&self, now: u64, user: Option<UserRewardRecord>, user_shares: i128) -> (r:
        Result<RewardsInfo, PoolError>)
        requires
            self@.initialized,
        ensures
            r == self@.rewards_info(now, user, user_shares),
    {
        let accumulator: RewardAccumulator = self.accumulator.settle(
            &self.config,
            now,
            self.state.total_shares,
        )?;
        let record: UserRewardRecord = settle_user(user, &accumulator, user_shares)?;
        Ok(
            RewardsInfo {
                tps: self.config.rate_per_second,
                exp_at: widen(self.config.expiration_time),
                acc: accumulator.accumulated_per_share,
                last_time: widen(accumulator.last_settled_time),
                pool_acc: record.accumulated_per_share_snapshot,
                block: widen(accumulator.update_sequence),
                usr_block: widen(record.last_seen_sequence),
                to_claim: record.claimable_balance,
            },
        )
    }

    /// What a holder could claim at `now`. Nothing changes.
    pub fn get_user_reward(&self, now: u64, user: Option<UserRewardRecord>, user_shares: i128) -> (r:
        Result<i128, PoolError>)
        requires
            self@.initialized,
        ensures
            r == self@.user_reward(now, user, user_shares),
    {
        preview(user, &self.accumulator, &self.config, now, self.state.total_shares, user_shares)
    }

    /// A claim by an authorized holder. The reward stream and the holder's
    /// record are settled; the whole balance of the record is returned, to be
    /// paid out, and the record is left with a balance of zero.
    pub fn claim(
        &mut self,
        authorized: bool,
        now: u64,
        user: &mut Option<UserRewardRecord>,
        user_shares: i128,
    ) -> (r: Result<i128, PoolError>)
        requires
            old(self)@.initialized,
        ensures
            match old(self)@.claim(authorized, now, *old(user), user_shares) {
                Ok((next, record, paid)) => r == Ok::<i128, PoolError>(paid) && final(self)@
                    == next && *final(user) == Some(record),
                Err(e) => r == Err::<i128, PoolError>(e) && final(self)@ == old(self)@ && *final(user) == *old(user),
            },
            final(self)@.state == old(self)@.state,
            final(self)@.wf(),
    {
        proof {
            use_type_invariant(&*self);
        }
        if !authorized {
            return Err(PoolError::Unauthorized);
        }
        let accumulator: RewardAccumulator = self.accumulator.settle(
            &self.config,
            now,
            self.state.total_shares,
        )?;
        let record: UserRewardRecord = settle_user(*user, &accumulator, user_shares)?;
        let paid: i128 = record.claimable_balance;
        self.accumulator = accumulator;
        *user = Some(
            UserRewardRecord {
                last_seen_sequence: record.last_seen_sequence,
                accumulated_per_share_snapshot: record.accumulated_per_share_snapshot,
                claimable_balance: 0,
            },
        );
        Ok(paid)
    }
}

/// A pool cannot be set up twice, and a pair of tokens sets a pool up in one
/// order only: once `initialize` has succeeded, every further call fails with
/// `AlreadyInitialized`, and on a pool that has not been set up the call
/// succeeds for exactly one order of two different tokens.
pub proof fn lemma_initialize_once(pool: PoolView, token_a: Seq<u8>, token_b: Seq<u8>)
    ensures
        pool.initialize(token_a, token_b) matches Ok(next) ==> next.wf() && next.initialize(
            token_a,
            token_b,
        ) == Err::<PoolView, PoolError>(PoolError::AlreadyInitialized),
        !pool.initialized && token_a != token_b ==> (pool.initialize(token_a, token_b) is Ok
            <==> !(pool.initialize(token_b, token_a) is Ok)),
        pool.initialize(token_a, token_a) is Err,
{
    crate::address::lemma_order_is_total(token_a, token_b);
}

/// A trade at the quoted price is never refused for lowering the product.
///
/// Take a trade of a non-negative `out` that `swap` has priced at `paid`, and
/// let the pool receive exactly `paid`. Then the product of the fee-adjusted
/// weights is at least what it was, so `execute_swap` does not fail with
/// `InvariantViolated`.
pub proof fn lemma_priced_swap_keeps_product(
    pool: PoolView,
    now: u64,
    buy_a: bool,
    out: i128,
    in_max: i128,
)
    requires
        pool.wf(),
        out >= 0,
        pool.swap(true, now, buy_a, out, in_max) is Ok,
    ensures
        ({
            let (next, paid) = pool.swap(true, now, buy_a, out, in_max)->Ok_0;
            let balance_a = if buy_a {
                pool.state.reserve_a as int
            } else {
                pool.state.reserve_a + paid
            };
            let balance_b = if buy_a {
                pool.state.reserve_b + paid
            } else {
                pool.state.reserve_b as int
            };
            &&& next.state == pool.state
            &&& product_after(
                pool.state.reserve_a as int,
                pool.state.reserve_b as int,
                balance_a,
                balance_b,
                PoolView::out_a(buy_a, out) as int,
                PoolView::out_b(buy_a, out) as int,
            ) >= product_before(pool.state.reserve_a as int, pool.state.reserve_b as int)
            &&& fits_i128(balance_a) && fits_i128(balance_b) ==> next.execute_swap(
                buy_a,
                out,
                balance_a as i128,
                balance_b as i128,
            ) != Err::<PoolView, PoolError>(PoolError::InvariantViolated)
        }),
{
    crate::swap::lemma_priced_trade_keeps_product(
        buy_a,
        pool.state.reserve_a as int,
        pool.state.reserve_b as int,
        out as int,
    );
}

/// A claim pays exactly what the preview showed, and leaves nothing behind.
///
/// Whenever `get_user_reward` reports an amount, a claim by the same holder
/// at the same time pays that amount; where the preview fails the claim fails
/// in the same way. Right after the claim, with the time and the holder's
/// shares unchanged, `get_user_reward` reports zero.
pub proof fn lemma_claim_pays_the_preview(
    pool: PoolView,
    now: u64,
    user: Option<UserRewardRecord>,
    user_shares: i128,
)
    ensures
        match pool.claim(true, now, user, user_shares) {
            Ok((next, record, paid)) => {
                &&& pool.user_reward(now, user, user_shares) == Ok::<i128, PoolError>(paid)
                &&& next.user_reward(now, Some(record), user_shares) == Ok::<i128, PoolError>(0)
                &&& next.state == pool.state
            },
            Err(e) => pool.user_reward(now, user, user_shares) == Err::<i128, PoolError>(e),
        },
{
    match pool.claim(true, now, user, user_shares) {
        Ok((next, record, paid)) => {
            crate::rewards::lemma_settle_idempotent(
                pool.accumulator,
                pool.config,
                now,
                pool.state.total_shares,
            );
            assert(user_shares * (next.accumulator.accumulated_per_share
                - record.accumulated_per_share_snapshot) == 0) by (nonlinear_arith)
                requires
                    next.accumulator.accumulated_per_share
                        == record.accumulated_per_share_snapshot,
            ;
        },
        Err(e) => {},
    }
}

/// Depositing and redeeming at once gives nothing away.
///
/// Let a deposit bring the balances of the pool to `balance_a` and
/// `balance_b`, and let the depositor hand back, right after it, all the
/// shares that the deposit has earned. Then the redemption pays no more of
/// either asset than the deposit has added to the reserves.
///
/// The pool has to issue in proportion or to be without reserves: a pool that
/// holds assets while no shares are outstanding gives what it holds to the
/// first depositor.
pub proof fn lemma_deposit_then_withdraw(
    pool: PoolView,
    balance_a: i128,
    balance_b: i128,
    now: u64,
    user: Option<UserRewardRecord>,
    user_shares: i128,
    min_a: i128,
    min_b: i128,
)
    requires
        pool.wf(),
        crate::issuance::issues_in_proportion(
            pool.state.reserve_a,
            pool.state.reserve_b,
            pool.state.total_shares,
        ) || (pool.state.reserve_a == 0 && pool.state.reserve_b == 0),
        pool.complete_deposit(balance_a, balance_b) is Ok,
    ensures
        ({
            let (next, minted) = pool.complete_deposit(balance_a, balance_b)->Ok_0;
            &&& next.wf()
            &&& next.withdraw(
                true,
                now,
                user,
                user_shares,
                balance_a,
                balance_b,
                minted,
                min_a,
                min_b,
            ) matches Ok((last, record, paid)) ==> {
                &&& paid.0 <= balance_a - pool.state.reserve_a
                &&& paid.1 <= balance_b - pool.state.reserve_b
                &&& last.state.total_shares == pool.state.total_shares
            }
        }),
{
    let (next, minted) = pool.complete_deposit(balance_a, balance_b)->Ok_0;
    if next.withdraw(true, now, user, user_shares, balance_a, balance_b, minted, min_a, min_b)
        is Ok {
        crate::issuance::lemma_minted_shares_redeem_no_more(
            balance_a,
            balance_b,
            pool.state.reserve_a,
            pool.state.reserve_b,
            pool.state.total_shares,
        );
        crate::arith::lemma_quotient_fits(balance_a * minted, next.state.total_shares as int);
        crate::arith::lemma_quotient_fits(balance_b * minted, next.state.total_shares as int);
    }
}

} // verus!
