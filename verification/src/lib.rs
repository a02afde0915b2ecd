//! Pricing and accounting core of a two-asset constant-product pool.
//!
//! The crate holds the arithmetic that decides how much a trade costs, how
//! many pool shares a deposit earns, what a redemption pays out and how a
//! time-weighted reward stream is split between share holders. Token
//! balances, authorization and persistence belong to the embedding program:
//! every operation takes what it needs to know as plain values and reports
//! what has to happen next through its result.

pub mod address;
pub mod arith;
pub mod error;
pub mod issuance;
pub mod pool;
pub mod rewards;
pub mod swap;

pub use crate::address::Address;
pub use crate::error::PoolError;
pub use crate::pool::{LiquidityPool, PoolState, PoolView, RewardsInfo};
pub use crate::rewards::{RewardAccumulator, RewardConfig, UserRewardRecord};
