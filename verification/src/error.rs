//! The ways in which a pool operation can fail.

use vstd::prelude::*;

verus! {

/// Why an operation was refused. Every failure is final for the operation that
/// reports it: the pool is left exactly as it was before the call.
#[derive(Clone, Copy, Debug, PartialEq, Eq, Structural)]
pub enum PoolError {
    /// The pool has been initialized before.
    AlreadyInitialized,
    /// The first token does not come strictly before the second one.
    InvalidOrdering,
    /// The caller has not been authorized, or is not the administrator.
    Unauthorized,
    /// An amount lies outside the range on which the operation is defined.
    InvalidAmount,
    /// The input that a trade needs exceeds the caller's maximum.
    SlippageExceeded,
    /// The fee-adjusted product of the reserves would decrease.
    InvariantViolated,
    /// An amount falls outside the bounds that the caller has set.
    MinNotSatisfied,
    /// An intermediate value does not fit into 128 bits.
    ArithmeticOverflow,
    /// A quotient has a zero divisor.
    DivisionByZero,
}

} // verus!
