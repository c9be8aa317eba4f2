//! Error taxonomy of the pool model. Every error is final: it reports either
//! invalid caller input or an arithmetic impossibility, never a transient
//! condition, so the caller may only retry with corrected input.

use vstd::prelude::*;

verus! {

/// The ways an operation on the pool can fail.
#[derive(Debug)]
pub enum LiqPoolError {
    /// An internal arithmetic step could not be represented in 64 bits
    /// (overflow of a proportion, or a fee larger than the amount it
    /// applies to).
    CalculationError,
    /// The caller supplied a value that is logically impossible given the
    /// current pool state; carries a descriptive reason.
    InvalidInputData(String),
    /// The pool does not hold enough base token to pay out a swap.
    InsufficientLiquidity,
    /// A pool construction was attempted with `max_fee < min_fee`.
    InvalidFeeRange,
}

} // verus!
