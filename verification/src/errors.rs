//! Error taxonomy of the engine.
//!
//! Configuration errors (`InvalidParameter`, `InvalidCutoff`) are detected
//! eagerly when a builder is constructed, never in the middle of a
//! computation. `OutOfDomain` is a runtime evaluation error for a single
//! spline query. `SplineBudgetExceeded` reports that the adaptive refinement
//! loop could not reach the requested accuracy within the node budget; it
//! carries the requested accuracy and the resolution reached so the caller
//! can relax the accuracy or change the basis.

use vstd::prelude::*;

verus! {

/// An error raised by the descriptor-assembly engine.
///
/// No partial results are ever returned together with an error: a failed
/// build yields no index set at all, never a truncated one.
#[derive(Debug, Clone, PartialEq, Eq)]
pub enum Error {
    /// The caller supplied an inconsistent or out-of-range configuration.
    InvalidParameter(String),
    /// A cutoff radius was not a strictly positive finite number.
    InvalidCutoff(String),
    /// A spline was evaluated outside of its domain `[start, stop)`.
    OutOfDomain(String),
    /// The spline refinement loop hit its node budget before reaching the
    /// requested accuracy.
    SplineBudgetExceeded {
        /// The accuracy that was requested, as the bit pattern of the `f64`
        /// threshold handed to the builder.
        accuracy_bits: u64,
        /// The number of interpolation nodes reached when the budget ran out.
        n_points: usize,
    },
}

} // verus!
