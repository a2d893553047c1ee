//! The ways in which a search ends without a result.

use vstd::prelude::*;

verus! {

/// Why a run was given up. Every failure ends the run at once.
#[derive(Clone, Copy, Debug, PartialEq, Eq, Structural)]
pub enum Error {
    /// The objective could not be evaluated at a point.
    ObjectiveEvaluationFailed,
    /// No neighbour could be had: the sampling distribution could not be
    /// built, or the caller's own method failed.
    NeighbourGenerationFailed,
    /// The temperature could not be lowered: the iteration counter cannot
    /// be represented, or the caller's own schedule failed.
    ScheduleFailed,
    /// The caller's own acceptance function failed.
    CustomStrategyFailed,
}

} // verus!
