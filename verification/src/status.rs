//! The status function: when the progress of the search is reported.

use crate::scalar::Scalar;
use crate::space::Point;
use vstd::prelude::*;

verus! {

/// Status function.
#[derive(Clone, Copy, Debug, PartialEq, Eq, Structural)]
pub enum Status {
    /// Report nothing.
    Silent,
    /// Report when the iteration index is divisible by `nk`.
    Periodic {
        /// The number of iterations from one report to the next.
        nk: usize,
    },
    /// Hand every iteration to the caller's own function.
    Custom,
}

/// What one report holds.
#[derive(Debug)]
pub struct Record {
    /// Iteration index.
    pub k: usize,
    /// Temperature after cooling.
    pub t: Scalar,
    /// Current value of the objective.
    pub f: Scalar,
    /// Current point.
    pub p: Point,
    /// Best value of the objective so far.
    pub best_f: Scalar,
    /// Point of the best value.
    pub best_p: Point,
}

impl Status {
    /// Whether iteration `k` is reported. A period of zero divides no
    /// index: with it nothing is ever reported.
    pub open spec fn due(self, k: usize) -> bool {
        match self {
            Status::Silent => false,
            Status::Periodic { nk } => nk != 0 && k % nk == 0,
            Status::Custom => true,
        }
    }

    /// The report of iteration `k`, where one is due: `None` for
    /// `Silent`, for `Periodic` a record exactly when `nk` is not zero and
    /// divides `k`, for `Custom` always. The record holds the arguments as
    /// given.
    pub fn print(
        &self,
        k: usize,
        t: Scalar,
        f: Scalar,
        p: Point,
        best_f: Scalar,
        best_p: Point,
    ) -> (r: Option<Record>)
        ensures
            r.is_some() == self.due(k),
            r.is_some() ==> ({
                let rec = r.unwrap();
                &&& rec.k == k
                &&& rec.t == t
                &&& rec.f == f
                &&& rec.p@ == p@
                &&& rec.best_f == best_f
                &&& rec.best_p@ == best_p@
            }),
    {
        if self.is_due(k) {
            Some(Record { k, t, f, p, best_f, best_p })
        } else {
            None
        }
    }

    /// Whether iteration `k` is reported.
    pub fn is_due(&self, k: usize) -> (r: bool)
        ensures
            r == self.due(k),
    {
        match self {
            Status::Silent => false,
            Status::Periodic { nk } => *nk != 0 && k % *nk == 0,
            Status::Custom => true,
        }
    }
}

} // verus!
