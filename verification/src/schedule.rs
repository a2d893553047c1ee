//! The annealing schedule: by which rule the temperature is lowered.

use crate::error::Error;
use crate::scalar::Scalar;
use crate::utils::{cast, fits};
use vstd::prelude::*;

verus! {

/// Annealing schedule.
#[derive(Clone, Copy, Debug, PartialEq, Eq, Structural)]
pub enum Schedule {
    /// Logarithmic: `t(k) = t_0 * ln(2) / ln(k + 1)`.
    Logarithmic,
    /// Exponential: `t(k + 1) = gamma * t(k)`, with `gamma` in `(0, 1)`.
    Exponential {
        /// The factor `gamma`.
        gamma: Scalar,
    },
    /// Fast: `t(k) = t_0 / k`.
    Fast,
    /// The caller's own function.
    Custom,
}

/// The computation that yields the next temperature, with its operands. A
/// `count` is a counter that can be cast to a number exactly.
#[derive(Clone, Copy, Debug, PartialEq, Eq, Structural)]
pub enum Cooling {
    /// `t_0 * ln(2) / ln(count)`.
    LogRatio { t_0: Scalar, count: usize },
    /// `gamma * t`.
    Product { gamma: Scalar, t: Scalar },
    /// `t_0 / count`.
    Quotient { t_0: Scalar, count: usize },
    /// The caller's own function of `(k, t, t_0)`.
    Ask { k: usize, t: Scalar, t_0: Scalar },
}

impl Schedule {
    /// What `cool` answers.
    pub open spec fn spec_cool(self, k: usize, t: Scalar, t_0: Scalar) -> Result<Cooling, Error> {
        match self {
            Schedule::Logarithmic => if k < usize::MAX && fits((k + 1) as nat) {
                Ok(Cooling::LogRatio { t_0, count: (k + 1) as usize })
            } else {
                Err(Error::ScheduleFailed)
            },
            Schedule::Exponential { gamma } => Ok(Cooling::Product { gamma, t }),
            Schedule::Fast => if fits(k as nat) {
                Ok(Cooling::Quotient { t_0, count: k })
            } else {
                Err(Error::ScheduleFailed)
            },
            Schedule::Custom => Ok(Cooling::Ask { k, t, t_0 }),
        }
    }

    /// The counter that the rule of this schedule casts to a number at
    /// iteration `k`, if it casts one.
    pub open spec fn counter(self, k: usize) -> Option<nat> {
        match self {
            Schedule::Logarithmic => Some((k + 1) as nat),
            Schedule::Fast => Some(k as nat),
            _ => None,
        }
    }

    /// Lower the temperature: the rule of this schedule for iteration `k`,
    /// running temperature `t` and initial temperature `t_0`.
    ///
    /// Fails if and only if the rule casts a counter to a number (`k + 1`
    /// for the logarithmic schedule, `k` for the fast one) and that counter
    /// cannot be represented: as a counter, or exactly as a number.
    pub fn cool(&self, k: usize, t: Scalar, t_0: Scalar) -> (r: Result<Cooling, Error>)
        ensures
            r == self.spec_cool(k, t, t_0),
            r.is_err() <==> (match self.counter(k) {
                Some(n) => n > usize::MAX || !fits(n),
                None => false,
            }),
            r.is_err() ==> r == Err::<Cooling, Error>(Error::ScheduleFailed),
    {
        match self {
            Schedule::Logarithmic => {
                if k < usize::MAX && cast(k + 1).is_some() {
                    Ok(Cooling::LogRatio { t_0, count: k + 1 })
                } else {
                    Err(Error::ScheduleFailed)
                }
            },
            Schedule::Exponential { gamma } => Ok(Cooling::Product { gamma: *gamma, t }),
            Schedule::Fast => {
                if cast(k).is_some() {
                    Ok(Cooling::Quotient { t_0, count: k })
                } else {
                    Err(Error::ScheduleFailed)
                }
            },
            Schedule::Custom => Ok(Cooling::Ask { k, t, t_0 }),
        }
    }
}

} // verus!
