//! The acceptance probability function: whether the search moves to a
//! candidate.

use crate::scalar::Scalar;
use vstd::prelude::*;

verus! {

/// Acceptance probability function.
#[derive(Clone, Copy, Debug, PartialEq, Eq, Structural)]
pub enum APF {
    /// Metropolis criterion: a candidate that is no worse is always
    /// accepted; a worse one with probability `min(exp(-diff / t), 1)`.
    Metropolis,
    /// The caller's own function decides.
    Custom,
}

/// One random trial: a sample of the uniform distribution on `[0, 1)` and
/// the probability `exp(-diff / t)` it is held against.
#[derive(Clone, Copy, Debug, PartialEq, Eq, Structural)]
pub struct Chance {
    pub sample: Scalar,
    pub probability: Scalar,
}

/// The outcome of asking whether to accept a candidate.
#[derive(Clone, Copy, Debug, PartialEq, Eq, Structural)]
pub enum Verdict {
    /// Move to the candidate.
    Accept,
    /// Stay at the current point.
    Reject,
    /// Undecided without a random trial: draw one and ask again.
    Draw,
    /// The caller's own function has to be asked.
    Ask,
}

impl Chance {
    /// Whether `sample < min(probability, 1)`, where the minimum of one and
    /// something that is not a number is one.
    pub open spec fn spec_succeeds(self) -> bool {
        &&& self.sample.spec_lt(Scalar { bits: crate::scalar::ONE_BITS })
        &&& (self.probability.spec_is_nan() || self.sample.spec_lt(self.probability))
    }

    /// Whether `sample < min(probability, 1)`.
    pub fn succeeds(&self) -> (r: bool)
        ensures
            r == self.spec_succeeds(),
    {
        self.sample.lt(Scalar::one()) && (self.probability.is_nan() || self.sample.lt(
            self.probability,
        ))
    }
}

/// With a probability of at most one, which is what `exp(-diff / t)` is for
/// `diff > 0` and `t > 0`, the cap at one changes nothing: the trial succeeds
/// exactly if the sample is below the probability.
pub proof fn lemma_trial_below_probability(c: Chance)
    ensures
        c.probability.spec_le(Scalar { bits: crate::scalar::ONE_BITS }) ==> c.spec_succeeds()
            == c.sample.spec_lt(c.probability),
{
}

impl APF {
    /// What `accept` answers.
    pub open spec fn spec_accept(self, diff: Scalar, chance: Option<Chance>) -> Verdict {
        match self {
            APF::Custom => Verdict::Ask,
            APF::Metropolis => if diff.spec_le(Scalar { bits: 0 }) {
                Verdict::Accept
            } else {
                match chance {
                    None => Verdict::Draw,
                    Some(c) => if c.spec_succeeds() {
                        Verdict::Accept
                    } else {
                        Verdict::Reject
                    },
                }
            },
        }
    }

    /// Choose whether to accept a candidate whose objective differs from the
    /// current one by `diff` (candidate minus current).
    ///
    /// Metropolis accepts at once where `diff <= 0`, and no random trial
    /// bears on that. Where `diff > 0` (or is not a number) it asks for a
    /// trial as long as `chance` is `None`, and with a trial accepts if and
    /// only if the sample is below the probability capped at one; with a
    /// probability of at most one, if and only if the sample is below the
    /// probability.
    pub fn accept(&self, diff: Scalar, chance: Option<Chance>) -> (v: Verdict)
        ensures
            v == self.spec_accept(diff, chance),
            *self == APF::Metropolis && diff.spec_le(Scalar { bits: 0 }) ==> v == Verdict::Accept,
            *self == APF::Metropolis && !diff.spec_le(Scalar { bits: 0 }) ==> (match chance {
                None => v == Verdict::Draw,
                Some(c) => (v == Verdict::Accept) == c.spec_succeeds() && (v == Verdict::Reject)
                    == !c.spec_succeeds(),
            }),
            *self == APF::Custom ==> v == Verdict::Ask,
            *self == APF::Metropolis && !diff.spec_le(Scalar { bits: 0 }) && chance.is_some()
                && chance.unwrap().probability.spec_le(Scalar { bits: crate::scalar::ONE_BITS })
                ==> (v == Verdict::Accept) == chance.unwrap().sample.spec_lt(
                chance.unwrap().probability,
            ),
    {
        proof {
            if chance.is_some() {
                lemma_trial_below_probability(chance.unwrap());
            }
        }
        match self {
            APF::Custom => Verdict::Ask,
            APF::Metropolis => {
                if diff.le(Scalar::zero()) {
                    Verdict::Accept
                } else {
                    match chance {
                        None => Verdict::Draw,
                        Some(c) => {
                            if c.succeeds() {
                                Verdict::Accept
                            } else {
                                Verdict::Reject
                            }
                        },
                    }
                }
            },
        }
    }
}

} // verus!
