//! The method of getting a random neighbour of the current point.

use crate::error::Error;
use crate::scalar::Scalar;
use crate::space::{within, Bounds, Interval, Point};
use vstd::prelude::*;

verus! {

/// Method of getting a random neighbour.
#[derive(Clone, Copy, Debug, PartialEq, Eq, Structural)]
pub enum Method {
    /// Each coordinate is drawn from a normal distribution whose mean is the
    /// current coordinate, and drawn again until it falls in the interval of
    /// its dimension. The number of draws is not limited.
    Normal {
        /// Standard deviation: a finite number above zero.
        sd: Scalar,
    },
    /// The caller's own method.
    Custom,
}

/// What the sampler is handed: the outcome of the draw it asked for.
#[derive(Clone, Copy, Debug, PartialEq, Eq, Structural)]
pub enum Draw {
    /// Nothing was asked for yet.
    Nothing,
    /// The sample drawn.
    Sample(Scalar),
    /// The distribution could not be built or its sample not converted.
    Failed,
}

/// What the sampler asks for next.
#[derive(Clone, Copy, Debug, PartialEq, Eq, Structural)]
pub enum Proposal {
    /// A sample of the normal distribution with this mean and deviation, for
    /// the first coordinate that is still missing.
    Sample { mean: Scalar, sd: Scalar },
    /// The caller's own method has to be asked for the whole neighbour.
    Ask,
    /// Every coordinate is there.
    Complete,
}

/// The coordinates after a draw, for a point of `n` dimensions: while one is
/// missing, a sample that lies in the interval of the first missing
/// dimension is taken as that coordinate; any other is discarded.
pub open spec fn grown(n: nat, bounds: Seq<Interval>, partial: Seq<Scalar>, draw: Draw) -> Seq<
    Scalar,
> {
    match draw {
        Draw::Sample(s) => if partial.len() < n && partial.len() < bounds.len()
            && bounds[partial.len() as int].spec_contains(s) {
            partial.push(s)
        } else {
            partial
        },
        _ => partial,
    }
}

/// Whether a normal distribution can have the spread `sd`: it is finite and
/// above zero.
pub open spec fn spec_spread_ok(sd: Scalar) -> bool {
    sd.spec_is_finite() && sd.spec_gt(Scalar { bits: 0 })
}

/// Whether a normal distribution can have the spread `sd`.
pub fn spread_ok(sd: Scalar) -> (r: bool)
    ensures
        r == spec_spread_ok(sd),
{
    sd.is_finite() && sd.gt(Scalar::zero())
}

impl Method {
    /// The coordinates that `neighbour` leaves in `partial`.
    pub open spec fn spec_partial(
        self,
        p: Seq<Scalar>,
        bounds: Seq<Interval>,
        partial: Seq<Scalar>,
        draw: Draw,
    ) -> Seq<Scalar> {
        match self {
            Method::Normal { sd } => if spec_spread_ok(sd) {
                grown(p.len(), bounds, partial, draw)
            } else {
                partial
            },
            Method::Custom => partial,
        }
    }

    /// The coordinates found after a run of draws, from none at first.
    pub open spec fn spec_sampling(
        self,
        p: Seq<Scalar>,
        bounds: Seq<Interval>,
        draws: Seq<Draw>,
    ) -> Seq<Scalar>
        decreases draws.len(),
    {
        if draws.len() == 0 {
            Seq::empty()
        } else {
            self.spec_partial(
                p,
                bounds,
                self.spec_sampling(p, bounds, draws.drop_last()),
                draws.last(),
            )
        }
    }

    /// What `neighbour` answers, given the coordinates it leaves in `partial`.
    pub open spec fn spec_neighbour(self, p: Seq<Scalar>, partial: Seq<Scalar>, draw: Draw) -> Result<
        Proposal,
        Error,
    > {
        match self {
            Method::Custom => Ok(Proposal::Ask),
            Method::Normal { sd } => if partial.len() >= p.len() {
                Ok(Proposal::Complete)
            } else if !spec_spread_ok(sd) || draw == Draw::Failed {
                Err(Error::NeighbourGenerationFailed)
            } else {
                Ok(Proposal::Sample { mean: p[partial.len() as int], sd })
            },
        }
    }

    /// Get a neighbour of the point `p`, one draw at a time.
    ///
    /// `partial` holds the coordinates found so far, empty at first. `draw` is
    /// the outcome of the draw that the last call asked for. A sample inside
    /// the interval of the first missing dimension becomes that coordinate;
    /// one outside is discarded and the same draw is asked for again. The
    /// answer is `Complete` once `partial` has a coordinate for every
    /// dimension, and then `partial` is the neighbour: each coordinate lies in
    /// the interval of its dimension.
    ///
    /// Fails if and only if a coordinate is missing and either the spread is
    /// not a finite number above zero, in which case no sample is asked for
    /// and none is taken, or the draw failed.
    pub fn neighbour(&self, p: &Point, bounds: &Bounds, partial: &mut Point, draw: Draw) -> (r:
        Result<Proposal, Error>)
        ensures
            final(partial)@ == self.spec_partial(p@, bounds@, old(partial)@, draw),
            r == self.spec_neighbour(p@, final(partial)@, draw),
            within(old(partial)@, bounds@) ==> within(final(partial)@, bounds@),
            old(partial)@.len() <= p@.len() ==> final(partial)@.len() <= p@.len(),
            r.is_err() <==> (match *self {
                Method::Normal { sd } => old(partial)@.len() < p@.len() && (!spec_spread_ok(sd)
                    || draw == Draw::Failed),
                Method::Custom => false,
            }),
            r.is_err() ==> r == Err::<Proposal, Error>(Error::NeighbourGenerationFailed)
                && final(partial)@ == old(partial)@,
    {
        match self {
            Method::Custom => Ok(Proposal::Ask),
            Method::Normal { sd } => {
                let usable = spread_ok(*sd);
                let i: usize = partial.len();
                if usable && i < p.len() && i < bounds.len() {
                    if let Draw::Sample(s) = draw {
                        if bounds[i].contains(s) {
                            partial.push(s);
                        }
                    }
                }
                let j: usize = partial.len();
                if j >= p.len() {
                    Ok(Proposal::Complete)
                } else if !usable {
                    Err(Error::NeighbourGenerationFailed)
                } else if let Draw::Failed = draw {
                    Err(Error::NeighbourGenerationFailed)
                } else {
                    Ok(Proposal::Sample { mean: p[j], sd: *sd })
                }
            },
        }
    }
}

/// Every neighbour of the normal method lies in the bounds: whatever the
/// draws were, and wherever the point `p` itself lies, the coordinates found
/// lie each in the interval of its dimension, and once the answer is
/// `Complete` there is one for every dimension of `p`.
pub proof fn lemma_neighbour_is_in_bounds(
    method: Method,
    p: Seq<Scalar>,
    bounds: Seq<Interval>,
    draws: Seq<Draw>,
    last: Draw,
)
    ensures
        within(method.spec_sampling(p, bounds, draws), bounds),
        method.spec_sampling(p, bounds, draws).len() <= p.len(),
        method.spec_neighbour(p, method.spec_sampling(p, bounds, draws), last) == Ok::<
            Proposal,
            Error,
        >(Proposal::Complete) ==> method.spec_sampling(p, bounds, draws).len() == p.len()
            && forall|i: int|
            0 <= i < p.len() ==> (#[trigger] bounds[i]).spec_contains(
                method.spec_sampling(p, bounds, draws)[i],
            ),
    decreases draws.len(),
{
    if draws.len() > 0 {
        lemma_neighbour_is_in_bounds(method, p, bounds, draws.drop_last(), last);
    }
}

} // verus!
