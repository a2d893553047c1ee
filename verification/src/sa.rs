//! The annealing engine, as a state machine.
//!
//! The engine owns the state of one search and decides what happens next.
//! It does none of the outside work itself (the objective, the random
//! draws, the arithmetic on numbers, the printing): it asks for it with an
//! [`Action`], and is told the outcome with an [`Event`].

use crate::apf::{Chance, Verdict, APF};
use crate::error::Error;
use crate::neighbour::{Draw, Method, Proposal};
use crate::scalar::Scalar;
use crate::schedule::{Cooling, Schedule};
use crate::space::{within, Bounds, Point};
use crate::status::Status;
use vstd::prelude::*;

verus! {

/// Where a search stands: what it waits for, or how it ended.
#[derive(Clone, Copy, Debug, PartialEq, Eq, Structural)]
pub enum Phase {
    /// Not begun.
    Idle,
    /// Waits for the objective at the initial point.
    Initial,
    /// Waits for a sample of the next coordinate of the candidate, or for
    /// the whole candidate of the caller's own method.
    Proposing,
    /// Waits for the objective at the candidate.
    Evaluating,
    /// Waits for the difference of the candidate's value and the current one.
    Differencing,
    /// Waits for the random trial of the Metropolis criterion.
    Drawing,
    /// Waits for the decision of the caller's own acceptance function.
    Judging,
    /// Waits for the lowered temperature.
    Cooling,
    /// Waits for the report to be made.
    Reporting,
    /// Ended: the temperature is no longer above the minimum.
    Converged,
    /// Ended: a stage failed.
    Failed(Error),
}

/// The outcome of the outside work that the engine asked for. `P` is the
/// type of a point: `Point` in code, a sequence of numbers in contracts.
#[derive(Debug)]
pub enum Event<P> {
    /// Sets an idle search going.
    Start,
    /// The number asked for: the objective at a point, or a difference.
    Value(Scalar),
    /// The sample asked for.
    Sample(Scalar),
    /// The neighbour that the caller's own method gives.
    Neighbour(P),
    /// The random trial asked for.
    Trial(Chance),
    /// Whether the caller's own acceptance function accepts the candidate.
    Decided(bool),
    /// The lowered temperature.
    Temperature(Scalar),
    /// The report was made.
    Reported,
    /// The work asked for failed.
    Failure,
}

/// What the engine asks for, or the end of the search.
#[derive(Debug)]
pub enum Action<P> {
    /// Evaluate the objective at `p`.
    Evaluate { p: P },
    /// Draw from the normal distribution with this mean and deviation.
    Sample { mean: Scalar, sd: Scalar },
    /// Ask the caller's own method for a neighbour of `p`.
    Neighbour { p: P },
    /// Compute `minuend - subtrahend`.
    Subtract { minuend: Scalar, subtrahend: Scalar },
    /// Draw a sample of the uniform distribution on `[0, 1)` and compute the
    /// probability `exp(-diff / t)`.
    Trial { diff: Scalar, t: Scalar },
    /// Ask the caller's own acceptance function, with the difference in the
    /// objective and the temperature.
    Accept { diff: Scalar, t: Scalar },
    /// Compute the next temperature by this rule.
    Cool { rule: Cooling },
    /// Report the state after iteration `k`.
    Report { k: usize, t: Scalar, f: Scalar, p: P, best_f: Scalar, best_p: P },
    /// The search converged: the minimum found and its point.
    Done { best_f: Scalar, best_p: P },
    /// The search was given up.
    Abort { error: Error },
}

/// The state of one search.
#[derive(Debug)]
pub struct Search<P> {
    /// What the search waits for.
    pub phase: Phase,
    /// Iteration index, from 1.
    pub k: usize,
    /// Temperature.
    pub t: Scalar,
    /// Current point.
    pub p: P,
    /// Objective at the current point.
    pub f: Scalar,
    /// The best point among all that were evaluated, accepted or not.
    pub best_p: P,
    /// Objective at the best point.
    pub best_f: Scalar,
    /// The candidate of this iteration, or as much of it as was sampled.
    pub cand_p: P,
    /// Objective at the candidate.
    pub cand_f: Scalar,
    /// Objective at the candidate minus objective at the current point.
    pub diff: Scalar,
}

impl View for Event<Point> {
    type V = Event<Seq<Scalar>>;

    open spec fn view(&self) -> Event<Seq<Scalar>> {
        match *self {
            Event::Start => Event::Start,
            Event::Value(v) => Event::Value(v),
            Event::Sample(v) => Event::Sample(v),
            Event::Neighbour(p) => Event::Neighbour(p@),
            Event::Trial(c) => Event::Trial(c),
            Event::Decided(b) => Event::Decided(b),
            Event::Temperature(t) => Event::Temperature(t),
            Event::Reported => Event::Reported,
            Event::Failure => Event::Failure,
        }
    }
}

impl View for Action<Point> {
    type V = Action<Seq<Scalar>>;

    open spec fn view(&self) -> Action<Seq<Scalar>> {
        match *self {
            Action::Evaluate { p } => Action::Evaluate { p: p@ },
            Action::Sample { mean, sd } => Action::Sample { mean, sd },
            Action::Neighbour { p } => Action::Neighbour { p: p@ },
            Action::Subtract { minuend, subtrahend } => Action::Subtract { minuend, subtrahend },
            Action::Trial { diff, t } => Action::Trial { diff, t },
            Action::Accept { diff, t } => Action::Accept { diff, t },
            Action::Cool { rule } => Action::Cool { rule },
            Action::Report { k, t, f, p, best_f, best_p } => Action::Report {
                k,
                t,
                f,
                p: p@,
                best_f,
                best_p: best_p@,
            },
            Action::Done { best_f, best_p } => Action::Done { best_f, best_p: best_p@ },
            Action::Abort { error } => Action::Abort { error },
        }
    }
}

impl View for Search<Point> {
    type V = Search<Seq<Scalar>>;

    open spec fn view(&self) -> Search<Seq<Scalar>> {
        Search {
            phase: self.phase,
            k: self.k,
            t: self.t,
            p: self.p@,
            f: self.f,
            best_p: self.best_p@,
            best_f: self.best_f,
            cand_p: self.cand_p@,
            cand_f: self.cand_f,
            diff: self.diff,
        }
    }
}

impl Search<Seq<Scalar>> {
    /// Whether the search has ended.
    pub open spec fn ended(self) -> bool {
        self.phase == Phase::Converged || self.phase is Failed
    }

    /// Whether the search is past the evaluation of the initial point, which
    /// gives it its first best value.
    pub open spec fn under_way(self) -> bool {
        self.phase != Phase::Idle && self.phase != Phase::Initial
    }

    /// Whether the search is within an iteration, before the temperature is
    /// lowered.
    pub open spec fn in_iteration(self) -> bool {
        self.phase == Phase::Proposing || self.has_candidate() || self.phase == Phase::Cooling
    }

    /// Whether the candidate is whole: its objective is asked for or known.
    pub open spec fn has_candidate(self) -> bool {
        ||| self.phase == Phase::Evaluating
        ||| self.phase == Phase::Differencing
        ||| self.phase == Phase::Drawing
        ||| self.phase == Phase::Judging
    }
}

/// Whether the events hold no temperature.
pub open spec fn quiet(events: Seq<Event<Seq<Scalar>>>) -> bool {
    forall|i: int| 0 <= i < events.len() ==> !(#[trigger] events[i] is Temperature)
}

/// Simulated annealing: what is fixed for one search.
#[derive(Debug)]
pub struct SA {
    /// Initial point.
    pub p_0: Point,
    /// Initial temperature.
    pub t_0: Scalar,
    /// Minimum temperature: the search goes on while the temperature is
    /// above it.
    pub t_min: Scalar,
    /// Bounds of the parameter space.
    pub bounds: Bounds,
    /// Acceptance probability function.
    pub apf: APF,
    /// Method of getting a random neighbour.
    pub neighbour: Method,
    /// Annealing schedule.
    pub schedule: Schedule,
    /// Status function.
    pub status: Status,
}

/// A point with the same coordinates.
fn copy_point(p: &Point) -> (r: Point)
    ensures
        r@ == p@,
{
    let mut r: Point = Vec::new();
    let mut i: usize = 0;
    while i < p.len()
        invariant
            i <= p@.len(),
            r@ == p@.subrange(0, i as int),
        decreases p@.len() - i,
    {
        r.push(p[i]);
        i = i + 1;
        assert(r@ == p@.subrange(0, i as int));
    }
    assert(r@ == p@);
    r
}

impl SA {
    /// The initial point has one coordinate for each interval of the bounds.
    pub open spec fn wf(&self) -> bool {
        self.p_0@.len() == self.bounds@.len()
    }

    /// The state after the outcome of a draw: the sampler takes the sample
    /// or discards it, and the candidate is whole, or another sample is
    /// asked for, or the search has failed.
    pub open spec fn spec_sampled(&self, s: Search<Seq<Scalar>>, draw: Draw) -> Search<Seq<Scalar>> {
        let partial = self.neighbour.spec_partial(s.p, self.bounds@, s.cand_p, draw);
        match self.neighbour.spec_neighbour(s.p, partial, draw) {
            Ok(Proposal::Complete) => Search { phase: Phase::Evaluating, cand_p: partial, ..s },
            Ok(_) => Search { phase: Phase::Proposing, cand_p: partial, ..s },
            Err(e) => Search { phase: Phase::Failed(e), cand_p: partial, ..s },
        }
    }

    /// The state in which an iteration begins or the search ends: it goes
    /// on, with an empty candidate, exactly while the temperature is above
    /// the minimum.
    pub open spec fn spec_resume(&self, s: Search<Seq<Scalar>>) -> Search<Seq<Scalar>> {
        if s.t.spec_gt(self.t_min) {
            self.spec_sampled(Search { cand_p: Seq::empty(), ..s }, Draw::Nothing)
        } else {
            Search { phase: Phase::Converged, ..s }
        }
    }

    /// The state after the decision on the candidate: the search moves to it
    /// if it was accepted; it becomes the best point if its objective is
    /// below the best value, accepted or not; then the schedule is asked.
    pub open spec fn spec_decided(&self, s: Search<Seq<Scalar>>, accepted: bool) -> Search<
        Seq<Scalar>,
    > {
        let better = s.cand_f.spec_lt(s.best_f);
        Search {
            phase: match self.schedule.spec_cool(s.k, s.t, self.t_0) {
                Ok(_) => Phase::Cooling,
                Err(e) => Phase::Failed(e),
            },
            p: if accepted { s.cand_p } else { s.p },
            f: if accepted { s.cand_f } else { s.f },
            best_p: if better { s.cand_p } else { s.best_p },
            best_f: if better { s.cand_f } else { s.best_f },
            ..s
        }
    }

    /// The state after an iteration: the index goes up by one. An index that
    /// cannot go up ends a search that would go on.
    pub open spec fn spec_advance(&self, s: Search<Seq<Scalar>>) -> Search<Seq<Scalar>> {
        if s.k < usize::MAX {
            self.spec_resume(Search { k: (s.k + 1) as usize, ..s })
        } else if s.t.spec_gt(self.t_min) {
            Search { phase: Phase::Failed(Error::ScheduleFailed), ..s }
        } else {
            Search { phase: Phase::Converged, ..s }
        }
    }

    /// The state after an event.
    pub open spec fn spec_step(&self, s: Search<Seq<Scalar>>, e: Event<Seq<Scalar>>) -> Search<
        Seq<Scalar>,
    > {
        match s.phase {
            Phase::Idle => Search {
                phase: Phase::Initial,
                k: 1,
                t: self.t_0,
                p: self.p_0@,
                best_p: self.p_0@,
                cand_p: self.p_0@,
                ..s
            },
            Phase::Initial => match e {
                Event::Value(v) => self.spec_resume(Search { f: v, best_f: v, cand_f: v, ..s }),
                _ => Search { phase: Phase::Failed(Error::ObjectiveEvaluationFailed), ..s },
            },
            Phase::Proposing => match e {
                Event::Sample(x) if self.neighbour != Method::Custom => self.spec_sampled(
                    s,
                    Draw::Sample(x),
                ),
                Event::Neighbour(c) if self.neighbour == Method::Custom && c.len()
                    == self.p_0@.len() => Search { phase: Phase::Evaluating, cand_p: c, ..s },
                _ => Search { phase: Phase::Failed(Error::NeighbourGenerationFailed), ..s },
            },
            Phase::Evaluating => match e {
                Event::Value(v) => Search { phase: Phase::Differencing, cand_f: v, ..s },
                _ => Search { phase: Phase::Failed(Error::ObjectiveEvaluationFailed), ..s },
            },
            Phase::Differencing => match e {
                Event::Value(d) => {
                    let n = Search { diff: d, ..s };
                    match self.apf.spec_accept(d, None) {
                        Verdict::Accept => self.spec_decided(n, true),
                        Verdict::Reject => self.spec_decided(n, false),
                        Verdict::Draw => Search { phase: Phase::Drawing, ..n },
                        Verdict::Ask => Search { phase: Phase::Judging, ..n },
                    }
                },
                _ => Search { phase: Phase::Failed(Error::CustomStrategyFailed), ..s },
            },
            Phase::Drawing => match e {
                Event::Trial(c) => match self.apf.spec_accept(s.diff, Some(c)) {
                    Verdict::Accept => self.spec_decided(s, true),
                    Verdict::Reject => self.spec_decided(s, false),
                    _ => Search { phase: Phase::Failed(Error::CustomStrategyFailed), ..s },
                },
                _ => Search { phase: Phase::Failed(Error::CustomStrategyFailed), ..s },
            },
            Phase::Judging => match e {
                Event::Decided(accepted) => self.spec_decided(s, accepted),
                _ => Search { phase: Phase::Failed(Error::CustomStrategyFailed), ..s },
            },
            Phase::Cooling => match e {
                Event::Temperature(t) => if self.status.due(s.k) {
                    Search { phase: Phase::Reporting, t, ..s }
                } else {
                    self.spec_advance(Search { t, ..s })
                },
                _ => Search { phase: Phase::Failed(Error::ScheduleFailed), ..s },
            },
            Phase::Reporting => self.spec_advance(s),
            Phase::Converged => s,
            Phase::Failed(_) => s,
        }
    }

    /// What a state asks for.
    pub open spec fn pending(&self, s: Search<Seq<Scalar>>) -> Action<Seq<Scalar>> {
        match s.phase {
            Phase::Idle => Action::Evaluate { p: self.p_0@ },
            Phase::Initial => Action::Evaluate { p: s.p },
            Phase::Proposing => match self.neighbour {
                Method::Normal { sd } if s.cand_p.len() < s.p.len() => Action::Sample {
                    mean: s.p[s.cand_p.len() as int],
                    sd,
                },
                _ => Action::Neighbour { p: s.p },
            },
            Phase::Evaluating => Action::Evaluate { p: s.cand_p },
            Phase::Differencing => Action::Subtract { minuend: s.cand_f, subtrahend: s.f },
            Phase::Drawing => Action::Trial { diff: s.diff, t: s.t },
            Phase::Judging => Action::Accept { diff: s.diff, t: s.t },
            Phase::Cooling => match self.schedule.spec_cool(s.k, s.t, self.t_0) {
                Ok(rule) => Action::Cool { rule },
                Err(error) => Action::Abort { error },
            },
            Phase::Reporting => Action::Report {
                k: s.k,
                t: s.t,
                f: s.f,
                p: s.p,
                best_f: s.best_f,
                best_p: s.best_p,
            },
            Phase::Converged => Action::Done { best_f: s.best_f, best_p: s.best_p },
            Phase::Failed(error) => Action::Abort { error },
        }
    }

    /// The state after a run of events, one after the other.
    pub open spec fn spec_run(&self, s: Search<Seq<Scalar>>, events: Seq<Event<Seq<Scalar>>>) -> Search<
        Seq<Scalar>,
    >
        decreases events.len(),
    {
        if events.len() == 0 {
            s
        } else {
            self.spec_step(self.spec_run(s, events.drop_last()), events.last())
        }
    }

    /// The state after one iteration: after the events of its body (the
    /// answers on neighbour, objective and acceptance), the temperature that
    /// the schedule gave, and the answer to the report where one was asked
    /// for.
    pub open spec fn spec_iterate(
        &self,
        s: Search<Seq<Scalar>>,
        body: Seq<Event<Seq<Scalar>>>,
        t: Scalar,
        reported: Event<Seq<Scalar>>,
    ) -> Search<Seq<Scalar>> {
        let cooled = self.spec_step(self.spec_run(s, body), Event::Temperature(t));
        if cooled.phase == Phase::Reporting {
            self.spec_step(cooled, reported)
        } else {
            cooled
        }
    }

    /// The state after as many iterations as `bodies` holds, the i-th with
    /// the temperature `temps[i]`.
    pub open spec fn spec_iterations(
        &self,
        s: Search<Seq<Scalar>>,
        bodies: Seq<Seq<Event<Seq<Scalar>>>>,
        temps: Seq<Scalar>,
        reports: Seq<Event<Seq<Scalar>>>,
    ) -> Search<Seq<Scalar>>
        decreases bodies.len(),
    {
        if bodies.len() == 0 || temps.len() == 0 || reports.len() == 0 {
            s
        } else {
            self.spec_iterate(
                self.spec_iterations(s, bodies.drop_last(), temps.drop_last(), reports.drop_last()),
                bodies.last(),
                temps.last(),
                reports.last(),
            )
        }
    }

    /// Whether every strategy answered in each of the iterations: each body
    /// holds no temperature and brings the search to the point where the
    /// schedule is asked.
    pub open spec fn answered(
        &self,
        s: Search<Seq<Scalar>>,
        bodies: Seq<Seq<Event<Seq<Scalar>>>>,
        temps: Seq<Scalar>,
        reports: Seq<Event<Seq<Scalar>>>,
    ) -> bool
        decreases bodies.len(),
    {
        if bodies.len() == 0 || temps.len() == 0 || reports.len() == 0 {
            true
        } else {
            let before = self.spec_iterations(
                s,
                bodies.drop_last(),
                temps.drop_last(),
                reports.drop_last(),
            );
            &&& self.answered(s, bodies.drop_last(), temps.drop_last(), reports.drop_last())
            &&& quiet(bodies.last())
            &&& self.spec_run(before, bodies.last()).phase == Phase::Cooling
        }
    }

    /// What holds of every state of a search with the normal method: as much
    /// of the candidate as there is lies in the bounds, coordinate by
    /// coordinate, and a whole candidate has the dimension of the space.
    pub open spec fn confined(&self, s: Search<Seq<Scalar>>) -> bool {
        &&& s.phase != Phase::Idle ==> s.p.len() == self.p_0@.len()
        &&& s.phase == Phase::Proposing ==> within(s.cand_p, self.bounds@)
        &&& s.has_candidate() ==> within(s.cand_p, self.bounds@) && s.cand_p.len()
            == self.p_0@.len()
    }

    /// The search before its first event.
    pub open spec fn spec_begin(&self) -> Search<Seq<Scalar>> {
        Search {
            phase: Phase::Idle,
            k: 1,
            t: self.t_0,
            p: self.p_0@,
            f: Scalar { bits: 0 },
            best_p: self.p_0@,
            best_f: Scalar { bits: 0 },
            cand_p: self.p_0@,
            cand_f: Scalar { bits: 0 },
            diff: Scalar { bits: 0 },
        }
    }

    /// Whether two configurations hold the same values.
    pub open spec fn same_as(&self, other: &SA) -> bool {
        &&& self.p_0@ == other.p_0@
        &&& self.t_0 == other.t_0
        &&& self.t_min == other.t_min
        &&& self.bounds@ == other.bounds@
        &&& self.apf == other.apf
        &&& self.neighbour == other.neighbour
        &&& self.schedule == other.schedule
        &&& self.status == other.status
    }

    /// An idle search at the initial point and temperature.
    pub fn begin(&self) -> (state: Search<Point>)
        ensures
            state@ == self.spec_begin(),
    {
        Search {
            phase: Phase::Idle,
            k: 1,
            t: self.t_0,
            p: copy_point(&self.p_0),
            f: Scalar::zero(),
            best_p: copy_point(&self.p_0),
            best_f: Scalar::zero(),
            cand_p: copy_point(&self.p_0),
            cand_f: Scalar::zero(),
            diff: Scalar::zero(),
        }
    }

    fn sampled(&self, state: &mut Search<Point>, draw: Draw)
        ensures
            final(state)@ == self.spec_sampled(old(state)@, draw),
    {
        let mut partial: Point = Vec::new();
        std::mem::swap(&mut partial, &mut state.cand_p);
        let proposal = self.neighbour.neighbour(&state.p, &self.bounds, &mut partial, draw);
        state.cand_p = partial;
        state.phase = match proposal {
            Ok(Proposal::Complete) => Phase::Evaluating,
            Ok(_) => Phase::Proposing,
            Err(e) => Phase::Failed(e),
        };
    }

    fn resume(&self, state: &mut Search<Point>)
        ensures
            final(state)@ == self.spec_resume(old(state)@),
    {
        if state.t.gt(self.t_min) {
            state.cand_p = Vec::new();
            self.sampled(state, Draw::Nothing);
        } else {
            state.phase = Phase::Converged;
        }
    }

    fn decided(&self, state: &mut Search<Point>, accepted: bool)
        ensures
            final(state)@ == self.spec_decided(old(state)@, accepted),
    {
        if state.cand_f.lt(state.best_f) {
            state.best_p = copy_point(&state.cand_p);
            state.best_f = state.cand_f;
        }
        if accepted {
            state.p = copy_point(&state.cand_p);
            state.f = state.cand_f;
        }
        state.phase = match self.schedule.cool(state.k, state.t, self.t_0) {
            Ok(_) => Phase::Cooling,
            Err(e) => Phase::Failed(e),
        };
    }

    fn advance(&self, state: &mut Search<Point>)
        ensures
            final(state)@ == self.spec_advance(old(state)@),
    {
        if state.k < usize::MAX {
            state.k = state.k + 1;
            self.resume(state);
        } else if state.t.gt(self.t_min) {
            state.phase = Phase::Failed(Error::ScheduleFailed);
        } else {
            state.phase = Phase::Converged;
        }
    }

    /// What `state` asks for.
    pub fn request(&self, state: &Search<Point>) -> (action: Action<Point>)
        ensures
            action@ == self.pending(state@),
    {
        match state.phase {
            Phase::Idle => Action::Evaluate { p: copy_point(&self.p_0) },
            Phase::Initial => Action::Evaluate { p: copy_point(&state.p) },
            Phase::Proposing => {
                let i: usize = state.cand_p.len();
                match self.neighbour {
                    Method::Normal { sd } => {
                        if i < state.p.len() {
                            Action::Sample { mean: state.p[i], sd }
                        } else {
                            Action::Neighbour { p: copy_point(&state.p) }
                        }
                    },
                    Method::Custom => Action::Neighbour { p: copy_point(&state.p) },
                }
            },
            Phase::Evaluating => Action::Evaluate { p: copy_point(&state.cand_p) },
            Phase::Differencing => Action::Subtract {
                minuend: state.cand_f,
                subtrahend: state.f,
            },
            Phase::Drawing => Action::Trial { diff: state.diff, t: state.t },
            Phase::Judging => Action::Accept { diff: state.diff, t: state.t },
            Phase::Cooling => match self.schedule.cool(state.k, state.t, self.t_0) {
                Ok(rule) => Action::Cool { rule },
                Err(error) => Action::Abort { error },
            },
            Phase::Reporting => Action::Report {
                k: state.k,
                t: state.t,
                f: state.f,
                p: copy_point(&state.p),
                best_f: state.best_f,
                best_p: copy_point(&state.best_p),
            },
            Phase::Converged => Action::Done {
                best_f: state.best_f,
                best_p: copy_point(&state.best_p),
            },
            Phase::Failed(error) => Action::Abort { error },
        }
    }

    /// Find the global minimum of the objective, one event at a time.
    ///
    /// Takes the outcome of what the last call asked for, moves the search
    /// on and says what it asks for next. An idle search is set going by
    /// any event and asks for the objective at the initial point. Then each
    /// iteration gets a neighbour of the current point from the neighbour
    /// method, asks for the objective at that candidate and for the
    /// difference to the current value, lets the acceptance function decide
    /// whether to move there, lets the schedule lower the temperature and
    /// lets the status function report; then the index goes up by one, and
    /// the search ends as converged unless the temperature is still above
    /// the minimum. The candidate replaces the best point whenever its
    /// objective is below the best value, accepted or not.
    ///
    /// An event that is not the answer to what was asked for ends the search
    /// as failed at that stage, and so does a neighbour of another dimension
    /// than the initial point, a normal method whose spread is not a finite
    /// number above zero (before any sample is asked for), and an index that
    /// cannot go up while the search is to go on. A report cannot fail: any event answers it. A
    /// search that has ended stays as it is.
    pub fn findmin(&self, state: &mut Search<Point>, event: Event<Point>) -> (action: Action<Point>)
        requires
            self.wf(),
        ensures
            final(state)@ == self.spec_step(old(state)@, event@),
            action@ == self.pending(final(state)@),
            old(state)@.under_way() ==> final(state)@.best_f == old(state)@.best_f
                || final(state)@.best_f.spec_lt(old(state)@.best_f),
            old(state)@.ended() ==> final(state)@ == old(state)@,
    {
        match state.phase {
            Phase::Idle => {
                state.phase = Phase::Initial;
                state.k = 1;
                state.t = self.t_0;
                state.p = copy_point(&self.p_0);
                state.best_p = copy_point(&self.p_0);
                state.cand_p = copy_point(&self.p_0);
            },
            Phase::Initial => match event {
                Event::Value(v) => {
                    state.f = v;
                    state.best_f = v;
                    state.cand_f = v;
                    self.resume(state);
                },
                _ => {
                    state.phase = Phase::Failed(Error::ObjectiveEvaluationFailed);
                },
            },
            Phase::Proposing => match (event, self.neighbour) {
                (Event::Sample(x), Method::Normal { .. }) => {
                    self.sampled(state, Draw::Sample(x));
                },
                (Event::Neighbour(c), Method::Custom) => {
                    if c.len() == self.p_0.len() {
                        state.phase = Phase::Evaluating;
                        state.cand_p = c;
                    } else {
                        state.phase = Phase::Failed(Error::NeighbourGenerationFailed);
                    }
                },
                _ => {
                    state.phase = Phase::Failed(Error::NeighbourGenerationFailed);
                },
            },
            Phase::Evaluating => match event {
                Event::Value(v) => {
                    state.phase = Phase::Differencing;
                    state.cand_f = v;
                },
                _ => {
                    state.phase = Phase::Failed(Error::ObjectiveEvaluationFailed);
                },
            },
            Phase::Differencing => match event {
                Event::Value(d) => {
                    state.diff = d;
                    match self.apf.accept(d, None) {
                        Verdict::Accept => self.decided(state, true),
                        Verdict::Reject => self.decided(state, false),
                        Verdict::Draw => {
                            state.phase = Phase::Drawing;
                        },
                        Verdict::Ask => {
                            state.phase = Phase::Judging;
                        },
                    }
                },
                _ => {
                    state.phase = Phase::Failed(Error::CustomStrategyFailed);
                },
            },
            Phase::Drawing => match event {
                Event::Trial(c) => match self.apf.accept(state.diff, Some(c)) {
                    Verdict::Accept => self.decided(state, true),
                    Verdict::Reject => self.decided(state, false),
                    _ => {
                        state.phase = Phase::Failed(Error::CustomStrategyFailed);
                    },
                },
                _ => {
                    state.phase = Phase::Failed(Error::CustomStrategyFailed);
                },
            },
            Phase::Judging => match event {
                Event::Decided(accepted) => self.decided(state, accepted),
                _ => {
                    state.phase = Phase::Failed(Error::CustomStrategyFailed);
                },
            },
            Phase::Cooling => match event {
                Event::Temperature(t) => {
                    state.t = t;
                    if self.status.is_due(state.k) {
                        state.phase = Phase::Reporting;
                    } else {
                        self.advance(state);
                    }
                },
                _ => {
                    state.phase = Phase::Failed(Error::ScheduleFailed);
                },
            },
            Phase::Reporting => self.advance(state),
            Phase::Converged => {},
            Phase::Failed(_) => {},
        }
        self.request(state)
    }
}

} // verus!
