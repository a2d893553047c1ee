//! What holds of every search: the guarantees of the engine, proved over
//! its transition function.

use crate::apf::{Chance, APF};
use crate::error::Error;
use crate::neighbour::{spec_spread_ok, Method};
use crate::sa::{quiet, Action, Event, Phase, Search, SA};
use crate::scalar::Scalar;
use crate::schedule::{Cooling, Schedule};
use crate::space::within;
use crate::status::Status;
use vstd::prelude::*;

verus! {

/// The best value never rises: after any run of events from a search that is
/// under way, the best value is the one before or below it.
pub proof fn lemma_best_never_rises(
    sa: SA,
    s: Search<Seq<Scalar>>,
    events: Seq<Event<Seq<Scalar>>>,
)
    requires
        s.under_way(),
    ensures
        sa.spec_run(s, events).under_way(),
        sa.spec_run(s, events).best_f == s.best_f || sa.spec_run(s, events).best_f.spec_lt(
            s.best_f,
        ),
    decreases events.len(),
{
    if events.len() > 0 {
        lemma_best_never_rises(sa, s, events.drop_last());
    }
}

/// The best value is never above the current one: whatever run of events a
/// search has taken from its beginning, the objective at the current point
/// is not below the best value.
pub proof fn lemma_best_is_not_above_current(
    sa: SA,
    s: Search<Seq<Scalar>>,
    events: Seq<Event<Seq<Scalar>>>,
)
    requires
        s == sa.spec_begin(),
    ensures
        !sa.spec_run(s, events).f.spec_lt(sa.spec_run(s, events).best_f),
    decreases events.len(),
{
    if events.len() > 0 {
        lemma_best_is_not_above_current(sa, s, events.drop_last());
    }
}

/// Within an iteration the temperature is above the minimum: an acceptance
/// function is never asked at a temperature at or below it. The index is at
/// least 1.
pub proof fn lemma_iteration_is_warm(
    sa: SA,
    s: Search<Seq<Scalar>>,
    events: Seq<Event<Seq<Scalar>>>,
)
    requires
        s == sa.spec_begin(),
    ensures
        sa.spec_run(s, events).in_iteration() ==> sa.spec_run(s, events).t.spec_gt(sa.t_min),
        sa.spec_run(s, events).k >= 1,
    decreases events.len(),
{
    if events.len() > 0 {
        lemma_iteration_is_warm(sa, s, events.drop_last());
    }
}

/// The index never falls and never starts again: after any run of events
/// from a search that has begun, it is the one before or above it.
pub proof fn lemma_index_never_falls(
    sa: SA,
    s: Search<Seq<Scalar>>,
    events: Seq<Event<Seq<Scalar>>>,
)
    requires
        s.phase != Phase::Idle,
    ensures
        sa.spec_run(s, events).phase != Phase::Idle,
        sa.spec_run(s, events).k >= s.k,
    decreases events.len(),
{
    if events.len() > 0 {
        lemma_index_never_falls(sa, s, events.drop_last());
    }
}

/// The best point does not depend on acceptance: a candidate whose objective
/// is below the best value becomes the best point whether or not the search
/// moves to it, and no other candidate does; so the best value is never
/// above the candidate's. The search moves to the candidate exactly if it
/// was accepted.
pub proof fn lemma_best_ignores_acceptance(sa: SA, s: Search<Seq<Scalar>>, accepted: bool)
    ensures
        !s.cand_f.spec_lt(sa.spec_decided(s, accepted).best_f),
        ({
            let n = sa.spec_decided(s, accepted);
            if s.cand_f.spec_lt(s.best_f) {
                n.best_f == s.cand_f && n.best_p == s.cand_p
            } else {
                n.best_f == s.best_f && n.best_p == s.best_p
            }
        }),
        ({
            let n = sa.spec_decided(s, accepted);
            if accepted {
                n.f == s.cand_f && n.p == s.cand_p
            } else {
                n.f == s.f && n.p == s.p
            }
        }),
{
}

/// A search that has ended stays as it is, whatever events follow.
pub proof fn lemma_ended_stays(sa: SA, s: Search<Seq<Scalar>>, events: Seq<Event<Seq<Scalar>>>)
    requires
        s.ended(),
    ensures
        sa.spec_run(s, events) == s,
    decreases events.len(),
{
    if events.len() > 0 {
        lemma_ended_stays(sa, s, events.drop_last());
    }
}

/// The search ends in the iteration in which the schedule hands back a
/// temperature that is not above the minimum: after that temperature, and
/// the report where one is due, it has converged on the best value and point
/// it held.
pub proof fn lemma_cold_converges(
    sa: SA,
    s: Search<Seq<Scalar>>,
    t: Scalar,
    reported: Event<Seq<Scalar>>,
)
    requires
        s.phase == Phase::Cooling,
        !t.spec_gt(sa.t_min),
    ensures
        ({
            let cooled = sa.spec_step(s, Event::Temperature(t));
            let n = if sa.status.due(s.k) {
                sa.spec_step(cooled, reported)
            } else {
                cooled
            };
            &&& sa.status.due(s.k) ==> cooled.phase == Phase::Reporting
            &&& n.phase == Phase::Converged
            &&& sa.pending(n) == Action::Done { best_f: s.best_f, best_p: s.best_p }
        }),
{
}

/// While the temperature handed back is above the minimum, the search goes
/// on with the next index and a candidate that is still to be found (in a
/// space of no dimension the normal method has found it at once), unless the
/// index cannot go up. A normal method whose spread is not a finite number
/// above zero fails the search there, before any sample is asked for.
pub proof fn lemma_warm_goes_on(
    sa: SA,
    s: Search<Seq<Scalar>>,
    t: Scalar,
    reported: Event<Seq<Scalar>>,
)
    requires
        s.phase == Phase::Cooling,
        t.spec_gt(sa.t_min),
    ensures
        ({
            let cooled = sa.spec_step(s, Event::Temperature(t));
            let n = if sa.status.due(s.k) {
                sa.spec_step(cooled, reported)
            } else {
                cooled
            };
            let spoilt = match sa.neighbour {
                Method::Normal { sd } => !spec_spread_ok(sd) && s.p.len() > 0,
                Method::Custom => false,
            };
            if s.k < usize::MAX {
                &&& n.k == s.k + 1
                &&& n.t == t
                &&& spoilt <==> n.phase == Phase::Failed(Error::NeighbourGenerationFailed)
                &&& !spoilt ==> n.phase == Phase::Proposing || (n.phase == Phase::Evaluating
                    && s.p.len() == 0)
                &&& n.phase == Phase::Proposing ==> n.cand_p.len() == 0
            } else {
                n.phase == Phase::Failed(Error::ScheduleFailed)
            }
        }),
{
}

/// A search whose initial temperature is not above the minimum converges on
/// the initial point without an iteration.
pub proof fn lemma_cold_start(sa: SA, s: Search<Seq<Scalar>>, start: Event<Seq<Scalar>>, v: Scalar)
    requires
        s.phase == Phase::Idle,
        !sa.t_0.spec_gt(sa.t_min),
    ensures
        sa.pending(sa.spec_step(s, start)) == (Action::Evaluate { p: sa.p_0@ }),
        sa.pending(sa.spec_step(sa.spec_step(s, start), Event::Value(v))) == (Action::Done {
            best_f: v,
            best_p: sa.p_0@,
        }),
{
}

/// With strategies of the caller's own, one iteration asks each of them
/// once, in a fixed order: the neighbour method for a neighbour of the
/// current point, the objective at it, the acceptance function with the
/// difference to the current value and the temperature of the iteration, the
/// schedule with the index and that temperature, and the status function
/// with what holds after all of these.
pub proof fn lemma_iteration_order(
    sa: SA,
    s: Search<Seq<Scalar>>,
    c: Seq<Scalar>,
    v: Scalar,
    d: Scalar,
    accepted: bool,
    t: Scalar,
)
    requires
        sa.neighbour == Method::Custom,
        sa.apf == APF::Custom,
        sa.schedule == Schedule::Custom,
        sa.status == Status::Custom,
        s.phase == Phase::Proposing,
        c.len() == sa.p_0@.len(),
    ensures
        ({
            let s1 = sa.spec_step(s, Event::Neighbour(c));
            let s2 = sa.spec_step(s1, Event::Value(v));
            let s3 = sa.spec_step(s2, Event::Value(d));
            let s4 = sa.spec_step(s3, Event::Decided(accepted));
            let s5 = sa.spec_step(s4, Event::Temperature(t));
            &&& sa.pending(s) == Action::Neighbour { p: s.p }
            &&& sa.pending(s1) == Action::Evaluate { p: c }
            &&& sa.pending(s2) == Action::<Seq<Scalar>>::Subtract { minuend: v, subtrahend: s.f }
            &&& sa.pending(s3) == Action::<Seq<Scalar>>::Accept { diff: d, t: s.t }
            &&& sa.pending(s4) == Action::<Seq<Scalar>>::Cool {
                rule: Cooling::Ask { k: s.k, t: s.t, t_0: sa.t_0 },
            }
            &&& sa.pending(s5) == Action::Report {
                k: s.k,
                t,
                f: if accepted { v } else { s.f },
                p: if accepted { c } else { s.p },
                best_f: s4.best_f,
                best_p: s4.best_p,
            }
        }),
{
}

/// With the Metropolis criterion no random trial is asked for where the
/// candidate is no worse: the search moves to it at once. Where it is worse,
/// one trial is asked for, and the search moves exactly if the sample is
/// below the probability.
pub proof fn lemma_metropolis_draws_when_worse(
    sa: SA,
    s: Search<Seq<Scalar>>,
    d: Scalar,
    c: Chance,
)
    requires
        sa.apf == APF::Metropolis,
        s.phase == Phase::Differencing,
    ensures
        ({
            let n = sa.spec_step(s, Event::Value(d));
            if d.spec_le(Scalar { bits: 0 }) {
                n == sa.spec_decided(Search { diff: d, ..s }, true)
            } else {
                &&& sa.pending(n) == Action::<Seq<Scalar>>::Trial { diff: d, t: s.t }
                &&& sa.spec_step(n, Event::Trial(c)) == sa.spec_decided(n, c.spec_succeeds())
            }
        }),
{
}

/// A stage that fails ends the search at once, with the error of that stage.
pub proof fn lemma_failure_aborts(sa: SA, s: Search<Seq<Scalar>>)
    requires
        s.phase != Phase::Idle,
        s.phase != Phase::Reporting,
        !s.ended(),
    ensures
        ({
            let n = sa.spec_step(s, Event::Failure);
            &&& n.phase == Phase::Failed(
                match s.phase {
                    Phase::Initial | Phase::Evaluating => Error::ObjectiveEvaluationFailed,
                    Phase::Proposing => Error::NeighbourGenerationFailed,
                    Phase::Cooling => Error::ScheduleFailed,
                    _ => Error::CustomStrategyFailed,
                },
            )
            &&& sa.pending(n) == Action::<Seq<Scalar>>::Abort { error: n.phase->Failed_0 }
        }),
{
}

/// With the normal method every candidate lies in the bounds: what holds of
/// a state holds of the next one, so that each point whose objective is
/// asked for in an iteration has a coordinate for each dimension, inside the
/// interval of that dimension.
pub proof fn lemma_candidates_stay_in_bounds(
    sa: SA,
    s: Search<Seq<Scalar>>,
    e: Event<Seq<Scalar>>,
)
    requires
        sa.neighbour != Method::Custom,
        sa.p_0@.len() == sa.bounds@.len(),
        sa.confined(s),
    ensures
        sa.confined(sa.spec_step(s, e)),
        sa.spec_step(s, e).phase == Phase::Evaluating ==> sa.pending(sa.spec_step(s, e)) == (
        Action::Evaluate { p: sa.spec_step(s, e).cand_p }) && within(
            sa.spec_step(s, e).cand_p,
            sa.bounds@,
        ) && sa.spec_step(s, e).cand_p.len() == sa.bounds@.len(),
{
}

/// With the normal method, every state that a search reaches from its
/// beginning keeps its candidate in the bounds.
pub proof fn lemma_search_is_confined(
    sa: SA,
    s: Search<Seq<Scalar>>,
    events: Seq<Event<Seq<Scalar>>>,
)
    requires
        sa.neighbour != Method::Custom,
        sa.p_0@.len() == sa.bounds@.len(),
        s.phase == Phase::Idle,
    ensures
        sa.confined(sa.spec_run(s, events)),
    decreases events.len(),
{
    if events.len() > 0 {
        lemma_search_is_confined(sa, s, events.drop_last());
        lemma_candidates_stay_in_bounds(sa, sa.spec_run(s, events.drop_last()), events.last());
    }
}

/// A search is determined by its configuration and the events it is
/// handed: two configurations of the same values take any run of events from
/// a state to the same state, and ask for the same thing next.
pub proof fn lemma_runs_are_determined(
    a: SA,
    b: SA,
    s: Search<Seq<Scalar>>,
    events: Seq<Event<Seq<Scalar>>>,
)
    requires
        a.same_as(&b),
    ensures
        a.spec_begin() == b.spec_begin(),
        a.spec_run(s, events) == b.spec_run(s, events),
        a.pending(a.spec_run(s, events)) == b.pending(b.spec_run(s, events)),
    decreases events.len(),
{
    if events.len() > 0 {
        lemma_runs_are_determined(a, b, s, events.drop_last());
    }
}

/// A search whose initial temperature is above the minimum is, once the
/// objective at the initial point is known, within its first iteration: the
/// index is 1, the temperature the initial one, and the initial point is
/// both the current and the best one. A normal method whose spread is not a
/// finite number above zero fails it there.
pub proof fn lemma_warm_start(sa: SA, start: Event<Seq<Scalar>>, v: Scalar)
    requires
        sa.t_0.spec_gt(sa.t_min),
    ensures
        ({
            let s = sa.spec_step(sa.spec_step(sa.spec_begin(), start), Event::Value(v));
            &&& s.k == 1
            &&& s.t == sa.t_0
            &&& s.f == v
            &&& s.p == sa.p_0@
            &&& s.best_f == v
            &&& s.best_p == sa.p_0@
            &&& s.in_iteration() || s.phase == Phase::Failed(Error::NeighbourGenerationFailed)
        }),
{
}

/// Within an iteration neither the index nor the temperature changes:
/// events that hold no temperature leave both as they are, and leave the
/// search within the iteration or end it.
pub proof fn lemma_body_keeps_index(
    sa: SA,
    s: Search<Seq<Scalar>>,
    body: Seq<Event<Seq<Scalar>>>,
)
    requires
        s.in_iteration() || s.ended(),
        quiet(body),
    ensures
        sa.spec_run(s, body).k == s.k,
        sa.spec_run(s, body).t == s.t,
        sa.spec_run(s, body).in_iteration() || sa.spec_run(s, body).ended(),
        s.ended() ==> sa.spec_run(s, body) == s,
    decreases body.len(),
{
    if body.len() > 0 {
        let front = body.drop_last();
        assert forall|i: int| 0 <= i < front.len() implies !(#[trigger] front[i] is Temperature) by {
            assert(front[i] == body[i]);
        }
        assert(!(body[body.len() - 1] is Temperature));
        lemma_body_keeps_index(sa, s, front);
    }
}

/// While the schedule gives temperatures above the minimum, the search makes
/// one iteration for each: after `n` iterations in which every strategy
/// answered, the index has gone up by `n`, the temperature is the last one
/// given, and the search is within the next iteration, unless the normal
/// method has a spread that fails it there. In each iteration the schedule
/// is asked with the index of that iteration and the temperature that the
/// iteration before it ended with.
pub proof fn lemma_warm_iterations(
    sa: SA,
    s: Search<Seq<Scalar>>,
    bodies: Seq<Seq<Event<Seq<Scalar>>>>,
    temps: Seq<Scalar>,
    reports: Seq<Event<Seq<Scalar>>>,
)
    requires
        s.in_iteration(),
        bodies.len() == temps.len(),
        bodies.len() == reports.len(),
        s.k + bodies.len() <= usize::MAX,
        sa.answered(s, bodies, temps, reports),
        forall|i: int| 0 <= i < temps.len() ==> (#[trigger] temps[i]).spec_gt(sa.t_min),
    ensures
        ({
            let r = sa.spec_iterations(s, bodies, temps, reports);
            &&& r.k == s.k + bodies.len()
            &&& r.t == if temps.len() == 0 {
                s.t
            } else {
                temps.last()
            }
            &&& r.in_iteration() || r.phase == Phase::Failed(Error::NeighbourGenerationFailed)
        }),
        bodies.len() > 0 ==> ({
            let before = sa.spec_iterations(
                s,
                bodies.drop_last(),
                temps.drop_last(),
                reports.drop_last(),
            );
            let asked = sa.spec_run(before, bodies.last());
            &&& asked.phase == Phase::Cooling
            &&& asked.k == s.k + bodies.len() - 1
            &&& asked.t == before.t
        }),
    decreases bodies.len(),
{
    if bodies.len() > 0 {
        let front = temps.drop_last();
        assert forall|i: int| 0 <= i < front.len() implies (#[trigger] front[i]).spec_gt(
            sa.t_min,
        ) by {
            assert(front[i] == temps[i]);
        }
        lemma_warm_iterations(sa, s, bodies.drop_last(), front, reports.drop_last());
        let before = sa.spec_iterations(s, bodies.drop_last(), front, reports.drop_last());
        assert(temps.last().spec_gt(sa.t_min));
        lemma_body_keeps_index(sa, before, bodies.last());
    }
}

/// A search ends with the first temperature that is not above the minimum:
/// where the schedule gives `temps[0]`, .., `temps[K - 1]`, of which only the
/// last is not above the minimum, and every strategy answers in each
/// iteration, the search makes exactly `K` iterations. It then has converged
/// on the best value and point it held when the schedule was last asked,
/// and its index has gone up by `K`.
pub proof fn lemma_ends_with_first_cold_temperature(
    sa: SA,
    s: Search<Seq<Scalar>>,
    bodies: Seq<Seq<Event<Seq<Scalar>>>>,
    temps: Seq<Scalar>,
    reports: Seq<Event<Seq<Scalar>>>,
)
    requires
        s.in_iteration(),
        bodies.len() >= 1,
        bodies.len() == temps.len(),
        bodies.len() == reports.len(),
        s.k + bodies.len() <= usize::MAX,
        sa.answered(s, bodies, temps, reports),
        forall|i: int| 0 <= i < temps.len() - 1 ==> (#[trigger] temps[i]).spec_gt(sa.t_min),
        !temps.last().spec_gt(sa.t_min),
    ensures
        ({
            let before = sa.spec_iterations(
                s,
                bodies.drop_last(),
                temps.drop_last(),
                reports.drop_last(),
            );
            let asked = sa.spec_run(before, bodies.last());
            let r = sa.spec_iterations(s, bodies, temps, reports);
            &&& before.in_iteration()
            &&& before.k == s.k + bodies.len() - 1
            &&& asked.phase == Phase::Cooling
            &&& asked.k == before.k
            &&& asked.t == before.t
            &&& r.phase == Phase::Converged
            &&& r.k == s.k + bodies.len()
            &&& r.t == temps.last()
            &&& sa.pending(r) == Action::Done { best_f: asked.best_f, best_p: asked.best_p }
        }),
{
    let front = temps.drop_last();
    assert forall|i: int| 0 <= i < front.len() implies (#[trigger] front[i]).spec_gt(sa.t_min) by {
        assert(front[i] == temps[i]);
    }
    lemma_warm_iterations(sa, s, bodies.drop_last(), front, reports.drop_last());
    let before = sa.spec_iterations(s, bodies.drop_last(), front, reports.drop_last());
    lemma_body_keeps_index(sa, before, bodies.last());
}

} // verus!
