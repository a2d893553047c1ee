use simulated_annealing::neighbour::spread_ok;
use simulated_annealing::{
    cast, Chance, Cooling, Draw, Error, Interval, NeighbourMethod, Proposal, Scalar, Schedule,
    Status, Verdict, APF,
};

fn s(x: f64) -> Scalar {
    Scalar::from_bits(x.to_bits())
}

fn x(v: Scalar) -> f64 {
    f64::from_bits(v.to_bits())
}

fn samples() -> Vec<f64> {
    vec![
        0.0,
        -0.0,
        1.0,
        -1.0,
        0.5,
        -0.5,
        2.0,
        22.790_580_66,
        -22.790_580_66,
        1e-310,
        -1e-310,
        5e-324,
        -5e-324,
        f64::MIN_POSITIVE,
        f64::MAX,
        f64::MIN,
        f64::EPSILON,
        1.0 + f64::EPSILON,
        1e300,
        -1e300,
        f64::INFINITY,
        f64::NEG_INFINITY,
        f64::NAN,
        -f64::NAN,
        f64::from_bits(0x7FF0_0000_0000_0001),
        f64::from_bits(0xFFFF_FFFF_FFFF_FFFF),
    ]
}

#[test]
fn scalar_keeps_its_bits() {
    for a in samples() {
        assert_eq!(s(a).to_bits(), a.to_bits());
        assert_eq!(s(a), Scalar { bits: a.to_bits() });
    }
    assert_eq!(x(Scalar::zero()), 0.0);
    assert_eq!(x(Scalar::one()), 1.0);
    assert_eq!(Scalar::zero().to_bits(), 0);
}

#[test]
fn scalar_order_is_the_order_of_numbers() {
    for a in samples() {
        assert_eq!(s(a).is_nan(), a.is_nan(), "is_nan {a}");
        for b in samples() {
            assert_eq!(s(a).lt(s(b)), a < b, "{a} < {b}");
            assert_eq!(s(a).le(s(b)), a <= b, "{a} <= {b}");
            assert_eq!(s(a).gt(s(b)), a > b, "{a} > {b}");
        }
    }
}

#[test]
fn scalar_zeros_are_equal_in_order() {
    assert!(s(0.0).le(s(-0.0)));
    assert!(s(-0.0).le(s(0.0)));
    assert!(!s(-0.0).lt(s(0.0)));
    assert!(!s(0.0).lt(s(-0.0)));
}

#[test]
fn scalar_nan_is_never_ordered() {
    let nan = s(f64::NAN);
    assert!(!nan.lt(nan));
    assert!(!nan.le(nan));
    assert!(!nan.gt(s(0.0)));
    assert!(!s(0.0).lt(nan));
}

#[test]
fn interval_is_half_open() {
    let r = Interval::new(s(1.0), s(27.8));
    assert!(r.contains(s(1.0)));
    assert!(r.contains(s(27.799_999)));
    assert!(!r.contains(s(27.8)));
    assert!(!r.contains(s(0.999_999)));
    assert!(!r.contains(s(f64::NAN)));
    for a in samples() {
        assert_eq!(r.contains(s(a)), (1.0..27.8).contains(&a), "{a}");
        assert_eq!(
            Interval::new(s(-3.5), s(0.0)).contains(s(a)),
            (-3.5..0.0).contains(&a),
            "{a}"
        );
    }
}

#[test]
fn interval_with_low_above_high_is_empty() {
    let r = Interval::new(s(2.0), s(1.0));
    for a in samples() {
        assert!(!r.contains(s(a)));
    }
}

#[test]
fn metropolis_accepts_what_is_no_worse() {
    for diff in [0.0, -0.0, -1e-300, -1.0, f64::NEG_INFINITY] {
        assert_eq!(APF::Metropolis.accept(s(diff), None), Verdict::Accept);
        for u in [0.0, 0.5, 0.999_999] {
            for p in [0.0, 0.3, 1.0, f64::NAN] {
                let chance = Chance { sample: s(u), probability: s(p) };
                assert_eq!(APF::Metropolis.accept(s(diff), Some(chance)), Verdict::Accept);
            }
        }
    }
}

#[test]
fn metropolis_asks_for_a_trial_on_a_worse_candidate() {
    for diff in [5e-324, 1.0, 1e300, f64::INFINITY, f64::NAN] {
        assert_eq!(APF::Metropolis.accept(s(diff), None), Verdict::Draw);
    }
}

#[test]
fn metropolis_accepts_a_worse_candidate_below_the_probability() {
    let t: f64 = 10.0;
    for diff in [0.1, 1.0, 5.0, 100.0] {
        let p: f64 = (-diff / t).exp();
        for u in [0.0, 0.1, 0.36, 0.37, 0.6, 0.9, 0.99, 0.999_999] {
            let chance = Chance { sample: s(u), probability: s(p) };
            let expected = if u < f64::min(p, 1.0) { Verdict::Accept } else { Verdict::Reject };
            assert_eq!(APF::Metropolis.accept(s(diff), Some(chance)), expected);
        }
    }
    let hit = Chance { sample: s(0.25), probability: s(0.5) };
    assert_eq!(APF::Metropolis.accept(s(1.0), Some(hit)), Verdict::Accept);
    let miss = Chance { sample: s(0.5), probability: s(0.5) };
    assert_eq!(APF::Metropolis.accept(s(1.0), Some(miss)), Verdict::Reject);
}

#[test]
fn metropolis_caps_the_probability_at_one() {
    let above = Chance { sample: s(0.999), probability: s(3.0) };
    assert!(above.succeeds());
    let one = Chance { sample: s(1.0), probability: s(3.0) };
    assert!(!one.succeeds());
    let nan = Chance { sample: s(0.7), probability: s(f64::NAN) };
    assert_eq!(nan.succeeds(), 0.7 < f64::min(f64::NAN, 1.0));
    assert_eq!(APF::Metropolis.accept(s(f64::NAN), Some(nan)), Verdict::Accept);
}

#[test]
fn custom_acceptance_is_delegated() {
    let chance = Chance { sample: s(0.1), probability: s(0.9) };
    for diff in [-1.0, 0.0, 1.0, f64::NAN] {
        assert_eq!(APF::Custom.accept(s(diff), None), Verdict::Ask);
        assert_eq!(APF::Custom.accept(s(diff), Some(chance)), Verdict::Ask);
    }
}

#[test]
fn normal_neighbour_asks_for_each_coordinate_in_turn() {
    let method = NeighbourMethod::Normal { sd: s(5.0) };
    let p = vec![s(2.0), s(-7.0)];
    let bounds = vec![Interval::new(s(1.0), s(27.8)), Interval::new(s(-10.0), s(-5.0))];
    let mut partial = Vec::new();
    let first = method.neighbour(&p, &bounds, &mut partial, Draw::Nothing);
    assert_eq!(first, Ok(Proposal::Sample { mean: s(2.0), sd: s(5.0) }));
    assert!(partial.is_empty());
    let second = method.neighbour(&p, &bounds, &mut partial, Draw::Sample(s(3.25)));
    assert_eq!(second, Ok(Proposal::Sample { mean: s(-7.0), sd: s(5.0) }));
    assert_eq!(partial, vec![s(3.25)]);
    let third = method.neighbour(&p, &bounds, &mut partial, Draw::Sample(s(-5.5)));
    assert_eq!(third, Ok(Proposal::Complete));
    assert_eq!(partial, vec![s(3.25), s(-5.5)]);
}

#[test]
fn normal_neighbour_discards_what_is_out_of_bounds() {
    let method = NeighbourMethod::Normal { sd: s(5.0) };
    let p = vec![s(2.0)];
    let bounds = vec![Interval::new(s(1.0), s(27.8))];
    let mut partial = Vec::new();
    for out in [0.5, 27.8, 100.0, -3.0, f64::NAN, f64::INFINITY] {
        let again = method.neighbour(&p, &bounds, &mut partial, Draw::Sample(s(out)));
        assert_eq!(again, Ok(Proposal::Sample { mean: s(2.0), sd: s(5.0) }));
        assert!(partial.is_empty());
    }
    let done = method.neighbour(&p, &bounds, &mut partial, Draw::Sample(s(1.0)));
    assert_eq!(done, Ok(Proposal::Complete));
    assert_eq!(partial, vec![s(1.0)]);
}

#[test]
fn normal_neighbour_ignores_draws_once_complete() {
    let method = NeighbourMethod::Normal { sd: s(1.0) };
    let p = vec![s(2.0)];
    let bounds = vec![Interval::new(s(1.0), s(3.0))];
    let mut partial = vec![s(2.5)];
    assert_eq!(
        method.neighbour(&p, &bounds, &mut partial, Draw::Sample(s(2.0))),
        Ok(Proposal::Complete)
    );
    assert_eq!(method.neighbour(&p, &bounds, &mut partial, Draw::Failed), Ok(Proposal::Complete));
    assert_eq!(partial, vec![s(2.5)]);
}

#[test]
fn normal_neighbour_of_no_dimension_is_complete_at_once() {
    let method = NeighbourMethod::Normal { sd: s(f64::NAN) };
    let mut partial = Vec::new();
    let r = method.neighbour(&Vec::new(), &Vec::new(), &mut partial, Draw::Nothing);
    assert_eq!(r, Ok(Proposal::Complete));
    assert!(partial.is_empty());
}

#[test]
fn normal_neighbour_fails_on_a_spread_that_is_not_above_zero() {
    let p = vec![s(2.0), s(2.0)];
    let bounds = vec![Interval::new(s(1.0), s(3.0)), Interval::new(s(1.0), s(3.0))];
    for sd in [0.0, -0.0, -1.0, -1e-300, f64::NAN, f64::INFINITY, f64::NEG_INFINITY] {
        let method = NeighbourMethod::Normal { sd: s(sd) };
        for draw in [Draw::Nothing, Draw::Sample(s(2.5)), Draw::Failed] {
            let mut partial = Vec::new();
            assert_eq!(
                method.neighbour(&p, &bounds, &mut partial, draw),
                Err(Error::NeighbourGenerationFailed),
                "{sd}"
            );
            assert!(partial.is_empty());
            let mut partial = vec![s(1.5)];
            assert_eq!(
                method.neighbour(&p, &bounds, &mut partial, draw),
                Err(Error::NeighbourGenerationFailed),
                "{sd}"
            );
            assert_eq!(partial, vec![s(1.5)]);
        }
    }
    for sd in [5e-324, 1e-300, 1.0, 5.0, f64::MAX] {
        let method = NeighbourMethod::Normal { sd: s(sd) };
        let mut partial = Vec::new();
        assert_eq!(
            method.neighbour(&p, &bounds, &mut partial, Draw::Nothing),
            Ok(Proposal::Sample { mean: s(2.0), sd: s(sd) })
        );
    }
}

#[test]
fn spread_ok_is_finite_and_above_zero() {
    for a in samples() {
        assert_eq!(spread_ok(s(a)), a.is_finite() && a > 0.0, "{a}");
        assert_eq!(s(a).is_finite(), a.is_finite(), "{a}");
    }
}

#[test]
fn normal_neighbour_fails_with_the_draw() {
    let method = NeighbourMethod::Normal { sd: s(0.5) };
    let p = vec![s(2.0)];
    let bounds = vec![Interval::new(s(1.0), s(3.0))];
    let mut partial = Vec::new();
    assert_eq!(
        method.neighbour(&p, &bounds, &mut partial, Draw::Failed),
        Err(Error::NeighbourGenerationFailed)
    );
    assert!(partial.is_empty());
}

#[test]
fn custom_neighbour_is_delegated() {
    let p = vec![s(2.0)];
    let bounds = vec![Interval::new(s(1.0), s(3.0))];
    let mut partial = Vec::new();
    for draw in [Draw::Nothing, Draw::Sample(s(2.0)), Draw::Failed] {
        assert_eq!(
            NeighbourMethod::Custom.neighbour(&p, &bounds, &mut partial, draw),
            Ok(Proposal::Ask)
        );
        assert!(partial.is_empty());
    }
}

#[test]
fn cast_gives_the_number_that_is_the_counter() {
    assert_eq!(cast(0), Some(s(0.0)));
    assert_eq!(cast(1), Some(s(1.0)));
    assert_eq!(cast(2), Some(s(2.0)));
    assert_eq!(cast(3), Some(s(3.0)));
    assert_eq!(cast(100_000), Some(s(100_000.0)));
    for k in 0..5000usize {
        assert_eq!(cast(k), Some(s(k as f64)), "{k}");
    }
    for shift in 0..usize::BITS {
        for odd in [1usize, 3, 5, 0x1F_FFFF, 0x1234_5678_9ABC_D] {
            let k = odd.wrapping_shl(shift);
            if k.wrapping_shr(shift) == odd {
                assert_eq!(cast(k), Some(s(k as f64)), "{k}");
            }
        }
    }
}

#[test]
fn cast_does_not_round() {
    let limit: usize = 1 << 53;
    assert_eq!(cast(limit - 1), Some(s(9_007_199_254_740_991.0)));
    assert_eq!(cast(limit), Some(s(9_007_199_254_740_992.0)));
    assert_eq!(cast(limit + 1), None);
    assert_eq!(cast(limit + 2), Some(s(9_007_199_254_740_994.0)));
    assert_eq!(cast(limit + 3), None);
    assert_eq!(cast(usize::MAX), None);
    assert_eq!(cast(usize::MAX - 1), None);
    assert_eq!(cast(1 << 63), Some(s(9_223_372_036_854_775_808.0)));
}

fn temperature(c: Cooling) -> f64 {
    match c {
        Cooling::LogRatio { t_0, count } => x(t_0) * 2f64.ln() / x(cast(count).unwrap()).ln(),
        Cooling::Product { gamma, t } => x(gamma) * x(t),
        Cooling::Quotient { t_0, count } => x(t_0) / x(cast(count).unwrap()),
        Cooling::Ask { .. } => panic!("no formula of the library's"),
    }
}

#[test]
fn fast_schedule_divides_the_initial_temperature() {
    let first = Schedule::Fast.cool(1, s(100.0), s(100.0));
    assert_eq!(first, Ok(Cooling::Quotient { t_0: s(100.0), count: 1 }));
    assert_eq!(temperature(first.unwrap()), 100.0);
    let second = Schedule::Fast.cool(2, s(77.0), s(100.0));
    assert_eq!(second, Ok(Cooling::Quotient { t_0: s(100.0), count: 2 }));
    assert_eq!(temperature(second.unwrap()), 50.0);
}

#[test]
fn fast_schedule_fails_on_a_counter_that_is_no_number() {
    let limit: usize = 1 << 53;
    assert!(Schedule::Fast.cool(limit, s(1.0), s(100.0)).is_ok());
    assert_eq!(Schedule::Fast.cool(limit + 1, s(1.0), s(100.0)), Err(Error::ScheduleFailed));
    assert_eq!(Schedule::Fast.cool(usize::MAX, s(1.0), s(100.0)), Err(Error::ScheduleFailed));
}

#[test]
fn exponential_schedule_scales_the_running_temperature() {
    let schedule = Schedule::Exponential { gamma: s(0.9) };
    for k in [1, 2, 17, usize::MAX] {
        let r = schedule.cool(k, s(100.0), s(100.0));
        assert_eq!(r, Ok(Cooling::Product { gamma: s(0.9), t: s(100.0) }));
        assert_eq!(temperature(r.unwrap()), 90.0);
    }
    let r = schedule.cool(3, s(50.0), s(100.0));
    assert_eq!(temperature(r.unwrap()), 45.0);
}

#[test]
fn logarithmic_schedule_counts_one_ahead() {
    let first = Schedule::Logarithmic.cool(1, s(100.0), s(100.0));
    assert_eq!(first, Ok(Cooling::LogRatio { t_0: s(100.0), count: 2 }));
    assert_eq!(temperature(first.unwrap()), 100.0);
    let third = Schedule::Logarithmic.cool(3, s(1.0), s(100.0));
    assert_eq!(third, Ok(Cooling::LogRatio { t_0: s(100.0), count: 4 }));
    assert_eq!(temperature(third.unwrap()), 50.0);
}

#[test]
fn logarithmic_schedule_fails_at_the_last_index() {
    assert_eq!(
        Schedule::Logarithmic.cool(usize::MAX, s(1.0), s(100.0)),
        Err(Error::ScheduleFailed)
    );
    let limit: usize = 1 << 53;
    assert!(Schedule::Logarithmic.cool(limit - 1, s(1.0), s(100.0)).is_ok());
    assert_eq!(Schedule::Logarithmic.cool(limit, s(1.0), s(100.0)), Err(Error::ScheduleFailed));
    assert!(Schedule::Logarithmic.cool(limit + 1, s(1.0), s(100.0)).is_ok());
}

#[test]
fn custom_schedule_is_delegated() {
    assert_eq!(
        Schedule::Custom.cool(7, s(3.0), s(100.0)),
        Ok(Cooling::Ask { k: 7, t: s(3.0), t_0: s(100.0) })
    );
}

#[test]
fn silent_status_reports_nothing() {
    for k in [1, 2, 1000] {
        assert!(Status::Silent.print(k, s(1.0), s(2.0), vec![], s(3.0), vec![]).is_none());
    }
}

#[test]
fn periodic_status_of_period_zero_reports_nothing() {
    let status = Status::Periodic { nk: 0 };
    for k in [0usize, 1, 2, 1000, usize::MAX] {
        assert!(!status.is_due(k));
        assert!(status.print(k, s(1.0), s(2.0), vec![s(0.5)], s(3.0), vec![s(0.25)]).is_none());
    }
}

#[test]
fn periodic_status_reports_every_nk() {
    let status = Status::Periodic { nk: 1000 };
    for k in 1..=3000usize {
        let r = status.print(k, s(1.0), s(2.0), vec![s(0.5)], s(3.0), vec![s(0.25)]);
        assert_eq!(r.is_some(), k % 1000 == 0, "{k}");
    }
    assert!(Status::Periodic { nk: 1 }.print(7, s(1.0), s(2.0), vec![], s(3.0), vec![]).is_some());
}

#[test]
fn status_record_holds_what_it_was_given() {
    let r = Status::Custom
        .print(7, s(1.5), s(2.5), vec![s(0.5), s(0.75)], s(-3.0), vec![s(0.25), s(4.0)])
        .unwrap();
    assert_eq!(r.k, 7);
    assert_eq!(r.t, s(1.5));
    assert_eq!(r.f, s(2.5));
    assert_eq!(r.p, vec![s(0.5), s(0.75)]);
    assert_eq!(r.best_f, s(-3.0));
    assert_eq!(r.best_p, vec![s(0.25), s(4.0)]);
}
