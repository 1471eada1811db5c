use ssprk::rational::Rational;
use ssprk::runge_kutta::{
    advance_rk1, advance_rk2, advance_rk3, InvalidRungeKuttaOrder, RungeKuttaOrder,
    WeightedAverage,
};
use ssprk::stages::StageAction;

fn rat(n: i64, d: i64) -> Rational {
    Rational::new(n, d)
}

fn parts(r: Rational) -> (i64, i64) {
    (r.numer(), r.denom())
}

#[derive(Clone, Debug, PartialEq)]
struct Scalar {
    time: f64,
    iteration: Rational,
    conserved: f64,
}

impl Scalar {
    fn plus(self, o: &Scalar) -> Scalar {
        Scalar {
            time: self.time + o.time,
            iteration: self.iteration.add(o.iteration),
            conserved: self.conserved + o.conserved,
        }
    }

    fn scaled(self, w: Rational) -> Scalar {
        let f = w.numer() as f64 / w.denom() as f64;
        Scalar { time: self.time * f, iteration: self.iteration.mul(w), conserved: self.conserved * f }
    }
}

impl WeightedAverage for Scalar {
    fn weighted_average(self, b: Rational, s0: &Scalar) -> Scalar {
        let one = Rational::from_integer(1);
        self.scaled(one.sub(b)).plus(&s0.clone().scaled(b))
    }

    fn duplicate(&self) -> Scalar {
        self.clone()
    }
}

fn unit_step() -> Scalar {
    Scalar { time: 1.0, iteration: Rational::from_integer(1), conserved: 1.0 }
}

#[test]
fn order_from_valid_codes() {
    assert_eq!(RungeKuttaOrder::try_from(1), Ok(RungeKuttaOrder::RK1));
    assert_eq!(RungeKuttaOrder::try_from(2), Ok(RungeKuttaOrder::RK2));
    assert_eq!(RungeKuttaOrder::try_from(3), Ok(RungeKuttaOrder::RK3));
}

#[test]
fn order_from_invalid_codes() {
    for code in [0i64, 4, -1, i64::MAX, i64::MIN] {
        assert_eq!(RungeKuttaOrder::try_from(code), Err(InvalidRungeKuttaOrder {}));
    }
    assert_eq!(InvalidRungeKuttaOrder {}.message(), "Runge-Kutta order must be 1, 2, or 3");
}

#[test]
fn rational_new_reduces_to_lowest_terms() {
    assert_eq!(parts(rat(2, 4)), (1, 2));
    assert_eq!(parts(rat(-1, -2)), (1, 2));
    assert_eq!(parts(rat(3, -6)), (-1, 2));
    assert_eq!(parts(rat(0, -7)), (0, 1));
    assert_eq!(parts(Rational::new_raw(2, 4)), (2, 4));
}

#[test]
fn rational_arithmetic_is_exact() {
    assert_eq!(parts(rat(1, 2).add(rat(1, 3))), (5, 6));
    assert_eq!(parts(rat(1, 2).add(rat(1, 2))), (1, 1));
    assert_eq!(parts(rat(1, 2).sub(rat(3, 4))), (-1, 4));
    assert_eq!(parts(rat(2, 3).mul(rat(9, 4))), (3, 2));
    assert_eq!(parts(rat(-2, 3).mul(rat(0, 1))), (0, 1));
}

#[test]
fn rational_weighted_average() {
    let r = Rational::from_integer(1).weighted_average(rat(1, 2), &Rational::from_integer(0));
    assert_eq!(parts(r), (1, 2));
    let r = rat(4, 1).weighted_average(rat(3, 4), &rat(8, 1));
    assert_eq!(parts(r), (7, 1));
    let r = rat(5, 1).weighted_average(rat(1, 3), &rat(2, 1));
    assert_eq!(parts(r), (4, 1));
}

#[test]
fn rk1_identity_update_keeps_state() {
    let s0 = rat(7, 3);
    assert_eq!(advance_rk1(s0, |s| s), s0);
    assert_eq!(RungeKuttaOrder::RK1.advance(s0, |s| s), s0);
}

#[test]
fn rk2_rk3_with_unit_increment_add_exactly_one() {
    let one = Rational::from_integer(1);
    let s0 = rat(5, 7);
    assert_eq!(parts(advance_rk2(s0, |s: Rational| s.add(one))), (12, 7));
    assert_eq!(parts(advance_rk3(s0, |s: Rational| s.add(one))), (12, 7));
}

#[test]
fn thousands_of_steps_keep_iteration_exact() {
    let one = Rational::from_integer(1);
    for order in [RungeKuttaOrder::RK2, RungeKuttaOrder::RK3] {
        let mut s = Rational::from_integer(0);
        for _ in 0..5000 {
            s = order.advance(s, |x: Rational| x.add(one));
        }
        assert_eq!(parts(s), (5000, 1));
    }
}

#[test]
fn scalar_state_end_to_end() {
    let s0 = Scalar { time: 0.0, iteration: Rational::from_integer(0), conserved: 10.0 };
    let expected = Scalar { time: 1.0, iteration: Rational::from_integer(1), conserved: 11.0 };
    let r1 = RungeKuttaOrder::RK1.advance(s0.clone(), |s: Scalar| s.plus(&unit_step()));
    assert_eq!(r1, expected);
    let r2 = RungeKuttaOrder::RK2.advance(s0.clone(), |s: Scalar| s.plus(&unit_step()));
    assert_eq!(r2, expected);
    let r3 = RungeKuttaOrder::RK3.advance(s0, |s: Scalar| s.plus(&unit_step()));
    assert_eq!(parts(r3.iteration), (1, 1));
    assert!((r3.time - 1.0).abs() < 1e-12);
    assert!((r3.conserved - 11.0).abs() < 1e-12);
}

#[test]
fn stage_schedule() {
    assert_eq!(RungeKuttaOrder::RK1.stages(), 1);
    assert_eq!(RungeKuttaOrder::RK2.stages(), 2);
    assert_eq!(RungeKuttaOrder::RK3.stages(), 3);
    assert_eq!(RungeKuttaOrder::RK3.stage_weight(0), None);
    assert_eq!(RungeKuttaOrder::RK3.stage_weight(1).map(parts), Some((3, 4)));
    assert_eq!(RungeKuttaOrder::RK3.stage_weight(2).map(parts), Some((1, 3)));
    assert_eq!(RungeKuttaOrder::RK2.stage_weight(1).map(parts), Some((1, 2)));
    assert_eq!(RungeKuttaOrder::RK1.after_update(0, true), StageAction::Finish { blend: None });
    assert_eq!(
        RungeKuttaOrder::RK2.after_update(0, true),
        StageAction::Next { blend: None }
    );
    assert_eq!(
        RungeKuttaOrder::RK2.after_update(1, true),
        StageAction::Finish { blend: Some(rat(1, 2)) }
    );
    assert_eq!(RungeKuttaOrder::RK3.after_update(1, false), StageAction::Abort);
}

/// Runs a fallible step the way an asynchronous driver does, counting updates.
fn drive(order: RungeKuttaOrder, s0: Rational, fail_at: usize) -> (Result<Rational, String>, usize) {
    let one = Rational::from_integer(1);
    let mut calls = 0usize;
    let mut s = s0;
    let mut stage = 0usize;
    loop {
        calls += 1;
        let out: Result<Rational, String> =
            if calls == fail_at { Err(format!("stage {} failed", calls)) } else { Ok(s.add(one)) };
        match order.after_update(stage, out.is_ok()) {
            StageAction::Abort => return (out, calls),
            StageAction::Next { blend } => {
                s = out.unwrap();
                if let Some(b) = blend {
                    s = s.weighted_average(b, &s0);
                }
                stage += 1;
            }
            StageAction::Finish { blend } => {
                s = out.unwrap();
                if let Some(b) = blend {
                    s = s.weighted_average(b, &s0);
                }
                return (Ok(s), calls);
            }
        }
    }
}

#[test]
fn failed_second_stage_stops_the_step() {
    let (r, calls) = drive(RungeKuttaOrder::RK3, Rational::from_integer(0), 2);
    assert_eq!(r, Err("stage 2 failed".to_string()));
    assert_eq!(calls, 2);
    let (r, calls) = drive(RungeKuttaOrder::RK3, Rational::from_integer(0), 0);
    assert_eq!(r.map(parts), Ok((1, 1)));
    assert_eq!(calls, 3);
}
