//! Strong-stability-preserving Runge-Kutta advance, generic over the state.
use crate::rational::{
    abs, frac_add, frac_mul, frac_sub, lemma_abs_mul_le, lemma_add_common, lemma_add_congruent,
    lemma_mul_congruent, lemma_rescale, lemma_same_value_trans, same_value, Rational,
};
use vstd::prelude::*;

verus! {

/// The arithmetic a state needs to be advanced: a convex blend with the
/// step's initial state, and a logical copy.
///
/// The two spec functions say what a blend is and when it may be made. Their
/// defaults constrain nothing, so that states whose arithmetic is not
/// reasoned about (floating-point fields) can implement the trait; a type
/// proved here overrides both, as `Rational` does.
pub trait WeightedAverage: Sized {
    /// `r` is `self * (1 - b) + s0 * b` in this type's arithmetic.
    open spec fn is_weighted_average(&self, b: (int, int), s0: &Self, r: &Self) -> bool {
        true
    }

    /// The blend of `self` toward `s0` by `b` stays within this type's range.
    open spec fn can_average(&self, b: (int, int), s0: &Self) -> bool {
        true
    }

    fn weighted_average(self, b: Rational, s0: &Self) -> (r: Self)
        requires
            b.wf(),
            self.can_average(b@, s0),
        ensures
            self.is_weighted_average(b@, s0, &r),
    ;

    /// A logical copy of `self`.
    fn duplicate(&self) -> (r: Self)
        ensures
            r == *self,
    ;
}

/// `x * (1 - b) + s0 * b`, as a fraction.
pub open spec fn frac_blend(x: (int, int), b: (int, int), s0: (int, int)) -> (int, int) {
    frac_add(frac_mul(x, frac_sub((1, 1), b)), frac_mul(s0, b))
}

/// A rational is itself a state: its blend is exact.
impl WeightedAverage for Rational {
    open spec fn is_weighted_average(&self, b: (int, int), s0: &Self, r: &Self) -> bool {
        r.wf() && same_value(r@, frac_blend(self@, b, s0@))
    }

    /// Every intermediate of the blend, as `num` computes it, fits in `i64`.
    open spec fn can_average(&self, b: (int, int), s0: &Self) -> bool {
        let d1 = self@.1 * b.1;
        let d2 = s0@.1 * b.1;
        let m1 = abs(self@.0) * abs(b.1 - b.0);
        let m2 = abs(s0@.0) * abs(b.0);
        &&& self.wf()
        &&& s0.wf()
        &&& b.1 > 0
        &&& b.1 + abs(b.0) <= i64::MAX
        &&& m1 * d2 + m2 * d1 <= i64::MAX
        &&& d1 * d2 <= i64::MAX
    }

    fn weighted_average(self, b: Rational, s0: &Self) -> (r: Self) {
        let one = Rational::from_integer(1);
        assert(abs(1 * b@.1) + abs(b@.0 * 1) <= i64::MAX && 1 * b@.1 <= i64::MAX);
        let w = one.sub(b);
        let ghost d1 = self@.1 * b@.1;
        let ghost d2 = s0@.1 * b@.1;
        let ghost m1 = abs(self@.0) * abs(b@.1 - b@.0);
        let ghost m2 = abs(s0@.0) * abs(b@.0);
        proof {
            assert(frac_sub(one@, b@).0 == b@.1 - b@.0);
            assert(1 <= d1 && 1 <= d2) by (nonlinear_arith)
                requires
                    d1 == self@.1 * b@.1,
                    d2 == s0@.1 * b@.1,
                    self@.1 >= 1,
                    s0@.1 >= 1,
                    b@.1 >= 1,
            ;
            assert(0 <= m1 && 0 <= m2) by (nonlinear_arith)
                requires
                    m1 == abs(self@.0) * abs(b@.1 - b@.0),
                    m2 == abs(s0@.0) * abs(b@.0),
            ;
            assert(m1 <= m1 * d2 && m2 <= m2 * d1 && d1 <= d1 * d2 && d2 <= d1 * d2)
                by (nonlinear_arith)
                requires
                    1 <= d1,
                    1 <= d2,
                    0 <= m1,
                    0 <= m2,
            ;
            lemma_abs_mul_le(self@.0, w@.0, abs(self@.0), abs(b@.1 - b@.0));
            lemma_abs_mul_le(s0@.0, b@.0, abs(s0@.0), abs(b@.0));
            assert(self@.1 * w@.1 <= d1) by (nonlinear_arith)
                requires
                    self@.1 >= 1,
                    1 <= w@.1 <= b@.1,
                    d1 == self@.1 * b@.1,
            ;
        }
        let x = self.mul(w);
        let y = s0.mul(b);
        proof {
            lemma_abs_mul_le(x@.0, y@.1, m1, d2);
            lemma_abs_mul_le(y@.0, x@.1, m2, d1);
            assert(x@.1 * y@.1 <= d1 * d2) by (nonlinear_arith)
                requires
                    1 <= x@.1 <= d1,
                    1 <= y@.1 <= d2,
            ;
        }
        let r = x.add(y);
        proof {
            let sw = frac_mul(self@, w@);
            let sb = frac_mul(self@, frac_sub((1, 1), b@));
            lemma_mul_congruent(self@, w@, self@, frac_sub((1, 1), b@));
            assert(sw.1 != 0) by (nonlinear_arith)
                requires
                    sw.1 == self@.1 * w@.1,
                    self@.1 >= 1,
                    w@.1 >= 1,
            ;
            lemma_same_value_trans(x@, sw, sb);
            lemma_add_congruent(x@, y@, sb, frac_mul(s0@, b@));
            assert(frac_add(x@, y@).1 != 0) by (nonlinear_arith)
                requires
                    frac_add(x@, y@).1 == x@.1 * y@.1,
                    x@.1 >= 1,
                    y@.1 >= 1,
            ;
            lemma_same_value_trans(r@, frac_add(x@, y@), frac_blend(self@, b@, s0@));
        }
        r
    }

    fn duplicate(&self) -> (r: Self) {
        *self
    }
}

/// The update accepts `s0`.
pub open spec fn rk1_admits<S, F: Fn(S) -> S>(update: F, s0: S) -> bool {
    update.requires((s0,))
}

/// `r` is one forward-Euler step from `s0`.
pub open spec fn rk1_result<S, F: Fn(S) -> S>(update: F, s0: S, r: S) -> bool {
    update.ensures((s0,), r)
}

/// Each stage of the two-stage scheme can run from `s0`.
pub open spec fn rk2_admits<S: WeightedAverage, F: Fn(S) -> S>(update: F, s0: S) -> bool {
    &&& update.requires((s0,))
    &&& forall|s1: S| #[trigger] update.ensures((s0,), s1) ==> update.requires((s1,))
    &&& forall|s1: S, s2: S|
        update.ensures((s0,), s1) && #[trigger] update.ensures((s1,), s2) ==> s2.can_average(
            (1, 2),
            &s0,
        )
}

/// `r` is the two-stage result: `s2 * 1/2 + s0 * 1/2`, with `s2` two updates from `s0`.
pub open spec fn rk2_result<S: WeightedAverage, F: Fn(S) -> S>(update: F, s0: S, r: S) -> bool {
    exists|s1: S, s2: S|
        #[trigger] update.ensures((s0,), s1) && #[trigger] update.ensures((s1,), s2)
            && s2.is_weighted_average((1, 2), &s0, &r)
}

/// Each stage of the three-stage scheme can run from `s0`.
pub open spec fn rk3_admits<S: WeightedAverage, F: Fn(S) -> S>(update: F, s0: S) -> bool {
    &&& update.requires((s0,))
    &&& forall|s1: S| #[trigger] update.ensures((s0,), s1) ==> update.requires((s1,))
    &&& forall|s1: S, s2: S|
        update.ensures((s0,), s1) && #[trigger] update.ensures((s1,), s2) ==> s2.can_average(
            (3, 4),
            &s0,
        )
    &&& forall|s1: S, s2: S, s3: S|
        #![trigger update.ensures((s1,), s2), s2.is_weighted_average((3, 4), &s0, &s3)]
        update.ensures((s0,), s1) && update.ensures((s1,), s2) && s2.is_weighted_average(
            (3, 4),
            &s0,
            &s3,
        ) ==> update.requires((s3,))
    &&& forall|s1: S, s2: S, s3: S, s4: S|
        #![trigger update.ensures((s1,), s2), s2.is_weighted_average((3, 4), &s0, &s3), update.ensures((s3,), s4)]
        update.ensures((s0,), s1) && update.ensures((s1,), s2) && s2.is_weighted_average(
            (3, 4),
            &s0,
            &s3,
        ) && update.ensures((s3,), s4) ==> s4.can_average((1, 3), &s0)
}

/// `r` is the three-stage result: `s3 = s2 * 1/4 + s0 * 3/4` and
/// `r = s4 * 2/3 + s0 * 1/3`, where each `s(k+1)` is one update from `s(k)`.
pub open spec fn rk3_result<S: WeightedAverage, F: Fn(S) -> S>(update: F, s0: S, r: S) -> bool {
    exists|s1: S, s2: S, s3: S, s4: S|
        #[trigger] update.ensures((s0,), s1) && #[trigger] update.ensures((s1,), s2)
            && s2.is_weighted_average((3, 4), &s0, &s3) && #[trigger] update.ensures((s3,), s4)
            && s4.is_weighted_average((1, 3), &s0, &r)
}

/// Forward Euler: one update.
pub fn advance_rk1<S: WeightedAverage, F: Fn(S) -> S>(s0: S, update: F) -> (r: S)
    requires
        rk1_admits(update, s0),
    ensures
        rk1_result(update, s0, r),
{
    update(s0)
}

/// The two-stage strong-stability-preserving scheme.
pub fn advance_rk2<S: WeightedAverage, F: Fn(S) -> S>(s0: S, update: F) -> (r: S)
    requires
        rk2_admits(update, s0),
    ensures
        rk2_result(update, s0, r),
{
    let b1 = Rational::new_raw(1, 2);
    let s1 = s0.duplicate();
    let s1 = update(s1);
    let s2 = update(s1);
    let r = s2.weighted_average(b1, &s0);
    r
}

/// The three-stage strong-stability-preserving scheme.
pub fn advance_rk3<S: WeightedAverage, F: Fn(S) -> S>(s0: S, update: F) -> (r: S)
    requires
        rk3_admits(update, s0),
    ensures
        rk3_result(update, s0, r),
{
    let b1 = Rational::new_raw(3, 4);
    let b2 = Rational::new_raw(1, 3);
    let s1 = s0.duplicate();
    let s1 = update(s1);
    let s2 = update(s1);
    let s3 = s2.weighted_average(b1, &s0);
    let s4 = update(s3);
    let r = s4.weighted_average(b2, &s0);
    r
}

/// The error of building an order from an integer other than 1, 2 or 3.
#[derive(Clone, Copy, Debug, PartialEq, Eq)]
pub struct InvalidRungeKuttaOrder {}

impl InvalidRungeKuttaOrder {
    /// What went wrong, for a reader.
    pub fn message(&self) -> (r: &'static str)
        ensures
            r@ == "Runge-Kutta order must be 1, 2, or 3"@,
    {
        "Runge-Kutta order must be 1, 2, or 3"
    }
}

/// The scheme of a time step.
#[derive(Clone, Copy, Debug, PartialEq, Eq)]
pub enum RungeKuttaOrder {
    RK1,
    RK2,
    RK3,
}

/// The order that the integer code names, if any.
pub open spec fn order_of_code(code: int) -> Option<RungeKuttaOrder> {
    if code == 1 {
        Some(RungeKuttaOrder::RK1)
    } else if code == 2 {
        Some(RungeKuttaOrder::RK2)
    } else if code == 3 {
        Some(RungeKuttaOrder::RK3)
    } else {
        None
    }
}

impl RungeKuttaOrder {
    /// The order named by `order`: 1, 2 or 3, and nothing else.
    pub fn try_from(order: i64) -> (r: Result<RungeKuttaOrder, InvalidRungeKuttaOrder>)
        ensures
            order_of_code(order as int) matches Some(o) ==> r == Ok::<
                RungeKuttaOrder,
                InvalidRungeKuttaOrder,
            >(o),
            order_of_code(order as int) is None ==> r is Err,
    {
        match order {
            1 => Ok(RungeKuttaOrder::RK1),
            2 => Ok(RungeKuttaOrder::RK2),
            3 => Ok(RungeKuttaOrder::RK3),
            _ => Err(InvalidRungeKuttaOrder {  }),
        }
    }

    /// Every stage of this scheme can run from `s0`.
    pub open spec fn admits<S: WeightedAverage, F: Fn(S) -> S>(self, update: F, s0: S) -> bool {
        match self {
            RungeKuttaOrder::RK1 => rk1_admits(update, s0),
            RungeKuttaOrder::RK2 => rk2_admits(update, s0),
            RungeKuttaOrder::RK3 => rk3_admits(update, s0),
        }
    }

    /// `r` is one step of this scheme from `s0`.
    pub open spec fn advanced<S: WeightedAverage, F: Fn(S) -> S>(
        self,
        update: F,
        s0: S,
        r: S,
    ) -> bool {
        match self {
            RungeKuttaOrder::RK1 => rk1_result(update, s0, r),
            RungeKuttaOrder::RK2 => rk2_result(update, s0, r),
            RungeKuttaOrder::RK3 => rk3_result(update, s0, r),
        }
    }

    /// One time step of this scheme.
    pub fn advance<S: WeightedAverage, F: Fn(S) -> S>(self, state: S, update: F) -> (r: S)
        requires
            self.admits(update, state),
        ensures
            self.advanced(update, state, r),
    {
        match self {
            RungeKuttaOrder::RK1 => advance_rk1(state, update),
            RungeKuttaOrder::RK2 => advance_rk2(state, update),
            RungeKuttaOrder::RK3 => advance_rk3(state, update),
        }
    }
}

/// Forward Euler with an update that hands its argument back leaves the
/// state as it was.
pub proof fn lemma_rk1_identity_update<S: WeightedAverage, F: Fn(S) -> S>(update: F, s0: S, r: S)
    requires
        forall|s: S, t: S| #[trigger] update.ensures((s,), t) ==> t == s,
        RungeKuttaOrder::RK1.advanced(update, s0, r),
    ensures
        r == s0,
{
}

/// An update of rationals that adds `k` to whatever it is given.
pub open spec fn adds_fixed<F: Fn(Rational) -> Rational>(update: F, k: Rational) -> bool {
    forall|s: Rational, t: Rational| #[trigger]
        update.ensures((s,), t) ==> t.wf() && same_value(t@, frac_add(s@, k@))
}

/// `s0` and `k` written over the common denominator `s0.denom * k.denom`.
proof fn lemma_common_denominator(s0: Rational, k: Rational)
    requires
        s0.wf(),
        k.wf(),
    ensures
        s0@.1 * k@.1 > 0,
        same_value(s0@, (s0@.0 * k@.1, s0@.1 * k@.1)),
        same_value(k@, (k@.0 * s0@.1, s0@.1 * k@.1)),
        same_value(frac_add(s0@, k@), (s0@.0 * k@.1 + k@.0 * s0@.1, s0@.1 * k@.1)),
{
    lemma_rescale(s0@.0, s0@.1, k@.1);
    lemma_rescale(k@.0, k@.1, s0@.1);
    assert(k@.1 * s0@.1 == s0@.1 * k@.1 && s0@.1 * k@.1 > 0) by (nonlinear_arith)
        requires
            s0@.1 > 0,
            k@.1 > 0,
    ;
}

/// One more update of a state whose value is `(p, d)` gives `(p + c, d)`.
proof fn lemma_step<F: Fn(Rational) -> Rational>(
    update: F,
    k: Rational,
    s: Rational,
    t: Rational,
    p: int,
    c: int,
    d: int,
)
    requires
        adds_fixed(update, k),
        k.wf(),
        s.wf(),
        d > 0,
        update.ensures((s,), t),
        same_value(s@, (p, d)),
        same_value(k@, (c, d)),
    ensures
        t.wf(),
        same_value(t@, (p + c, d)),
{
    lemma_add_common(s@, k@, p, c, d);
    assert(frac_add(s@, k@).1 != 0) by (nonlinear_arith)
        requires
            s@.1 > 0,
            k@.1 > 0,
            frac_add(s@, k@).1 == s@.1 * k@.1,
    ;
    lemma_same_value_trans(t@, frac_add(s@, k@), (p + c, d));
}

/// The blend `x * (1 - b) + s0 * b` of values written over a common
/// denominator, with `b = (u, v)`.
proof fn lemma_blend_common(x: Rational, s0: Rational, u: int, v: int, px: int, p0: int, d: int)
    requires
        x.wf(),
        s0.wf(),
        v > 0,
        d > 0,
        same_value(x@, (px, d)),
        same_value(s0@, (p0, d)),
    ensures
        same_value(frac_blend(x@, (u, v), s0@), (px * (v - u) + p0 * u, d * v)),
{
    let w = frac_sub((1, 1), (u, v));
    assert(w == (v - u, v));
    lemma_mul_congruent(x@, w, (px, d), w);
    lemma_mul_congruent(s0@, (u, v), (p0, d), (u, v));
    assert(d * v != 0) by (nonlinear_arith)
        requires
            d > 0,
            v > 0,
    ;
    lemma_add_common(frac_mul(x@, w), frac_mul(s0@, (u, v)), px * (v - u), p0 * u, d * v);
}

/// With an update that adds a fixed `k`, the two-stage step adds exactly `k`.
pub proof fn lemma_rk2_fixed_increment<F: Fn(Rational) -> Rational>(
    update: F,
    k: Rational,
    s0: Rational,
    r: Rational,
)
    requires
        s0.wf(),
        k.wf(),
        adds_fixed(update, k),
        RungeKuttaOrder::RK2.advanced(update, s0, r),
    ensures
        same_value(r@, frac_add(s0@, k@)),
{
    let (s1, s2) = choose|s1: Rational, s2: Rational|
        #[trigger] update.ensures((s0,), s1) && #[trigger] update.ensures((s1,), s2)
            && s2.is_weighted_average((1, 2), &s0, &r);
    lemma_common_denominator(s0, k);
    let d = s0@.1 * k@.1;
    let a = s0@.0 * k@.1;
    let c = k@.0 * s0@.1;
    lemma_step(update, k, s0, s1, a, c, d);
    lemma_step(update, k, s1, s2, a + c, c, d);
    lemma_blend_common(s2, s0, 1, 2, a + c + c, a, d);
    lemma_rescale(a + c, d, 2);
    assert(frac_blend(s2@, (1, 2), s0@).1 != 0) by (nonlinear_arith)
        requires
            frac_blend(s2@, (1, 2), s0@).1 == (s2@.1 * 2) * (s0@.1 * 2),
            s2@.1 > 0,
            s0@.1 > 0,
    ;
    let m = ((a + c + c) * (2 - 1) + a * 1, d * 2);
    assert(m == ((a + c) * 2, d * 2));
    lemma_same_value_trans(r@, frac_blend(s2@, (1, 2), s0@), m);
    assert(d * 2 != 0);
    lemma_same_value_trans(r@, m, (a + c, d));
    lemma_same_value_trans(r@, (a + c, d), frac_add(s0@, k@));
}

/// With an update that adds a fixed `k`, the three-stage step adds exactly `k`.
pub proof fn lemma_rk3_fixed_increment<F: Fn(Rational) -> Rational>(
    update: F,
    k: Rational,
    s0: Rational,
    r: Rational,
)
    requires
        s0.wf(),
        k.wf(),
        adds_fixed(update, k),
        RungeKuttaOrder::RK3.advanced(update, s0, r),
    ensures
        same_value(r@, frac_add(s0@, k@)),
{
    let (s1, s2, s3, s4) = choose|s1: Rational, s2: Rational, s3: Rational, s4: Rational|
        #[trigger] update.ensures((s0,), s1) && #[trigger] update.ensures((s1,), s2)
            && s2.is_weighted_average((3, 4), &s0, &s3) && #[trigger] update.ensures((s3,), s4)
            && s4.is_weighted_average((1, 3), &s0, &r);
    lemma_common_denominator(s0, k);
    let d = s0@.1 * k@.1;
    let a = s0@.0 * k@.1;
    let c = k@.0 * s0@.1;
    lemma_step(update, k, s0, s1, a, c, d);
    lemma_step(update, k, s1, s2, a + c, c, d);
    // s3 = s2 * 1/4 + s0 * 3/4, over the denominator 4d.
    lemma_blend_common(s2, s0, 3, 4, a + c + c, a, d);
    let m3 = ((a + c + c) * (4 - 3) + a * 3, d * 4);
    assert(frac_blend(s2@, (3, 4), s0@).1 != 0) by (nonlinear_arith)
        requires
            frac_blend(s2@, (3, 4), s0@).1 == (s2@.1 * 4) * (s0@.1 * 4),
            s2@.1 > 0,
            s0@.1 > 0,
    ;
    lemma_same_value_trans(s3@, frac_blend(s2@, (3, 4), s0@), m3);
    // k and s0 over the denominator 4d.
    lemma_rescale(c, d, 4);
    lemma_same_value_trans(k@, (c, d), (c * 4, d * 4));
    lemma_rescale(a, d, 4);
    lemma_same_value_trans(s0@, (a, d), (a * 4, d * 4));
    assert(m3 == (a * 4 + c * 2, d * 4));
    lemma_step(update, k, s3, s4, a * 4 + c * 2, c * 4, d * 4);
    // r = s4 * 2/3 + s0 * 1/3, over the denominator 12d.
    lemma_blend_common(s4, s0, 1, 3, a * 4 + c * 6, a * 4, d * 4);
    let m = ((a * 4 + c * 6) * (3 - 1) + (a * 4) * 1, (d * 4) * 3);
    assert(frac_blend(s4@, (1, 3), s0@).1 != 0) by (nonlinear_arith)
        requires
            frac_blend(s4@, (1, 3), s0@).1 == (s4@.1 * 3) * (s0@.1 * 3),
            s4@.1 > 0,
            s0@.1 > 0,
    ;
    lemma_same_value_trans(r@, frac_blend(s4@, (1, 3), s0@), m);
    lemma_rescale(a + c, d, 12);
    assert(m == ((a + c) * 12, d * 12));
    lemma_same_value_trans(r@, m, (a + c, d));
    lemma_same_value_trans(r@, (a + c, d), frac_add(s0@, k@));
}

} // verus!
