//! Exact rationals over `i64`, computed by `num`'s `Ratio<i64>`.
use num::rational::Ratio;
use vstd::prelude::*;

verus! {

/// The range a part of a rational may take here: `i64` without `i64::MIN`,
/// so that every sign change and every gcd stays in range.
pub open spec fn fits(x: int) -> bool {
    -0x7fff_ffff_ffff_ffff <= x <= 0x7fff_ffff_ffff_ffff
}

/// The magnitude of `x`.
pub open spec fn abs(x: int) -> int {
    if x < 0 { -x } else { x }
}

/// Two fractions `(numerator, denominator)` with nonzero denominators
/// denote the same number.
pub open spec fn same_value(a: (int, int), b: (int, int)) -> bool {
    a.0 * b.1 == b.0 * a.1
}

/// The sum of two fractions, over the product of their denominators.
pub open spec fn frac_add(a: (int, int), b: (int, int)) -> (int, int) {
    (a.0 * b.1 + b.0 * a.1, a.1 * b.1)
}

/// The difference of two fractions, over the product of their denominators.
pub open spec fn frac_sub(a: (int, int), b: (int, int)) -> (int, int) {
    (a.0 * b.1 - b.0 * a.1, a.1 * b.1)
}

/// The product of two fractions, part by part.
pub open spec fn frac_mul(a: (int, int), b: (int, int)) -> (int, int) {
    (a.0 * b.0, a.1 * b.1)
}

/// No integer above one divides both parts of the fraction.
pub open spec fn lowest_terms(x: (int, int)) -> bool {
    forall|g: int| #![trigger x.0 % g, x.1 % g] g > 1 ==> !(x.0 % g == 0 && x.1 % g == 0)
}

/// An exact rational number, kept as a fraction with a positive denominator.
#[derive(Clone, Copy, Debug, PartialEq, Eq)]
pub struct Rational {
    numer: i64,
    denom: i64,
}

impl View for Rational {
    type V = (int, int);

    closed spec fn view(&self) -> (int, int) {
        (self.numer as int, self.denom as int)
    }
}

impl Rational {
    /// The denominator is positive and the numerator is in range.
    pub open spec fn wf(&self) -> bool {
        &&& self@.1 > 0
        &&& fits(self@.0)
    }

    /// The numerator.
    pub fn numer(&self) -> (r: i64)
        ensures
            r == self@.0,
    {
        self.numer
    }

    /// The denominator, always positive.
    pub fn denom(&self) -> (r: i64)
        ensures
            r == self@.1,
    {
        self.denom
    }

    /// The rational `numer / denom` in lowest terms.
    pub fn new(numer: i64, denom: i64) -> (r: Rational)
        requires
            denom != 0,
            fits(numer as int),
            fits(denom as int),
        ensures
            r.wf(),
            lowest_terms(r@),
            same_value(r@, (numer as int, denom as int)),
            r@.1 <= abs(denom as int),
            abs(r@.0) <= abs(numer as int),
    {
        ratio_new(numer, denom)
    }

    /// The fraction `numer / denom` exactly as given, not reduced.
    pub fn new_raw(numer: i64, denom: i64) -> (r: Rational)
        requires
            denom > 0,
            fits(numer as int),
        ensures
            r.wf(),
            r@ == (numer as int, denom as int),
    {
        Rational { numer, denom }
    }

    /// The integer `n` as a rational.
    pub fn from_integer(n: i64) -> (r: Rational)
        requires
            fits(n as int),
        ensures
            r.wf(),
            r@ == (n as int, 1int),
    {
        Rational { numer: n, denom: 1 }
    }
    /// `self + other`, exact.
    pub fn add(self, other: Rational) -> (r: Rational)
        requires
            self.wf(),
            other.wf(),
            abs(self@.0 * other@.1) + abs(other@.0 * self@.1) <= i64::MAX,
            self@.1 * other@.1 <= i64::MAX,
        ensures
            r.wf(),
            lowest_terms(r@),
            same_value(r@, frac_add(self@, other@)),
            r@.1 <= self@.1 * other@.1,
            abs(r@.0) <= abs(frac_add(self@, other@).0),
    {
        ratio_add(self, other)
    }

    /// `self - other`, exact.
    pub fn sub(self, other: Rational) -> (r: Rational)
        requires
            self.wf(),
            other.wf(),
            abs(self@.0 * other@.1) + abs(other@.0 * self@.1) <= i64::MAX,
            self@.1 * other@.1 <= i64::MAX,
        ensures
            r.wf(),
            lowest_terms(r@),
            same_value(r@, frac_sub(self@, other@)),
            r@.1 <= self@.1 * other@.1,
            abs(r@.0) <= abs(frac_sub(self@, other@).0),
    {
        ratio_sub(self, other)
    }

    /// `self * other`, exact.
    pub fn mul(self, other: Rational) -> (r: Rational)
        requires
            self.wf(),
            other.wf(),
            abs(self@.0 * other@.0) <= i64::MAX,
            self@.1 * other@.1 <= i64::MAX,
        ensures
            r.wf(),
            lowest_terms(r@),
            same_value(r@, frac_mul(self@, other@)),
            r@.1 <= self@.1 * other@.1,
            abs(r@.0) <= abs(self@.0 * other@.0),
    {
        ratio_mul(self, other)
    }
}


/// Relies on `Ratio::new`: it divides both parts by their gcd and makes the
/// denominator positive, so the result is the same number in lowest terms.
#[verifier::external_body]
fn ratio_new(numer: i64, denom: i64) -> (r: Rational)
    requires
        denom != 0,
        fits(numer as int),
        fits(denom as int),
    ensures
        r.wf(),
        lowest_terms(r@),
        same_value(r@, (numer as int, denom as int)),
        r@.1 <= abs(denom as int),
        abs(r@.0) <= abs(numer as int),
{
    let q = Ratio::new(numer, denom);
    Rational { numer: *q.numer(), denom: *q.denom() }
}

} // verus!

verus! {

/// Relies on `Add for Ratio<i64>`: the exact sum, brought to lowest terms by
/// `Ratio::new`. Its intermediates (the lcm of the denominators and the two
/// rescaled numerators) are bounded by the cross products that `requires`
/// keeps in range.
#[verifier::external_body]
fn ratio_add(a: Rational, b: Rational) -> (r: Rational)
    requires
        a.wf(),
        b.wf(),
        abs(a@.0 * b@.1) + abs(b@.0 * a@.1) <= i64::MAX,
        a@.1 * b@.1 <= i64::MAX,
    ensures
        r.wf(),
        lowest_terms(r@),
        same_value(r@, frac_add(a@, b@)),
        r@.1 <= a@.1 * b@.1,
        abs(r@.0) <= abs(frac_add(a@, b@).0),
{
    let q = Ratio::new_raw(a.numer, a.denom) + Ratio::new_raw(b.numer, b.denom);
    Rational { numer: *q.numer(), denom: *q.denom() }
}

/// Relies on `Sub for Ratio<i64>`: the exact difference in lowest terms, with
/// the same intermediates as the sum.
#[verifier::external_body]
fn ratio_sub(a: Rational, b: Rational) -> (r: Rational)
    requires
        a.wf(),
        b.wf(),
        abs(a@.0 * b@.1) + abs(b@.0 * a@.1) <= i64::MAX,
        a@.1 * b@.1 <= i64::MAX,
    ensures
        r.wf(),
        lowest_terms(r@),
        same_value(r@, frac_sub(a@, b@)),
        r@.1 <= a@.1 * b@.1,
        abs(r@.0) <= abs(frac_sub(a@, b@).0),
{
    let q = Ratio::new_raw(a.numer, a.denom) - Ratio::new_raw(b.numer, b.denom);
    Rational { numer: *q.numer(), denom: *q.denom() }
}

/// Relies on `Mul for Ratio<i64>`: the exact product in lowest terms; it
/// cancels common factors first, so its intermediates are bounded by the
/// plain products of numerators and of denominators.
#[verifier::external_body]
fn ratio_mul(a: Rational, b: Rational) -> (r: Rational)
    requires
        a.wf(),
        b.wf(),
        abs(a@.0 * b@.0) <= i64::MAX,
        a@.1 * b@.1 <= i64::MAX,
    ensures
        r.wf(),
        lowest_terms(r@),
        same_value(r@, frac_mul(a@, b@)),
        r@.1 <= a@.1 * b@.1,
        abs(r@.0) <= abs(a@.0 * b@.0),
{
    let q = Ratio::new_raw(a.numer, a.denom) * Ratio::new_raw(b.numer, b.denom);
    Rational { numer: *q.numer(), denom: *q.denom() }
}

} // verus!

verus! {

/// Equal value is transitive through a fraction with a nonzero denominator.
pub proof fn lemma_same_value_trans(a: (int, int), b: (int, int), c: (int, int))
    requires
        b.1 != 0,
        same_value(a, b),
        same_value(b, c),
    ensures
        same_value(a, c),
{
    assert((a.0 * c.1) * b.1 == (c.0 * a.1) * b.1) by (nonlinear_arith)
        requires
            a.0 * b.1 == b.0 * a.1,
            b.0 * c.1 == c.0 * b.1,
    ;
    assert(a.0 * c.1 == c.0 * a.1) by (nonlinear_arith)
        requires
            (a.0 * c.1) * b.1 == (c.0 * a.1) * b.1,
            b.1 != 0,
    ;
}

proof fn lemma_mul4(p: int, q: int, r: int, t: int)
    ensures
        (p * q) * (r * t) == (p * r) * (q * t),
{
    assert((p * q) * (r * t) == (p * r) * (q * t)) by (nonlinear_arith);
}

proof fn lemma_cross_sum(a0: int, a1: int, b0: int, b1: int, x0: int, x1: int, y0: int, y1: int)
    requires
        a0 * x1 == x0 * a1,
        b0 * y1 == y0 * b1,
    ensures
        (a0 * b1 + b0 * a1) * (x1 * y1) == (x0 * y1 + y0 * x1) * (a1 * b1),
{
    let (u, v) = (a0 * b1, b0 * a1);
    assert((u + v) * (x1 * y1) == u * (x1 * y1) + v * (x1 * y1)) by (nonlinear_arith);
    lemma_mul4(a0, b1, x1, y1);
    lemma_mul4(b0, a1, y1, x1);
    let (m, n) = (x0 * y1, y0 * x1);
    assert((m + n) * (a1 * b1) == m * (a1 * b1) + n * (a1 * b1)) by (nonlinear_arith);
    lemma_mul4(x0, y1, a1, b1);
    lemma_mul4(y0, x1, b1, a1);
    assert(x1 * y1 == y1 * x1 && a1 * b1 == b1 * a1 && b1 * y1 == y1 * b1) by (nonlinear_arith);
}

/// Sums of equal values are equal.
pub proof fn lemma_add_congruent(a: (int, int), b: (int, int), x: (int, int), y: (int, int))
    requires
        same_value(a, x),
        same_value(b, y),
    ensures
        same_value(frac_add(a, b), frac_add(x, y)),
{
    lemma_cross_sum(a.0, a.1, b.0, b.1, x.0, x.1, y.0, y.1);
}

/// Products of equal values are equal.
pub proof fn lemma_mul_congruent(a: (int, int), b: (int, int), x: (int, int), y: (int, int))
    requires
        same_value(a, x),
        same_value(b, y),
    ensures
        same_value(frac_mul(a, b), frac_mul(x, y)),
{
    assert((a.0 * b.0) * (x.1 * y.1) == (x.0 * y.0) * (a.1 * b.1)) by (nonlinear_arith)
        requires
            a.0 * x.1 == x.0 * a.1,
            b.0 * y.1 == y.0 * b.1,
    ;
}

} // verus!

verus! {

/// A bound on the magnitude of a product from bounds on its factors.
pub proof fn lemma_abs_mul_le(x: int, y: int, bx: int, by: int)
    requires
        abs(x) <= bx,
        abs(y) <= by,
    ensures
        abs(x * y) <= bx * by,
        abs(x * y) == abs(x) * abs(y),
{
    assert(abs(x * y) == abs(x) * abs(y)) by (nonlinear_arith);
    assert(abs(x) * abs(y) <= bx * by) by (nonlinear_arith)
        requires
            0 <= abs(x) <= bx,
            0 <= abs(y) <= by,
    ;
}

} // verus!

verus! {

/// Scaling both parts of a fraction keeps its value.
pub proof fn lemma_rescale(p: int, q: int, m: int)
    ensures
        same_value((p, q), (p * m, q * m)),
{
    assert(p * (q * m) == (p * m) * q) by (nonlinear_arith);
}

/// The sum of two values written over one denominator `d`.
pub proof fn lemma_add_common(x: (int, int), y: (int, int), p: int, q: int, d: int)
    requires
        same_value(x, (p, d)),
        same_value(y, (q, d)),
        d != 0,
    ensures
        same_value(frac_add(x, y), (p + q, d)),
{
    lemma_add_congruent(x, y, (p, d), (q, d));
    assert((p * d + q * d) * d == (p + q) * (d * d)) by (nonlinear_arith);
    assert(d * d != 0) by (nonlinear_arith)
        requires
            d != 0,
    ;
    lemma_same_value_trans(frac_add(x, y), frac_add((p, d), (q, d)), (p + q, d));
}

} // verus!
