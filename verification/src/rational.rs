//! Non-negative fractions.
//!
//! `Fraction` is the mathematical model: a numerator and a denominator of
//! unbounded size. `Rational` is the value that runs: 128-bit parts, computed
//! by `num::rational::Ratio<u128>`. This module holds both, the calls into
//! `num`, and the arithmetic facts that the rest of the crate builds on.

use num::rational::Ratio;
use num::ToPrimitive;
use vstd::arithmetic::div_mod::lemma_div_is_ordered;
use vstd::arithmetic::div_mod::lemma_fundamental_div_mod;
use vstd::arithmetic::div_mod::lemma_fundamental_div_mod_converse_div;
use vstd::arithmetic::div_mod::lemma_mod_multiples_basic;
use vstd::arithmetic::div_mod::lemma_small_mod;
use vstd::prelude::*;

verus! {

/// The fraction `numer / denom` of two natural numbers.
pub struct Fraction {
    pub numer: nat,
    pub denom: nat,
}

/// The fraction `numer / denom`.
pub open spec fn fraction(numer: nat, denom: nat) -> Fraction {
    Fraction { numer, denom }
}

impl Fraction {
    /// The denominator is not zero.
    pub open spec fn wf(self) -> bool {
        self.denom > 0
    }

    /// Both fractions are the same number.
    pub open spec fn same_value(self, other: Fraction) -> bool {
        self.numer * other.denom == other.numer * self.denom
    }

    /// No integer greater than one divides both parts.
    pub open spec fn in_lowest_terms(self) -> bool {
        forall|k: nat| k > 1 ==> !(#[trigger] (self.numer % k) == 0 && self.denom % k == 0)
    }

    /// This fraction is `other` written in lowest terms.
    pub open spec fn is_reduced_form_of(self, other: Fraction) -> bool {
        &&& self.wf()
        &&& self.same_value(other)
        &&& self.in_lowest_terms()
    }

    /// This fraction written in lowest terms.
    pub open spec fn reduced(self) -> Fraction
        recommends
            self.wf(),
    {
        choose|q: Fraction| q.is_reduced_form_of(self)
    }

    /// The nearest integer, half-way cases upwards.
    pub open spec fn rounded(self) -> nat
        recommends
            self.wf(),
    {
        (2 * self.numer + self.denom) / (2 * self.denom)
    }

    /// The integer part.
    pub open spec fn truncated(self) -> nat
        recommends
            self.wf(),
    {
        self.numer / self.denom
    }
}

/// A non-negative fraction with 128-bit parts.
#[derive(Clone, Copy, Debug, PartialEq, Eq, Structural)]
pub struct Rational {
    pub numer: u128,
    pub denom: u128,
}

impl View for Rational {
    type V = Fraction;

    open spec fn view(&self) -> Fraction {
        fraction(self.numer as nat, self.denom as nat)
    }
}

/// `Ratio::new`: the fraction `numer / denom` in lowest terms. The call
/// panics on a zero denominator, which `requires` leaves out.
#[verifier::external_body]
pub(crate) fn ratio_new(numer: u128, denom: u128) -> (r: Rational)
    requires
        denom > 0,
    ensures
        r@.is_reduced_form_of(fraction(numer as nat, denom as nat)),
{
    let q = Ratio::new(numer, denom);
    Rational { numer: *q.numer(), denom: *q.denom() }
}

/// `Ratio`'s `*`: the product of two fractions in lowest terms. The call
/// multiplies the numerators and the denominators after cancelling common
/// factors; `requires` keeps both products, even uncancelled, within `u128`.
#[verifier::external_body]
pub(crate) fn ratio_mul(a: Rational, b: Rational) -> (r: Rational)
    requires
        a@.wf(),
        b@.wf(),
        a.numer * b.numer <= u128::MAX,
        a.denom * b.denom <= u128::MAX,
    ensures
        r@.is_reduced_form_of(fraction(a@.numer * b@.numer, a@.denom * b@.denom)),
{
    let q = Ratio::new_raw(a.numer, a.denom) * Ratio::new_raw(b.numer, b.denom);
    Rational { numer: *q.numer(), denom: *q.denom() }
}

/// `Ratio`'s `/`: the quotient of two fractions in lowest terms. The call
/// multiplies crosswise after cancelling common factors and panics when the
/// divisor is zero; `requires` leaves that out and keeps both products, even
/// uncancelled, within `u128`.
#[verifier::external_body]
pub(crate) fn ratio_div(a: Rational, b: Rational) -> (r: Rational)
    requires
        a@.wf(),
        b@.wf(),
        b.numer > 0,
        a.numer * b.denom <= u128::MAX,
        a.denom * b.numer <= u128::MAX,
    ensures
        r@.is_reduced_form_of(fraction(a@.numer * b@.denom, a@.denom * b@.numer)),
{
    let q = Ratio::new_raw(a.numer, a.denom) / Ratio::new_raw(b.numer, b.denom);
    Rational { numer: *q.numer(), denom: *q.denom() }
}

/// `Ratio::round`: the nearest integer, as a fraction over one. Half-way
/// cases go away from zero, which for a non-negative fraction is upwards.
#[verifier::external_body]
pub(crate) fn ratio_round(a: Rational) -> (r: Rational)
    requires
        a@.wf(),
    ensures
        r.numer == a@.rounded(),
        r.denom == 1,
{
    let q = Ratio::new_raw(a.numer, a.denom).round();
    Rational { numer: *q.numer(), denom: *q.denom() }
}

/// `ToPrimitive::to_u64` of a `Ratio`: its integer part, or `None` when that
/// does not fit in `u64`.
#[verifier::external_body]
pub(crate) fn ratio_to_u64(a: Rational) -> (r: Option<u64>)
    requires
        a@.wf(),
    ensures
        a@.truncated() <= u64::MAX ==> r == Some(a@.truncated() as u64),
        a@.truncated() > u64::MAX ==> r.is_none(),
{
    Ratio::new_raw(a.numer, a.denom).to_u64()
}

/// The quotient of `x` by `d` is the `q` with `d * q <= x < d * (q + 1)`.
proof fn lemma_quotient_between(x: int, d: int, q: int)
    requires
        d > 0,
        d * q <= x < d * q + d,
    ensures
        x / d == q,
{
    assert(x == q * d + (x - d * q)) by (nonlinear_arith);
    lemma_fundamental_div_mod_converse_div(x, d, q, x - d * q);
}

/// Rounding gives the nearest integer: the fraction lies at most one half
/// below `rounded()` and less than one half above it.
pub proof fn lemma_rounded_is_nearest(f: Fraction)
    requires
        f.wf(),
    ensures
        2 * f.rounded() * f.denom <= 2 * f.numer + f.denom < 2 * (f.rounded() + 1) * f.denom,
{
    let x = (2 * f.numer + f.denom) as int;
    let y = (2 * f.denom) as int;
    lemma_fundamental_div_mod(x, y);
    let k = x / y;
    let r = x % y;
    assert(2 * k * f.denom <= x < 2 * (k + 1) * f.denom) by (nonlinear_arith)
        requires
            x == y * k + r,
            0 <= r < y,
            y == 2 * f.denom,
    ;
}

/// The integer `k` that lies nearest to a fraction, half-way cases upwards,
/// is what rounding gives.
pub proof fn lemma_nearest_is_rounded(f: Fraction, k: nat)
    requires
        f.wf(),
        2 * k * f.denom <= 2 * f.numer + f.denom < 2 * (k + 1) * f.denom,
    ensures
        f.rounded() == k,
{
    let x = (2 * f.numer + f.denom) as int;
    let y = (2 * f.denom) as int;
    assert(y * k <= x < y * k + y) by (nonlinear_arith)
        requires
            2 * k * f.denom <= x < 2 * (k + 1) * f.denom,
            y == 2 * f.denom,
    ;
    lemma_quotient_between(x, y, k as int);
}

/// Rounding depends on the number only, not on how the fraction is written.
pub proof fn lemma_rounded_of_same_value(f: Fraction, g: Fraction)
    requires
        f.wf(),
        g.wf(),
        f.same_value(g),
    ensures
        f.rounded() == g.rounded(),
{
    lemma_rounded_is_nearest(f);
    let k = f.rounded();
    let (a, b, c, d) = (f.numer, f.denom, g.numer, g.denom);
    assert(2 * k * d <= 2 * c + d < 2 * (k + 1) * d) by (nonlinear_arith)
        requires
            2 * k * b <= 2 * a + b < 2 * (k + 1) * b,
            a * d == c * b,
            b > 0,
            d > 0,
    {
        assert((2 * k * d) * b == (2 * k * b) * d);
        assert((2 * c + d) * b == (2 * a + b) * d);
        assert((2 * (k + 1) * d) * b == (2 * (k + 1) * b) * d);
        assert((2 * k * b) * d <= (2 * a + b) * d);
        assert((2 * a + b) * d < (2 * (k + 1) * b) * d);
    }
    lemma_nearest_is_rounded(g, k);
}

/// Over one denominator, the larger numerator rounds to the larger integer,
/// or to the same.
pub proof fn lemma_rounded_is_monotone(a: nat, b: nat, d: nat)
    requires
        d > 0,
        a <= b,
    ensures
        fraction(a, d).rounded() <= fraction(b, d).rounded(),
{
    lemma_div_is_ordered((2 * a + d) as int, (2 * b + d) as int, (2 * d) as int);
}

/// A whole number scaled by a fraction of at most one does not grow, also
/// after rounding.
pub proof fn lemma_rounded_of_scaled_down(s: nat, f: Fraction)
    requires
        f.wf(),
        f.numer <= f.denom,
    ensures
        fraction(s * f.numer, f.denom).rounded() <= s,
{
    let g = fraction(s * f.numer, f.denom);
    lemma_rounded_is_nearest(g);
    let k = g.rounded();
    let (n, d) = (f.numer, f.denom);
    assert(k <= s) by (nonlinear_arith)
        requires
            2 * k * d <= 2 * (s * n) + d,
            d > 0,
            n <= d,
    {
        assert(s * n <= s * d);
        if k >= s + 1 {
            assert(2 * k * d >= 2 * (s + 1) * d);
        }
    }
}

/// A fraction that is at least `k` stays at least `k` when rounded.
pub proof fn lemma_rounded_of_large(f: Fraction, k: nat)
    requires
        f.wf(),
        f.numer >= k * f.denom,
    ensures
        f.rounded() >= k,
{
    lemma_rounded_is_nearest(f);
    let j = f.rounded();
    let (n, d) = (f.numer, f.denom);
    assert(j >= k) by (nonlinear_arith)
        requires
            2 * n + d < 2 * (j + 1) * d,
            d > 0,
            n >= k * d,
    {
        if j + 1 <= k {
            assert(2 * (j + 1) * d <= 2 * k * d);
        }
    }
}

/// A whole number, written over any denominator, rounds to itself.
pub proof fn lemma_rounded_of_whole(s: nat, d: nat)
    requires
        d > 0,
    ensures
        fraction(s * d, d).rounded() == s,
{
    assert(2 * s * d <= 2 * (s * d) + d < 2 * (s + 1) * d) by (nonlinear_arith)
        requires
            d > 0,
    ;
    lemma_nearest_is_rounded(fraction(s * d, d), s);
}

/// Scaling a whole number up by the inverse of a fraction of at most one,
/// rounding, scaling back down by the fraction and rounding again gives the
/// number back.
pub proof fn lemma_rounded_round_trip(s: nat, f: Fraction)
    requires
        0 < f.numer <= f.denom,
    ensures
        fraction(fraction(s * f.denom, f.numer).rounded() * f.numer, f.denom).rounded() == s,
{
    let (n, d) = (f.numer, f.denom);
    let up = fraction(s * d, n);
    let v = up.rounded();
    if n == d {
        lemma_rounded_of_whole(s, d);
        lemma_rounded_of_whole(v, d);
    } else {
        lemma_rounded_is_nearest(up);
        assert(2 * s * d <= 2 * (v * n) + d < 2 * (s + 1) * d) by (nonlinear_arith)
            requires
                2 * v * n <= 2 * (s * d) + n < 2 * (v + 1) * n,
                0 < n < d,
        ;
        lemma_nearest_is_rounded(fraction(v * n, d), s);
    }
}

/// Two fractions of equal value are both whole multiples of one fraction:
/// the result `(a0, b0, k, j)` has `a / b == k * a0 / (k * b0)` and
/// `x / y == j * a0 / (j * b0)`, part by part.
proof fn lemma_common_measure(a: nat, b: nat, x: nat, y: nat) -> (m: (nat, nat, nat, nat))
    requires
        b > 0,
        y > 0,
        a * y == x * b,
    ensures
        m.2 >= 1,
        m.3 >= 1,
        a == m.2 * m.0,
        b == m.2 * m.1,
        x == m.3 * m.0,
        y == m.3 * m.1,
    decreases b + y,
{
    if b == y {
        assert(a == x) by (nonlinear_arith)
            requires
                a * y == x * b,
                b == y,
                b > 0,
        ;
        (a, b, 1, 1)
    } else if b < y {
        assert(a <= x && (x - a) * b == a * (y - b)) by (nonlinear_arith)
            requires
                a * y == x * b,
                b < y,
                b > 0,
        ;
        let (a0, b0, k, j) = lemma_common_measure(a, b, (x - a) as nat, (y - b) as nat);
        assert(x == (j + k) * a0 && y == (j + k) * b0) by (nonlinear_arith)
            requires
                a == k * a0,
                b == k * b0,
                x - a == j * a0,
                y - b == j * b0,
        ;
        (a0, b0, k, j + k)
    } else {
        assert(x <= a && (a - x) * y == x * (b - y)) by (nonlinear_arith)
            requires
                a * y == x * b,
                y < b,
                y > 0,
        ;
        let (a0, b0, k, j) = lemma_common_measure((a - x) as nat, (b - y) as nat, x, y);
        assert(a == (k + j) * a0 && b == (k + j) * b0) by (nonlinear_arith)
            requires
                a - x == k * a0,
                b - y == k * b0,
                x == j * a0,
                y == j * b0,
        ;
        (a0, b0, k + j, j)
    }
}

/// Every way of writing a fraction is a whole multiple `j` of its reduced
/// form, so the reduced form has the smallest parts.
pub proof fn lemma_reduced_form_is_least(q: Fraction, f: Fraction) -> (j: nat)
    requires
        f.wf(),
        q.is_reduced_form_of(f),
    ensures
        j >= 1,
        f.numer == j * q.numer,
        f.denom == j * q.denom,
        q.numer <= f.numer,
        q.denom <= f.denom,
{
    let (a0, b0, k, j) = lemma_common_measure(q.numer, q.denom, f.numer, f.denom);
    if k > 1 {
        lemma_mod_multiples_basic(a0 as int, k as int);
        lemma_mod_multiples_basic(b0 as int, k as int);
        assert(a0 * k == k * a0 && b0 * k == k * b0) by (nonlinear_arith);
        assert(q.numer % k == 0);
        assert(q.denom % k == 0);
    }
    assert(q.numer == a0 && q.denom == b0) by (nonlinear_arith)
        requires
            q.numer == k * a0,
            q.denom == k * b0,
            k == 1,
    ;
    assert(q.numer <= j * q.numer && q.denom <= j * q.denom) by (nonlinear_arith)
        requires
            j >= 1,
    ;
    j
}

/// Every fraction has a reduced form, and `reduced()` is one.
pub proof fn lemma_reduced_form_exists(f: Fraction)
    requires
        f.wf(),
    ensures
        f.reduced().is_reduced_form_of(f),
    decreases f.denom,
{
    if f.in_lowest_terms() {
        assert(f.is_reduced_form_of(f));
    } else {
        let k = choose|k: nat| k > 1 && #[trigger] (f.numer % k) == 0 && f.denom % k == 0;
        lemma_fundamental_div_mod(f.numer as int, k as int);
        lemma_fundamental_div_mod(f.denom as int, k as int);
        let g = fraction(f.numer / k, f.denom / k);
        assert(0 < g.denom < f.denom) by (nonlinear_arith)
            requires
                f.denom == k * g.denom,
                k > 1,
                f.denom > 0,
        ;
        lemma_reduced_form_exists(g);
        let q = g.reduced();
        assert(q.numer * f.denom == f.numer * q.denom) by (nonlinear_arith)
            requires
                q.numer * g.denom == g.numer * q.denom,
                f.numer == k * g.numer,
                f.denom == k * g.denom,
        ;
        assert(q.is_reduced_form_of(f));
    }
}

/// A fraction has one reduced form only, which `reduced()` names.
pub proof fn lemma_reduced_form_is_unique(q: Fraction, f: Fraction)
    requires
        f.wf(),
        q.is_reduced_form_of(f),
    ensures
        q == f.reduced(),
{
    lemma_reduced_form_exists(f);
    let p = f.reduced();
    assert(p.numer * q.denom == q.numer * p.denom) by (nonlinear_arith)
        requires
            p.numer * f.denom == f.numer * p.denom,
            q.numer * f.denom == f.numer * q.denom,
            f.denom > 0,
    {
        assert(p.numer * q.denom * f.denom == q.numer * p.denom * f.denom);
    }
    assert(q.is_reduced_form_of(p));
    assert(p.is_reduced_form_of(q));
    lemma_reduced_form_is_least(q, p);
    lemma_reduced_form_is_least(p, q);
}

/// A fraction with equal parts is one: its reduced form is one over one.
pub proof fn lemma_reduced_form_of_one(n: nat)
    requires
        n > 0,
    ensures
        fraction(n, n).reduced() == fraction(1, 1),
{
    let one = fraction(1, 1);
    assert forall|k: nat| k > 1 implies !(#[trigger] (one.numer % k) == 0 && one.denom % k == 0) by {
        lemma_small_mod(1, k);
    }
    assert(one.same_value(fraction(n, n))) by {
        assert(1 * n == n * 1);
    }
    lemma_reduced_form_is_unique(one, fraction(n, n));
}

} // verus!
