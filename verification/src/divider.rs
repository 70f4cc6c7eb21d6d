//! The two-resistor voltage divider and its millivolt arithmetic.

use crate::rational::fraction;
use crate::rational::lemma_reduced_form_exists;
use crate::rational::lemma_reduced_form_is_least;
use crate::rational::lemma_reduced_form_is_unique;
use crate::rational::lemma_reduced_form_of_one;
use crate::rational::lemma_rounded_is_monotone;
use crate::rational::lemma_rounded_is_nearest;
use crate::rational::lemma_rounded_of_large;
use crate::rational::lemma_rounded_of_same_value;
use crate::rational::lemma_rounded_of_scaled_down;
use crate::rational::lemma_rounded_of_whole;
use crate::rational::lemma_rounded_round_trip;
use crate::rational::ratio_div;
use crate::rational::ratio_mul;
use crate::rational::ratio_new;
use crate::rational::ratio_round;
use crate::rational::ratio_to_u64;
use crate::rational::Fraction;
use crate::rational::Rational;
use vstd::prelude::*;

verus! {

/// Why a configuration was rejected.
#[derive(Clone, Copy, Debug, PartialEq, Eq, Structural)]
pub enum ConfigError {
    /// Both resistances are zero.
    InvalidDivider,
    /// The cutoff threshold is not below the charged threshold.
    InvalidThresholds,
}

/// The recovered voltage does not fit in 64 bits.
#[derive(Clone, Copy, Debug, PartialEq, Eq, Structural)]
pub struct Overflow;

/// The mathematical model of a divider: `r1` ohms towards ground and `r2`
/// ohms towards the source.
pub struct Resistors {
    pub r1: nat,
    pub r2: nat,
}

impl Resistors {
    /// At least one resistor is present.
    pub open spec fn valid(self) -> bool {
        self.r1 + self.r2 > 0
    }

    /// The fraction of the source voltage that reaches the tap point:
    /// `r2 / (r1 + r2)`, and one where `r2` is zero and the tap point is the
    /// source itself.
    pub open spec fn attenuation(self) -> Fraction {
        if self.r2 == 0 {
            fraction(1, 1)
        } else {
            fraction(self.r2, self.r1 + self.r2)
        }
    }

    /// The divider's ratio: the attenuation in lowest terms.
    pub open spec fn ratio(self) -> Fraction {
        self.attenuation().reduced()
    }

    /// The millivolts at the tap point for `source_mv` at the source:
    /// `source_mv * r2 / (r1 + r2)`, rounded half up.
    pub open spec fn tap_of(self, source_mv: nat) -> nat {
        fraction(source_mv * self.attenuation().numer, self.attenuation().denom).rounded()
    }

    /// The millivolts at the source for `sample_mv` at the tap point:
    /// `sample_mv * (r1 + r2) / r2`, rounded half up.
    pub open spec fn source_of(self, sample_mv: nat) -> nat {
        fraction(sample_mv * self.attenuation().denom, self.attenuation().numer).rounded()
    }
}

/// A divider of two resistors in series, of which at least one is not zero.
#[derive(Clone, Copy, Debug, PartialEq, Eq)]
pub struct DividerRatio {
    r1: u64,
    r2: u64,
}

impl View for DividerRatio {
    type V = Resistors;

    closed spec fn view(&self) -> Resistors {
        Resistors { r1: self.r1 as nat, r2: self.r2 as nat }
    }
}

impl DividerRatio {
    /// At least one resistor is present, and both resistances fit in 64 bits.
    #[verifier::type_invariant]
    pub open spec fn wf(&self) -> bool {
        &&& self@.valid()
        &&& self@.r1 <= u64::MAX
        &&& self@.r2 <= u64::MAX
    }

    /// A divider of `r1` ohms towards ground and `r2` ohms towards the
    /// source. Two zero resistances are rejected.
    pub fn new(r1: u64, r2: u64) -> (r: Result<DividerRatio, ConfigError>)
        ensures
            r1 + r2 == 0 ==> r == Err::<DividerRatio, ConfigError>(ConfigError::InvalidDivider),
            r1 + r2 > 0 ==> r is Ok && r->Ok_0@ == (Resistors { r1: r1 as nat, r2: r2 as nat })
                && r->Ok_0.wf(),
    {
        if r1 == 0 && r2 == 0 {
            Err(ConfigError::InvalidDivider)
        } else {
            Ok(DividerRatio { r1, r2 })
        }
    }

    /// The resistance towards ground, in ohms.
    pub fn r1(&self) -> (r: u64)
        ensures
            r == self@.r1,
    {
        self.r1
    }

    /// The resistance towards the source, in ohms.
    pub fn r2(&self) -> (r: u64)
        ensures
            r == self@.r2,
    {
        self.r2
    }

    /// The fraction of the source voltage that reaches the tap point,
    /// `r2 / (r1 + r2)` in lowest terms. It is greater than zero and at most
    /// one, and exactly one where either resistance is zero.
    pub fn ratio(&self) -> (q: Rational)
        ensures
            q@ == self@.ratio(),
            q@.is_reduced_form_of(self@.attenuation()),
            0 < q.numer <= q.denom,
            self@.r1 == 0 || self@.r2 == 0 ==> q.numer == 1 && q.denom == 1,
    {
        proof {
            use_type_invariant(self);
            law_ratio_is_reduced_attenuation(self@);
            law_ratio_in_unit_interval(self@);
            if self.r1 == 0 {
                law_ratio_one_without_r1(self@);
            }
            if self.r2 == 0 {
                law_ratio_one_without_r2(self@);
            }
        }
        if self.r2 == 0 {
            Rational { numer: 1, denom: 1 }
        } else {
            let q = ratio_new(self.r2 as u128, self.r1 as u128 + self.r2 as u128);
            proof {
                lemma_reduced_form_is_unique(q@, self@.attenuation());
            }
            q
        }
    }

    /// The millivolts that the tap point shows for `source_mv` at the source:
    /// `source_mv * r2 / (r1 + r2)`, rounded to the nearest millivolt, half
    /// a millivolt upwards. The tap point never shows more than the source.
    pub fn sample_from_source(&self, source_mv: u64) -> (tap_mv: u64)
        ensures
            tap_mv == self@.tap_of(source_mv as nat),
            tap_mv <= source_mv,
    {
        let ratio = self.ratio();
        let source = whole(source_mv);
        let ghost s = source_mv as nat;
        let ghost att = self@.attenuation();
        proof {
            use_type_invariant(self);
            lemma_reduced_form_is_least(ratio@, att);
            lemma_product_fits(s, ratio@.numer);
        }
        let product = ratio_mul(source, ratio);
        let rounded = ratio_round(product);
        proof {
            let scaled = fraction(s * ratio@.numer, ratio@.denom);
            let exact = fraction(s * att.numer, att.denom);
            assert(scaled.same_value(exact)) by (nonlinear_arith)
                requires
                    ratio@.numer * att.denom == att.numer * ratio@.denom,
                    scaled == fraction(s * ratio@.numer, ratio@.denom),
                    exact == fraction(s * att.numer, att.denom),
            ;
            lemma_rounded_of_same_value(product@, scaled);
            lemma_rounded_of_same_value(scaled, exact);
            lemma_rounded_of_scaled_down(s, att);
        }
        ratio_to_u64(rounded).unwrap()
    }

    /// The millivolts at the source for `sample_mv` read at the tap point:
    /// `sample_mv * (r1 + r2) / r2`, rounded to the nearest millivolt, half a
    /// millivolt upwards. Where `r2` is zero the sample is the source voltage.
    /// The product is formed in 128 bits; `Overflow` comes exactly when the
    /// rounded result itself does not fit in 64 bits.
    pub fn recover_source_from_sample(&self, sample_mv: u64) -> (r: Result<u64, Overflow>)
        ensures
            self@.source_of(sample_mv as nat) <= u64::MAX ==> r == Ok::<u64, Overflow>(
                self@.source_of(sample_mv as nat) as u64,
            ),
            self@.source_of(sample_mv as nat) > u64::MAX ==> r == Err::<u64, Overflow>(Overflow),
            self@.r2 == 0 ==> r == Ok::<u64, Overflow>(sample_mv),
    {
        let ghost s = sample_mv as nat;
        let ghost att = self@.attenuation();
        proof {
            use_type_invariant(self);
        }
        if self.r2 == 0 {
            proof {
                lemma_rounded_of_whole(s, 1);
            }
            return Ok(sample_mv);
        }
        let ratio = self.ratio();
        let sample = whole(sample_mv);
        let ghost scaled = fraction(s * ratio@.denom, ratio@.numer);
        proof {
            let exact = fraction(s * att.denom, att.numer);
            lemma_reduced_form_is_least(ratio@, att);
            assert(scaled.same_value(exact)) by (nonlinear_arith)
                requires
                    ratio@.numer * att.denom == att.numer * ratio@.denom,
                    scaled == fraction(s * ratio@.denom, ratio@.numer),
                    exact == fraction(s * att.denom, att.numer),
            ;
            lemma_rounded_of_same_value(scaled, exact);
        }
        // The quotient's numerator is the sample times the ratio's denominator.
        // Where that leaves 128 bits, the voltage leaves 64.
        if sample.numer.checked_mul(ratio.denom).is_none() {
            proof {
                assert(scaled.numer >= 0x1_0000_0000_0000_0000 * scaled.denom) by (nonlinear_arith)
                    requires
                        scaled.numer > u128::MAX,
                        scaled.denom <= u64::MAX,
                ;
                lemma_rounded_of_large(scaled, 0x1_0000_0000_0000_0000);
            }
            return Err(Overflow);
        }
        let quotient = ratio_div(sample, ratio);
        let rounded = ratio_round(quotient);
        proof {
            lemma_rounded_of_same_value(quotient@, scaled);
        }
        match ratio_to_u64(rounded) {
            Some(source_mv) => Ok(source_mv),
            None => Err(Overflow),
        }
    }
}

/// The whole number `value` as a fraction.
fn whole(value: u64) -> (r: Rational)
    ensures
        r.numer == value,
        r.denom == 1,
{
    let r = ratio_new(value as u128, 1);
    proof {
        let j = lemma_reduced_form_is_least(r@, fraction(value as nat, 1));
        assert(j == 1 && r@.denom == 1) by (nonlinear_arith)
            requires
                1 == j * r@.denom,
                j >= 1,
        ;
    }
    r
}

/// The product of two 64-bit numbers fits in 128 bits.
proof fn lemma_product_fits(a: nat, b: nat)
    requires
        a <= u64::MAX,
        b <= u64::MAX,
    ensures
        a * b <= u128::MAX,
{
    assert(a * b <= 0xffff_ffff_ffff_ffff * 0xffff_ffff_ffff_ffff) by (nonlinear_arith)
        requires
            a <= 0xffff_ffff_ffff_ffff,
            b <= 0xffff_ffff_ffff_ffff,
    ;
}

/// The ratio of a divider is its attenuation `r2 / (r1 + r2)` in lowest terms.
pub proof fn law_ratio_is_reduced_attenuation(d: Resistors)
    requires
        d.valid(),
    ensures
        d.ratio().is_reduced_form_of(d.attenuation()),
{
    lemma_reduced_form_exists(d.attenuation());
}

/// The ratio of a divider is greater than zero and at most one.
pub proof fn law_ratio_in_unit_interval(d: Resistors)
    requires
        d.valid(),
    ensures
        0 < d.ratio().numer <= d.ratio().denom,
{
    law_ratio_is_reduced_attenuation(d);
    let q = d.ratio();
    let att = d.attenuation();
    assert(0 < q.numer <= q.denom) by (nonlinear_arith)
        requires
            q.numer * att.denom == att.numer * q.denom,
            q.denom > 0,
            0 < att.numer <= att.denom,
    {
        if q.numer > q.denom {
            assert(q.numer * att.denom > q.denom * att.denom);
            assert(q.denom * att.denom >= q.denom * att.numer);
        }
    }
}

/// Without a resistor towards the source the tap point is the source: the
/// ratio is one, and every sample is the source voltage itself.
pub proof fn law_ratio_one_without_r2(d: Resistors)
    requires
        d.valid(),
        d.r2 == 0,
    ensures
        d.ratio() == fraction(1, 1),
        forall|x: nat| #[trigger] d.source_of(x) == x,
        forall|x: nat| #[trigger] d.tap_of(x) == x,
{
    lemma_reduced_form_of_one(1);
    assert forall|x: nat| #[trigger] d.source_of(x) == x by {
        lemma_rounded_of_whole(x, 1);
    }
    assert forall|x: nat| #[trigger] d.tap_of(x) == x by {
        lemma_rounded_of_whole(x, 1);
    }
}

/// Without a resistor towards ground the tap point sees the full source
/// voltage: the ratio is one, and every sample is the source voltage itself.
pub proof fn law_ratio_one_without_r1(d: Resistors)
    requires
        d.valid(),
        d.r1 == 0,
    ensures
        d.ratio() == fraction(1, 1),
        forall|x: nat| #[trigger] d.source_of(x) == x,
        forall|x: nat| #[trigger] d.tap_of(x) == x,
{
    lemma_reduced_form_of_one(d.r2);
    assert forall|x: nat| #[trigger] d.source_of(x) == x by {
        lemma_rounded_of_whole(x, d.r2);
    }
    assert forall|x: nat| #[trigger] d.tap_of(x) == x by {
        lemma_rounded_of_whole(x, d.r2);
    }
}

/// The tap point never shows more than the source.
pub proof fn law_tap_at_most_source(d: Resistors, source_mv: nat)
    requires
        d.valid(),
    ensures
        d.tap_of(source_mv) <= source_mv,
{
    lemma_rounded_of_scaled_down(source_mv, d.attenuation());
}

/// A higher voltage at the source never shows as a lower one at the tap
/// point, and a higher sample never stands for a lower voltage at the source.
pub proof fn law_conversions_keep_order(d: Resistors, low_mv: nat, high_mv: nat)
    requires
        d.valid(),
        low_mv <= high_mv,
    ensures
        d.tap_of(low_mv) <= d.tap_of(high_mv),
        d.source_of(low_mv) <= d.source_of(high_mv),
{
    let att = d.attenuation();
    assert(low_mv * att.numer <= high_mv * att.numer && low_mv * att.denom <= high_mv * att.denom)
        by (nonlinear_arith)
        requires
            low_mv <= high_mv,
    ;
    lemma_rounded_is_monotone(low_mv * att.numer, high_mv * att.numer, att.denom);
    lemma_rounded_is_monotone(low_mv * att.denom, high_mv * att.denom, att.numer);
}

/// The voltage recovered from a sample gives that sample back at the tap
/// point.
pub proof fn law_sample_round_trip(d: Resistors, sample_mv: nat)
    requires
        d.valid(),
    ensures
        d.tap_of(d.source_of(sample_mv)) == sample_mv,
{
    lemma_rounded_round_trip(sample_mv, d.attenuation());
}

/// The sample of a source voltage leads back to that voltage, up to the
/// rounding of both steps: half a millivolt at the tap point, which the
/// divider magnifies by `(r1 + r2) / r2`, and half a millivolt at the source.
pub proof fn law_source_round_trip_error(d: Resistors, source_mv: nat)
    requires
        d.valid(),
    ensures
        2 * d.attenuation().numer * (d.source_of(d.tap_of(source_mv)) - source_mv)
            <= d.attenuation().numer + d.attenuation().denom,
        2 * d.attenuation().numer * (source_mv - d.source_of(d.tap_of(source_mv)))
            < d.attenuation().numer + d.attenuation().denom,
{
    let n = d.attenuation().numer;
    let m = d.attenuation().denom;
    let t = d.tap_of(source_mv);
    let s = d.source_of(t);
    lemma_rounded_is_nearest(fraction(source_mv * n, m));
    lemma_rounded_is_nearest(fraction(t * m, n));
    assert(2 * n * (s - source_mv) <= n + m && 2 * n * (source_mv - s) < n + m)
        by (nonlinear_arith)
        requires
            2 * t * m <= 2 * (source_mv * n) + m < 2 * (t + 1) * m,
            2 * s * n <= 2 * (t * m) + n < 2 * (s + 1) * n,
            0 < n <= m,
    ;
}

} // verus!
