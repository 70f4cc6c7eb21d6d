use typed4safety::divider::ConfigError;
use typed4safety::divider::DividerRatio;
use typed4safety::divider::Overflow;
use typed4safety::rational::Rational;

fn divider(r1: u64, r2: u64) -> DividerRatio {
    DividerRatio::new(r1, r2).unwrap()
}

#[test]
fn new_rejects_two_zero_resistances() {
    assert_eq!(DividerRatio::new(0, 0), Err(ConfigError::InvalidDivider));
}

#[test]
fn new_keeps_the_resistances() {
    let d = divider(500_000, 300_000);
    assert_eq!(d.r1(), 500_000);
    assert_eq!(d.r2(), 300_000);
    assert!(DividerRatio::new(0, 1).is_ok());
    assert!(DividerRatio::new(1, 0).is_ok());
    assert!(DividerRatio::new(u64::MAX, u64::MAX).is_ok());
}

#[test]
fn ratio_is_in_lowest_terms() {
    assert_eq!(divider(500_000, 300_000).ratio(), Rational { numer: 3, denom: 8 });
    assert_eq!(divider(470_000, 470_000).ratio(), Rational { numer: 1, denom: 2 });
    assert_eq!(divider(100_000, 33_000).ratio(), Rational { numer: 33, denom: 133 });
    assert_eq!(divider(2, 1).ratio(), Rational { numer: 1, denom: 3 });
}

#[test]
fn ratio_of_large_resistances_is_formed_in_128_bits() {
    assert_eq!(divider(u64::MAX, u64::MAX).ratio(), Rational { numer: 1, denom: 2 });
    assert_eq!(
        divider(1, u64::MAX).ratio(),
        Rational { numer: u64::MAX as u128, denom: u64::MAX as u128 + 1 }
    );
}

#[test]
fn ratio_lies_above_zero_and_at_most_one() {
    let pairs: [(u64, u64); 8] = [
        (1, 0),
        (0, 1),
        (1, 1),
        (500_000, 300_000),
        (470_000, 470_000),
        (u64::MAX, 1),
        (1, u64::MAX),
        (u64::MAX, u64::MAX),
    ];
    for (r1, r2) in pairs {
        let q = divider(r1, r2).ratio();
        assert!(0 < q.numer, "{r1} {r2}");
        assert!(q.numer <= q.denom, "{r1} {r2}");
    }
}

#[test]
fn ratio_is_one_without_r2() {
    let d = divider(10_000, 0);
    assert_eq!(d.ratio(), Rational { numer: 1, denom: 1 });
    for x in [0, 1, 1200, 4200, u64::MAX] {
        assert_eq!(d.recover_source_from_sample(x), Ok(x));
        assert_eq!(d.sample_from_source(x), x);
    }
}

#[test]
fn ratio_is_one_without_r1() {
    let d = divider(0, 10_000);
    assert_eq!(d.ratio(), Rational { numer: 1, denom: 1 });
    for x in [0, 1, 1200, 4200, u64::MAX] {
        assert_eq!(d.recover_source_from_sample(x), Ok(x));
        assert_eq!(d.sample_from_source(x), x);
    }
}

#[test]
fn round_trip_of_3200_mv_behind_500k_and_300k() {
    let d = divider(500_000, 300_000);
    assert_eq!(d.sample_from_source(3200), 1200);
    assert_eq!(d.recover_source_from_sample(1200), Ok(3200));
}

#[test]
fn round_trip_of_4200_mv_behind_two_470k() {
    let d = divider(470_000, 470_000);
    assert_eq!(d.sample_from_source(4200), 2100);
    assert_eq!(d.recover_source_from_sample(2100), Ok(4200));
}

#[test]
fn recover_rounds_half_up() {
    // 1 * 3 / 2 = 1.5 and 3 * 3 / 2 = 4.5
    let d = divider(1, 2);
    assert_eq!(d.recover_source_from_sample(1), Ok(2));
    assert_eq!(d.recover_source_from_sample(3), Ok(5));
    // 1234 * 133 / 33 = 4973.39..
    assert_eq!(divider(100_000, 33_000).recover_source_from_sample(1234), Ok(4973));
}

#[test]
fn sample_rounds_half_up() {
    // 1 / 2 = 0.5 and 3 / 2 = 1.5
    let d = divider(1, 1);
    assert_eq!(d.sample_from_source(1), 1);
    assert_eq!(d.sample_from_source(3), 2);
    // 1 / 3, 2 / 3 and 4 / 3
    let d = divider(2, 1);
    assert_eq!(d.sample_from_source(1), 0);
    assert_eq!(d.sample_from_source(2), 1);
    assert_eq!(d.sample_from_source(4), 1);
}

#[test]
fn recover_forms_the_product_in_128_bits() {
    // 5_000_000_000_001 * 4_000_000 does not fit in 64 bits, and nothing
    // cancels: 999_999 and 4_000_000 have no common divisor.
    let sample: u64 = 5_000_000_000_001;
    assert!(sample.checked_mul(4_000_000).is_none());
    let d = divider(3_000_001, 999_999);
    assert_eq!(d.recover_source_from_sample(sample), Ok(20_000_020_000_024));
}

#[test]
fn recover_reports_a_result_beyond_64_bits() {
    assert_eq!(divider(u64::MAX, 1).recover_source_from_sample(2), Err(Overflow));
    assert_eq!(divider(1, 1).recover_source_from_sample(u64::MAX), Err(Overflow));
    assert_eq!(divider(1, 1).recover_source_from_sample(1 << 63), Err(Overflow));
    assert_eq!(divider(1, 1).recover_source_from_sample((1 << 63) - 1), Ok(u64::MAX - 1));
}

#[test]
fn recover_reports_a_product_beyond_128_bits() {
    let d = divider(u64::MAX, u64::MAX - 1);
    assert_eq!(d.recover_source_from_sample(u64::MAX), Err(Overflow));
}

#[test]
fn recover_gives_the_last_result_that_fits() {
    let d = divider(7, 3);
    assert_eq!(d.recover_source_from_sample(5_534_023_222_112_865_484), Ok(u64::MAX - 2));
    assert_eq!(d.recover_source_from_sample(5_534_023_222_112_865_485), Err(Overflow));
    assert_eq!(d.recover_source_from_sample(u64::MAX / 4), Ok(15_372_286_728_091_293_010));
}

#[test]
fn resistances_whose_sum_exceeds_64_bits() {
    let d = divider(u64::MAX, u64::MAX);
    assert_eq!(d.recover_source_from_sample(7), Ok(14));
    assert_eq!(d.sample_from_source(7), 4);
    assert_eq!(d.sample_from_source(u64::MAX), 1 << 63);
    assert_eq!(d.recover_source_from_sample((1 << 63) - 1), Ok(u64::MAX - 1));
    assert_eq!(d.recover_source_from_sample(1 << 63), Err(Overflow));
}

#[test]
fn tap_never_shows_more_than_the_source() {
    for (r1, r2) in [(1, 1), (500_000, 300_000), (1, u64::MAX), (u64::MAX, 1)] {
        let d = divider(r1, r2);
        for source in [0, 1, 2, 3200, 4200, u64::MAX - 1, u64::MAX] {
            assert!(d.sample_from_source(source) <= source, "{r1} {r2} {source}");
        }
    }
    assert_eq!(divider(1, u64::MAX).sample_from_source(u64::MAX), u64::MAX - 1);
}

#[test]
fn recovered_voltage_gives_the_sample_back() {
    for (r1, r2) in [(1, 1), (2, 1), (1, 2), (500_000, 300_000), (100_000, 33_000), (7, 3)] {
        let d = divider(r1, r2);
        for sample in [0, 1, 2, 3, 999, 1200, 1234, 2100, 65_535] {
            let source = d.recover_source_from_sample(sample).unwrap();
            assert_eq!(d.sample_from_source(source), sample, "{r1} {r2} {sample}");
        }
    }
}

fn gcd(a: u128, b: u128) -> u128 {
    if b == 0 {
        a
    } else {
        gcd(b, a % b)
    }
}

fn half_up(numer: u128, denom: u128) -> u128 {
    let rest = numer % denom;
    numer / denom + if rest >= denom - rest { 1 } else { 0 }
}

#[test]
fn small_dividers_agree_with_the_formulas() {
    for r1 in 0..=12u64 {
        for r2 in 0..=12u64 {
            if r1 + r2 == 0 {
                continue;
            }
            let d = divider(r1, r2);
            let (n, m) = if r2 == 0 { (1, 1) } else { (r2 as u128, (r1 + r2) as u128) };
            let g = gcd(n, m);
            assert_eq!(d.ratio(), Rational { numer: n / g, denom: m / g }, "{r1} {r2}");
            for x in 0..=40u64 {
                let tap = half_up(x as u128 * n, m) as u64;
                let source = half_up(x as u128 * m, n) as u64;
                assert_eq!(d.sample_from_source(x), tap, "{r1} {r2} {x}");
                assert_eq!(d.recover_source_from_sample(x), Ok(source), "{r1} {r2} {x}");
            }
        }
    }
}

#[test]
fn large_dividers_agree_with_the_formulas() {
    // A fixed sequence of 64-bit numbers from a linear congruential generator.
    let mut state: u64 = 0x2545_f491_4f6c_dd1d;
    let mut next = move || {
        state = state.wrapping_mul(6364136223846793005).wrapping_add(1442695040888963407);
        state
    };
    for round in 0..2000 {
        let shift = round % 64;
        let r1 = next() >> shift;
        let r2 = (next() >> (round % 61)).max(1);
        let x = next() >> (round % 59);
        let d = divider(r1, r2);
        let n = r2 as u128;
        let m = r1 as u128 + r2 as u128;
        let g = gcd(n, m);
        assert_eq!(d.ratio(), Rational { numer: n / g, denom: m / g }, "{r1} {r2}");
        assert_eq!(d.sample_from_source(x), half_up(x as u128 * n, m) as u64, "{r1} {r2} {x}");
        // x * m / n, rounded half up, in steps that stay within 128 bits.
        let rest = half_up((x as u128) * (m % n), n);
        let expected = match (x as u128).checked_mul(m / n) {
            Some(whole) if whole <= u64::MAX as u128 && whole + rest <= u64::MAX as u128 => {
                Ok((whole + rest) as u64)
            }
            _ => Err(Overflow),
        };
        assert_eq!(d.recover_source_from_sample(x), expected, "{r1} {r2} {x}");
    }
}

#[test]
fn conversions_keep_the_order_of_voltages() {
    for (r1, r2) in [(1, 1), (2, 1), (1, 2), (500_000, 300_000), (100_000, 33_000)] {
        let d = divider(r1, r2);
        let mut last_tap = 0;
        let mut last_source = 0;
        for x in 0..2_000u64 {
            let tap = d.sample_from_source(x);
            let source = d.recover_source_from_sample(x).unwrap();
            assert!(last_tap <= tap, "{r1} {r2} {x}");
            assert!(last_source <= source, "{r1} {r2} {x}");
            last_tap = tap;
            last_source = source;
        }
    }
}

#[test]
fn sampled_voltage_is_recovered_within_the_rounding() {
    for (r1, r2) in [(1u64, 1u64), (2, 1), (1, 2), (500_000, 300_000), (100_000, 33_000)] {
        let d = divider(r1, r2);
        let n = r2 as i128;
        let m = (r1 + r2) as i128;
        for source in 0..2_000u64 {
            let back = d.recover_source_from_sample(d.sample_from_source(source)).unwrap();
            let error = back as i128 - source as i128;
            assert!(2 * n * error <= n + m, "{r1} {r2} {source}");
            assert!(2 * n * -error < n + m, "{r1} {r2} {source}");
        }
    }
    // Behind one ohm in a thousand, 400 mV show as nothing.
    let d = divider(999, 1);
    assert_eq!(d.sample_from_source(400), 0);
    assert_eq!(d.recover_source_from_sample(0), Ok(0));
}
