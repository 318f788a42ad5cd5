use qubit_sim::binary64::{Binary64, ONE_BITS, ZERO_BITS};
use qubit_sim::measurement::{measure, measure_with, uniform, Outcome};

fn pattern(x: f64) -> Binary64 {
    Binary64 { bits: x.to_bits() }
}

fn number(x: Binary64) -> f64 {
    f64::from_bits(x.bits)
}

fn modulus_squared(amplitude: [Binary64; 2]) -> f64 {
    let real = number(amplitude[0]);
    let imag = number(amplitude[1]);
    real * real + imag * imag
}

fn unit_draws() -> Vec<f64> {
    vec![
        0.0,
        f64::from_bits(1),
        1e-300,
        0.25,
        0.49999999999999994,
        0.5,
        0.5000000000000001,
        0.75,
        0.9999999999999999,
    ]
}

#[test]
fn outcome_bits() {
    assert_eq!(Outcome::Zero.bit(), 0);
    assert_eq!(Outcome::One.bit(), 1);
}

#[test]
fn collapsed_amplitudes_are_exact_basis_vectors() {
    let zero = Outcome::Zero.amplitudes();
    assert_eq!(number(zero[0][0]), 1.0);
    assert_eq!(number(zero[0][1]), 0.0);
    assert_eq!(number(zero[1][0]), 0.0);
    assert_eq!(number(zero[1][1]), 0.0);
    let one = Outcome::One.amplitudes();
    assert_eq!(number(one[0][0]), 0.0);
    assert_eq!(number(one[0][1]), 0.0);
    assert_eq!(number(one[1][0]), 1.0);
    assert_eq!(number(one[1][1]), 0.0);
    for s in [zero, one] {
        for amplitude in s {
            for part in amplitude {
                assert!(part.bits == ONE_BITS || part.bits == ZERO_BITS);
            }
        }
    }
}

#[test]
fn collapsed_probability_is_that_of_the_collapsed_amplitudes() {
    for o in [Outcome::Zero, Outcome::One] {
        let s = o.amplitudes();
        assert_eq!(number(o.probability_zero()), modulus_squared(s[0]));
        assert_eq!(modulus_squared(s[0]) + modulus_squared(s[1]), 1.0);
    }
    assert_eq!(number(Outcome::Zero.probability_zero()), 1.0);
    assert_eq!(number(Outcome::One.probability_zero()), 0.0);
}

#[test]
fn measure_with_follows_the_comparison() {
    let probabilities = [0.0, 1e-300, 0.1, 0.25, 0.5, 0.5000000000000001, 0.9, 1.0, 1.5];
    for p in probabilities {
        for r in unit_draws() {
            let expected = if r < p { Outcome::Zero } else { Outcome::One };
            assert_eq!(measure_with(pattern(p), pattern(r)), expected, "p {:?} r {:?}", p, r);
        }
    }
}

#[test]
fn probability_one_gives_zero_for_every_draw() {
    for r in unit_draws() {
        let o = measure_with(pattern(1.0), pattern(r));
        assert_eq!(o, Outcome::Zero);
        assert_eq!(o.bit(), 0);
        let s = o.amplitudes();
        assert_eq!([number(s[0][0]), number(s[0][1])], [1.0, 0.0]);
        assert_eq!([number(s[1][0]), number(s[1][1])], [0.0, 0.0]);
    }
    for w in [0u64, 1 << 11, 1 << 63, u64::MAX] {
        assert_eq!(measure_with(pattern(1.0), Binary64::unit_from_word(w)), Outcome::Zero);
    }
    for _ in 0..1000 {
        assert_eq!(measure(pattern(1.0)), Outcome::Zero);
    }
}

#[test]
fn probability_zero_gives_one_for_every_draw() {
    for r in unit_draws() {
        let o = measure_with(pattern(0.0), pattern(r));
        assert_eq!(o, Outcome::One);
        assert_eq!(o.bit(), 1);
        let s = o.amplitudes();
        assert_eq!([number(s[0][0]), number(s[0][1])], [0.0, 0.0]);
        assert_eq!([number(s[1][0]), number(s[1][1])], [1.0, 0.0]);
    }
    for _ in 0..1000 {
        assert_eq!(measure(pattern(0.0)), Outcome::One);
        assert_eq!(measure(pattern(-0.0)), Outcome::One);
    }
}

#[test]
fn even_odds_split_at_one_half() {
    let half = pattern(0.5);
    assert_eq!(measure_with(half, pattern(0.0)), Outcome::Zero);
    assert_eq!(measure_with(half, pattern(0.25)), Outcome::Zero);
    assert_eq!(measure_with(half, pattern(0.49999999999999994)), Outcome::Zero);
    assert_eq!(measure_with(half, pattern(0.5)), Outcome::One);
    assert_eq!(measure_with(half, pattern(0.5000000000000001)), Outcome::One);
    assert_eq!(measure_with(half, pattern(0.75)), Outcome::One);
    assert_eq!(measure_with(half, pattern(0.9999999999999999)), Outcome::One);
    assert_eq!(measure_with(half, Binary64::unit_from_word((1 << 63) - 1)), Outcome::Zero);
    assert_eq!(measure_with(half, Binary64::unit_from_word(1 << 63)), Outcome::One);
}

#[test]
fn equal_amplitudes_after_renormalizing() {
    // Both amplitudes 1/sqrt(2), renormalized as a gate application does.
    let factor = 1.0 / std::f64::consts::SQRT_2;
    let norm = (factor * factor + factor * factor).sqrt();
    let amplitude = factor / norm;
    let p = amplitude * amplitude;
    assert!((p - 0.5).abs() < 1e-9);
    assert_eq!(measure_with(pattern(p), pattern(0.25)), Outcome::Zero);
    assert_eq!(measure_with(pattern(p), pattern(0.49999999999999994)), Outcome::Zero);
    assert_eq!(measure_with(pattern(p), pattern(0.75)), Outcome::One);
    assert_eq!(measure_with(pattern(p), pattern(0.5)).bit(), if 0.5 < p { 0 } else { 1 });
}

#[test]
fn nan_probability_gives_one() {
    // A zero vector normalizes to NaN amplitudes, and nothing is less than NaN.
    let p = (0.0f64 / 0.0) * (0.0f64 / 0.0);
    assert!(p.is_nan());
    for r in unit_draws() {
        assert_eq!(measure_with(pattern(p), pattern(r)), Outcome::One);
    }
    assert_eq!(measure(pattern(p)), Outcome::One);
}

#[test]
fn probability_above_one_gives_zero() {
    for p in [1.0000000000000002, 2.0, f64::MAX, f64::INFINITY] {
        for r in unit_draws() {
            assert_eq!(measure_with(pattern(p), pattern(r)), Outcome::Zero);
        }
    }
}

#[test]
fn negative_probability_gives_one() {
    for p in [-0.0, -1e-300, -0.5, -1.0, f64::NEG_INFINITY] {
        for r in unit_draws() {
            assert_eq!(measure_with(pattern(p), pattern(r)), Outcome::One);
        }
    }
}

#[test]
fn second_measurement_repeats_the_first() {
    for p in [0.0, 0.1, 0.5, 0.9, 1.0] {
        for first in unit_draws() {
            let o = measure_with(pattern(p), pattern(first));
            for second in unit_draws() {
                assert_eq!(measure_with(o.probability_zero(), pattern(second)), o);
            }
        }
    }
    for _ in 0..1000 {
        let o = measure(pattern(0.5));
        assert_eq!(measure(o.probability_zero()), o);
        assert_eq!(measure(pattern(modulus_squared(o.amplitudes()[0]))), o);
    }
}

#[test]
fn uniform_stays_in_the_unit_interval() {
    for _ in 0..10_000 {
        let r = number(uniform());
        assert!(0.0 <= r && r < 1.0);
        // Every sample is a multiple of 2^-53.
        let scaled = r * 9007199254740992.0;
        assert_eq!(scaled, scaled.trunc());
    }
}

#[test]
fn uniform_samples_differ() {
    let first = uniform().bits;
    let mut differs = false;
    for _ in 0..64 {
        if uniform().bits != first {
            differs = true;
        }
    }
    assert!(differs);
}

#[test]
fn uniform_covers_both_halves() {
    let mut low = 0;
    let mut high = 0;
    for _ in 0..10_000 {
        if number(uniform()) < 0.5 {
            low += 1;
        } else {
            high += 1;
        }
    }
    assert!(low > 4_000 && high > 4_000, "low {} high {}", low, high);
}

#[test]
fn measure_at_even_odds_gives_both_outcomes() {
    let mut zeros = 0;
    let mut ones = 0;
    for _ in 0..10_000 {
        match measure(pattern(0.5)) {
            Outcome::Zero => zeros += 1,
            Outcome::One => ones += 1,
        }
    }
    assert!(zeros > 4_000 && ones > 4_000, "zeros {} ones {}", zeros, ones);
}

#[test]
fn measure_follows_the_probability() {
    let mut zeros = 0;
    for _ in 0..10_000 {
        if measure(pattern(0.9)) == Outcome::Zero {
            zeros += 1;
        }
    }
    assert!(zeros > 8_500 && zeros < 9_500, "zeros {}", zeros);
}
