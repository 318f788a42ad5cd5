//! Measurement of a qubit in the computational basis.
//!
//! A qubit with amplitudes `a0` and `a1` is observed in basis state 0 with
//! probability `|a0|^2` (the Born rule). One measurement takes that
//! probability and one uniform sample of `[0, 1)`: the qubit collapses to
//! basis state 0 where the sample lies below the probability, and to basis
//! state 1 otherwise.

use vstd::prelude::*;
use vstd::arithmetic::power2::{lemma2_to64_rest, lemma_pow2_adds, lemma_pow2_unfold, pow2};
use crate::binary64::{
    decode, unit_fraction, Binary64, Value, HALF_BITS, HIDDEN_BIT, ONE_BITS, ZERO_BITS,
};

verus! {

/// The basis state that a measurement leaves the qubit in.
#[derive(Clone, Copy, Debug, PartialEq, Eq, Structural)]
pub enum Outcome {
    /// Basis state 0: amplitudes `[1 + 0i, 0 + 0i]`.
    Zero,
    /// Basis state 1: amplitudes `[0 + 0i, 1 + 0i]`.
    One,
}

impl Outcome {
    /// The classical bit that the measurement reports.
    pub open spec fn bit_spec(self) -> int {
        match self {
            Outcome::Zero => 0,
            Outcome::One => 1,
        }
    }

    /// The bit pattern of the probability of basis state 0 in the collapsed
    /// state: that of `1.0` after `Zero`, that of `0.0` after `One`.
    pub open spec fn probability_zero_bits(self) -> u64 {
        match self {
            Outcome::Zero => ONE_BITS,
            Outcome::One => ZERO_BITS,
        }
    }

    /// The classical bit that the measurement reports.
    pub fn bit(&self) -> (b: usize)
        ensures
            b == self.bit_spec(),
    {
        match self {
            Outcome::Zero => 0,
            Outcome::One => 1,
        }
    }

    /// The amplitudes of the collapsed state, each as its real and its
    /// imaginary part: `[[1, 0], [0, 0]]` after `Zero` and `[[0, 0], [1, 0]]`
    /// after `One`.
    pub fn amplitudes(&self) -> (s: [[Binary64; 2]; 2])
        ensures
            *self == Outcome::Zero ==> s[0][0].bits == ONE_BITS && s[1][0].bits == ZERO_BITS,
            *self == Outcome::One ==> s[0][0].bits == ZERO_BITS && s[1][0].bits == ONE_BITS,
            s[0][1].bits == ZERO_BITS,
            s[1][1].bits == ZERO_BITS,
    {
        let one = Binary64 { bits: ONE_BITS };
        let zero = Binary64 { bits: ZERO_BITS };
        match self {
            Outcome::Zero => [[one, zero], [zero, zero]],
            Outcome::One => [[zero, zero], [one, zero]],
        }
    }

    /// The probability of basis state 0 in the collapsed state.
    pub fn probability_zero(&self) -> (p: Binary64)
        ensures
            p.bits == self.probability_zero_bits(),
    {
        match self {
            Outcome::Zero => Binary64 { bits: ONE_BITS },
            Outcome::One => Binary64 { bits: ZERO_BITS },
        }
    }
}

/// The Born rule on one sample: basis state 0 where `draw` is less than
/// `probability_zero`, basis state 1 otherwise.
pub open spec fn outcome_of(probability_zero: Value, draw: Value) -> Outcome {
    if draw.lt(probability_zero) {
        Outcome::Zero
    } else {
        Outcome::One
    }
}

/// Measures a qubit whose probability of basis state 0 is
/// `probability_zero`, with `draw` as the uniform sample.
pub fn measure_with(probability_zero: Binary64, draw: Binary64) -> (o: Outcome)
    ensures
        o == outcome_of(probability_zero@, draw@),
{
    if draw.lt(&probability_zero) {
        Outcome::Zero
    } else {
        Outcome::One
    }
}

/// One word of 64 random bits from the generator of the calling thread:
/// `rand::thread_rng()`, then `rand::Rng::gen` for a `u64`. Nothing is
/// claimed of the word. The generator is seeded from the operating system
/// when a thread first uses it, and `rand` panics if that fails.
#[verifier::external_body]
fn random_word() -> (word: u64)
{
    rand::Rng::gen::<u64>(&mut rand::thread_rng())
}

/// One sample of the uniform distribution on `[0, 1)`: a multiple of 2^-53,
/// made of the upper 53 bits of a random word.
pub fn uniform() -> (draw: Binary64)
    ensures
        draw@.in_unit_interval(),
        exists|word: u64| draw@ == #[trigger] unit_fraction((word / 2048) as nat),
{
    let word = random_word();
    Binary64::unit_from_word(word)
}

/// Measures a qubit whose probability of basis state 0 is
/// `probability_zero`, on a fresh uniform sample. Where the qubit has
/// collapsed before, so that the probability is that of a basis state, the
/// measurement gives that basis state again.
pub fn measure(probability_zero: Binary64) -> (o: Outcome)
    ensures
        exists|draw: Value|
            draw.in_unit_interval() && o == #[trigger] outcome_of(probability_zero@, draw),
        forall|prior: Outcome|
            probability_zero.bits == #[trigger] prior.probability_zero_bits() ==> o == prior,
{
    let draw = uniform();
    proof {
        lemma_certain_zero(draw@);
        lemma_certain_one(draw@);
    }
    measure_with(probability_zero, draw)
}

/// The pattern of `1.0` stands for 2^1074 units, that of `0.5` for 2^1073 and
/// that of `0.0` for none.
pub proof fn lemma_constants()
    ensures
        decode(ONE_BITS) == (Value::Finite { negative: false, units: pow2(1074) }),
        decode(HALF_BITS) == (Value::Finite { negative: false, units: pow2(1073) }),
        decode(ZERO_BITS) == (Value::Finite { negative: false, units: 0 }),
{
    lemma2_to64_rest();
    lemma_pow2_adds(52, 1022);
    lemma_pow2_adds(52, 1021);
    assert(ONE_BITS / HIDDEN_BIT == 1023);
    assert(HALF_BITS / HIDDEN_BIT == 1022);
}

/// A qubit that is in basis state 0 with probability one is found there by
/// every sample of `[0, 1)`.
pub proof fn lemma_certain_zero(draw: Value)
    requires
        draw.in_unit_interval(),
    ensures
        outcome_of(decode(ONE_BITS), draw) == Outcome::Zero,
{
    lemma_constants();
}

/// A qubit that is in basis state 0 with probability zero is found in basis
/// state 1 by every sample of `[0, 1)`.
pub proof fn lemma_certain_one(draw: Value)
    requires
        draw.in_unit_interval(),
    ensures
        outcome_of(decode(ZERO_BITS), draw) == Outcome::One,
{
    lemma_constants();
}

/// With probability one half, a sample of `[0, 1)` gives basis state 0 where
/// it lies below one half, and basis state 1 where it is one half or more.
pub proof fn lemma_even_odds(draw: Value)
    requires
        draw.in_unit_interval(),
    ensures
        outcome_of(decode(HALF_BITS), draw) == Outcome::Zero <==> 2 * draw.signed_units() < pow2(
            1074,
        ),
{
    lemma_constants();
    lemma_pow2_unfold(1074);
}

/// Measuring twice gives the same outcome twice: whatever the first
/// measurement was made of, a second one of the collapsed state, on any sample
/// of `[0, 1)`, repeats its outcome.
pub proof fn lemma_measurement_repeats(probability_zero: Value, first: Value, second: Value)
    requires
        second.in_unit_interval(),
    ensures
        outcome_of(
            decode(outcome_of(probability_zero, first).probability_zero_bits()),
            second,
        ) == outcome_of(probability_zero, first),
{
    lemma_certain_zero(second);
    lemma_certain_one(second);
}

} // verus!
