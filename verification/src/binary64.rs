//! IEEE-754 binary64 numbers, held as bit patterns.
//!
//! A pattern has one sign bit, eleven exponent bits and fifty-two fraction
//! bits. Every finite binary64 number is a whole multiple of 2^-1074, so its
//! exact value is modelled by a sign and a natural number of such units.

use vstd::prelude::*;
use vstd::arithmetic::power2::{
    lemma2_to64, lemma2_to64_rest, lemma_pow2_adds, lemma_pow2_pos, lemma_pow2_strictly_increases,
    lemma_pow2_unfold, pow2,
};

verus! {

/// The sign bit of a pattern.
pub const SIGN_BIT: u64 = 0x8000_0000_0000_0000;

/// The pattern of positive infinity. A pattern whose other bits, the sign
/// apart, lie above it is a NaN; one whose other bits lie below it is finite.
pub const INFINITY_BITS: u64 = 0x7FF0_0000_0000_0000;

/// Two to the power 52: the weight of the lowest exponent bit, and the
/// leading bit that the significand of a normal number has beyond its
/// fraction bits.
pub const HIDDEN_BIT: u64 = 0x0010_0000_0000_0000;

/// The pattern of `+0.0`.
pub const ZERO_BITS: u64 = 0;

/// The pattern of `0.5`.
pub const HALF_BITS: u64 = 0x3FE0_0000_0000_0000;

/// The pattern of `1.0`.
pub const ONE_BITS: u64 = 0x3FF0_0000_0000_0000;

/// What a binary64 bit pattern stands for.
pub enum Value {
    /// Not a number.
    Nan,
    /// Positive or negative infinity.
    Infinite { negative: bool },
    /// The number `units * 2^-1074`, negated where `negative` holds. Both
    /// zeros have `units == 0`.
    Finite { negative: bool, units: nat },
}

impl Value {
    /// A finite value as a signed count of units of 2^-1074.
    pub open spec fn signed_units(self) -> int
        recommends
            self is Finite,
    {
        match self {
            Value::Finite { negative, units } => if negative {
                -(units as int)
            } else {
                units as int
            },
            _ => 0,
        }
    }

    /// The IEEE-754 comparison `self < other`: false where either side is a
    /// NaN, and the order of the extended real line otherwise, on which the
    /// two zeros are equal.
    pub open spec fn lt(self, other: Value) -> bool {
        match (self, other) {
            (Value::Nan, _) => false,
            (_, Value::Nan) => false,
            (Value::Infinite { negative: a }, Value::Infinite { negative: b }) => a && !b,
            (Value::Infinite { negative }, Value::Finite { .. }) => negative,
            (Value::Finite { .. }, Value::Infinite { negative }) => !negative,
            (Value::Finite { .. }, Value::Finite { .. }) => self.signed_units()
                < other.signed_units(),
        }
    }

    /// Whether the value is a number in the half-open interval `[0, 1)`.
    pub open spec fn in_unit_interval(self) -> bool {
        self is Finite && 0 <= self.signed_units() < pow2(1074)
    }
}

/// The pattern without its sign bit.
pub open spec fn magnitude_bits(bits: u64) -> u64 {
    if bits >= SIGN_BIT {
        (bits - SIGN_BIT) as u64
    } else {
        bits
    }
}

/// The absolute value of the finite number with the sign-free pattern
/// `magnitude`, in units of 2^-1074. With exponent field `e` and fraction
/// field `f` this is `f` for a subnormal number (`e == 0`) and
/// `(2^52 + f) * 2^(e - 1)` for a normal one.
pub open spec fn units_of(magnitude: u64) -> nat
    recommends
        magnitude < INFINITY_BITS,
{
    let e = magnitude / HIDDEN_BIT;
    let f = magnitude % HIDDEN_BIT;
    if e == 0 {
        f as nat
    } else {
        (HIDDEN_BIT + f) as nat * pow2((e - 1) as nat)
    }
}

/// The value of a bit pattern.
pub open spec fn decode(bits: u64) -> Value {
    let negative = bits >= SIGN_BIT;
    let magnitude = magnitude_bits(bits);
    if magnitude > INFINITY_BITS {
        Value::Nan
    } else if magnitude == INFINITY_BITS {
        Value::Infinite { negative }
    } else {
        Value::Finite { negative, units: units_of(magnitude) }
    }
}

/// Among finite numbers of one sign, a larger pattern is a larger magnitude.
pub proof fn lemma_units_increase(a: u64, b: u64)
    requires
        a < b < INFINITY_BITS,
    ensures
        units_of(a) < units_of(b),
{
    let ea = a / HIDDEN_BIT;
    let fa = a % HIDDEN_BIT;
    let eb = b / HIDDEN_BIT;
    let fb = b % HIDDEN_BIT;
    let h = HIDDEN_BIT as int;
    if ea == eb {
        if ea > 0 {
            let p = pow2((ea - 1) as nat) as int;
            lemma_pow2_pos((ea - 1) as nat);
            assert((h + fa) * p < (h + fb) * p) by (nonlinear_arith)
                requires
                    fa < fb,
                    p > 0,
            ;
        }
    } else {
        // units_of(a) < 2^52 * 2^ea <= units_of(b)
        let q = pow2(ea as nat) as int;
        let p = pow2((eb - 1) as nat) as int;
        lemma_pow2_pos(ea as nat);
        if ea < eb - 1 {
            lemma_pow2_strictly_increases(ea as nat, (eb - 1) as nat);
        }
        assert(q <= p);
        assert(h * q <= (h + fb) * p) by (nonlinear_arith)
            requires
                0 < q <= p,
                h > 0,
                fb >= 0,
        ;
        if ea == 0 {
            lemma2_to64();
            assert(fa < h * q);
        } else {
            let r = pow2((ea - 1) as nat) as int;
            lemma_pow2_unfold(ea as nat);
            lemma_pow2_pos((ea - 1) as nat);
            assert((h + fa) * r < h * q) by (nonlinear_arith)
                requires
                    fa < h,
                    r > 0,
                    q == 2 * r,
            ;
        }
    }
}

/// An IEEE-754 binary64 number, held as its bit pattern.
#[derive(Clone, Copy, Debug)]
pub struct Binary64 {
    pub bits: u64,
}

impl View for Binary64 {
    type V = Value;

    open spec fn view(&self) -> Value {
        decode(self.bits)
    }
}

impl Binary64 {
    /// Decides the IEEE-754 comparison `self < other`.
    pub fn lt(&self, other: &Binary64) -> (r: bool)
        ensures
            r == self@.lt(other@),
    {
        let a_negative = self.bits >= SIGN_BIT;
        let b_negative = other.bits >= SIGN_BIT;
        let a: u64 = if a_negative { self.bits - SIGN_BIT } else { self.bits };
        let b: u64 = if b_negative { other.bits - SIGN_BIT } else { other.bits };
        proof {
            if a < b && b < INFINITY_BITS {
                lemma_units_increase(a, b);
            }
            if b < a && a < INFINITY_BITS {
                lemma_units_increase(b, a);
            }
            if 0 < a && a < INFINITY_BITS {
                lemma_units_increase(0, a);
            }
            if 0 < b && b < INFINITY_BITS {
                lemma_units_increase(0, b);
            }
        }
        if a > INFINITY_BITS || b > INFINITY_BITS {
            false
        } else if a_negative {
            if b_negative {
                b < a
            } else {
                a != 0 || b != 0
            }
        } else {
            !b_negative && a < b
        }
    }
}

/// The number `numerator * 2^-53`, which is `numerator * 2^1021` units.
pub open spec fn unit_fraction(numerator: nat) -> Value {
    Value::Finite { negative: false, units: numerator * pow2(1021) }
}

/// A fraction of 2^-53 with a numerator below 2^53 lies in `[0, 1)`.
pub proof fn lemma_unit_fraction_below_one(numerator: nat)
    requires
        numerator < pow2(53),
    ensures
        numerator * pow2(1021) < pow2(1074),
        unit_fraction(numerator).in_unit_interval(),
{
    lemma_pow2_adds(53, 1021);
    lemma_pow2_pos(1021);
    let p = pow2(1021) as int;
    let n = numerator as int;
    let m = pow2(53) as int;
    assert(n * p < m * p) by (nonlinear_arith)
        requires
            0 <= n < m,
            p > 0,
    ;
}

impl Binary64 {
    /// The number `k * 2^-53`, where `k` is made of the upper 53 bits of
    /// `word`: the number in `[0, 1)` that stands for a word of 64 uniformly
    /// random bits. The product is exact, since `k` fits a significand.
    pub fn unit_from_word(word: u64) -> (r: Binary64)
        ensures
            r@ == unit_fraction((word / 2048) as nat),
            r@.in_unit_interval(),
    {
        let numerator: u64 = word >> 11;
        assert(numerator == word / 2048 && numerator < 0x20_0000_0000_0000) by (bit_vector)
            requires
                numerator == word >> 11,
        ;
        proof {
            lemma2_to64_rest();
            lemma_unit_fraction_below_one(numerator as nat);
        }
        if numerator == 0 {
            assert(0 * pow2(1021) == 0);
            return Binary64 { bits: ZERO_BITS };
        }
        // Shift the leading bit of the numerator up to the hidden bit, and
        // lower the exponent by one for each place.
        let mut significand: u64 = numerator;
        let mut exponent: u64 = 1022;
        proof {
            lemma2_to64();
        }
        while significand < HIDDEN_BIT
            invariant
                0 < significand < 2 * HIDDEN_BIT,
                970 <= exponent <= 1022,
                significand >= pow2((1022 - exponent) as nat),
                significand * pow2((exponent - 1) as nat) == numerator * pow2(1021),
            decreases exponent,
        {
            proof {
                // The significand is still below 2^52, so fewer than 52
                // places have been taken.
                lemma2_to64_rest();
                assert(exponent > 970) by {
                    if 1022 - exponent > 52 {
                        lemma_pow2_strictly_increases(52, (1022 - exponent) as nat);
                    }
                }
                lemma_pow2_unfold((exponent - 1) as nat);
                lemma_pow2_unfold((1023 - exponent) as nat);
                let s = significand as int;
                let p = pow2((exponent - 2) as nat) as int;
                assert((2 * s) * p == s * (2 * p)) by (nonlinear_arith);
            }
            significand = significand * 2;
            exponent = exponent - 1;
        }
        let bits: u64 = (exponent - 1) * HIDDEN_BIT + significand;
        assert(bits / HIDDEN_BIT == exponent);
        assert(bits % HIDDEN_BIT == significand - HIDDEN_BIT);
        Binary64 { bits }
    }
}

} // verus!
