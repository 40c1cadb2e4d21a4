//! Real-valued record fields, held as IEEE-754 binary64 bit patterns.
//!
//! A `Scalar` is the 64-bit pattern of a double: one sign bit, eleven exponent
//! bits, fifty-two fraction bits. Every question the record rules ask of a real
//! number (is it a number at all, is it finite, does it lie in `[0, 1]`, is it
//! below a threshold) is answered on the bits, and proved here to agree with
//! the exact value that the bits denote.

use vstd::prelude::*;
use vstd::arithmetic::power2::{
    lemma_pow2_pos, lemma_pow2_strictly_increases, lemma_pow2_unfold, pow2,
};

verus! {

/// Bit pattern of `+0.0`.
pub const ZERO_BITS: u64 = 0;

/// Bit pattern of `-0.0`.
pub const NEG_ZERO_BITS: u64 = 0x8000_0000_0000_0000;

/// Bit pattern of `1.0`.
pub const ONE_BITS: u64 = 0x3FF0_0000_0000_0000;

/// Bit pattern of `+infinity`; every pattern above it, sign aside, is a NaN.
pub const INFINITY_BITS: u64 = 0x7FF0_0000_0000_0000;

/// Two to the fifty-second: the weight of the implicit leading bit.
pub const HIDDEN_BIT: u64 = 0x0010_0000_0000_0000;

/// The pattern with its sign bit cleared.
pub open spec fn unsigned_part(bits: u64) -> u64 {
    if bits >= NEG_ZERO_BITS {
        (bits - NEG_ZERO_BITS) as u64
    } else {
        bits
    }
}

/// The sign bit: set for negative numbers and for `-0.0`.
pub open spec fn sign_set(bits: u64) -> bool {
    bits >= NEG_ZERO_BITS
}

/// The biased exponent field, `0 ..= 2047`.
pub open spec fn exponent_field(bits: u64) -> nat {
    (unsigned_part(bits) / HIDDEN_BIT) as nat
}

/// The fraction field, below two to the fifty-second.
pub open spec fn fraction_field(bits: u64) -> nat {
    (unsigned_part(bits) % HIDDEN_BIT) as nat
}

/// The integer significand: the fraction, with the implicit bit for normal numbers.
pub open spec fn significand(bits: u64) -> nat {
    if exponent_field(bits) == 0 {
        fraction_field(bits)
    } else {
        HIDDEN_BIT as nat + fraction_field(bits)
    }
}

/// The power of two that scales the significand, counted from the smallest subnormal.
pub open spec fn scale(bits: u64) -> nat {
    if exponent_field(bits) == 0 {
        0
    } else {
        (exponent_field(bits) - 1) as nat
    }
}

/// Neither an infinity nor a NaN.
pub open spec fn finite(bits: u64) -> bool {
    unsigned_part(bits) < INFINITY_BITS
}

/// The absolute value denoted by a finite pattern, in units of `2^-1074`. For an infinity
/// the same formula gives a number above every finite value.
pub open spec fn magnitude(bits: u64) -> nat {
    significand(bits) * pow2(scale(bits))
}

/// The value denoted by a finite pattern, in units of `2^-1074`; for an infinity, a number
/// beyond every finite value on its side.
pub open spec fn value(bits: u64) -> int {
    if sign_set(bits) {
        -(magnitude(bits) as int)
    } else {
        magnitude(bits) as int
    }
}

/// A finite number whose value lies between zero and one, both included.
pub open spec fn unit_interval(bits: u64) -> bool {
    finite(bits) && 0 <= value(bits) <= value(ONE_BITS)
}

/// Among patterns with a clear sign bit, a smaller pattern denotes a smaller value.
pub proof fn lemma_magnitude_increases(a: u64, b: u64)
    requires
        a < b,
        b < NEG_ZERO_BITS,
    ensures
        magnitude(a) < magnitude(b),
{
    let ea = exponent_field(a);
    let eb = exponent_field(b);
    lemma_pow2_pos(scale(a));
    lemma_pow2_pos(scale(b));
    if ea == eb {
        assert(significand(a) < significand(b));
        assert(significand(a) * pow2(scale(a)) < significand(b) * pow2(scale(a)))
            by (nonlinear_arith)
            requires
                significand(a) < significand(b),
                pow2(scale(a)) > 0,
        ;
    } else {
        assert(ea < eb);
        let top = HIDDEN_BIT as nat;
        assert(significand(b) * pow2(scale(b)) >= top * pow2(scale(b))) by (nonlinear_arith)
            requires
                significand(b) >= top,
        ;
        if ea == 0 {
            assert(magnitude(a) < top) by {
                vstd::arithmetic::power2::lemma2_to64();
            }
            assert(top * pow2(scale(b)) >= top) by (nonlinear_arith)
                requires
                    pow2(scale(b)) > 0,
            ;
        } else {
            assert(significand(a) * pow2(scale(a)) < (2 * top) * pow2(scale(a)))
                by (nonlinear_arith)
                requires
                    significand(a) < 2 * top,
                    pow2(scale(a)) > 0,
            ;
            lemma_pow2_unfold(ea);
            assert(pow2(ea) <= pow2(scale(b))) by {
                if ea < scale(b) {
                    lemma_pow2_strictly_increases(ea, scale(b));
                }
            }
            assert((2 * top) * pow2(scale(a)) <= top * pow2(scale(b))) by (nonlinear_arith)
                requires
                    pow2(ea) == 2 * pow2(scale(a)),
                    pow2(ea) <= pow2(scale(b)),
            ;
        }
    }
}

/// One real-valued field: the bit pattern of a double.
#[derive(Clone, Copy, Debug)]
pub struct Scalar {
    pub bits: u64,
}

impl Scalar {
    /// The scalar with the given bit pattern.
    pub fn from_bits(bits: u64) -> (s: Scalar)
        ensures
            s.bits == bits,
    {
        Scalar { bits }
    }

    /// The bit pattern of this scalar.
    pub fn to_bits(&self) -> (bits: u64)
        ensures
            bits == self.bits,
    {
        self.bits
    }

    /// Not a number: the exponent field is all ones and the fraction is not zero.
    pub open spec fn spec_is_nan(&self) -> bool {
        unsigned_part(self.bits) > INFINITY_BITS
    }

    /// Positive or negative infinity.
    pub open spec fn spec_is_infinite(&self) -> bool {
        unsigned_part(self.bits) == INFINITY_BITS
    }

    /// A finite number in `[0, 1]`, by the value that the bits denote.
    pub open spec fn spec_in_unit_interval(&self) -> bool {
        unit_interval(self.bits)
    }

    /// Strictly below `other` in value. A NaN is below nothing and nothing is below it.
    pub open spec fn spec_below(&self, other: Scalar) -> bool {
        !self.spec_is_nan() && !other.spec_is_nan() && value(self.bits) < value(other.bits)
    }

    /// Both are numbers, and they have the same bits or are both zero.
    pub open spec fn spec_same_number(&self, other: Scalar) -> bool {
        !self.spec_is_nan() && !other.spec_is_nan() && (self.bits == other.bits || (
        self.spec_is_zero() && other.spec_is_zero()))
    }

    /// Positive or negative zero.
    pub open spec fn spec_is_zero(&self) -> bool {
        unsigned_part(self.bits) == 0
    }

    /// Whether the scalar is `+0.0` or `-0.0`.
    #[verifier::when_used_as_spec(spec_is_zero)]
    pub fn is_zero(&self) -> (r: bool)
        ensures
            r == self.spec_is_zero(),
    {
        self.bits == ZERO_BITS || self.bits == NEG_ZERO_BITS
    }

    /// Whether the scalar is a NaN.
    #[verifier::when_used_as_spec(spec_is_nan)]
    pub fn is_nan(&self) -> (r: bool)
        ensures
            r == self.spec_is_nan(),
    {
        let rest: u64 = if self.bits >= NEG_ZERO_BITS {
            self.bits - NEG_ZERO_BITS
        } else {
            self.bits
        };
        rest > INFINITY_BITS
    }

    /// Whether the scalar is an infinity.
    #[verifier::when_used_as_spec(spec_is_infinite)]
    pub fn is_infinite(&self) -> (r: bool)
        ensures
            r == self.spec_is_infinite(),
    {
        self.bits == INFINITY_BITS || self.bits == 0xFFF0_0000_0000_0000
    }

    /// Whether the scalar is a number in `[0, 1]`. Both zeros are.
    #[verifier::when_used_as_spec(spec_in_unit_interval)]
    pub fn in_unit_interval(&self) -> (r: bool)
        ensures
            r == self.spec_in_unit_interval(),
    {
        proof {
            lemma_unit_interval_bits(self.bits);
        }
        self.bits <= ONE_BITS || self.bits == NEG_ZERO_BITS
    }

    /// Whether this number is strictly below `other`. The two zeros are equal, and a NaN
    /// compares with nothing.
    #[verifier::when_used_as_spec(spec_below)]
    pub fn below(&self, other: Scalar) -> (r: bool)
        ensures
            r == self.spec_below(other),
    {
        if self.is_nan() || other.is_nan() {
            return false;
        }
        let negative: bool = self.bits >= NEG_ZERO_BITS;
        let other_negative: bool = other.bits >= NEG_ZERO_BITS;
        let size: u64 = if negative { self.bits - NEG_ZERO_BITS } else { self.bits };
        let other_size: u64 = if other_negative { other.bits - NEG_ZERO_BITS } else { other.bits };
        proof {
            lemma_zero_magnitude(self.bits);
            lemma_zero_magnitude(other.bits);
            if size < other_size {
                lemma_magnitude_increases(size, other_size);
            }
            if other_size < size {
                lemma_magnitude_increases(other_size, size);
            }
        }
        if negative && other_negative {
            size > other_size
        } else if negative {
            size != 0 || other_size != 0
        } else if other_negative {
            false
        } else {
            size < other_size
        }
    }
}

impl PartialEq for Scalar {
    /// Equality of the numbers: a NaN equals nothing, and the two zeros are equal.
    fn eq(&self, other: &Scalar) -> (same: bool) {
        !self.is_nan() && !other.is_nan() && (self.bits == other.bits || (self.is_zero()
            && other.is_zero()))
    }
}

impl vstd::std_specs::cmp::PartialEqSpecImpl for Scalar {
    open spec fn obeys_eq_spec() -> bool {
        true
    }

    open spec fn eq_spec(&self, other: &Scalar) -> bool {
        self.spec_same_number(*other)
    }
}

/// Two scalars are equal exactly when both are numbers and denote the same value.
pub proof fn lemma_equal_scalars(a: Scalar, b: Scalar)
    ensures
        a.spec_same_number(b) <==> !a.spec_is_nan() && !b.spec_is_nan() && value(a.bits) == value(
            b.bits,
        ),
{
    let x = unsigned_part(a.bits);
    let y = unsigned_part(b.bits);
    lemma_zero_magnitude(a.bits);
    lemma_zero_magnitude(b.bits);
    if x < y {
        lemma_magnitude_increases(x, y);
    }
    if y < x {
        lemma_magnitude_increases(y, x);
    }
}

/// The two zeros, and only they, denote zero.
pub proof fn lemma_zero_magnitude(bits: u64)
    ensures
        magnitude(bits) == magnitude(unsigned_part(bits)),
        unsigned_part(bits) == 0 ==> magnitude(bits) == 0,
        unsigned_part(bits) != 0 ==> magnitude(bits) > 0,
{
    let rest = unsigned_part(bits);
    assert(unsigned_part(rest) == rest);
    if rest != 0 {
        lemma_magnitude_increases(0, rest);
    }
    assert(magnitude(0) == 0) by {
        assert(significand(0) == 0);
        assert(0 * pow2(scale(0)) == 0) by (nonlinear_arith);
    }
}

/// The patterns that denote a number in `[0, 1]` are those from `+0.0` up to `1.0`, and `-0.0`.
pub proof fn lemma_unit_interval_bits(bits: u64)
    ensures
        unit_interval(bits) <==> (bits <= ONE_BITS || bits == NEG_ZERO_BITS),
{
    lemma_zero_magnitude(bits);
    if bits < NEG_ZERO_BITS {
        if bits < ONE_BITS {
            lemma_magnitude_increases(bits, ONE_BITS);
        } else if bits > ONE_BITS && bits < INFINITY_BITS {
            lemma_magnitude_increases(ONE_BITS, bits);
        }
    }
}

} // verus!
