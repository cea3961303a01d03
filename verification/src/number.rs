//! Numbers of the language: binary64 values as bit patterns.

use vstd::prelude::*;

verus! {

/// The sign bit of a binary64 pattern.
pub const SIGN_BIT: u64 = 0x8000_0000_0000_0000;

/// The pattern of positive infinity: every pattern whose magnitude is greater
/// is not a number.
pub const INFINITY_BITS: u64 = 0x7ff0_0000_0000_0000;

/// The pattern of positive one.
pub const ONE_BITS: u64 = 0x3ff0_0000_0000_0000;

/// A binary64 value, held as the sixty-four bits of its interchange format:
/// one sign bit, eleven exponent bits, fifty-two fraction bits.
#[derive(Clone, Copy, Debug, PartialEq, Eq)]
pub struct Number {
    pub bits: u64,
}

/// The four operations whose rounding the host performs.
#[derive(Clone, Copy, Debug, PartialEq, Eq)]
pub enum Operation {
    Add,
    Subtract,
    Multiply,
    Divide,
}

impl Number {
    /// The pattern without its sign bit.
    pub open spec fn magnitude(self) -> u64 {
        if self.bits >= SIGN_BIT {
            (self.bits - SIGN_BIT) as u64
        } else {
            self.bits
        }
    }

    /// The sign bit is set. This holds of negative zero too.
    pub open spec fn spec_is_negative(self) -> bool {
        self.bits >= SIGN_BIT
    }

    /// The pattern is one of the NaNs: an all-ones exponent with a fraction
    /// that is not zero.
    pub open spec fn spec_is_nan(self) -> bool {
        self.magnitude() > INFINITY_BITS
    }

    /// The value is zero, of either sign.
    pub open spec fn spec_is_zero(self) -> bool {
        self.magnitude() == 0
    }

    /// Numeric equality: a NaN equals nothing, the two zeros equal each
    /// other, and every other value equals only its own pattern.
    pub open spec fn spec_equals(self, other: Number) -> bool {
        &&& !self.spec_is_nan()
        &&& !other.spec_is_nan()
        &&& (self.bits == other.bits || (self.spec_is_zero() && other.spec_is_zero()))
    }

    /// Numeric order: false as soon as one side is a NaN; the two zeros are
    /// not below each other; otherwise the order of sign and magnitude.
    pub open spec fn spec_less_than(self, other: Number) -> bool {
        &&& !self.spec_is_nan()
        &&& !other.spec_is_nan()
        &&& if self.spec_is_negative() {
            if other.spec_is_negative() {
                self.magnitude() > other.magnitude()
            } else {
                !(self.spec_is_zero() && other.spec_is_zero())
            }
        } else {
            !other.spec_is_negative() && self.magnitude() < other.magnitude()
        }
    }

    /// Below or equal.
    pub open spec fn spec_at_most(self, other: Number) -> bool {
        self.spec_less_than(other) || self.spec_equals(other)
    }

    /// The same value with the opposite sign.
    pub open spec fn spec_negate(self) -> Number {
        if self.bits >= SIGN_BIT {
            Number { bits: (self.bits - SIGN_BIT) as u64 }
        } else {
            Number { bits: (self.bits + SIGN_BIT) as u64 }
        }
    }

    /// Positive zero.
    pub open spec fn spec_zero() -> Number {
        Number { bits: 0 }
    }

    /// Positive one.
    pub open spec fn spec_one() -> Number {
        Number { bits: ONE_BITS }
    }

    /// The number with the given pattern.
    pub fn from_bits(bits: u64) -> (r: Number)
        ensures
            r.bits == bits,
    {
        Number { bits }
    }

    /// The pattern of the number.
    pub fn to_bits(self) -> (r: u64)
        ensures
            r == self.bits,
    {
        self.bits
    }

    #[verifier::when_used_as_spec(spec_zero)]
    pub fn zero() -> (r: Number)
        ensures
            r == Number::spec_zero(),
    {
        Number { bits: 0 }
    }

    #[verifier::when_used_as_spec(spec_one)]
    pub fn one() -> (r: Number)
        ensures
            r == Number::spec_one(),
    {
        Number { bits: ONE_BITS }
    }

    fn magnitude_bits(self) -> (r: u64)
        ensures
            r == self.magnitude(),
    {
        if self.bits >= SIGN_BIT {
            self.bits - SIGN_BIT
        } else {
            self.bits
        }
    }

    #[verifier::when_used_as_spec(spec_is_negative)]
    pub fn is_negative(self) -> (r: bool)
        ensures
            r == self.spec_is_negative(),
    {
        self.bits >= SIGN_BIT
    }

    #[verifier::when_used_as_spec(spec_is_nan)]
    pub fn is_nan(self) -> (r: bool)
        ensures
            r == self.spec_is_nan(),
    {
        self.magnitude_bits() > INFINITY_BITS
    }

    #[verifier::when_used_as_spec(spec_is_zero)]
    pub fn is_zero(self) -> (r: bool)
        ensures
            r == self.spec_is_zero(),
    {
        self.magnitude_bits() == 0
    }

    #[verifier::when_used_as_spec(spec_equals)]
    pub fn equals(self, other: Number) -> (r: bool)
        ensures
            r == self.spec_equals(other),
    {
        if self.is_nan() || other.is_nan() {
            false
        } else {
            self.bits == other.bits || (self.is_zero() && other.is_zero())
        }
    }

    #[verifier::when_used_as_spec(spec_less_than)]
    pub fn less_than(self, other: Number) -> (r: bool)
        ensures
            r == self.spec_less_than(other),
    {
        if self.is_nan() || other.is_nan() {
            false
        } else if self.is_negative() {
            if other.is_negative() {
                self.magnitude_bits() > other.magnitude_bits()
            } else {
                !(self.is_zero() && other.is_zero())
            }
        } else {
            !other.is_negative() && self.magnitude_bits() < other.magnitude_bits()
        }
    }

    #[verifier::when_used_as_spec(spec_at_most)]
    pub fn at_most(self, other: Number) -> (r: bool)
        ensures
            r == self.spec_at_most(other),
    {
        self.less_than(other) || self.equals(other)
    }

    #[verifier::when_used_as_spec(spec_negate)]
    pub fn negate(self) -> (r: Number)
        ensures
            r == self.spec_negate(),
    {
        if self.bits >= SIGN_BIT {
            Number { bits: self.bits - SIGN_BIT }
        } else {
            Number { bits: self.bits + SIGN_BIT }
        }
    }
}

} // verus!
