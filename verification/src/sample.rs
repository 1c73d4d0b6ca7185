use vstd::prelude::*;

verus! {

/// Bit that carries the sign of a double.
pub const SIGN_BIT: u64 = 0x8000_0000_0000_0000;

/// Bit pattern of positive infinity; every larger magnitude is a NaN.
pub const INFINITY_BITS: u64 = 0x7FF0_0000_0000_0000;

/// A noise value: an IEEE-754 double held by its 64-bit pattern.
///
/// Two samples are equal when their bit patterns are. The order offered by
/// [`Sample::lt`] and its siblings is the numeric order of the doubles: a NaN
/// compares false with everything, and the two zeros compare equal.
#[derive(Clone, Copy, Debug, PartialEq, Eq, Structural)]
pub struct Sample {
    pub bits: u64,
}

impl Sample {
    /// The bit pattern without its sign.
    pub open spec fn magnitude(self) -> int {
        if self.bits >= SIGN_BIT {
            self.bits - SIGN_BIT
        } else {
            self.bits as int
        }
    }

    /// Whether the sign bit is set.
    pub open spec fn negative(self) -> bool {
        self.bits >= SIGN_BIT
    }

    /// Whether the pattern encodes a NaN.
    pub open spec fn is_nan(self) -> bool {
        self.magnitude() > INFINITY_BITS
    }

    /// An integer that grows with the encoded number. Magnitudes of doubles
    /// of one sign are ordered as their patterns are, so the signed magnitude
    /// orders all doubles but NaNs.
    pub open spec fn rank(self) -> int {
        if self.negative() {
            -self.magnitude()
        } else {
            self.magnitude()
        }
    }

    /// `self < other` as doubles.
    pub open spec fn spec_lt(self, other: Sample) -> bool {
        !self.is_nan() && !other.is_nan() && self.rank() < other.rank()
    }

    /// `self <= other` as doubles.
    pub open spec fn spec_le(self, other: Sample) -> bool {
        !self.is_nan() && !other.is_nan() && self.rank() <= other.rank()
    }

    /// `self > other` as doubles.
    pub open spec fn spec_gt(self, other: Sample) -> bool {
        other.spec_lt(self)
    }

    /// `self >= other` as doubles.
    pub open spec fn spec_ge(self, other: Sample) -> bool {
        other.spec_le(self)
    }

    /// Wraps a bit pattern.
    pub fn from_bits(bits: u64) -> (s: Sample)
        ensures
            s.bits == bits,
    {
        Sample { bits }
    }

    /// The bit pattern.
    pub fn to_bits(self) -> (bits: u64)
        ensures
            bits == self.bits,
    {
        self.bits
    }

    /// Whether the sample is a NaN.
    pub fn nan(self) -> (r: bool)
        ensures
            r == self.is_nan(),
    {
        if self.bits >= SIGN_BIT {
            self.bits - SIGN_BIT > INFINITY_BITS
        } else {
            self.bits > INFINITY_BITS
        }
    }

    /// Numeric `<`.
    pub fn lt(self, other: Sample) -> (r: bool)
        ensures
            r == self.spec_lt(other),
    {
        if self.nan() || other.nan() {
            return false;
        }
        let a_neg: bool = self.bits >= SIGN_BIT;
        let b_neg: bool = other.bits >= SIGN_BIT;
        if a_neg {
            if b_neg {
                self.bits > other.bits
            } else {
                self.bits > SIGN_BIT || other.bits > 0
            }
        } else {
            if b_neg {
                false
            } else {
                self.bits < other.bits
            }
        }
    }

    /// Numeric `<=`.
    pub fn le(self, other: Sample) -> (r: bool)
        ensures
            r == self.spec_le(other),
    {
        if self.nan() || other.nan() {
            return false;
        }
        !other.lt(self)
    }

    /// Numeric `>`.
    pub fn gt(self, other: Sample) -> (r: bool)
        ensures
            r == self.spec_gt(other),
    {
        other.lt(self)
    }

    /// Numeric `>=`.
    pub fn ge(self, other: Sample) -> (r: bool)
        ensures
            r == self.spec_ge(other),
    {
        other.le(self)
    }
}

/// Between two samples that are not NaNs exactly one of `<`, `>` and "same
/// number" holds, and `<=` is `<` or "same number".
pub proof fn lemma_order_total(a: Sample, b: Sample)
    requires
        !a.is_nan(),
        !b.is_nan(),
    ensures
        a.spec_lt(b) || a.spec_gt(b) || a.rank() == b.rank(),
        !(a.spec_lt(b) && a.spec_gt(b)),
        a.spec_le(b) == !a.spec_gt(b),
        a.spec_ge(b) == !a.spec_lt(b),
{
}

} // verus!
