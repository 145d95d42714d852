//! Single-precision numbers as bit patterns, with IEEE 754 comparison.

use vstd::prelude::*;

verus! {

/// Bit pattern of the sign bit alone, which is also negative zero.
pub const SIGN_BIT: u32 = 0x8000_0000;

/// Bit pattern of positive infinity. Every larger magnitude is not a number.
pub const INFINITY_BITS: u32 = 0x7f80_0000;

/// An IEEE 754 single-precision number, held as its 32-bit pattern.
///
/// `==` on `Scalar` is identity of patterns; numeric equality, under which the
/// two zeros agree and a NaN equals nothing, is [`Scalar::same`].
#[derive(Clone, Copy, Debug, PartialEq, Eq, Structural)]
pub struct Scalar {
    pub bits: u32,
}

impl Scalar {
    /// The pattern without its sign bit.
    pub open spec fn magnitude(self) -> int {
        if self.bits >= SIGN_BIT {
            self.bits - SIGN_BIT
        } else {
            self.bits as int
        }
    }

    /// Whether the sign bit is set.
    pub open spec fn negative(self) -> bool {
        self.bits >= SIGN_BIT
    }

    /// Whether the pattern is not a number.
    pub open spec fn nan(self) -> bool {
        self.magnitude() > INFINITY_BITS
    }

    /// Position of a number on the line: for patterns that are numbers, a
    /// smaller rank is a smaller number, and the two zeros share rank 0.
    pub open spec fn rank(self) -> int {
        if self.negative() {
            -self.magnitude()
        } else {
            self.magnitude()
        }
    }

    /// `self < other` as IEEE 754 has it: false when either is NaN.
    pub open spec fn below(self, other: Scalar) -> bool {
        !self.nan() && !other.nan() && self.rank() < other.rank()
    }

    /// `self >= other` as IEEE 754 has it: false when either is NaN.
    pub open spec fn at_least(self, other: Scalar) -> bool {
        !self.nan() && !other.nan() && self.rank() >= other.rank()
    }

    /// `self == other` as IEEE 754 has it: false when either is NaN.
    pub open spec fn equals(self, other: Scalar) -> bool {
        !self.nan() && !other.nan() && self.rank() == other.rank()
    }

    /// The larger of two numbers: the other one where one is NaN, and `self`
    /// where the two are equal.
    pub open spec fn larger(self, other: Scalar) -> Scalar {
        if self.nan() {
            other
        } else if other.nan() {
            self
        } else if self.below(other) {
            other
        } else {
            self
        }
    }

    /// The number with the given pattern.
    pub fn from_bits(bits: u32) -> (s: Scalar)
        ensures
            s.bits == bits,
    {
        Scalar { bits }
    }

    /// The pattern of this number.
    pub fn to_bits(self) -> (bits: u32)
        ensures
            bits == self.bits,
    {
        self.bits
    }

    /// Positive zero.
    pub fn zero() -> (s: Scalar)
        ensures
            s.bits == 0,
    {
        Scalar { bits: 0 }
    }

    /// Positive infinity.
    pub fn infinity() -> (s: Scalar)
        ensures
            s.bits == INFINITY_BITS,
    {
        Scalar { bits: INFINITY_BITS }
    }

    fn split(self) -> (parts: (bool, u32))
        ensures
            parts.0 == self.negative(),
            parts.1 == self.magnitude(),
    {
        if self.bits >= SIGN_BIT {
            (true, self.bits - SIGN_BIT)
        } else {
            (false, self.bits)
        }
    }

    /// Whether this is not a number.
    pub fn is_nan(self) -> (r: bool)
        ensures
            r == self.nan(),
    {
        let (_, magnitude) = self.split();
        magnitude > INFINITY_BITS
    }

    /// `self < other`.
    pub fn lt(self, other: Scalar) -> (r: bool)
        ensures
            r == self.below(other),
    {
        let (a_negative, a) = self.split();
        let (b_negative, b) = other.split();
        if a > INFINITY_BITS || b > INFINITY_BITS {
            false
        } else if a_negative {
            if b_negative {
                a > b
            } else {
                a > 0 || b > 0
            }
        } else {
            !b_negative && a < b
        }
    }

    /// `self > other`.
    pub fn gt(self, other: Scalar) -> (r: bool)
        ensures
            r == other.below(self),
    {
        other.lt(self)
    }

    /// `self >= other`.
    pub fn ge(self, other: Scalar) -> (r: bool)
        ensures
            r == self.at_least(other),
    {
        let (a_negative, a) = self.split();
        let (b_negative, b) = other.split();
        if a > INFINITY_BITS || b > INFINITY_BITS {
            false
        } else if a_negative {
            if b_negative {
                a <= b
            } else {
                a == 0 && b == 0
            }
        } else {
            b_negative || a >= b
        }
    }

    /// `self <= other`.
    pub fn le(self, other: Scalar) -> (r: bool)
        ensures
            r == other.at_least(self),
    {
        other.ge(self)
    }

    /// The larger of `self` and `other`, by which a diffuse term is kept from
    /// falling below zero.
    pub fn max(self, other: Scalar) -> (r: Scalar)
        ensures
            r == self.larger(other),
    {
        if self.is_nan() {
            other
        } else if other.is_nan() {
            self
        } else if self.lt(other) {
            other
        } else {
            self
        }
    }

    /// `self == other` as numbers.
    pub fn same(self, other: Scalar) -> (r: bool)
        ensures
            r == self.equals(other),
    {
        let (a_negative, a) = self.split();
        let (b_negative, b) = other.split();
        if a > INFINITY_BITS || b > INFINITY_BITS {
            false
        } else if a_negative == b_negative {
            a == b
        } else {
            a == 0 && b == 0
        }
    }
}

/// Of two numbers, exactly one of `<`, `==`, `>` holds; of a NaN and anything,
/// none does.
pub proof fn lemma_trichotomy(a: Scalar, b: Scalar)
    ensures
        !a.nan() && !b.nan() ==> (a.below(b) || a.equals(b) || b.below(a)),
        !(a.below(b) && a.equals(b)),
        !(a.below(b) && b.below(a)),
        !(a.equals(b) && b.below(a)),
        a.nan() || b.nan() ==> !a.below(b) && !a.equals(b) && !b.below(a) && !a.at_least(b),
        a.at_least(b) <==> (b.below(a) || a.equals(b)),
{
}

/// `<` is transitive.
pub proof fn lemma_below_transitive(a: Scalar, b: Scalar, c: Scalar)
    requires
        a.below(b),
        b.below(c),
    ensures
        a.below(c),
{
}

} // verus!
