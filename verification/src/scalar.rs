//! Real numbers in IEEE-754 binary64 interchange format, held by their bit
//! patterns.
//!
//! Everything that the renderer decides (which root is nearest, whether a ray
//! misses, which samples bracket a wavelength) is a comparison of two such
//! numbers, and a comparison is a function of the bit patterns alone. This
//! module states that function over integers and implements it.

use vstd::prelude::*;

verus! {

/// The sign bit of a binary64 number.
pub const SIGN_BIT: u64 = 0x8000_0000_0000_0000;

/// The bit pattern of positive infinity: every magnitude above it is a NaN.
pub const INFINITY_BITS: u64 = 0x7FF0_0000_0000_0000;

/// The bit pattern of 1.
pub const ONE_BITS: u64 = 0x3FF0_0000_0000_0000;

/// The bit pattern of 2.
pub const TWO_BITS: u64 = 0x4000_0000_0000_0000;

/// The bit pattern of 4.
pub const FOUR_BITS: u64 = 0x4010_0000_0000_0000;

/// The bit pattern of the binary64 number nearest to pi.
pub const PI_BITS: u64 = 0x4009_21FB_5444_2D18;

/// The bit pattern of the binary64 number nearest to pi / 2.
pub const HALF_PI_BITS: u64 = 0x3FF9_21FB_5444_2D18;

/// The bit pattern of the natural logarithm of 2, rounded to binary64.
pub const LN_2_BITS: u64 = 0x3FE6_2E42_FEFA_39EF;

/// The bit pattern of the machine epsilon, 2^-52.
pub const EPSILON_BITS: u64 = 0x3CB0_0000_0000_0000;

/// The bit pattern of 0.9, the threshold on a normal's components above which
/// another reference axis is picked for the tangent frame.
pub const NINE_TENTHS_BITS: u64 = 0x3FEC_CCCC_CCCC_CCCD;

/// A binary64 number, by its bit pattern.
#[derive(Clone, Copy, Debug, PartialEq, Eq, Structural)]
pub struct Scalar {
    pub bits: u64,
}

impl Scalar {
    /// The bits below the sign bit, as a number.
    pub open spec fn magnitude(self) -> int {
        if self.bits >= SIGN_BIT {
            self.bits - SIGN_BIT
        } else {
            self.bits as int
        }
    }

    /// Whether the sign bit is set.
    pub open spec fn sign_set(self) -> bool {
        self.bits >= SIGN_BIT
    }

    /// Whether the pattern is not a number.
    pub open spec fn nan(self) -> bool {
        self.magnitude() > INFINITY_BITS
    }

    /// Whether the pattern is a number other than the two infinities.
    pub open spec fn finite(self) -> bool {
        self.magnitude() < INFINITY_BITS
    }

    /// The position of a number in the order of the binary64 numbers: the
    /// magnitude, negated under a set sign bit. Both zeros have key 0.
    pub open spec fn key(self) -> int {
        if self.sign_set() {
            -self.magnitude()
        } else {
            self.magnitude()
        }
    }

    /// `self < other` as IEEE-754 defines it: false when either is a NaN.
    pub open spec fn num_lt(self, other: Scalar) -> bool {
        !self.nan() && !other.nan() && self.key() < other.key()
    }

    /// `self <= other` as IEEE-754 defines it: false when either is a NaN.
    pub open spec fn num_le(self, other: Scalar) -> bool {
        !self.nan() && !other.nan() && self.key() <= other.key()
    }

    /// `self == other` as IEEE-754 defines it: false when either is a NaN, true
    /// of the two zeros.
    pub open spec fn num_eq(self, other: Scalar) -> bool {
        !self.nan() && !other.nan() && self.key() == other.key()
    }

    /// The number of the same magnitude with the sign bit cleared.
    pub open spec fn absolute(self) -> Scalar {
        Scalar { bits: self.magnitude() as u64 }
    }

    /// The number of the same magnitude and the opposite sign.
    pub open spec fn negated(self) -> Scalar {
        if self.bits >= SIGN_BIT {
            Scalar { bits: (self.bits - SIGN_BIT) as u64 }
        } else {
            Scalar { bits: (self.bits + SIGN_BIT) as u64 }
        }
    }

    /// The number with the given bit pattern.
    pub open spec fn of(bits: u64) -> Scalar {
        Scalar { bits }
    }

    /// `self == 0`: either zero.
    pub open spec fn is_zero(self) -> bool {
        self.magnitude() == 0
    }

    /// `self >= 0`: a zero or a positive number, not a NaN.
    pub open spec fn non_negative(self) -> bool {
        !self.nan() && self.key() >= 0
    }

    /// `self > 0`, not a NaN.
    pub open spec fn positive(self) -> bool {
        !self.nan() && self.key() > 0
    }

    /// The number with the given bit pattern.
    pub fn from_bits(bits: u64) -> (s: Scalar)
        ensures
            s == Scalar::of(bits),
    {
        Scalar { bits }
    }

    /// The bit pattern.
    pub fn to_bits(self) -> (bits: u64)
        ensures
            bits == self.bits,
    {
        self.bits
    }

    /// Positive zero.
    pub fn zero() -> (s: Scalar)
        ensures
            s == Scalar::of(0),
    {
        Scalar { bits: 0 }
    }

    /// One.
    pub fn one() -> (s: Scalar)
        ensures
            s == Scalar::of(ONE_BITS),
    {
        Scalar { bits: ONE_BITS }
    }

    /// Two.
    pub fn two() -> (s: Scalar)
        ensures
            s == Scalar::of(TWO_BITS),
    {
        Scalar { bits: TWO_BITS }
    }

    /// Positive infinity.
    pub fn infinity() -> (s: Scalar)
        ensures
            s == Scalar::of(INFINITY_BITS),
    {
        Scalar { bits: INFINITY_BITS }
    }

    /// The magnitude, as a machine integer.
    fn magnitude_bits(self) -> (m: u64)
        ensures
            m == self.magnitude(),
            m < SIGN_BIT,
    {
        if self.bits >= SIGN_BIT {
            self.bits - SIGN_BIT
        } else {
            self.bits
        }
    }

    /// The key, as a machine integer.
    fn order_key(self) -> (k: i64)
        ensures
            k == self.key(),
    {
        let m: u64 = self.magnitude_bits();
        let k: i64 = m as i64;
        if self.bits >= SIGN_BIT {
            -k
        } else {
            k
        }
    }

    /// Whether the pattern is not a number.
    pub fn is_nan(self) -> (r: bool)
        ensures
            r == self.nan(),
    {
        self.magnitude_bits() > INFINITY_BITS
    }

    /// `self < other`.
    pub fn lt(self, other: Scalar) -> (r: bool)
        ensures
            r == self.num_lt(other),
    {
        !self.is_nan() && !other.is_nan() && self.order_key() < other.order_key()
    }

    /// `self <= other`.
    pub fn le(self, other: Scalar) -> (r: bool)
        ensures
            r == self.num_le(other),
    {
        !self.is_nan() && !other.is_nan() && self.order_key() <= other.order_key()
    }

    /// `self > other`.
    pub fn gt(self, other: Scalar) -> (r: bool)
        ensures
            r == other.num_lt(self),
    {
        other.lt(self)
    }

    /// `self >= other`.
    pub fn ge(self, other: Scalar) -> (r: bool)
        ensures
            r == other.num_le(self),
    {
        other.le(self)
    }

    /// `self == other` as numbers: the two zeros are equal, a NaN equals nothing.
    pub fn equals(self, other: Scalar) -> (r: bool)
        ensures
            r == self.num_eq(other),
    {
        !self.is_nan() && !other.is_nan() && self.order_key() == other.order_key()
    }

    /// `self == 0`.
    pub fn eq_zero(self) -> (r: bool)
        ensures
            r == self.is_zero(),
            r == self.num_eq(Scalar::of(0)),
    {
        self.magnitude_bits() == 0
    }

    /// `self >= 0`.
    pub fn is_non_negative(self) -> (r: bool)
        ensures
            r == self.non_negative(),
            r == Scalar::of(0).num_le(self),
    {
        !self.is_nan() && self.order_key() >= 0
    }

    /// `self > 0`.
    pub fn is_positive(self) -> (r: bool)
        ensures
            r == self.positive(),
            r == Scalar::of(0).num_lt(self),
    {
        !self.is_nan() && self.order_key() > 0
    }

    /// The number of the same magnitude and the opposite sign. For every number
    /// this is exact: negation only flips the sign bit.
    pub fn neg(self) -> (r: Scalar)
        ensures
            r == self.negated(),
            r.magnitude() == self.magnitude(),
            r.sign_set() == !self.sign_set(),
            r.key() == -self.key(),
            r.nan() == self.nan(),
    {
        if self.bits >= SIGN_BIT {
            Scalar { bits: self.bits - SIGN_BIT }
        } else {
            Scalar { bits: self.bits + SIGN_BIT }
        }
    }

    /// The number of the same magnitude with the sign bit cleared.
    pub fn abs(self) -> (r: Scalar)
        ensures
            r == self.absolute(),
            r.magnitude() == self.magnitude(),
            !r.sign_set(),
            r.nan() == self.nan(),
            r.key() == if self.key() < 0 { -self.key() } else { self.key() },
    {
        Scalar { bits: self.magnitude_bits() }
    }
}

/// The comparisons order the numbers: `<=` is reflexive on numbers, transitive
/// and, up to the sign of zero, antisymmetric; of two numbers one is less than
/// the other or they are equal; and `<` is `<=` without `==`.
pub proof fn lemma_order(a: Scalar, b: Scalar, c: Scalar)
    ensures
        !a.nan() ==> a.num_le(a),
        a.num_le(b) && b.num_le(c) ==> a.num_le(c),
        a.num_lt(b) && b.num_le(c) ==> a.num_lt(c),
        a.num_le(b) && b.num_lt(c) ==> a.num_lt(c),
        a.num_le(b) && b.num_le(a) ==> a.num_eq(b),
        !a.nan() && !b.nan() ==> a.num_lt(b) || a.num_eq(b) || b.num_lt(a),
        a.num_lt(b) <==> a.num_le(b) && !a.num_eq(b),
        a.num_eq(b) ==> a.bits == b.bits || (a.is_zero() && b.is_zero()),
        a.nan() || b.nan() ==> !a.num_lt(b) && !a.num_le(b) && !a.num_eq(b),
{
}

} // verus!
