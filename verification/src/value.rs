//! The numbers that the bit patterns stand for.
//!
//! Every binary64 number is a whole multiple of `2^-1074`, the smallest
//! positive one. This module states which multiple a pattern stands for, and
//! proves that the order of the patterns' keys is the order of those numbers.

use vstd::prelude::*;
use vstd::arithmetic::power2::lemma_pow2_pos;
use vstd::arithmetic::power2::lemma_pow2_strictly_increases;
use vstd::arithmetic::power2::lemma_pow2_unfold;
use vstd::arithmetic::power2::pow2;
use crate::scalar::Scalar;

verus! {

/// The number of patterns that a fraction can take: `2^52`.
pub const FRACTION_RANGE: u64 = 0x10_0000_0000_0000;

impl Scalar {
    /// The exponent field: the 11 bits below the sign bit.
    pub open spec fn exponent(self) -> int {
        self.magnitude() / (FRACTION_RANGE as int)
    }

    /// The fraction field: the lowest 52 bits.
    pub open spec fn fraction(self) -> int {
        self.magnitude() % (FRACTION_RANGE as int)
    }

    /// The significand: the fraction, with the implicit leading bit unless the
    /// exponent field is zero.
    pub open spec fn significand(self) -> int {
        if self.exponent() == 0 {
            self.fraction()
        } else {
            FRACTION_RANGE + self.fraction()
        }
    }

    /// The power of two by which the significand is scaled, counted from that
    /// of the smallest numbers.
    pub open spec fn scale(self) -> nat {
        if self.exponent() == 0 {
            0
        } else {
            (self.exponent() - 1) as nat
        }
    }

    /// The absolute value, as a multiple of `2^-1074`. Infinity counts as
    /// `2^2098`, beyond every finite number.
    pub open spec fn size(self) -> int {
        self.significand() * pow2(self.scale())
    }

    /// The number that the pattern stands for, as a multiple of `2^-1074`.
    pub open spec fn value(self) -> int {
        if self.sign_set() {
            -self.size()
        } else {
            self.size()
        }
    }
}

/// The size is zero for the two zeros and positive for every other pattern.
pub proof fn lemma_size_sign(a: Scalar)
    ensures
        a.size() >= 0,
        a.size() == 0 <==> a.magnitude() == 0,
{
    lemma_pow2_pos(a.scale());
    let p = pow2(a.scale()) as int;
    let s = a.significand();
    assert(s >= 0);
    assert(s == 0 <==> a.magnitude() == 0);
    assert(s * p >= 0 && (s * p == 0 <==> s == 0)) by (nonlinear_arith)
        requires
            s >= 0,
            p > 0,
    ;
}

/// A greater magnitude stands for a greater size.
pub proof fn lemma_size_increases(a: Scalar, b: Scalar)
    requires
        a.magnitude() < b.magnitude(),
    ensures
        a.size() < b.size(),
{
    let range = FRACTION_RANGE as int;
    let pa = pow2(a.scale()) as int;
    let pb = pow2(b.scale()) as int;
    let sa = a.significand();
    let sb = b.significand();
    lemma_pow2_pos(a.scale());
    lemma_pow2_pos(b.scale());
    assert(a.exponent() <= b.exponent());
    if a.exponent() == b.exponent() {
        assert(sa < sb);
        assert(sa * pa < sb * pa) by (nonlinear_arith)
            requires
                sa < sb,
                pa > 0,
        ;
    } else if a.exponent() == 0 {
        assert(sa < range);
        assert(sb >= range);
        assert(pa == 1) by {
            vstd::arithmetic::power2::lemma2_to64();
        }
        assert(sb * pb >= range) by (nonlinear_arith)
            requires
                sb >= range,
                range > 0,
                pb >= 1,
        ;
    } else {
        // sa * pa < 2 range * pa = range * 2^(scale + 1) <= range * pb <= sb * pb
        let next = pow2(a.scale() + 1) as int;
        lemma_pow2_unfold(a.scale() + 1);
        assert(next == 2 * pa);
        if a.scale() + 1 < b.scale() {
            lemma_pow2_strictly_increases(a.scale() + 1, b.scale());
        }
        assert(next <= pb);
        assert(sa < 2 * range);
        assert(sb >= range);
        assert(sa * pa < sb * pb) by (nonlinear_arith)
            requires
                sa < 2 * range,
                sb >= range,
                2 * pa <= pb,
                pa > 0,
                range > 0,
                sa >= 0,
        ;
    }
}

/// Patterns of equal size have equal magnitudes.
pub proof fn lemma_size_decides_magnitude(a: Scalar, b: Scalar)
    ensures
        a.size() < b.size() <==> a.magnitude() < b.magnitude(),
        a.size() == b.size() <==> a.magnitude() == b.magnitude(),
{
    if a.magnitude() < b.magnitude() {
        lemma_size_increases(a, b);
    } else if b.magnitude() < a.magnitude() {
        lemma_size_increases(b, a);
    }
}

/// The comparisons of this library are those of the numbers that the patterns
/// stand for: for any two patterns that are numbers, `<`, `<=` and `==` hold of
/// them exactly when they hold of their values.
pub proof fn lemma_order_is_by_value(a: Scalar, b: Scalar)
    requires
        !a.nan(),
        !b.nan(),
    ensures
        a.num_lt(b) <==> a.value() < b.value(),
        a.num_le(b) <==> a.value() <= b.value(),
        a.num_eq(b) <==> a.value() == b.value(),
{
    lemma_size_sign(a);
    lemma_size_sign(b);
    lemma_size_decides_magnitude(a, b);
}

/// Zero stands for 0, one for `2^1074`, and negation for the opposite number.
pub proof fn lemma_values(a: Scalar)
    ensures
        Scalar::of(0).value() == 0,
        Scalar::of(crate::scalar::SIGN_BIT).value() == 0,
        Scalar::of(crate::scalar::ONE_BITS).value() == FRACTION_RANGE * pow2(1022),
        Scalar::of(crate::scalar::TWO_BITS).value() == 2 * Scalar::of(
            crate::scalar::ONE_BITS,
        ).value(),
        a.non_negative() <==> !a.nan() && a.value() >= 0,
        a.positive() <==> !a.nan() && a.value() > 0,
{
    lemma_size_sign(a);
    let one = Scalar::of(crate::scalar::ONE_BITS);
    let two = Scalar::of(crate::scalar::TWO_BITS);
    assert(one.exponent() == 1023 && one.fraction() == 0);
    assert(two.exponent() == 1024 && two.fraction() == 0);
    lemma_pow2_unfold(1023);
    assert(Scalar::of(0).significand() == 0);
    assert(Scalar::of(crate::scalar::SIGN_BIT).significand() == 0);
    assert(FRACTION_RANGE * (2 * pow2(1022)) == 2 * (FRACTION_RANGE * pow2(1022)))
        by (nonlinear_arith);
}

/// The constants of this library stand for the numbers that they are named
/// after: 1, 2 and 4 exactly, the machine epsilon for `2^-52`, and pi, half of
/// pi, the logarithm of 2 and nine tenths for the binary64 numbers nearest to
/// them.
pub proof fn lemma_constants()
    ensures
        Scalar::of(crate::scalar::ONE_BITS).value() == pow2(1074),
        Scalar::of(crate::scalar::TWO_BITS).value() == 2 * pow2(1074),
        Scalar::of(crate::scalar::FOUR_BITS).value() == 4 * pow2(1074),
        Scalar::of(crate::scalar::EPSILON_BITS).value() * FRACTION_RANGE == pow2(1074),
        !Scalar::of(crate::scalar::INFINITY_BITS).nan(),
        !Scalar::of(crate::scalar::INFINITY_BITS).finite(),
        Scalar::of(crate::scalar::PI_BITS).value() == 2 * Scalar::of(
            crate::scalar::HALF_PI_BITS,
        ).value(),
        314159265358979 * pow2(1074) < 100000000000000 * Scalar::of(
            crate::scalar::PI_BITS,
        ).value() < 314159265358980 * pow2(1074),
        693147180559945 * pow2(1074) < 1000000000000000 * Scalar::of(
            crate::scalar::LN_2_BITS,
        ).value() < 693147180559946 * pow2(1074),
        10 * Scalar::of(crate::scalar::NINE_TENTHS_BITS).value() == 9 * pow2(1074) + 2 * pow2(
            1021,
        ),
{
    vstd::arithmetic::power2::lemma2_to64();
    vstd::arithmetic::power2::lemma2_to64_rest();
    let unit = pow2(1074) as int;
    lemma_pow2_pos(1021);
    lemma_pow2_pos(1022);
    lemma_pow2_pos(1023);
    let p1021 = pow2(1021) as int;
    let p1022 = pow2(1022) as int;
    let p1023 = pow2(1023) as int;
    lemma_pow2_unfold(1022);
    lemma_pow2_unfold(1023);
    lemma_pow2_unfold(1024);
    vstd::arithmetic::power2::lemma_pow2_adds(52, 1022);
    vstd::arithmetic::power2::lemma_pow2_adds(51, 1023);
    vstd::arithmetic::power2::lemma_pow2_adds(53, 1021);
    vstd::arithmetic::power2::lemma_pow2_adds(52, 970);
    vstd::arithmetic::power2::lemma_pow2_adds(52, 1022);
    let range = FRACTION_RANGE as int;

    let one = Scalar::of(crate::scalar::ONE_BITS);
    assert(one.exponent() == 1023 && one.fraction() == 0);
    let two = Scalar::of(crate::scalar::TWO_BITS);
    assert(two.exponent() == 1024 && two.fraction() == 0);
    assert(two.value() == range * (2 * p1022));
    assert(range * (2 * p1022) == 2 * (range * p1022)) by (nonlinear_arith);
    let four = Scalar::of(crate::scalar::FOUR_BITS);
    assert(four.exponent() == 1025 && four.fraction() == 0);
    assert(four.value() == range * (2 * (2 * p1022)));
    assert(range * (2 * (2 * p1022)) == 4 * (range * p1022)) by (nonlinear_arith);

    let epsilon = Scalar::of(crate::scalar::EPSILON_BITS);
    assert(epsilon.exponent() == 971 && epsilon.fraction() == 0);
    let p970 = pow2(970) as int;
    assert(epsilon.value() == range * p970);
    assert(pow2(1022) == range * p970);
    assert((range * p970) * range == range * (range * p970)) by (nonlinear_arith);

    let pi = Scalar::of(crate::scalar::PI_BITS);
    let half_pi = Scalar::of(crate::scalar::HALF_PI_BITS);
    assert(pi.exponent() == 1024 && pi.fraction() == 0x921FB54442D18);
    assert(half_pi.exponent() == 1023 && half_pi.fraction() == 0x921FB54442D18);
    let sig: int = 7074237752028440;
    assert(pi.significand() == sig && half_pi.significand() == sig);
    assert(pi.value() == sig * (2 * p1022));
    assert(sig * (2 * p1022) == 2 * (sig * p1022)) by (nonlinear_arith);
    assert(unit == 0x8000000000000 * p1023);
    assert(314159265358979 * (0x8000000000000 * p1023) < 100000000000000 * (sig * p1023)) by (nonlinear_arith)
        requires
            p1023 > 0,
            sig == 7074237752028440,
    ;
    assert(100000000000000 * (sig * p1023) < 314159265358980 * (0x8000000000000 * p1023)) by (nonlinear_arith)
        requires
            p1023 > 0,
            sig == 7074237752028440,
    ;

    let ln2 = Scalar::of(crate::scalar::LN_2_BITS);
    assert(ln2.exponent() == 1022 && ln2.fraction() == 0x62E42FEFA39EF);
    let sig2: int = 6243314768165359;
    assert(ln2.significand() == sig2);
    assert(unit == 0x20000000000000 * p1021);
    assert(693147180559945 * (0x20000000000000 * p1021) < 1000000000000000 * (sig2 * p1021)) by (nonlinear_arith)
        requires
            p1021 > 0,
            sig2 == 6243314768165359,
    ;
    assert(1000000000000000 * (sig2 * p1021) < 693147180559946 * (0x20000000000000 * p1021)) by (nonlinear_arith)
        requires
            p1021 > 0,
            sig2 == 6243314768165359,
    ;

    let nine = Scalar::of(crate::scalar::NINE_TENTHS_BITS);
    assert(nine.exponent() == 1022 && nine.fraction() == 0xCCCCCCCCCCCCD);
    let sig9: int = 8106479329266893;
    assert(nine.significand() == sig9);
    assert(10 * (sig9 * p1021) == 9 * (0x20000000000000 * p1021) + 2 * p1021) by (nonlinear_arith)
        requires
            sig9 == 8106479329266893,
    ;
}

} // verus!
