//! Between binary64 numbers and machine integers, exactly.

use vstd::prelude::*;
use vstd::arithmetic::div_mod::lemma_div_multiples_vanish_quotient;
use vstd::arithmetic::power2::lemma2_to64;
use vstd::arithmetic::power2::lemma2_to64_rest;
use vstd::arithmetic::power2::lemma_pow2_adds;
use vstd::arithmetic::power2::lemma_pow2_pos;
use vstd::arithmetic::power2::lemma_pow2_strictly_increases;
use vstd::arithmetic::power2::lemma_pow2_unfold;
use vstd::arithmetic::power2::pow2;
use crate::scalar::Scalar;
use crate::scalar::INFINITY_BITS;
use crate::scalar::SIGN_BIT;
use crate::value::lemma_size_sign;
use crate::value::FRACTION_RANGE;

verus! {

/// The greatest level of a color channel.
pub const MAX_LEVEL: u8 = 255;

/// The power of two with exponent `k`, for an exponent up to 52.
fn power_of_two(k: u64) -> (p: u64)
    requires
        k <= 52,
    ensures
        p == pow2(k as nat),
        1 <= p <= FRACTION_RANGE,
{
    let mut p: u64 = 1;
    let mut i: u64 = 0;
    proof {
        lemma2_to64();
        lemma2_to64_rest();
    }
    while i < k
        invariant
            0 <= i <= k <= 52,
            p == pow2(i as nat),
            1 <= p <= pow2(52),
            pow2(52) == FRACTION_RANGE,
        decreases k - i,
    {
        proof {
            lemma_pow2_unfold((i + 1) as nat);
            if i + 1 < 52 {
                lemma_pow2_strictly_increases((i + 1) as nat, 52);
            }
        }
        p = p * 2;
        i += 1;
    }
    p
}

impl Scalar {
    /// The whole number that the number is rounded down to, for a number that
    /// is positive and finite.
    pub open spec fn floor(self) -> int {
        self.value() / (pow2(1074) as int)
    }

    /// The level of a color channel that shows the number: the number rounded
    /// down to a whole one, but 0 for what is negative and 255 for what is
    /// greater or not a number.
    pub open spec fn level(self) -> int {
        if self.nan() {
            255
        } else if self.value() <= 0 {
            0
        } else if self.floor() >= 255 {
            255
        } else {
            self.floor()
        }
    }

    /// The binary64 number equal to `n / 2^down`, for a whole number `n` below
    /// `2^53`. Every such quotient is a binary64 number, so nothing is rounded.
    pub fn from_quotient(n: u64, down: u64) -> (s: Scalar)
        requires
            n < 2 * FRACTION_RANGE,
            down <= 64,
        ensures
            s.value() == n * pow2((1074 - down) as nat),
            !s.nan(),
            s.finite(),
            !s.sign_set(),
    {
        if n == 0 {
            proof {
                lemma_size_sign(Scalar::of(0));
            }
            return Scalar::from_bits(0);
        }
        // The position of the leading bit.
        let mut k: u64 = 0;
        let mut p: u64 = 1;
        proof {
            lemma2_to64();
            lemma2_to64_rest();
            lemma_pow2_unfold(53);
        }
        while p * 2 <= n
            invariant
                0 <= k <= 52,
                p == pow2(k as nat),
                1 <= p <= n,
                n < 2 * FRACTION_RANGE,
                pow2(53) == 2 * FRACTION_RANGE,
            decreases n - p,
        {
            proof {
                lemma_pow2_unfold((k + 1) as nat);
                if k + 1 >= 53 {
                    if k + 1 > 53 {
                        lemma_pow2_strictly_increases(53, (k + 1) as nat);
                    }
                    assert(false);
                }
            }
            p = p * 2;
            k += 1;
        }
        let q: u64 = power_of_two(52 - k);
        proof {
            lemma_pow2_adds(k as nat, (52 - k) as nat);
            assert(p * q == FRACTION_RANGE);
            assert((n - p) * q < p * q) by (nonlinear_arith)
                requires
                    n - p < p,
                    q > 0,
            ;
            assert((n - p) * q >= 0) by (nonlinear_arith)
                requires
                    n - p >= 0,
                    q > 0,
            ;
            assert((1023 + k - down) * FRACTION_RANGE <= 1075 * FRACTION_RANGE) by (nonlinear_arith)
                requires
                    k <= 52,
                    down >= 0,
            ;
            assert((1023 + k - down) * FRACTION_RANGE >= 959 * FRACTION_RANGE) by (nonlinear_arith)
                requires
                    k >= 0,
                    down <= 64,
            ;
        }
        let fraction: u64 = (n - p) * q;
        let bits: u64 = (1023 + k - down) * FRACTION_RANGE + fraction;
        let s = Scalar::from_bits(bits);
        proof {
            let range = FRACTION_RANGE as int;
            assert(s.magnitude() == bits);
            assert(s.exponent() == 1023 + k - down && s.fraction() == fraction) by {
                vstd::arithmetic::div_mod::lemma_fundamental_div_mod_converse(
                    bits as int,
                    range,
                    (1023 + k - down) as int,
                    fraction as int,
                );
            }
            assert(s.scale() == 1022 + k - down);
            // The significand is n * q, and q * 2^(1022 + k - down) is 2^(1074 - down).
            assert(s.significand() == n * q) by (nonlinear_arith)
                requires
                    s.significand() == p * q + (n - p) * q,
            ;
            lemma_pow2_adds((52 - k) as nat, (1022 + k - down) as nat);
            let scale = pow2((1022 + k - down) as nat) as int;
            assert(q * scale == pow2((1074 - down) as nat));
            assert((n * q) * scale == n * (q * scale)) by (nonlinear_arith);
        }
        s
    }

    /// The binary64 number equal to `n`. Every `u32` is one, so nothing is
    /// rounded.
    pub fn from_u32(n: u32) -> (s: Scalar)
        ensures
            s.value() == n * pow2(1074),
            !s.nan(),
            s.finite(),
            !s.sign_set(),
    {
        proof {
            lemma2_to64();
            lemma2_to64_rest();
        }
        Scalar::from_quotient(n as u64, 0)
    }

    /// The level of a color channel that shows the number.
    pub fn to_level(self) -> (level: u8)
        ensures
            level == self.level(),
    {
        let magnitude: u64 = if self.bits >= SIGN_BIT {
            self.bits - SIGN_BIT
        } else {
            self.bits
        };
        if magnitude > INFINITY_BITS {
            return MAX_LEVEL;
        }
        proof {
            lemma_size_sign(self);
            lemma2_to64();
            lemma2_to64_rest();
        }
        if self.bits >= SIGN_BIT || magnitude == 0 {
            return 0;
        }
        let exponent: u64 = magnitude / FRACTION_RANGE;
        let fraction: u64 = magnitude % FRACTION_RANGE;
        let ghost unit = pow2(1074) as int;
        let ghost scale = pow2(self.scale()) as int;
        proof {
            lemma_pow2_pos(1074);
            lemma_pow2_pos(self.scale());
        }
        if exponent < 1023 {
            proof {
                // Less than one: the significand is below 2^53, the scale at most 2^1021.
                let top = pow2(1021) as int;
                if self.scale() < 1021 {
                    lemma_pow2_strictly_increases(self.scale(), 1021);
                }
                lemma_pow2_adds(53, 1021);
                assert(pow2(53) == 2 * FRACTION_RANGE) by {
                    lemma_pow2_unfold(53);
                }
                assert(self.significand() * scale < (2 * FRACTION_RANGE) * top) by (nonlinear_arith)
                    requires
                        0 <= self.significand() < 2 * FRACTION_RANGE,
                        0 < scale <= top,
                ;
                assert(self.value() < unit);
                vstd::arithmetic::div_mod::lemma_basic_div(self.value(), unit);
            }
            return 0;
        }
        if exponent >= 1031 {
            proof {
                // At least 256: the significand is at least 2^52, the scale at least 2^1030.
                let bottom = pow2(1030) as int;
                if 1030 < self.scale() {
                    lemma_pow2_strictly_increases(1030, self.scale());
                }
                lemma_pow2_adds(44, 1030);
                lemma_pow2_adds(8, 44);
                assert(pow2(52) == 256 * pow2(44));
                assert(FRACTION_RANGE * bottom == 256 * unit) by (nonlinear_arith)
                    requires
                        FRACTION_RANGE == 256 * pow2(44),
                        unit == pow2(44) * bottom,
                ;
                assert(self.significand() * scale >= FRACTION_RANGE * bottom) by (nonlinear_arith)
                    requires
                        self.significand() >= FRACTION_RANGE,
                        scale >= bottom > 0,
                ;
                assert(self.value() >= 256 * unit);
                vstd::arithmetic::div_mod::lemma_div_is_ordered(256 * unit, self.value(), unit);
                vstd::arithmetic::div_mod::lemma_div_multiples_vanish(256, unit);
            }
            return MAX_LEVEL;
        }
        let k: u64 = exponent - 1023;
        let divisor: u64 = power_of_two(52 - k);
        let significand: u64 = FRACTION_RANGE + fraction;
        let whole: u64 = significand / divisor;
        proof {
            // unit = divisor * scale, so value / unit = significand / divisor.
            assert(self.scale() == 1022 + k);
            lemma_pow2_adds((52 - k) as nat, (1022 + k) as nat);
            assert(unit == divisor * scale);
            lemma_div_multiples_vanish_quotient(scale, significand as int, divisor as int);
            assert(self.value() == scale * significand) by (nonlinear_arith)
                requires
                    self.value() == significand * scale,
            ;
            assert(scale * divisor == divisor * scale) by (nonlinear_arith);
            assert(self.floor() == whole);
        }
        if whole >= 255 {
            MAX_LEVEL
        } else {
            whole as u8
        }
    }
}

} // verus!
