//! Random numbers, drawn from the standard generator of the `rand` crate,
//! which the caller seeds.

use vstd::prelude::*;
use vstd::arithmetic::power2::lemma_pow2_pos;
use vstd::arithmetic::power2::lemma_pow2_unfold;
use vstd::arithmetic::power2::pow2;
use rand::rngs::StdRng;
use rand::Rng;
use rand::RngCore;
use crate::scalar::Scalar;
use crate::scalar::ONE_BITS;
use crate::value::lemma_order_is_by_value;
use crate::value::lemma_values;
use crate::value::FRACTION_RANGE;

verus! {

/// The standard generator of the `rand` crate: a ChaCha stream cipher that is
/// seeded once, when it is made, and from then on only computes. Nothing is
/// known of its state.
#[verifier::external_type_specification]
#[verifier::external_body]
pub struct ExStdRng(StdRng);

/// Calls `RngCore::next_u64`, which returns the next 64 bits of the
/// generator's stream. Nothing is claimed of them.
#[verifier::external_body]
pub(crate) fn next_bits(rng: &mut StdRng) -> u64 {
    rng.next_u64()
}

/// Calls `Rng::gen_range` on the range `0..n`, which draws from the
/// generator's stream until a draw falls into the range, returns a number of
/// that range and panics on an empty one: the result is below `n`, which must
/// not be zero.
#[verifier::external_body]
pub(crate) fn index_below(rng: &mut StdRng, n: usize) -> (index: usize)
    requires
        n > 0,
    ensures
        index < n,
{
    rng.gen_range(0..n)
}

/// The number of `[0, 1)` that 64 random bits stand for, as a multiple of
/// `2^-1074`: their upper 53 bits as a whole number, divided by `2^53`.
pub open spec fn unit_value(bits: u64) -> int {
    (bits / 2048) * pow2(1021)
}

/// Turns 64 random bits into a number of `[0, 1)`: the upper 53 of the bits,
/// divided by `2^53`. Nothing is rounded.
pub fn unit_from_bits(bits: u64) -> (u: Scalar)
    ensures
        u.value() == unit_value(bits),
        u.non_negative(),
        u.num_lt(Scalar::of(ONE_BITS)),
{
    let u = Scalar::from_quotient(bits / 2048, 53);
    proof {
        let one = Scalar::of(ONE_BITS);
        let k = (bits / 2048) as int;
        let step = pow2(1021) as int;
        lemma_values(u);
        lemma_pow2_unfold(1022);
        lemma_pow2_pos(1021);
        assert(k < 2 * FRACTION_RANGE);
        assert(k * step < (2 * FRACTION_RANGE) * step) by (nonlinear_arith)
            requires
                k < 2 * FRACTION_RANGE,
                step > 0,
        ;
        assert(k * step >= 0) by (nonlinear_arith)
            requires
                k >= 0,
                step > 0,
        ;
        assert((2 * FRACTION_RANGE) * step == FRACTION_RANGE * (2 * step)) by (nonlinear_arith);
        assert(u.value() < one.value());
        lemma_order_is_by_value(u, one);
    }
    u
}

/// Whether `u` is a number of `[0, 1)`.
pub open spec fn is_unit(u: Scalar) -> bool {
    u.non_negative() && u.num_lt(Scalar::of(ONE_BITS))
}

/// A random number of `[0, 1)`: the number that 64 bits from the generator
/// stand for.
pub fn unit_sample(rng: &mut StdRng) -> (u: Scalar)
    ensures
        is_unit(u),
        exists|bits: u64| u.value() == #[trigger] unit_value(bits),
{
    let bits: u64 = next_bits(rng);
    unit_from_bits(bits)
}

/// A random index into a list of `n` items; none if the list is empty.
pub fn pick_index(rng: &mut StdRng, n: usize) -> (index: Option<usize>)
    ensures
        n == 0 <==> index.is_none(),
        index.is_some() ==> index.unwrap() < n,
{
    if n == 0 {
        None
    } else {
        Some(index_below(rng, n))
    }
}

} // verus!
