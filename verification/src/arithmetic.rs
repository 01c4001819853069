//! The arithmetic that the renderer computes with.
//!
//! The library decides; it does not round. Sums, products, roots and the
//! trigonometric functions of binary64 numbers come from an implementation of
//! [`Arithmetic`] that the caller supplies, normally the machine's own
//! floating-point unit. Nothing is assumed of what an implementation returns:
//! every contract in this library holds for any of them. Where a function of
//! the library computes, its contract says by which operations of the
//! arithmetic, applied to what, its result came about.

use vstd::prelude::*;
use crate::scalar::Scalar;

verus! {

/// Binary64 arithmetic on bit patterns.
pub trait Arithmetic {
    /// `a + b`.
    fn add(&self, a: Scalar, b: Scalar) -> Scalar;

    /// `a - b`.
    fn sub(&self, a: Scalar, b: Scalar) -> Scalar;

    /// `a * b`.
    fn mul(&self, a: Scalar, b: Scalar) -> Scalar;

    /// `a / b`.
    fn div(&self, a: Scalar, b: Scalar) -> Scalar;

    /// The square root of `a`.
    fn sqrt(&self, a: Scalar) -> Scalar;

    /// The sine of `a` radians.
    fn sin(&self, a: Scalar) -> Scalar;

    /// The cosine of `a` radians.
    fn cos(&self, a: Scalar) -> Scalar;

    /// The tangent of `a` radians.
    fn tan(&self, a: Scalar) -> Scalar;

    /// `e` to the power `a`.
    fn exp(&self, a: Scalar) -> Scalar;
}

/// Whether `r` is what the arithmetic gives as `a + b`.
pub open spec fn is_sum<A: Arithmetic>(ar: &A, a: Scalar, b: Scalar, r: Scalar) -> bool {
    call_ensures(A::add, (ar, a, b), r)
}

/// Whether `r` is what the arithmetic gives as `a - b`.
pub open spec fn is_difference<A: Arithmetic>(ar: &A, a: Scalar, b: Scalar, r: Scalar) -> bool {
    call_ensures(A::sub, (ar, a, b), r)
}

/// Whether `r` is what the arithmetic gives as `a * b`.
pub open spec fn is_product<A: Arithmetic>(ar: &A, a: Scalar, b: Scalar, r: Scalar) -> bool {
    call_ensures(A::mul, (ar, a, b), r)
}

/// Whether `r` is what the arithmetic gives as `a / b`.
pub open spec fn is_quotient<A: Arithmetic>(ar: &A, a: Scalar, b: Scalar, r: Scalar) -> bool {
    call_ensures(A::div, (ar, a, b), r)
}

/// Whether `r` is what the arithmetic gives as the square root of `a`.
pub open spec fn is_root<A: Arithmetic>(ar: &A, a: Scalar, r: Scalar) -> bool {
    call_ensures(A::sqrt, (ar, a), r)
}

/// Whether `r` is what the arithmetic gives as the sine of `a`.
pub open spec fn is_sine<A: Arithmetic>(ar: &A, a: Scalar, r: Scalar) -> bool {
    call_ensures(A::sin, (ar, a), r)
}

/// Whether `r` is what the arithmetic gives as the cosine of `a`.
pub open spec fn is_cosine<A: Arithmetic>(ar: &A, a: Scalar, r: Scalar) -> bool {
    call_ensures(A::cos, (ar, a), r)
}

/// Whether `r` is what the arithmetic gives as the tangent of `a`.
pub open spec fn is_tangent<A: Arithmetic>(ar: &A, a: Scalar, r: Scalar) -> bool {
    call_ensures(A::tan, (ar, a), r)
}

/// Whether `r` is what the arithmetic gives as `e` to the power `a`.
pub open spec fn is_power_of_e<A: Arithmetic>(ar: &A, a: Scalar, r: Scalar) -> bool {
    call_ensures(A::exp, (ar, a), r)
}

/// Whether the arithmetic is a function: each operation gives one result for
/// given operands. The arithmetic of a machine is.
pub open spec fn is_function<A: Arithmetic>(ar: &A) -> bool {
    &&& forall|a: Scalar, b: Scalar, r1: Scalar, r2: Scalar|
        #[trigger] is_sum(ar, a, b, r1) && #[trigger] is_sum(ar, a, b, r2) ==> r1 == r2
    &&& forall|a: Scalar, b: Scalar, r1: Scalar, r2: Scalar|
        #[trigger] is_difference(ar, a, b, r1) && #[trigger] is_difference(ar, a, b, r2) ==> r1
            == r2
    &&& forall|a: Scalar, b: Scalar, r1: Scalar, r2: Scalar|
        #[trigger] is_product(ar, a, b, r1) && #[trigger] is_product(ar, a, b, r2) ==> r1 == r2
    &&& forall|a: Scalar, b: Scalar, r1: Scalar, r2: Scalar|
        #[trigger] is_quotient(ar, a, b, r1) && #[trigger] is_quotient(ar, a, b, r2) ==> r1 == r2
    &&& forall|a: Scalar, r1: Scalar, r2: Scalar|
        #[trigger] is_root(ar, a, r1) && #[trigger] is_root(ar, a, r2) ==> r1 == r2
    &&& forall|a: Scalar, r1: Scalar, r2: Scalar|
        #[trigger] is_sine(ar, a, r1) && #[trigger] is_sine(ar, a, r2) ==> r1 == r2
    &&& forall|a: Scalar, r1: Scalar, r2: Scalar|
        #[trigger] is_cosine(ar, a, r1) && #[trigger] is_cosine(ar, a, r2) ==> r1 == r2
    &&& forall|a: Scalar, r1: Scalar, r2: Scalar|
        #[trigger] is_tangent(ar, a, r1) && #[trigger] is_tangent(ar, a, r2) ==> r1 == r2
    &&& forall|a: Scalar, r1: Scalar, r2: Scalar|
        #[trigger] is_power_of_e(ar, a, r1) && #[trigger] is_power_of_e(ar, a, r2) ==> r1 == r2
}

} // verus!
