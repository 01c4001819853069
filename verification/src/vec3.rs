//! Vectors of three binary64 components.

use vstd::prelude::*;
use crate::arithmetic::is_difference;
use crate::arithmetic::is_function;
use crate::arithmetic::is_product;
use crate::arithmetic::is_quotient;
use crate::arithmetic::is_root;
use crate::arithmetic::is_sum;
use crate::arithmetic::Arithmetic;
use crate::scalar::Scalar;

verus! {

/// A point or a direction in space.
#[derive(Clone, Copy, Debug, PartialEq, Eq, Structural)]
pub struct Vec3 {
    pub x: Scalar,
    pub y: Scalar,
    pub z: Scalar,
}

impl Vec3 {
    /// The vector with the given components.
    pub fn new(x: Scalar, y: Scalar, z: Scalar) -> (v: Vec3)
        ensures
            v == (Vec3 { x, y, z }),
    {
        Vec3 { x, y, z }
    }

    /// The vector whose components are all positive zero.
    pub fn zeros() -> (v: Vec3)
        ensures
            v == (Vec3 { x: Scalar::of(0), y: Scalar::of(0), z: Scalar::of(0) }),
    {
        Vec3 { x: Scalar::zero(), y: Scalar::zero(), z: Scalar::zero() }
    }

    /// The squared length: `(x x + y y) + z z`.
    pub fn norm2<A: Arithmetic>(&self, ar: &A) -> (r: Scalar)
        ensures
            is_norm2(ar, *self, r),
    {
        let xx = ar.mul(self.x, self.x);
        let yy = ar.mul(self.y, self.y);
        let zz = ar.mul(self.z, self.z);
        let sum = ar.add(xx, yy);
        let r = ar.add(sum, zz);
        assert(is_sum_of_three_products(ar, *self, *self, xx, yy, zz, sum, r));
        r
    }

    /// The length: the square root of the squared length.
    pub fn norm<A: Arithmetic>(&self, ar: &A) -> (r: Scalar)
        ensures
            is_norm(ar, *self, r),
    {
        let squared = self.norm2(ar);
        let r = ar.sqrt(squared);
        assert(is_norm2(ar, *self, squared) && is_root(ar, squared, r));
        r
    }

    /// The vector of length 1 in the same direction: each component divided by
    /// the length. The zero vector has no direction: its components are divided
    /// by zero, and no number comes out.
    pub fn normalized<A: Arithmetic>(&self, ar: &A) -> (unit: Vec3)
        ensures
            is_normalized(ar, *self, unit),
    {
        let norm = self.norm(ar);
        let unit = Vec3 {
            x: ar.div(self.x, norm),
            y: ar.div(self.y, norm),
            z: ar.div(self.z, norm),
        };
        assert(is_norm(ar, *self, norm) && is_divided(ar, *self, norm, unit));
        unit
    }

    /// Scales the vector to length 1 in place. The zero vector has no
    /// direction: its components are divided by zero, and no number comes out.
    pub fn normalize<A: Arithmetic>(&mut self, ar: &A)
        ensures
            is_normalized(ar, *old(self), *final(self)),
    {
        let unit = self.normalized(ar);
        *self = unit;
    }

    /// The dot product: `(x x' + y y') + z z'`.
    pub fn dot<A: Arithmetic>(&self, ar: &A, other: Vec3) -> (r: Scalar)
        ensures
            is_dot(ar, *self, other, r),
    {
        let xx = ar.mul(self.x, other.x);
        let yy = ar.mul(self.y, other.y);
        let zz = ar.mul(self.z, other.z);
        let sum = ar.add(xx, yy);
        let r = ar.add(sum, zz);
        assert(is_sum_of_three_products(ar, *self, other, xx, yy, zz, sum, r));
        r
    }

    /// The cross product: `(y z' - z y', z x' - x z', x y' - y x')`.
    pub fn cross<A: Arithmetic>(&self, ar: &A, other: Vec3) -> (v: Vec3)
        ensures
            is_cross(ar, *self, other, v),
    {
        let yz = ar.mul(self.y, other.z);
        let zy = ar.mul(self.z, other.y);
        let zx = ar.mul(self.z, other.x);
        let xz = ar.mul(self.x, other.z);
        let xy = ar.mul(self.x, other.y);
        let yx = ar.mul(self.y, other.x);
        let v = Vec3 { x: ar.sub(yz, zy), y: ar.sub(zx, xz), z: ar.sub(xy, yx) };
        assert(is_difference_of_products(ar, self.y, other.z, self.z, other.y, yz, zy, v.x));
        assert(is_difference_of_products(ar, self.z, other.x, self.x, other.z, zx, xz, v.y));
        assert(is_difference_of_products(ar, self.x, other.y, self.y, other.x, xy, yx, v.z));
        v
    }

    /// The sum, component by component.
    pub fn add<A: Arithmetic>(&self, ar: &A, rhs: Vec3) -> (v: Vec3)
        ensures
            is_vector_sum(ar, *self, rhs, v),
    {
        Vec3 { x: ar.add(self.x, rhs.x), y: ar.add(self.y, rhs.y), z: ar.add(self.z, rhs.z) }
    }

    /// The difference, component by component.
    pub fn sub<A: Arithmetic>(&self, ar: &A, rhs: Vec3) -> (v: Vec3)
        ensures
            is_vector_difference(ar, *self, rhs, v),
    {
        Vec3 { x: ar.sub(self.x, rhs.x), y: ar.sub(self.y, rhs.y), z: ar.sub(self.z, rhs.z) }
    }

    /// The vector scaled by a number: each component times the number.
    pub fn mul<A: Arithmetic>(&self, ar: &A, scalar: Scalar) -> (v: Vec3)
        ensures
            is_scaled(ar, *self, scalar, v),
    {
        Vec3 {
            x: ar.mul(self.x, scalar),
            y: ar.mul(self.y, scalar),
            z: ar.mul(self.z, scalar),
        }
    }

    /// The vector whose components are those of this one, negated.
    pub open spec fn negated(self) -> Vec3 {
        Vec3 { x: self.x.negated(), y: self.y.negated(), z: self.z.negated() }
    }

    /// The opposite vector: the sign bit of each component is flipped, which is
    /// exact.
    pub fn neg(&self) -> (v: Vec3)
        ensures
            v == self.negated(),
            v.x.key() == -self.x.key(),
            v.y.key() == -self.y.key(),
            v.z.key() == -self.z.key(),
            v.x.magnitude() == self.x.magnitude(),
            v.y.magnitude() == self.y.magnitude(),
            v.z.magnitude() == self.z.magnitude(),
    {
        Vec3 { x: self.x.neg(), y: self.y.neg(), z: self.z.neg() }
    }
}

/// The vector scaled by a number, with the number written first: the number
/// times each component.
pub fn scale<A: Arithmetic>(ar: &A, scalar: Scalar, v: Vec3) -> (r: Vec3)
    ensures
        is_product(ar, scalar, v.x, r.x),
        is_product(ar, scalar, v.y, r.y),
        is_product(ar, scalar, v.z, r.z),
{
    Vec3 { x: ar.mul(scalar, v.x), y: ar.mul(scalar, v.y), z: ar.mul(scalar, v.z) }
}

/// Whether `xx`, `yy` and `zz` are the products of the components of `a` and
/// `b`, `sum` the sum of the first two and `r` the sum of that and the third.
pub open spec fn is_sum_of_three_products<A: Arithmetic>(
    ar: &A,
    a: Vec3,
    b: Vec3,
    xx: Scalar,
    yy: Scalar,
    zz: Scalar,
    sum: Scalar,
    r: Scalar,
) -> bool {
    &&& is_product(ar, a.x, b.x, xx)
    &&& is_product(ar, a.y, b.y, yy)
    &&& is_product(ar, a.z, b.z, zz)
    &&& is_sum(ar, xx, yy, sum)
    &&& is_sum(ar, sum, zz, r)
}

/// Whether `r` is what the arithmetic gives as the dot product of `a` and
/// `b`: `(a.x b.x + a.y b.y) + a.z b.z`.
pub open spec fn is_dot<A: Arithmetic>(ar: &A, a: Vec3, b: Vec3, r: Scalar) -> bool {
    exists|xx: Scalar, yy: Scalar, zz: Scalar, sum: Scalar|
        #[trigger] is_sum_of_three_products(ar, a, b, xx, yy, zz, sum, r)
}

/// Whether `r` is what the arithmetic gives as the squared length of `v`.
pub open spec fn is_norm2<A: Arithmetic>(ar: &A, v: Vec3, r: Scalar) -> bool {
    is_dot(ar, v, v, r)
}

/// Whether `r` is what the arithmetic gives as the length of `v`: the square
/// root of its squared length.
pub open spec fn is_norm<A: Arithmetic>(ar: &A, v: Vec3, r: Scalar) -> bool {
    exists|squared: Scalar| #[trigger] is_norm2(ar, v, squared) && is_root(ar, squared, r)
}

/// Whether the components of `r` are those of `v`, each divided by `d`.
pub open spec fn is_divided<A: Arithmetic>(ar: &A, v: Vec3, d: Scalar, r: Vec3) -> bool {
    &&& is_quotient(ar, v.x, d, r.x)
    &&& is_quotient(ar, v.y, d, r.y)
    &&& is_quotient(ar, v.z, d, r.z)
}

/// Whether `unit` is what the arithmetic gives as `v` scaled to length 1:
/// each component of `v` divided by its length.
pub open spec fn is_normalized<A: Arithmetic>(ar: &A, v: Vec3, unit: Vec3) -> bool {
    exists|norm: Scalar| #[trigger] is_norm(ar, v, norm) && is_divided(ar, v, norm, unit)
}

/// Whether `p` is `a1 b1`, `q` is `a2 b2` and `r` is `p - q`.
pub open spec fn is_difference_of_products<A: Arithmetic>(
    ar: &A,
    a1: Scalar,
    b1: Scalar,
    a2: Scalar,
    b2: Scalar,
    p: Scalar,
    q: Scalar,
    r: Scalar,
) -> bool {
    &&& is_product(ar, a1, b1, p)
    &&& is_product(ar, a2, b2, q)
    &&& is_difference(ar, p, q, r)
}

/// Whether `r` is what the arithmetic gives as `a1 b1 - a2 b2`.
pub open spec fn is_cross_term<A: Arithmetic>(
    ar: &A,
    a1: Scalar,
    b1: Scalar,
    a2: Scalar,
    b2: Scalar,
    r: Scalar,
) -> bool {
    exists|p: Scalar, q: Scalar| #[trigger] is_difference_of_products(ar, a1, b1, a2, b2, p, q, r)
}

/// Whether `v` is what the arithmetic gives as the cross product of `a` and
/// `b`: `(a.y b.z - a.z b.y, a.z b.x - a.x b.z, a.x b.y - a.y b.x)`.
pub open spec fn is_cross<A: Arithmetic>(ar: &A, a: Vec3, b: Vec3, v: Vec3) -> bool {
    &&& is_cross_term(ar, a.y, b.z, a.z, b.y, v.x)
    &&& is_cross_term(ar, a.z, b.x, a.x, b.z, v.y)
    &&& is_cross_term(ar, a.x, b.y, a.y, b.x, v.z)
}

/// Whether the components of `v` are the sums of those of `a` and `b`.
pub open spec fn is_vector_sum<A: Arithmetic>(ar: &A, a: Vec3, b: Vec3, v: Vec3) -> bool {
    &&& is_sum(ar, a.x, b.x, v.x)
    &&& is_sum(ar, a.y, b.y, v.y)
    &&& is_sum(ar, a.z, b.z, v.z)
}

/// Whether the components of `v` are those of `a` less those of `b`.
pub open spec fn is_vector_difference<A: Arithmetic>(ar: &A, a: Vec3, b: Vec3, v: Vec3) -> bool {
    &&& is_difference(ar, a.x, b.x, v.x)
    &&& is_difference(ar, a.y, b.y, v.y)
    &&& is_difference(ar, a.z, b.z, v.z)
}

/// Whether the components of `r` are those of `v`, each times `s`.
pub open spec fn is_scaled<A: Arithmetic>(ar: &A, v: Vec3, s: Scalar, r: Vec3) -> bool {
    &&& is_product(ar, v.x, s, r.x)
    &&& is_product(ar, v.y, s, r.y)
    &&& is_product(ar, v.z, s, r.z)
}

/// With an arithmetic that is a function, the dot product, the length, the
/// vector of length 1, the cross product, the sum, the difference and the
/// scaled vector are each the one that there is.
pub proof fn lemma_vectors_are_unique<A: Arithmetic>(ar: &A)
    requires
        is_function(ar),
    ensures
        forall|a: Vec3, b: Vec3, r1: Scalar, r2: Scalar|
            #[trigger] is_dot(ar, a, b, r1) && #[trigger] is_dot(ar, a, b, r2) ==> r1 == r2,
        forall|a: Vec3, r1: Scalar, r2: Scalar|
            #[trigger] is_norm(ar, a, r1) && #[trigger] is_norm(ar, a, r2) ==> r1 == r2,
        forall|a: Vec3, r1: Vec3, r2: Vec3|
            #[trigger] is_normalized(ar, a, r1) && #[trigger] is_normalized(ar, a, r2) ==> r1
                == r2,
        forall|a: Vec3, b: Vec3, r1: Vec3, r2: Vec3|
            #[trigger] is_cross(ar, a, b, r1) && #[trigger] is_cross(ar, a, b, r2) ==> r1 == r2,
        forall|a: Vec3, b: Vec3, r1: Vec3, r2: Vec3|
            #[trigger] is_vector_sum(ar, a, b, r1) && #[trigger] is_vector_sum(ar, a, b, r2) ==> r1
                == r2,
        forall|a: Vec3, b: Vec3, r1: Vec3, r2: Vec3|
            #[trigger] is_vector_difference(ar, a, b, r1) && #[trigger] is_vector_difference(
                ar,
                a,
                b,
                r2,
            ) ==> r1 == r2,
        forall|a: Vec3, s: Scalar, r1: Vec3, r2: Vec3|
            #[trigger] is_scaled(ar, a, s, r1) && #[trigger] is_scaled(ar, a, s, r2) ==> r1 == r2,
{
}

} // verus!
