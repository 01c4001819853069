//! Rays of light.

use vstd::prelude::*;
use crate::arithmetic::Arithmetic;
use crate::scalar::Scalar;
use crate::vec3::is_normalized;
use crate::vec3::is_scaled;
use crate::vec3::is_vector_sum;
use crate::vec3::Vec3;

verus! {

/// A half-line from an origin along a direction of length 1, carrying light of
/// one wavelength.
#[derive(Clone, Copy, Debug, PartialEq, Eq, Structural)]
pub struct Ray {
    pub origin: Vec3,
    pub direction: Vec3,
    pub wavelength: Scalar,
}

impl Ray {
    /// The ray from `origin` towards `direction`, which is scaled to length 1
    /// and should not be the zero vector.
    pub fn new<A: Arithmetic>(ar: &A, origin: Vec3, direction: Vec3, wavelength: Scalar) -> (ray:
        Ray)
        ensures
            ray.origin == origin,
            ray.wavelength == wavelength,
            is_normalized(ar, direction, ray.direction),
    {
        Ray { origin, direction: direction.normalized(ar), wavelength }
    }

    /// The point at distance `t` along the ray: `origin + direction * t`.
    pub fn point_at<A: Arithmetic>(&self, ar: &A, t: Scalar) -> (point: Vec3)
        ensures
            is_point_at(ar, self.origin, self.direction, t, point),
    {
        let step = self.direction.mul(ar, t);
        let point = self.origin.add(ar, step);
        assert(is_step(ar, self.origin, self.direction, t, step, point));
        point
    }

    /// Where the ray starts.
    pub fn origin(&self) -> (origin: Vec3)
        ensures
            origin == self.origin,
    {
        self.origin
    }

    /// Where the ray points.
    pub fn direction(&self) -> (direction: Vec3)
        ensures
            direction == self.direction,
    {
        self.direction
    }

    /// The wavelength of the light that the ray carries.
    pub fn wavelength(&self) -> (wavelength: Scalar)
        ensures
            wavelength == self.wavelength,
    {
        self.wavelength
    }
}

/// Whether `step` is `direction` times `t` and `point` is `origin` plus that.
pub open spec fn is_step<A: Arithmetic>(
    ar: &A,
    origin: Vec3,
    direction: Vec3,
    t: Scalar,
    step: Vec3,
    point: Vec3,
) -> bool {
    is_scaled(ar, direction, t, step) && is_vector_sum(ar, origin, step, point)
}

/// Whether `point` is what the arithmetic gives as `origin + direction * t`.
pub open spec fn is_point_at<A: Arithmetic>(
    ar: &A,
    origin: Vec3,
    direction: Vec3,
    t: Scalar,
    point: Vec3,
) -> bool {
    exists|step: Vec3| #[trigger] is_step(ar, origin, direction, t, step, point)
}

} // verus!
