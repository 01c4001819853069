//! The primitives that a ray can hit, and the test for each.

use vstd::prelude::*;
use crate::algebra::is_solution;
use crate::algebra::solve_deg2_eq;
use crate::arithmetic::is_difference;
use crate::arithmetic::is_product;
use crate::arithmetic::is_quotient;
use crate::arithmetic::is_sum;
use crate::arithmetic::Arithmetic;
use crate::ray::is_point_at;
use crate::ray::Ray;
use crate::scalar::Scalar;
use crate::scalar::EPSILON_BITS;
use crate::scalar::INFINITY_BITS;
use crate::scalar::ONE_BITS;
use crate::scalar::TWO_BITS;
use crate::vec3::is_cross;
use crate::vec3::is_dot;
use crate::vec3::is_norm;
use crate::vec3::is_normalized;
use crate::vec3::is_scaled;
use crate::vec3::is_vector_difference;
use crate::vec3::Vec3;

verus! {

/// Where a ray meets a surface.
#[derive(Clone, Copy, Debug, PartialEq, Eq, Structural)]
pub struct HitRecord {
    /// The distance along the ray.
    pub ray_t: Scalar,
    /// The point of the surface that was hit.
    pub point: Vec3,
    /// The normal of the surface there.
    pub normal: Vec3,
}

impl Default for HitRecord {
    /// The record of no hit yet: infinitely far away, so that any hit is nearer.
    fn default() -> (record: HitRecord)
        ensures
            record.ray_t == Scalar::of(INFINITY_BITS),
            record.point == (Vec3 { x: Scalar::of(0), y: Scalar::of(0), z: Scalar::of(0) }),
            record.normal == (Vec3 { x: Scalar::of(0), y: Scalar::of(0), z: Scalar::of(0) }),
    {
        HitRecord { ray_t: Scalar::infinity(), point: Vec3::zeros(), normal: Vec3::zeros() }
    }
}

impl HitRecord {
    /// The record of no hit yet: infinitely far away, so that any hit is nearer.
    pub fn new() -> (record: HitRecord)
        ensures
            record.ray_t == Scalar::of(INFINITY_BITS),
            record.point == (Vec3 { x: Scalar::of(0), y: Scalar::of(0), z: Scalar::of(0) }),
            record.normal == (Vec3 { x: Scalar::of(0), y: Scalar::of(0), z: Scalar::of(0) }),
    {
        HitRecord { ray_t: Scalar::infinity(), point: Vec3::zeros(), normal: Vec3::zeros() }
    }
}

/// Of two roots, the first that is not negative.
pub open spec fn facing_solution(t1: Scalar, t2: Scalar) -> Option<Scalar> {
    if t1.non_negative() {
        Some(t1)
    } else if t2.non_negative() {
        Some(t2)
    } else {
        None
    }
}

/// The nearest distance in front of a ray's origin, given the two distances at
/// which its line meets a surface, the smaller one first: the first if it is
/// not negative, else the second if that is not negative, else none.
pub fn closest_facing_solution(solutions: (Scalar, Scalar)) -> (t: Option<Scalar>)
    ensures
        t == facing_solution(solutions.0, solutions.1),
        t.is_some() ==> t.unwrap().non_negative(),
        t.is_none() <==> !solutions.0.non_negative() && !solutions.1.non_negative(),
        solutions.0.num_le(solutions.1) && t.is_some() ==> {
            &&& t.unwrap() == solutions.0 || t.unwrap() == solutions.1
            &&& solutions.0.non_negative() ==> t.unwrap().num_le(solutions.0)
            &&& t.unwrap().num_le(solutions.1)
        },
{
    let (t1, t2) = solutions;
    if t1.is_non_negative() {
        Some(t1)
    } else if t2.is_non_negative() {
        Some(t2)
    } else {
        None
    }
}

/// A sphere.
#[derive(Clone, Copy, Debug, PartialEq, Eq, Structural)]
pub struct Sphere {
    pub center: Vec3,
    pub radius: Scalar,
}

impl Sphere {
    /// Whether the radius is a positive number.
    pub open spec fn well_formed(&self) -> bool {
        self.radius.positive()
    }

    /// The sphere about `center` with the given radius, which is positive.
    pub fn new(center: Vec3, radius: Scalar) -> (sphere: Sphere)
        requires
            radius.positive(),
        ensures
            sphere == (Sphere { center, radius }),
            sphere.well_formed(),
    {
        Sphere { center, radius }
    }

    /// The center.
    pub fn center(&self) -> (center: Vec3)
        ensures
            center == self.center,
    {
        self.center
    }

    /// The radius.
    pub fn radius(&self) -> (radius: Scalar)
        ensures
            radius == self.radius,
    {
        self.radius
    }

    /// The normal at a point of the sphere for a ray that arrives along
    /// `direction`: the vector from the point to the center, projected on the
    /// direction and scaled to length 1, so that it is the same whether the ray
    /// arrives from outside or from inside.
    pub fn normal<A: Arithmetic>(&self, ar: &A, intersection: &Vec3, direction: &Vec3) -> (normal:
        Vec3)
        ensures
            is_sphere_normal(ar, self.center, *intersection, *direction, normal),
    {
        let inward = self.center.sub(ar, *intersection);
        let facing = direction.dot(ar, inward);
        let projected = inward.mul(ar, facing);
        let normal = projected.normalized(ar);
        assert(is_projection(
            ar,
            self.center,
            *intersection,
            *direction,
            inward,
            facing,
            projected,
            normal,
        ));
        normal
    }

    /// Where the ray first meets the sphere, if it does in front of its origin:
    /// at the nearest root that is not negative of the quadratic with
    /// `a = |d|^2`, `b = 2 (o - c) . d` and `c = |o - c|^2 - r^2`.
    pub fn intersect<A: Arithmetic>(&self, ar: &A, ray: &Ray) -> (hit: Option<HitRecord>)
        ensures
            is_sphere_hit(ar, *self, *ray, hit),
            hit.is_some() ==> hit.unwrap().ray_t.non_negative(),
    {
        let oc = ray.origin.sub(ar, self.center);
        let d_norm = ray.direction.norm(ar);
        let oc_norm = oc.norm(ar);
        let a = ar.mul(d_norm, d_norm);
        let od = oc.dot(ar, ray.direction);
        let b = ar.mul(Scalar::two(), od);
        let oc2 = ar.mul(oc_norm, oc_norm);
        let r2 = ar.mul(self.radius, self.radius);
        let c = ar.sub(oc2, r2);
        assert(is_sphere_quadratic(ar, *self, *ray, oc, d_norm, oc_norm, a, od, b, oc2, r2, c));
        let roots = solve_deg2_eq(ar, a, b, c);
        let hit = match roots {
            None => None,
            Some(sols) => match closest_facing_solution(sols) {
                None => None,
                Some(t) => {
                    let point = ray.point_at(ar, t);
                    let normal = self.normal(ar, &point, &ray.direction);
                    Some(HitRecord { ray_t: t, point, normal })
                },
            },
        };
        assert(is_hit_at_root(ar, *self, *ray, roots, hit));
        hit
    }
}

/// Whether the vectors are the steps to the normal of a sphere about `center`
/// at `point` for a ray along `direction`: `inward` is `center - point`,
/// `facing` its dot product with the direction, `projected` is `inward` times
/// `facing`, and `normal` is that scaled to length 1.
pub open spec fn is_projection<A: Arithmetic>(
    ar: &A,
    center: Vec3,
    point: Vec3,
    direction: Vec3,
    inward: Vec3,
    facing: Scalar,
    projected: Vec3,
    normal: Vec3,
) -> bool {
    &&& is_vector_difference(ar, center, point, inward)
    &&& is_dot(ar, direction, inward, facing)
    &&& is_scaled(ar, inward, facing, projected)
    &&& is_normalized(ar, projected, normal)
}

/// Whether `normal` is what the arithmetic gives as the normal of a sphere
/// about `center` at `point` for a ray along `direction`.
pub open spec fn is_sphere_normal<A: Arithmetic>(
    ar: &A,
    center: Vec3,
    point: Vec3,
    direction: Vec3,
    normal: Vec3,
) -> bool {
    exists|inward: Vec3, facing: Scalar, projected: Vec3|
        #[trigger] is_projection(ar, center, point, direction, inward, facing, projected, normal)
}

/// Whether the numbers are the steps to the quadratic of a ray and a sphere:
/// `a = |d| |d|`, `b = 2 ((o - c) . d)` and `c = |o - c| |o - c| - r r`.
pub open spec fn is_sphere_quadratic<A: Arithmetic>(
    ar: &A,
    sphere: Sphere,
    ray: Ray,
    oc: Vec3,
    d_norm: Scalar,
    oc_norm: Scalar,
    a: Scalar,
    od: Scalar,
    b: Scalar,
    oc2: Scalar,
    r2: Scalar,
    c: Scalar,
) -> bool {
    &&& is_vector_difference(ar, ray.origin, sphere.center, oc)
    &&& is_norm(ar, ray.direction, d_norm)
    &&& is_norm(ar, oc, oc_norm)
    &&& is_product(ar, d_norm, d_norm, a)
    &&& is_dot(ar, oc, ray.direction, od)
    &&& is_product(ar, Scalar::of(TWO_BITS), od, b)
    &&& is_product(ar, oc_norm, oc_norm, oc2)
    &&& is_product(ar, sphere.radius, sphere.radius, r2)
    &&& is_difference(ar, oc2, r2, c)
}

/// Whether `hit` is the hit that belongs to the roots of the quadratic: none
/// without roots or with negative ones only, else at the first root that is not
/// negative, at the point there along the ray, with the sphere's normal there.
pub open spec fn is_hit_at_root<A: Arithmetic>(
    ar: &A,
    sphere: Sphere,
    ray: Ray,
    roots: Option<(Scalar, Scalar)>,
    hit: Option<HitRecord>,
) -> bool {
    match roots {
        None => hit.is_none(),
        Some(sols) => match facing_solution(sols.0, sols.1) {
            None => hit.is_none(),
            Some(t) => {
                &&& hit.is_some()
                &&& hit.unwrap().ray_t == t
                &&& is_point_at(ar, ray.origin, ray.direction, t, hit.unwrap().point)
                &&& is_sphere_normal(
                    ar,
                    sphere.center,
                    hit.unwrap().point,
                    ray.direction,
                    hit.unwrap().normal,
                )
            },
        },
    }
}

/// Whether `hit` is what the arithmetic gives as the hit of the ray on the
/// sphere.
pub open spec fn is_sphere_hit<A: Arithmetic>(
    ar: &A,
    sphere: Sphere,
    ray: Ray,
    hit: Option<HitRecord>,
) -> bool {
    exists|
        oc: Vec3,
        d_norm: Scalar,
        oc_norm: Scalar,
        a: Scalar,
        od: Scalar,
        b: Scalar,
        oc2: Scalar,
        r2: Scalar,
        c: Scalar,
        roots: Option<(Scalar, Scalar)>,
    |
        #[trigger] is_sphere_quadratic(ar, sphere, ray, oc, d_norm, oc_norm, a, od, b, oc2, r2, c)
            && #[trigger] is_solution(ar, a, b, c, roots) && is_hit_at_root(
            ar,
            sphere,
            ray,
            roots,
            hit,
        )
}

/// An unbounded plane through `position`, perpendicular to `normal`.
#[derive(Clone, Copy, Debug, PartialEq, Eq, Structural)]
pub struct Plane {
    pub position: Vec3,
    pub normal: Vec3,
}

/// Whether a ray meets a plane, given the dot product `denom` of its direction
/// with the plane's normal and the distance `t` at which its line crosses the
/// plane: the ray must not run parallel to the plane (`denom` within epsilon of
/// zero), and the crossing must not lie behind its origin.
pub open spec fn meets_plane(denom: Scalar, t: Scalar) -> bool {
    Scalar::of(EPSILON_BITS).num_lt(denom.absolute()) && t.non_negative()
}

/// Decides whether a ray meets a plane.
pub fn plane_test(denom: Scalar, t: Scalar) -> (meets: bool)
    ensures
        meets == meets_plane(denom, t),
{
    denom.abs().gt(Scalar::from_bits(EPSILON_BITS)) && t.is_non_negative()
}

impl Plane {
    /// Where the ray meets the plane: at `t = (position - origin) . normal /
    /// (direction . normal)`, unless the ray runs parallel to the plane or `t`
    /// is negative.
    pub fn intersect<A: Arithmetic>(&self, ar: &A, ray: &Ray) -> (hit: Option<HitRecord>)
        ensures
            is_plane_hit(ar, *self, *ray, hit),
            hit.is_some() ==> hit.unwrap().ray_t.non_negative(),
            hit.is_some() ==> hit.unwrap().normal == self.normal,
    {
        let denom = ray.direction.dot(ar, self.normal);
        let towards = self.position.sub(ar, ray.origin);
        let height = towards.dot(ar, self.normal);
        let t = ar.div(height, denom);
        assert(is_plane_crossing(ar, *self, *ray, denom, towards, height, t));
        if plane_test(denom, t) {
            let point = ray.point_at(ar, t);
            Some(HitRecord { ray_t: t, point, normal: self.normal })
        } else {
            None
        }
    }
}

/// Whether the numbers are the steps to the distance at which the ray's line
/// crosses the plane: `denom` is `direction . normal`, `towards` is
/// `position - origin`, `height` is `towards . normal` and `t` is
/// `height / denom`.
pub open spec fn is_plane_crossing<A: Arithmetic>(
    ar: &A,
    plane: Plane,
    ray: Ray,
    denom: Scalar,
    towards: Vec3,
    height: Scalar,
    t: Scalar,
) -> bool {
    &&& is_dot(ar, ray.direction, plane.normal, denom)
    &&& is_vector_difference(ar, plane.position, ray.origin, towards)
    &&& is_dot(ar, towards, plane.normal, height)
    &&& is_quotient(ar, height, denom, t)
}

/// Whether `hit` is the hit that belongs to the crossing: none if the ray
/// does not meet the plane, else at `t`, at the point there along the ray,
/// with the plane's normal.
pub open spec fn is_hit_at_crossing<A: Arithmetic>(
    ar: &A,
    plane: Plane,
    ray: Ray,
    denom: Scalar,
    t: Scalar,
    hit: Option<HitRecord>,
) -> bool {
    if meets_plane(denom, t) {
        &&& hit.is_some()
        &&& hit.unwrap().ray_t == t
        &&& hit.unwrap().normal == plane.normal
        &&& is_point_at(ar, ray.origin, ray.direction, t, hit.unwrap().point)
    } else {
        hit.is_none()
    }
}

/// Whether `hit` is what the arithmetic gives as the hit of the ray on the
/// plane.
pub open spec fn is_plane_hit<A: Arithmetic>(
    ar: &A,
    plane: Plane,
    ray: Ray,
    hit: Option<HitRecord>,
) -> bool {
    exists|denom: Scalar, towards: Vec3, height: Scalar, t: Scalar|
        #[trigger] is_plane_crossing(ar, plane, ray, denom, towards, height, t)
            && is_hit_at_crossing(ar, plane, ray, denom, t, hit)
}

/// A triangle, with the normal of its face.
#[derive(Clone, Copy, Debug, PartialEq, Eq, Structural)]
pub struct Triangle {
    pub va: Vec3,
    pub vb: Vec3,
    pub vc: Vec3,
    pub normal: Vec3,
}

/// The test of the Moeller-Trumbore algorithm: whether a ray meets a triangle,
/// given the determinant `det`, the barycentric coordinates `u` and `v` of the
/// point where the ray meets the triangle's plane, their sum, and the distance
/// `t` along the ray.
pub open spec fn meets_triangle(det: Scalar, u: Scalar, v: Scalar, sum: Scalar, t: Scalar) -> bool {
    let zero = Scalar::of(0);
    let one = Scalar::of(ONE_BITS);
    let epsilon = Scalar::of(EPSILON_BITS);
    &&& !det.absolute().num_lt(epsilon)
    &&& !u.num_lt(zero) && !one.num_lt(u)
    &&& !v.num_lt(zero) && !one.num_lt(sum)
    &&& epsilon.num_lt(t)
}

/// Decides whether a ray meets a triangle: not if it runs parallel to it (the
/// determinant is within epsilon of zero), not if `u` or `v` is negative, `u`
/// above 1 or `u + v` above 1, and not unless `t` exceeds epsilon.
pub fn triangle_test(det: Scalar, u: Scalar, v: Scalar, sum: Scalar, t: Scalar) -> (meets: bool)
    ensures
        meets == meets_triangle(det, u, v, sum, t),
        meets ==> t.positive(),
{
    let zero = Scalar::zero();
    let one = Scalar::one();
    let epsilon = Scalar::from_bits(EPSILON_BITS);
    if det.abs().lt(epsilon) {
        return false;
    }
    if u.lt(zero) || u.gt(one) {
        return false;
    }
    if v.lt(zero) || sum.gt(one) {
        return false;
    }
    t.gt(epsilon)
}

impl Triangle {
    /// The triangle with the given corners. Its normal is `(c - a) x (b - a)`,
    /// scaled to length 1.
    pub fn new<A: Arithmetic>(ar: &A, a: Vec3, b: Vec3, c: Vec3) -> (triangle: Triangle)
        ensures
            triangle.va == a,
            triangle.vb == b,
            triangle.vc == c,
            is_face_normal(ar, a, b, c, triangle.normal),
    {
        let side1 = c.sub(ar, a);
        let side2 = b.sub(ar, a);
        let across = side1.cross(ar, side2);
        let normal = across.normalized(ar);
        assert(is_face(ar, a, b, c, side1, side2, across, normal));
        Triangle { va: a, vb: b, vc: c, normal }
    }

    /// Where the ray meets the triangle, by the Moeller-Trumbore algorithm.
    pub fn intersect<A: Arithmetic>(&self, ar: &A, ray: &Ray) -> (hit: Option<HitRecord>)
        ensures
            is_triangle_hit(ar, *self, *ray, hit),
            hit.is_some() ==> hit.unwrap().ray_t.positive(),
            hit.is_some() ==> Scalar::of(EPSILON_BITS).num_lt(hit.unwrap().ray_t),
            hit.is_some() ==> hit.unwrap().normal == self.normal,
    {
        let edge1 = self.vb.sub(ar, self.va);
        let edge2 = self.vc.sub(ar, self.va);
        let h = ray.direction.cross(ar, edge2);
        let det = edge1.dot(ar, h);
        let f = ar.div(Scalar::one(), det);
        let s = ray.origin.sub(ar, self.va);
        let sh = s.dot(ar, h);
        let u = ar.mul(f, sh);
        let q = s.cross(ar, edge1);
        let dq = ray.direction.dot(ar, q);
        let v = ar.mul(f, dq);
        let eq = edge2.dot(ar, q);
        let t = ar.mul(f, eq);
        let sum = ar.add(u, v);
        assert(is_moeller_trumbore(
            ar,
            *self,
            *ray,
            edge1,
            edge2,
            h,
            det,
            f,
            s,
            sh,
            u,
            q,
            dq,
            v,
            eq,
            t,
            sum,
        ));
        if triangle_test(det, u, v, sum, t) {
            let point = ray.point_at(ar, t);
            Some(HitRecord { ray_t: t, point, normal: self.normal })
        } else {
            None
        }
    }
}

/// Whether the vectors are the steps to the normal of the face with the
/// corners `a`, `b` and `c`: `(c - a) x (b - a)`, scaled to length 1.
pub open spec fn is_face<A: Arithmetic>(
    ar: &A,
    a: Vec3,
    b: Vec3,
    c: Vec3,
    side1: Vec3,
    side2: Vec3,
    across: Vec3,
    normal: Vec3,
) -> bool {
    &&& is_vector_difference(ar, c, a, side1)
    &&& is_vector_difference(ar, b, a, side2)
    &&& is_cross(ar, side1, side2, across)
    &&& is_normalized(ar, across, normal)
}

/// Whether `normal` is what the arithmetic gives as the normal of the face
/// with the corners `a`, `b` and `c`.
pub open spec fn is_face_normal<A: Arithmetic>(ar: &A, a: Vec3, b: Vec3, c: Vec3, normal: Vec3) -> bool {
    exists|side1: Vec3, side2: Vec3, across: Vec3|
        #[trigger] is_face(ar, a, b, c, side1, side2, across, normal)
}

/// Whether the values are the steps of the Moeller-Trumbore algorithm for the
/// ray and the triangle: with the edges `e1 = b - a` and `e2 = c - a`,
/// `h = d x e2`, `det = e1 . h`, `f = 1 / det`, `s = o - a`, `u = f (s . h)`,
/// `q = s x e1`, `v = f (d . q)`, `t = f (e2 . q)` and `sum = u + v`.
pub open spec fn is_moeller_trumbore<A: Arithmetic>(
    ar: &A,
    triangle: Triangle,
    ray: Ray,
    edge1: Vec3,
    edge2: Vec3,
    h: Vec3,
    det: Scalar,
    f: Scalar,
    s: Vec3,
    sh: Scalar,
    u: Scalar,
    q: Vec3,
    dq: Scalar,
    v: Scalar,
    eq: Scalar,
    t: Scalar,
    sum: Scalar,
) -> bool {
    &&& is_vector_difference(ar, triangle.vb, triangle.va, edge1)
    &&& is_vector_difference(ar, triangle.vc, triangle.va, edge2)
    &&& is_cross(ar, ray.direction, edge2, h)
    &&& is_dot(ar, edge1, h, det)
    &&& is_quotient(ar, Scalar::of(ONE_BITS), det, f)
    &&& is_vector_difference(ar, ray.origin, triangle.va, s)
    &&& is_dot(ar, s, h, sh)
    &&& is_product(ar, f, sh, u)
    &&& is_cross(ar, s, edge1, q)
    &&& is_dot(ar, ray.direction, q, dq)
    &&& is_product(ar, f, dq, v)
    &&& is_dot(ar, edge2, q, eq)
    &&& is_product(ar, f, eq, t)
    &&& is_sum(ar, u, v, sum)
}

/// Whether `hit` is the hit that belongs to the outcome of the algorithm: none
/// if the test fails, else at `t`, at the point there along the ray, with the
/// triangle's normal.
pub open spec fn is_hit_in_triangle<A: Arithmetic>(
    ar: &A,
    triangle: Triangle,
    ray: Ray,
    det: Scalar,
    u: Scalar,
    v: Scalar,
    sum: Scalar,
    t: Scalar,
    hit: Option<HitRecord>,
) -> bool {
    if meets_triangle(det, u, v, sum, t) {
        &&& hit.is_some()
        &&& hit.unwrap().ray_t == t
        &&& hit.unwrap().normal == triangle.normal
        &&& is_point_at(ar, ray.origin, ray.direction, t, hit.unwrap().point)
    } else {
        hit.is_none()
    }
}

/// Whether `hit` is what the arithmetic gives as the hit of the ray on the
/// triangle.
pub open spec fn is_triangle_hit<A: Arithmetic>(
    ar: &A,
    triangle: Triangle,
    ray: Ray,
    hit: Option<HitRecord>,
) -> bool {
    exists|
        edge1: Vec3,
        edge2: Vec3,
        h: Vec3,
        det: Scalar,
        f: Scalar,
        s: Vec3,
        sh: Scalar,
        u: Scalar,
        q: Vec3,
        dq: Scalar,
        v: Scalar,
        eq: Scalar,
        t: Scalar,
        sum: Scalar,
    |
        #[trigger] is_moeller_trumbore(
            ar,
            triangle,
            ray,
            edge1,
            edge2,
            h,
            det,
            f,
            s,
            sh,
            u,
            q,
            dq,
            v,
            eq,
            t,
            sum,
        ) && is_hit_in_triangle(ar, triangle, ray, det, u, v, sum, t, hit)
}

/// Whether a candidate counts in the search for the nearest hit: there is a
/// hit, and it is nearer than infinity.
pub open spec fn in_reach(hit: Option<HitRecord>) -> bool {
    hit.is_some() && hit.unwrap().ray_t.num_lt(Scalar::of(INFINITY_BITS))
}

/// Whether candidate `i` is the nearest of `hits`: it is in reach, strictly
/// nearer than every candidate in reach before it, and no candidate after it is
/// strictly nearer.
pub open spec fn is_nearest(hits: Seq<Option<HitRecord>>, i: int) -> bool {
    &&& 0 <= i < hits.len()
    &&& in_reach(hits[i])
    &&& forall|j: int|
        0 <= j < i && in_reach(#[trigger] hits[j]) ==> hits[i].unwrap().ray_t.num_lt(
            hits[j].unwrap().ray_t,
        )
    &&& forall|j: int|
        i < j < hits.len() && in_reach(#[trigger] hits[j]) ==> hits[i].unwrap().ray_t.num_le(
            hits[j].unwrap().ray_t,
        )
}

/// At most one candidate is the nearest.
pub proof fn lemma_nearest_is_unique(hits: Seq<Option<HitRecord>>, i: int, j: int)
    requires
        is_nearest(hits, i),
        is_nearest(hits, j),
    ensures
        i == j,
{
    if i < j {
        assert(in_reach(hits[i]));
        assert(in_reach(hits[j]));
    } else if j < i {
        assert(in_reach(hits[i]));
        assert(in_reach(hits[j]));
    }
}

/// The nearest of the first `k` candidates stays the nearest of the first
/// `k + 1`, unless candidate `k` is strictly nearer.
proof fn lemma_nearest_stays(hits: Seq<Option<HitRecord>>, k: int, i: int)
    requires
        0 <= k < hits.len(),
        is_nearest(hits.take(k), i),
        !in_reach(hits[k]) || !hits[k].unwrap().ray_t.num_lt(hits[i].unwrap().ray_t),
    ensures
        is_nearest(hits.take(k + 1), i),
{
    let before = hits.take(k);
    let after = hits.take(k + 1);
    assert(after[i] == before[i]);
    assert forall|j: int| 0 <= j < i && in_reach(#[trigger] after[j]) implies after[i].unwrap().ray_t.num_lt(
        after[j].unwrap().ray_t,
    ) by {
        assert(in_reach(before[j]));
    }
    assert forall|j: int| i < j < after.len() && in_reach(#[trigger] after[j]) implies after[i].unwrap().ray_t.num_le(
        after[j].unwrap().ray_t,
    ) by {
        if j < k {
            assert(in_reach(before[j]));
        }
    }
}

/// A candidate that is strictly nearer than the nearest of those before it, or
/// the first one in reach, is the nearest up to itself.
proof fn lemma_nearest_moves(hits: Seq<Option<HitRecord>>, k: int, best: Option<int>)
    requires
        0 <= k < hits.len(),
        in_reach(hits[k]),
        match best {
            Some(i) => is_nearest(hits.take(k), i) && hits[k].unwrap().ray_t.num_lt(
                hits[i].unwrap().ray_t,
            ),
            None => forall|j: int| 0 <= j < k ==> !in_reach(#[trigger] hits[j]),
        },
    ensures
        is_nearest(hits.take(k + 1), k),
{
    let before = hits.take(k);
    let after = hits.take(k + 1);
    assert forall|j: int| 0 <= j < k && in_reach(#[trigger] after[j]) implies after[k].unwrap().ray_t.num_lt(
        after[j].unwrap().ray_t,
    ) by {
        assert(after[j] == hits[j]);
        if best.is_some() {
            let i = best.unwrap();
            assert(before[i] == hits[i]);
            assert(in_reach(before[j]));
        }
    }
}

/// The index of the nearest hit among the candidates, the first one among
/// equally near ones; none if no candidate is a hit nearer than infinity.
pub fn nearest(hits: &Vec<Option<HitRecord>>) -> (index: Option<usize>)
    ensures
        match index {
            Some(i) => is_nearest(hits@, i as int),
            None => forall|j: int| 0 <= j < hits.len() ==> !in_reach(#[trigger] hits[j]),
        },
{
    let mut closest = Scalar::infinity();
    let mut index: Option<usize> = None;
    let mut k: usize = 0;
    while k < hits.len()
        invariant
            0 <= k <= hits.len(),
            match index {
                Some(i) => i < k && is_nearest(hits@.take(k as int), i as int) && closest
                    == hits[i as int].unwrap().ray_t,
                None => closest == Scalar::of(INFINITY_BITS) && forall|j: int|
                    0 <= j < k ==> !in_reach(#[trigger] hits[j]),
            },
        decreases hits.len() - k,
    {
        let nearer = match &hits[k] {
            Some(hit) => hit.ray_t.lt(closest),
            None => false,
        };
        if nearer {
            proof {
                let best = match index {
                    Some(i) => Some(i as int),
                    None => None,
                };
                if index.is_some() {
                    assert(hits@.take(k as int)[index.unwrap() as int] == hits[index.unwrap() as int]);
                }
                lemma_nearest_moves(hits@, k as int, best);
            }
            closest = hits[k].unwrap().ray_t;
            index = Some(k);
        } else {
            proof {
                if index.is_some() {
                    assert(hits@.take(k as int)[index.unwrap() as int] == hits[index.unwrap() as int]);
                    lemma_nearest_stays(hits@, k as int, index.unwrap() as int);
                }
            }
        }
        k += 1;
    }
    assert(hits@.take(k as int) =~= hits@);
    index
}

/// A primitive, or a group of shapes that is hit where its nearest member is.
#[derive(Debug)]
pub enum Shape {
    Sphere(Sphere),
    Plane(Plane),
    Triangle(Triangle),
    Composite(Vec<Shape>),
}

/// Whether `hit` is the nearest of the candidates: the one that `is_nearest`
/// names, and none if no candidate is in reach.
pub open spec fn is_nearest_of(hits: Seq<Option<HitRecord>>, hit: Option<HitRecord>) -> bool {
    ||| exists|i: int| is_nearest(hits, i) && hit == #[trigger] hits[i]
    ||| hit.is_none() && forall|j: int| 0 <= j < hits.len() ==> !in_reach(#[trigger] hits[j])
}

/// Whether `hit` is what the arithmetic gives as the hit of the ray on the
/// shape: that of the primitive, and for a group the nearest of its members'
/// hits.
pub open spec fn is_shape_hit<A: Arithmetic>(
    ar: &A,
    shape: Shape,
    ray: Ray,
    hit: Option<HitRecord>,
) -> bool
    decreases shape,
{
    match shape {
        Shape::Sphere(sphere) => is_sphere_hit(ar, sphere, ray, hit),
        Shape::Plane(plane) => is_plane_hit(ar, plane, ray, hit),
        Shape::Triangle(triangle) => is_triangle_hit(ar, triangle, ray, hit),
        Shape::Composite(children) => exists|hits: Seq<Option<HitRecord>>|
            {
                &&& hits.len() == children.len()
                &&& forall|i: int|
                    0 <= i < children.len() ==> is_shape_hit(ar, children[i], ray, #[trigger] hits[i])
                &&& #[trigger] is_nearest_of(hits, hit)
            },
    }
}

impl Shape {
    /// Where the ray first meets the shape, if it does in front of its origin.
    /// For a group this is the nearest of its members' hits.
    pub fn intersect<A: Arithmetic>(&self, ar: &A, ray: &Ray) -> (hit: Option<HitRecord>)
        ensures
            is_shape_hit(ar, *self, *ray, hit),
            hit.is_some() ==> hit.unwrap().ray_t.non_negative(),
            self matches Shape::Composite(children) && children.len() == 0 ==> hit.is_none(),
        decreases self,
    {
        match self {
            Shape::Sphere(sphere) => sphere.intersect(ar, ray),
            Shape::Plane(plane) => plane.intersect(ar, ray),
            Shape::Triangle(triangle) => triangle.intersect(ar, ray),
            Shape::Composite(children) => {
                let mut hits: Vec<Option<HitRecord>> = Vec::new();
                let mut k: usize = 0;
                while k < children.len()
                    invariant
                        0 <= k <= children.len(),
                        hits.len() == k,
                        self is Composite,
                        self->Composite_0 == *children,
                        forall|j: int|
                            0 <= j < k ==> is_shape_hit(ar, children[j], *ray, #[trigger] hits[j]),
                        forall|j: int|
                            0 <= j < k && (#[trigger] hits[j]).is_some()
                                ==> hits[j].unwrap().ray_t.non_negative(),
                    decreases children.len() - k,
                {
                    assert(decreases_to!(self => self->Composite_0));
                    assert(decreases_to!(*children => children[k as int]));
                    let hit = children[k].intersect(ar, ray);
                    hits.push(hit);
                    k += 1;
                }
                let hit = match nearest(&hits) {
                    Some(i) => hits[i],
                    None => None,
                };
                assert(is_nearest_of(hits@, hit));
                hit
            },
        }
    }
}

} // verus!
