//! Roots of quadratic equations and rotation about an axis.

use vstd::prelude::*;
use crate::arithmetic::is_cosine;
use crate::arithmetic::is_difference;
use crate::arithmetic::is_function;
use crate::arithmetic::is_product;
use crate::arithmetic::is_quotient;
use crate::arithmetic::is_root;
use crate::arithmetic::is_sine;
use crate::arithmetic::is_sum;
use crate::arithmetic::Arithmetic;
use crate::scalar::Scalar;
use crate::scalar::FOUR_BITS;
use crate::scalar::ONE_BITS;
use crate::scalar::TWO_BITS;
use crate::vec3::is_cross;
use crate::vec3::is_dot;
use crate::vec3::is_scaled;
use crate::vec3::is_vector_sum;
use crate::vec3::lemma_vectors_are_unique;
use crate::vec3::Vec3;

verus! {

/// Two numbers in ascending order: as given if the first is at most the
/// second, swapped otherwise.
pub open spec fn ascending(x1: Scalar, x2: Scalar) -> (Scalar, Scalar) {
    if x1.num_le(x2) {
        (x1, x2)
    } else {
        (x2, x1)
    }
}

/// Orders two roots: the smaller one comes first.
pub fn order_roots(x1: Scalar, x2: Scalar) -> (roots: (Scalar, Scalar))
    ensures
        roots == ascending(x1, x2),
        !roots.1.num_lt(roots.0),
        !x1.nan() && !x2.nan() ==> roots.0.num_le(roots.1),
{
    if x1.le(x2) {
        (x1, x2)
    } else {
        (x2, x1)
    }
}

/// How many real roots `a x^2 + b x + c = 0` has, judged by `a`, `b` and the
/// discriminant `b^2 - 4ac`.
#[derive(Clone, Copy, Debug, PartialEq, Eq, Structural)]
pub enum RootCount {
    /// No real root, or no equation at all (`a` and `b` both zero).
    Zero,
    /// `a` is zero and `b` is not: the equation is linear.
    Linear,
    /// The discriminant is zero: one repeated root.
    Repeated,
    /// The discriminant is positive: two roots.
    Two,
}

/// The count of roots for the given leading coefficients and discriminant.
pub open spec fn root_count(a: Scalar, b: Scalar, discriminant: Scalar) -> RootCount {
    if !a.num_eq(Scalar::of(0)) {
        if discriminant.positive() {
            RootCount::Two
        } else if discriminant.is_zero() {
            RootCount::Repeated
        } else {
            RootCount::Zero
        }
    } else if !b.num_eq(Scalar::of(0)) {
        RootCount::Linear
    } else {
        RootCount::Zero
    }
}

/// Classifies an equation by its leading coefficients and its discriminant. A
/// discriminant that is not a number counts as negative.
pub fn count_roots(a: Scalar, b: Scalar, discriminant: Scalar) -> (count: RootCount)
    ensures
        count == root_count(a, b, discriminant),
{
    if !a.eq_zero() {
        if discriminant.is_positive() {
            RootCount::Two
        } else if discriminant.eq_zero() {
            RootCount::Repeated
        } else {
            RootCount::Zero
        }
    } else if !b.eq_zero() {
        RootCount::Linear
    } else {
        RootCount::Zero
    }
}

/// Whether the numbers are the steps to the discriminant `b b - (4 a) c` and
/// to the divisor `2 a`.
pub open spec fn is_discriminant<A: Arithmetic>(
    ar: &A,
    a: Scalar,
    b: Scalar,
    c: Scalar,
    four_a: Scalar,
    four_a_c: Scalar,
    b_b: Scalar,
    discriminant: Scalar,
    two_a: Scalar,
) -> bool {
    &&& is_product(ar, Scalar::of(FOUR_BITS), a, four_a)
    &&& is_product(ar, four_a, c, four_a_c)
    &&& is_product(ar, b, b, b_b)
    &&& is_difference(ar, b_b, four_a_c, discriminant)
    &&& is_product(ar, Scalar::of(TWO_BITS), a, two_a)
}

/// Whether the numbers are the steps to the two roots `(-b + s) / 2a` and
/// `(-b - s) / 2a`, with `s` the square root of the discriminant.
pub open spec fn is_pair_of_roots<A: Arithmetic>(
    ar: &A,
    b: Scalar,
    discriminant: Scalar,
    two_a: Scalar,
    s: Scalar,
    above: Scalar,
    below: Scalar,
    x1: Scalar,
    x2: Scalar,
) -> bool {
    &&& is_root(ar, discriminant, s)
    &&& is_sum(ar, b.negated(), s, above)
    &&& is_quotient(ar, above, two_a, x1)
    &&& is_difference(ar, b.negated(), s, below)
    &&& is_quotient(ar, below, two_a, x2)
}

/// Whether `roots` are the roots that belong to the discriminant: none where
/// there is none, `-c / b` twice for a linear equation, `-b / 2a` twice for a
/// repeated root, and else the two roots in ascending order.
pub open spec fn is_roots_for<A: Arithmetic>(
    ar: &A,
    a: Scalar,
    b: Scalar,
    c: Scalar,
    discriminant: Scalar,
    two_a: Scalar,
    roots: Option<(Scalar, Scalar)>,
) -> bool {
    match root_count(a, b, discriminant) {
        RootCount::Zero => roots.is_none(),
        RootCount::Linear => roots.is_some() && roots.unwrap().0 == roots.unwrap().1
            && is_quotient(ar, c.negated(), b, roots.unwrap().0),
        RootCount::Repeated => roots.is_some() && roots.unwrap().0 == roots.unwrap().1
            && is_quotient(ar, b.negated(), two_a, roots.unwrap().0),
        RootCount::Two => exists|s: Scalar, above: Scalar, below: Scalar, x1: Scalar, x2: Scalar|
            #[trigger] is_pair_of_roots(ar, b, discriminant, two_a, s, above, below, x1, x2)
                && roots == Some(ascending(x1, x2)),
    }
}

/// Whether `roots` is what the arithmetic gives as the roots of
/// `a x^2 + b x + c = 0`.
pub open spec fn is_solution<A: Arithmetic>(
    ar: &A,
    a: Scalar,
    b: Scalar,
    c: Scalar,
    roots: Option<(Scalar, Scalar)>,
) -> bool {
    exists|four_a: Scalar, four_a_c: Scalar, b_b: Scalar, discriminant: Scalar, two_a: Scalar|
        #[trigger] is_discriminant(ar, a, b, c, four_a, four_a_c, b_b, discriminant, two_a)
            && is_roots_for(ar, a, b, c, discriminant, two_a, roots)
}

/// Whether the numbers are the steps to the value at `x` of the line through
/// `(x0, y0)` and `(x1, y1)`: `y0 + (x - x0) * ((y1 - y0) / (x1 - x0))`.
pub open spec fn is_line<A: Arithmetic>(
    ar: &A,
    x0: Scalar,
    x1: Scalar,
    y0: Scalar,
    y1: Scalar,
    x: Scalar,
    rise: Scalar,
    run: Scalar,
    slope: Scalar,
    along: Scalar,
    gain: Scalar,
    r: Scalar,
) -> bool {
    &&& is_difference(ar, y1, y0, rise)
    &&& is_difference(ar, x1, x0, run)
    &&& is_quotient(ar, rise, run, slope)
    &&& is_difference(ar, x, x0, along)
    &&& is_product(ar, along, slope, gain)
    &&& is_sum(ar, y0, gain, r)
}

/// Whether `r` is what the arithmetic gives as the value at `x` of the line
/// through `(x0, y0)` and `(x1, y1)`.
pub open spec fn is_line_value<A: Arithmetic>(
    ar: &A,
    x0: Scalar,
    x1: Scalar,
    y0: Scalar,
    y1: Scalar,
    x: Scalar,
    r: Scalar,
) -> bool {
    exists|rise: Scalar, run: Scalar, slope: Scalar, along: Scalar, gain: Scalar|
        #[trigger] is_line(ar, x0, x1, y0, y1, x, rise, run, slope, along, gain, r)
}

/// Whether the values are the steps of Rodrigues' formula for `v` turned about
/// `k` by `theta`: `(v cos + (k x v) sin) + (k (k . v)) (1 - cos)`.
pub open spec fn is_rodrigues<A: Arithmetic>(
    ar: &A,
    v: Vec3,
    k: Vec3,
    theta: Scalar,
    cos: Scalar,
    sin: Scalar,
    along: Vec3,
    normal: Vec3,
    across: Vec3,
    share: Scalar,
    on_axis: Vec3,
    rest: Scalar,
    axial: Vec3,
    planar: Vec3,
    r: Vec3,
) -> bool {
    &&& is_cosine(ar, theta, cos)
    &&& is_sine(ar, theta, sin)
    &&& is_scaled(ar, v, cos, along)
    &&& is_cross(ar, k, v, normal)
    &&& is_scaled(ar, normal, sin, across)
    &&& is_dot(ar, k, v, share)
    &&& is_scaled(ar, k, share, on_axis)
    &&& is_difference(ar, Scalar::of(ONE_BITS), cos, rest)
    &&& is_scaled(ar, on_axis, rest, axial)
    &&& is_vector_sum(ar, along, across, planar)
    &&& is_vector_sum(ar, planar, axial, r)
}

/// Whether `r` is what the arithmetic gives as `v` turned about `k` by
/// `theta`.
pub open spec fn is_rotated<A: Arithmetic>(ar: &A, v: Vec3, k: Vec3, theta: Scalar, r: Vec3) -> bool {
    exists|
        cos: Scalar,
        sin: Scalar,
        along: Vec3,
        normal: Vec3,
        across: Vec3,
        share: Scalar,
        on_axis: Vec3,
        rest: Scalar,
        axial: Vec3,
        planar: Vec3,
    |
        #[trigger] is_rodrigues(
            ar,
            v,
            k,
            theta,
            cos,
            sin,
            along,
            normal,
            across,
            share,
            on_axis,
            rest,
            axial,
            planar,
            r,
        )
}

/// The real roots of `a x^2 + b x + c = 0`, the smaller one first.
///
/// With `a` zero the equation is linear: its root `-c / b` is returned twice,
/// and there is none if `b` is zero too. Otherwise the sign of the discriminant
/// decides: none if it is negative, one repeated root if it is zero, two if it
/// is positive.
pub fn solve_deg2_eq<A: Arithmetic>(ar: &A, a: Scalar, b: Scalar, c: Scalar) -> (roots: Option<
    (Scalar, Scalar),
>)
    ensures
        is_solution(ar, a, b, c, roots),
        a.is_zero() && b.is_zero() ==> roots.is_none(),
        a.is_zero() && !b.is_zero() ==> roots.is_some() && roots.unwrap().0 == roots.unwrap().1,
        roots.is_some() ==> !roots.unwrap().1.num_lt(roots.unwrap().0),
        roots.is_some() && !roots.unwrap().0.nan() && !roots.unwrap().1.nan()
            ==> roots.unwrap().0.num_le(roots.unwrap().1),
{
    let four_a = ar.mul(Scalar::from_bits(FOUR_BITS), a);
    let four_a_c = ar.mul(four_a, c);
    let b_b = ar.mul(b, b);
    let discriminant = ar.sub(b_b, four_a_c);
    let two_a = ar.mul(Scalar::two(), a);
    assert(is_discriminant(ar, a, b, c, four_a, four_a_c, b_b, discriminant, two_a));
    let roots = match count_roots(a, b, discriminant) {
        RootCount::Zero => None,
        RootCount::Linear => {
            let x = ar.div(c.neg(), b);
            Some((x, x))
        },
        RootCount::Repeated => {
            let x = ar.div(b.neg(), two_a);
            Some((x, x))
        },
        RootCount::Two => {
            let s = ar.sqrt(discriminant);
            let above = ar.add(b.neg(), s);
            let x1 = ar.div(above, two_a);
            let below = ar.sub(b.neg(), s);
            let x2 = ar.div(below, two_a);
            assert(is_pair_of_roots(ar, b, discriminant, two_a, s, above, below, x1, x2));
            Some(order_roots(x1, x2))
        },
    };
    assert(is_roots_for(ar, a, b, c, discriminant, two_a, roots));
    roots
}

/// The value at `x` of the line through `(x0, y0)` and `(x1, y1)`:
/// `y0 + (x - x0) * ((y1 - y0) / (x1 - x0))`.
pub fn linear_interpolation<A: Arithmetic>(
    ar: &A,
    x0: Scalar,
    x1: Scalar,
    y0: Scalar,
    y1: Scalar,
    x: Scalar,
) -> (r: Scalar)
    ensures
        is_line_value(ar, x0, x1, y0, y1, x, r),
{
    let rise = ar.sub(y1, y0);
    let run = ar.sub(x1, x0);
    let slope = ar.div(rise, run);
    let along = ar.sub(x, x0);
    let gain = ar.mul(along, slope);
    let r = ar.add(y0, gain);
    assert(is_line(ar, x0, x1, y0, y1, x, rise, run, slope, along, gain, r));
    r
}

/// Rotates `v` about the axis `k` by `theta` radians in the positive sense, by
/// Rodrigues' formula: `v cos(theta) + (k x v) sin(theta) + k (k . v) (1 - cos(theta))`.
/// The axis is taken to have length 1.
pub fn rotate_vector<A: Arithmetic>(ar: &A, v: &Vec3, k: &Vec3, theta: Scalar) -> (r: Vec3)
    ensures
        is_rotated(ar, *v, *k, theta, r),
{
    let cos = ar.cos(theta);
    let sin = ar.sin(theta);
    let along = v.mul(ar, cos);
    let normal = k.cross(ar, *v);
    let across = normal.mul(ar, sin);
    let share = k.dot(ar, *v);
    let on_axis = k.mul(ar, share);
    let rest = ar.sub(Scalar::one(), cos);
    let axial = on_axis.mul(ar, rest);
    let planar = along.add(ar, across);
    let r = planar.add(ar, axial);
    assert(is_rodrigues(
        ar,
        *v,
        *k,
        theta,
        cos,
        sin,
        along,
        normal,
        across,
        share,
        on_axis,
        rest,
        axial,
        planar,
        r,
    ));
    r
}

/// With an arithmetic that is a function, the rotated vector is the one that
/// there is.
pub proof fn lemma_rotation_is_unique<A: Arithmetic>(ar: &A)
    requires
        is_function(ar),
    ensures
        forall|v: Vec3, k: Vec3, theta: Scalar, r1: Vec3, r2: Vec3|
            #[trigger] is_rotated(ar, v, k, theta, r1) && #[trigger] is_rotated(
                ar,
                v,
                k,
                theta,
                r2,
            ) ==> r1 == r2,
{
    lemma_vectors_are_unique(ar);
}

} // verus!
