//! How a surface answers light: what it emits and what it passes on.

use vstd::prelude::*;
use rand::rngs::StdRng;
use crate::arithmetic::is_cosine;
use crate::arithmetic::is_difference;
use crate::arithmetic::is_product;
use crate::arithmetic::is_root;
use crate::arithmetic::is_sine;
use crate::arithmetic::Arithmetic;
use crate::random::is_unit;
use crate::random::unit_sample;
use crate::scalar::Scalar;
use crate::scalar::NINE_TENTHS_BITS;
use crate::scalar::ONE_BITS;
use crate::scalar::PI_BITS;
use crate::scalar::TWO_BITS;
use crate::spectrum::in_domain;
use crate::spectrum::is_interpolation;
use crate::spectrum::Spectrum;
use crate::vec3::is_cross;
use crate::vec3::is_normalized;
use crate::vec3::is_scaled;
use crate::vec3::is_vector_sum;
use crate::vec3::Vec3;

verus! {

/// The first axis of space.
pub open spec fn axis_x() -> Vec3 {
    Vec3 { x: Scalar::of(ONE_BITS), y: Scalar::of(0), z: Scalar::of(0) }
}

/// The second axis of space.
pub open spec fn axis_y() -> Vec3 {
    Vec3 { x: Scalar::of(0), y: Scalar::of(ONE_BITS), z: Scalar::of(0) }
}

/// The axis from which the tangents of a normal are built: the first, unless
/// the normal lies too close to it (its first component beyond 0.9 either
/// way), then the second.
pub open spec fn reference_axis_of(normal: Vec3) -> Vec3 {
    if Scalar::of(NINE_TENTHS_BITS).num_lt(normal.x.absolute()) {
        axis_y()
    } else {
        axis_x()
    }
}

/// Picks the axis from which the tangents of a normal are built, so that the
/// cross product of the two does not vanish.
pub fn reference_axis(normal: &Vec3) -> (axis: Vec3)
    ensures
        axis == reference_axis_of(*normal),
{
    if normal.x.abs().gt(Scalar::from_bits(NINE_TENTHS_BITS)) {
        Vec3::new(Scalar::zero(), Scalar::one(), Scalar::zero())
    } else {
        Vec3::new(Scalar::one(), Scalar::zero(), Scalar::zero())
    }
}

/// The normal turned against a ray: the normal itself if its dot product
/// `facing` with the ray's direction is not positive, else its opposite.
pub open spec fn turned_against(normal: Vec3, facing: Scalar) -> Vec3 {
    if facing.positive() {
        normal.negated()
    } else {
        normal
    }
}

/// Whether the values are the steps to the direction of a bounce off a surface
/// with the given normal, for the two numbers `u1` and `u2` of `[0, 1)`: with
/// `phi = (2 pi) u1`, `r = sqrt(u2)` and the tangents `t1`, the reference axis
/// crossed with the normal and scaled to length 1, and `t2 = normal x t1`, the
/// direction is `(t1 (r cos(phi)) + t2 (r sin(phi))) + normal sqrt(1 - u2)`.
pub open spec fn is_hemisphere_sample<A: Arithmetic>(
    ar: &A,
    normal: Vec3,
    u1: Scalar,
    u2: Scalar,
    two_pi: Scalar,
    phi: Scalar,
    r: Scalar,
    crossed: Vec3,
    tangent1: Vec3,
    tangent2: Vec3,
    cos: Scalar,
    r_cos: Scalar,
    along1: Vec3,
    sin: Scalar,
    r_sin: Scalar,
    along2: Vec3,
    rest: Scalar,
    height: Scalar,
    up: Vec3,
    planar: Vec3,
    direction: Vec3,
) -> bool {
    &&& is_product(ar, Scalar::of(TWO_BITS), Scalar::of(PI_BITS), two_pi)
    &&& is_product(ar, two_pi, u1, phi)
    &&& is_root(ar, u2, r)
    &&& is_cross(ar, reference_axis_of(normal), normal, crossed)
    &&& is_normalized(ar, crossed, tangent1)
    &&& is_cross(ar, normal, tangent1, tangent2)
    &&& is_cosine(ar, phi, cos)
    &&& is_product(ar, r, cos, r_cos)
    &&& is_scaled(ar, tangent1, r_cos, along1)
    &&& is_sine(ar, phi, sin)
    &&& is_product(ar, r, sin, r_sin)
    &&& is_scaled(ar, tangent2, r_sin, along2)
    &&& is_difference(ar, Scalar::of(ONE_BITS), u2, rest)
    &&& is_root(ar, rest, height)
    &&& is_scaled(ar, normal, height, up)
    &&& is_vector_sum(ar, along1, along2, planar)
    &&& is_vector_sum(ar, planar, up, direction)
}

/// Whether `direction` is what the arithmetic gives as the direction of a
/// bounce off a surface with the given normal, for the numbers `u1` and `u2`.
pub open spec fn is_bounce<A: Arithmetic>(
    ar: &A,
    normal: Vec3,
    u1: Scalar,
    u2: Scalar,
    direction: Vec3,
) -> bool {
    exists|
        two_pi: Scalar,
        phi: Scalar,
        r: Scalar,
        crossed: Vec3,
        tangent1: Vec3,
        tangent2: Vec3,
        cos: Scalar,
        r_cos: Scalar,
        along1: Vec3,
        sin: Scalar,
        r_sin: Scalar,
        along2: Vec3,
        rest: Scalar,
        height: Scalar,
        up: Vec3,
        planar: Vec3,
    |
        #[trigger] is_hemisphere_sample(
            ar,
            normal,
            u1,
            u2,
            two_pi,
            phi,
            r,
            crossed,
            tangent1,
            tangent2,
            cos,
            r_cos,
            along1,
            sin,
            r_sin,
            along2,
            rest,
            height,
            up,
            planar,
            direction,
        )
}

/// Whether `direction` is what the arithmetic gives as the direction of a
/// bounce off a surface with the given normal, for some two numbers of
/// `[0, 1)`.
pub open spec fn is_random_bounce<A: Arithmetic>(ar: &A, normal: Vec3, direction: Vec3) -> bool {
    exists|u1: Scalar, u2: Scalar|
        is_unit(u1) && is_unit(u2) && #[trigger] is_bounce(ar, normal, u1, u2, direction)
}

/// Whether `r` is what the arithmetic gives as the response of a surface at
/// the wavelength `w`: the power of its spectrum there, and `fallback` if it
/// has no spectrum or `w` lies outside it.
pub open spec fn is_response<A: Arithmetic>(
    ar: &A,
    spectrum: Option<Spectrum>,
    w: Scalar,
    fallback: Scalar,
    r: Scalar,
) -> bool {
    match spectrum {
        None => r == fallback,
        Some(spectrum) => exists|power: Option<Scalar>|
            #[trigger] is_interpolation(ar, spectrum.grid(), spectrum.samples(), w, power) && r
                == match power {
                Some(p) => p,
                None => fallback,
            },
    }
}

/// Where a well-formed spectrum has a sample at the wavelength `w`, the
/// response is the power of that sample, whatever the arithmetic: nothing is
/// computed.
pub proof fn lemma_exact_response<A: Arithmetic>(
    ar: &A,
    spectrum: Spectrum,
    w: Scalar,
    fallback: Scalar,
    r: Scalar,
    i: int,
)
    requires
        spectrum.well_formed(),
        is_response(ar, Some(spectrum), w, fallback, r),
        0 <= i < spectrum.grid().len(),
        w.num_eq(spectrum.grid()[i]),
    ensures
        r == spectrum.samples()[i],
{
    spectrum.lemma_well_formed();
    let grid = spectrum.grid();
    let samples = spectrum.samples();
    let power = choose|power: Option<Scalar>|
        #[trigger] is_interpolation(ar, grid, samples, w, power) && r == match power {
            Some(p) => p,
            None => fallback,
        };
    assert(crate::spectrum::matches(grid, w, i));
    assert(in_domain(grid, w)) by {
        if 0 < i {
            assert(grid[0].num_lt(grid[i]));
        }
        if i < grid.len() - 1 {
            assert(grid[i].num_lt(grid[grid.len() - 1]));
        }
    }
    let j = choose|j: int| #[trigger] crate::spectrum::matches(grid, w, j) && power == Some(samples[j]);
    crate::spectrum::lemma_match_is_unique(grid, w, i, j);
}

/// The direction of a bounce off a surface with the given normal, for two
/// numbers of `[0, 1)`: nearer to the normal the smaller `u2` is, and turned
/// about it by `u1` of a full turn.
pub fn bounce<A: Arithmetic>(ar: &A, normal: &Vec3, u1: Scalar, u2: Scalar) -> (direction: Vec3)
    ensures
        is_bounce(ar, *normal, u1, u2, direction),
{
    let two_pi = ar.mul(Scalar::two(), Scalar::from_bits(PI_BITS));
    let phi = ar.mul(two_pi, u1);
    let r = ar.sqrt(u2);
    let crossed = reference_axis(normal).cross(ar, *normal);
    let tangent1 = crossed.normalized(ar);
    let tangent2 = normal.cross(ar, tangent1);
    let cos = ar.cos(phi);
    let r_cos = ar.mul(r, cos);
    let along1 = tangent1.mul(ar, r_cos);
    let sin = ar.sin(phi);
    let r_sin = ar.mul(r, sin);
    let along2 = tangent2.mul(ar, r_sin);
    let rest = ar.sub(Scalar::one(), u2);
    let height = ar.sqrt(rest);
    let up = normal.mul(ar, height);
    let planar = along1.add(ar, along2);
    let direction = planar.add(ar, up);
    assert(is_hemisphere_sample(
        ar,
        *normal,
        u1,
        u2,
        two_pi,
        phi,
        r,
        crossed,
        tangent1,
        tangent2,
        cos,
        r_cos,
        along1,
        sin,
        r_sin,
        along2,
        rest,
        height,
        up,
        planar,
        direction,
    ));
    direction
}

/// Turns a normal against a ray: the normal itself if its dot product `facing`
/// with the ray's direction is not positive, else its opposite.
pub fn against(normal: &Vec3, facing: Scalar) -> (oriented: Vec3)
    ensures
        oriented == turned_against(*normal, facing),
        !facing.positive() ==> oriented == *normal,
        facing.positive() ==> {
            &&& oriented.x.key() == -normal.x.key()
            &&& oriented.y.key() == -normal.y.key()
            &&& oriented.z.key() == -normal.z.key()
            &&& oriented.x.magnitude() == normal.x.magnitude()
            &&& oriented.y.magnitude() == normal.y.magnitude()
            &&& oriented.z.magnitude() == normal.z.magnitude()
        },
{
    if facing.is_positive() {
        normal.neg()
    } else {
        *normal
    }
}

/// The response of a surface to light.
#[derive(Debug)]
pub struct Material {
    /// The power that the surface emits, by wavelength; none if it is dark.
    pub emission: Option<Spectrum>,
    /// The share of the arriving power that the surface passes on, by
    /// wavelength; none if it passes on all of it.
    pub absorption: Option<Spectrum>,
    /// The share passed on, between 0 and 1.
    pub transmittance: Scalar,
    /// The roughness, between 0 and 1.
    pub roughness: Scalar,
    /// The index of refraction, at least 1.
    pub refraction_index: Scalar,
}

impl Material {
    /// Whether the material's spectra are well formed and its numbers in their
    /// ranges: transmittance and roughness in `[0, 1]`, refraction index at
    /// least 1.
    pub open spec fn well_formed(&self) -> bool {
        &&& self.emission.is_some() ==> self.emission.unwrap().well_formed()
        &&& self.absorption.is_some() ==> self.absorption.unwrap().well_formed()
        &&& Scalar::of(0).num_le(self.transmittance)
        &&& self.transmittance.num_le(Scalar::of(ONE_BITS))
        &&& Scalar::of(0).num_le(self.roughness)
        &&& self.roughness.num_le(Scalar::of(ONE_BITS))
        &&& Scalar::of(ONE_BITS).num_le(self.refraction_index)
    }

    /// A dark surface that passes on all light: no spectra, transmittance 1,
    /// roughness 0, refraction index 1.
    pub fn new() -> (material: Material)
        ensures
            material.well_formed(),
            material.emission.is_none(),
            material.absorption.is_none(),
            material.transmittance == Scalar::of(ONE_BITS),
            material.roughness == Scalar::of(0),
            material.refraction_index == Scalar::of(ONE_BITS),
    {
        Material {
            emission: None,
            absorption: None,
            transmittance: Scalar::one(),
            roughness: Scalar::zero(),
            refraction_index: Scalar::one(),
        }
    }

    /// Tells whether the material is well formed.
    pub fn is_well_formed(&self) -> (ok: bool)
        ensures
            ok == self.well_formed(),
    {
        let emission_ok = match &self.emission {
            None => true,
            Some(spectrum) => spectrum.is_well_formed(),
        };
        let absorption_ok = match &self.absorption {
            None => true,
            Some(spectrum) => spectrum.is_well_formed(),
        };
        emission_ok && absorption_ok && self.in_range()
    }

    /// Tells whether the material's numbers are in their ranges.
    pub fn in_range(&self) -> (ok: bool)
        ensures
            ok == {
                &&& Scalar::of(0).num_le(self.transmittance)
                &&& self.transmittance.num_le(Scalar::of(ONE_BITS))
                &&& Scalar::of(0).num_le(self.roughness)
                &&& self.roughness.num_le(Scalar::of(ONE_BITS))
                &&& Scalar::of(ONE_BITS).num_le(self.refraction_index)
            },
    {
        let one = Scalar::one();
        self.transmittance.is_non_negative() && self.transmittance.le(one)
            && self.roughness.is_non_negative() && self.roughness.le(one) && one.le(
            self.refraction_index,
        )
    }

    /// The power that the surface emits at a wavelength: its emission spectrum
    /// there, and zero if it has none or the wavelength lies outside it.
    pub fn emitted<A: Arithmetic>(&self, ar: &A, wavelength: Scalar) -> (power: Scalar)
        requires
            self.well_formed(),
        ensures
            is_response(ar, self.emission, wavelength, Scalar::of(0), power),
            self.emission.is_none() ==> power == Scalar::of(0),
            self.emission.is_some() && !in_domain(self.emission.unwrap().grid(), wavelength)
                ==> power == Scalar::of(0),
            self.emission.is_some() ==> forall|i: int|
                0 <= i < self.emission.unwrap().grid().len() && wavelength.num_eq(
                    #[trigger] self.emission.unwrap().grid()[i],
                ) ==> power == self.emission.unwrap().samples()[i],
    {
        match &self.emission {
            None => Scalar::zero(),
            Some(spectrum) => match spectrum.interpolate_at(ar, wavelength) {
                None => Scalar::zero(),
                Some(power) => power,
            },
        }
    }

    /// The share of the arriving power that the surface passes on at a
    /// wavelength: its absorption spectrum there, and one (all of it) if it has
    /// none or the wavelength lies outside it.
    pub fn bsdf<A: Arithmetic>(&self, ar: &A, wavelength: Scalar) -> (share: Scalar)
        requires
            self.well_formed(),
        ensures
            is_response(ar, self.absorption, wavelength, Scalar::of(ONE_BITS), share),
            self.absorption.is_none() ==> share == Scalar::of(ONE_BITS),
            self.absorption.is_some() && !in_domain(self.absorption.unwrap().grid(), wavelength)
                ==> share == Scalar::of(ONE_BITS),
            self.absorption.is_some() ==> forall|i: int|
                0 <= i < self.absorption.unwrap().grid().len() && wavelength.num_eq(
                    #[trigger] self.absorption.unwrap().grid()[i],
                ) ==> share == self.absorption.unwrap().samples()[i],
    {
        match &self.absorption {
            None => Scalar::one(),
            Some(spectrum) => match spectrum.interpolate_at(ar, wavelength) {
                None => Scalar::one(),
                Some(share) => share,
            },
        }
    }

    /// A random direction in which light leaves the surface, on the side that
    /// the normal points to, more likely the closer to the normal: with `u1` and
    /// `u2` uniform in `[0, 1)`, `phi = 2 pi u1` and `r = sqrt(u2)`, the direction
    /// is `r cos(phi) t1 + r sin(phi) t2 + sqrt(1 - u2) normal`, where `t1` and
    /// `t2` are two tangents of the surface perpendicular to each other.
    pub fn sample_bounce<A: Arithmetic>(&self, ar: &A, normal: &Vec3, rng: &mut StdRng) -> (direction:
        Vec3)
        ensures
            is_random_bounce(ar, *normal, direction),
    {
        let u1 = unit_sample(rng);
        let u2 = unit_sample(rng);
        let direction = bounce(ar, normal, u1, u2);
        assert(is_unit(u1) && is_unit(u2) && is_bounce(ar, *normal, u1, u2, direction));
        direction
    }
}

} // verus!
