//! The path tracer: how much light of each wavelength reaches each pixel.

use vstd::prelude::*;
use rand::rngs::StdRng;
use crate::arithmetic::is_power_of_e;
use crate::arithmetic::is_product;
use crate::arithmetic::is_quotient;
use crate::arithmetic::is_sum;
use crate::arithmetic::Arithmetic;
use crate::camera::is_cast;
use crate::camera::is_whole;
use crate::camera::Camera;
use crate::color::display_color;
use crate::color::is_display_color;
use crate::color::Rgb;
use crate::material::against;
use crate::material::is_random_bounce;
use crate::material::is_response;
use crate::material::lemma_exact_response;
use crate::material::turned_against;
use crate::material::Material;
use crate::random::is_unit;
use crate::random::pick_index;
use crate::random::unit_sample;
use crate::ray::Ray;
use crate::scalar::Scalar;
use crate::scalar::LN_2_BITS;
use crate::scalar::ONE_BITS;
use crate::scene::are_hits;
use crate::scene::get_closest_hit;
use crate::scene::hit_and_object;
use crate::scene::is_closest_hit;
use crate::scene::intersect_all;
use crate::scene::Object;
use crate::scene::Scene;
use crate::shape::in_reach;
use crate::shape::is_nearest;
use crate::shape::nearest;
use crate::shape::HitRecord;
use crate::spectrum::is_grid;
use crate::spectrum::Spectrum;
use crate::vec3::is_dot;
use crate::vec3::is_normalized;
use crate::vec3::Vec3;

verus! {

/// The number of paths followed per pixel, unless another is set.
pub const DEFAULT_SAMPLES_PER_PIXEL: u32 = 16;

/// The depth beyond which paths are cut, unless another is set.
pub const DEFAULT_MAX_DEPTH: u32 = 5;

/// When a path stops being followed.
#[derive(Clone, Copy, Debug, PartialEq, Eq, Structural)]
pub enum RayExtinction {
    /// A path is cut once its depth exceeds the limit.
    Fix(u32),
    /// A path survives each bounce with a fixed probability, the one that
    /// halves the number of surviving paths every `half_life` bounces.
    HalfLife { half_life: Scalar, propagation_probability: Scalar },
}

impl RayExtinction {
    /// Whether a path of the given depth is cut, where `q` is the number drawn
    /// for it from `[0, 1)`: under `Fix` if the depth exceeds the limit, under
    /// `HalfLife` if the probability to go on is less than `q`.
    pub open spec fn cuts(self, depth: u32, q: Scalar) -> bool {
        match self {
            RayExtinction::Fix(max_depth) => depth > max_depth,
            RayExtinction::HalfLife { half_life, propagation_probability } =>
                propagation_probability.num_lt(q),
        }
    }

    /// Decides whether a path of the given depth is cut, given the number drawn
    /// for it. Under `Fix` the number plays no part.
    pub fn is_cut(&self, depth: u32, q: Scalar) -> (cut: bool)
        ensures
            cut == self.cuts(depth, q),
    {
        match self {
            RayExtinction::Fix(max_depth) => depth > *max_depth,
            RayExtinction::HalfLife { half_life: _, propagation_probability } =>
                propagation_probability.lt(q),
        }
    }
}

/// Whether the material emits exactly the power `e` at the wavelength: it has
/// an emission spectrum with a sample at this wavelength, of that power.
pub open spec fn emits_exactly(material: Material, wavelength: Scalar, e: Scalar) -> bool {
    &&& material.emission.is_some()
    &&& exists|i: int|
        0 <= i < material.emission.unwrap().grid().len() && wavelength.num_eq(
            #[trigger] material.emission.unwrap().grid()[i],
        ) && material.emission.unwrap().samples()[i] == e
}

/// Whether the material passes on nothing at the wavelength: it has an
/// absorption spectrum with a sample at this wavelength, which is zero or less.
pub open spec fn absorbs_all(material: Material, wavelength: Scalar) -> bool {
    &&& material.absorption.is_some()
    &&& exists|i: int|
        0 <= i < material.absorption.unwrap().grid().len() && wavelength.num_eq(
            #[trigger] material.absorption.unwrap().grid()[i],
        ) && material.absorption.unwrap().samples()[i].num_le(Scalar::of(0))
}

/// Whether each of the objects emits exactly the power `e` at the wavelength
/// and passes on nothing.
pub open spec fn all_glow(objects: Seq<Object>, wavelength: Scalar, e: Scalar) -> bool {
    forall|i: int|
        0 <= i < objects.len() ==> absorbs_all((#[trigger] objects[i]).material, wavelength)
            && emits_exactly(objects[i].material, wavelength, e)
}

/// Whether `exponent` is `-ln 2 / half_life` and `probability` is `e` to that
/// power.
pub open spec fn is_decay<A: Arithmetic>(
    ar: &A,
    half_life: Scalar,
    exponent: Scalar,
    probability: Scalar,
) -> bool {
    is_quotient(ar, Scalar::of(LN_2_BITS).negated(), half_life, exponent) && is_power_of_e(
        ar,
        exponent,
        probability,
    )
}

/// Whether `probability` is what the arithmetic gives as the probability
/// to survive a bounce that halves the paths every `half_life` bounces:
/// `exp(-ln 2 / half_life)`.
pub open spec fn is_survival<A: Arithmetic>(ar: &A, half_life: Scalar, probability: Scalar) -> bool {
    exists|exponent: Scalar| #[trigger] is_decay(ar, half_life, exponent, probability)
}

/// Whether `q` can be the number drawn for a path: zero under `Fix`, where
/// none is drawn, and a number of `[0, 1)` under `HalfLife`.
pub open spec fn is_draw(extinction: RayExtinction, q: Scalar) -> bool {
    match extinction {
        RayExtinction::Fix(_) => q == Scalar::of(0),
        RayExtinction::HalfLife { .. } => is_unit(q),
    }
}

/// Whether `onward` is what the arithmetic gives as the ray that leaves the
/// surface where `ray` hit it: from the point of the hit, of the same
/// wavelength, along a random bounce off the normal turned against `ray`.
pub open spec fn is_onward<A: Arithmetic>(
    ar: &A,
    ray: Ray,
    record: HitRecord,
    facing: Scalar,
    direction: Vec3,
    onward: Ray,
) -> bool {
    &&& is_dot(ar, record.normal, ray.direction, facing)
    &&& is_random_bounce(ar, turned_against(record.normal, facing), direction)
    &&& onward.origin == record.point
    &&& onward.wavelength == ray.wavelength
    &&& is_normalized(ar, direction, onward.direction)
}

/// Whether `power` is what the surface sends: `emitted + share * arriving`.
pub open spec fn is_sent<A: Arithmetic>(
    ar: &A,
    emitted: Scalar,
    share: Scalar,
    arriving: Scalar,
    passed: Scalar,
    power: Scalar,
) -> bool {
    is_product(ar, share, arriving, passed) && is_sum(ar, emitted, passed, power)
}

/// Whether `emitted` and `share` are what the arithmetic gives as the
/// answer of the material at the wavelength: the power that it emits, zero
/// without an emission spectrum, and the share that it passes on, all without
/// an absorption spectrum.
pub open spec fn is_answer<A: Arithmetic>(
    ar: &A,
    material: Material,
    wavelength: Scalar,
    emitted: Scalar,
    share: Scalar,
) -> bool {
    &&& is_response(ar, material.emission, wavelength, Scalar::of(0), emitted)
    &&& is_response(ar, material.absorption, wavelength, Scalar::of(ONE_BITS), share)
}

/// Whether `power` is what the arithmetic gives as the power that a surface
/// sends back along `ray` from the hit `record`: what it emits, where it passes
/// on nothing or the path cannot go deeper, and else what it emits plus its
/// share of what arrives along the ray that leaves it.
pub open spec fn is_scattered<A: Arithmetic>(
    tracer: PathTracer,
    ar: &A,
    ray: Ray,
    record: HitRecord,
    material: Material,
    scene: Scene,
    depth: u32,
    power: Scalar,
) -> bool
    decreases u32::MAX - depth, 0nat,
{
    exists|emitted: Scalar, share: Scalar|
        {
            &&& #[trigger] is_answer(ar, material, ray.wavelength, emitted, share)
            &&& if share.num_le(Scalar::of(0)) || depth == u32::MAX {
                power == emitted
            } else {
                exists|
                    facing: Scalar,
                    direction: Vec3,
                    onward: Ray,
                    arriving: Scalar,
                    passed: Scalar,
                |
                    {
                        &&& #[trigger] is_onward(ar, ray, record, facing, direction, onward)
                        &&& is_arriving(tracer, ar, onward, scene, (depth + 1) as u32, arriving)
                        &&& #[trigger] is_sent(ar, emitted, share, arriving, passed, power)
                    }
            }
        }
}

/// Whether `power` is what the arithmetic gives as the power that arrives
/// along `ray`: zero if the path is cut or the ray meets nothing, and else
/// what the nearest surface sends back along it.
pub open spec fn is_arriving<A: Arithmetic>(
    tracer: PathTracer,
    ar: &A,
    ray: Ray,
    scene: Scene,
    depth: u32,
    power: Scalar,
) -> bool
    decreases u32::MAX - depth, 1nat,
{
    exists|q: Scalar|
        {
            &&& #[trigger] is_draw(tracer.extinction, q)
            &&& if tracer.extinction.cuts(depth, q) {
                power == Scalar::of(0)
            } else {
                exists|closest: Option<(HitRecord, Object)>|
                    {
                        &&& #[trigger] is_closest_hit(ar, scene.objects@, ray, closest)
                        &&& match closest {
                            None => power == Scalar::of(0),
                            Some((record, object)) => is_scattered(
                                tracer,
                                ar,
                                ray,
                                record,
                                object.material,
                                scene,
                                depth,
                                power,
                            ),
                        }
                    }
            }
        }
}

/// Along a path that is cut by its depth nothing arrives.
pub proof fn lemma_cut_path<A: Arithmetic>(
    tracer: PathTracer,
    ar: &A,
    ray: Ray,
    scene: Scene,
    depth: u32,
    power: Scalar,
)
    requires
        is_arriving(tracer, ar, ray, scene, depth, power),
        tracer.extinction matches RayExtinction::Fix(max_depth) && depth > max_depth,
    ensures
        power == Scalar::of(0),
{
}

/// In a scene without objects nothing arrives.
pub proof fn lemma_empty_scene<A: Arithmetic>(
    tracer: PathTracer,
    ar: &A,
    ray: Ray,
    scene: Scene,
    depth: u32,
    power: Scalar,
)
    requires
        is_arriving(tracer, ar, ray, scene, depth, power),
        scene.objects@.len() == 0,
    ensures
        power == Scalar::of(0),
{
}

/// A surface that emits exactly `e` at the ray's wavelength and passes on
/// nothing sends exactly `e`, at every depth and whatever the arithmetic.
pub proof fn lemma_glowing_surface<A: Arithmetic>(
    tracer: PathTracer,
    ar: &A,
    ray: Ray,
    record: HitRecord,
    material: Material,
    scene: Scene,
    depth: u32,
    power: Scalar,
    e: Scalar,
)
    requires
        material.well_formed(),
        is_scattered(tracer, ar, ray, record, material, scene, depth, power),
        absorbs_all(material, ray.wavelength),
        emits_exactly(material, ray.wavelength, e),
    ensures
        power == e,
{
    let w = ray.wavelength;
    let (emitted, share) = choose|emitted: Scalar, share: Scalar|
        {
            &&& #[trigger] is_answer(ar, material, w, emitted, share)
            &&& if share.num_le(Scalar::of(0)) || depth == u32::MAX {
                power == emitted
            } else {
                exists|
                    facing: Scalar,
                    direction: Vec3,
                    onward: Ray,
                    arriving: Scalar,
                    passed: Scalar,
                |
                    {
                        &&& #[trigger] is_onward(ar, ray, record, facing, direction, onward)
                        &&& is_arriving(tracer, ar, onward, scene, (depth + 1) as u32, arriving)
                        &&& #[trigger] is_sent(ar, emitted, share, arriving, passed, power)
                    }
            }
        };
    let emission = material.emission.unwrap();
    let i = choose|i: int|
        0 <= i < emission.grid().len() && w.num_eq(#[trigger] emission.grid()[i])
            && emission.samples()[i] == e;
    lemma_exact_response(ar, emission, w, Scalar::of(0), emitted, i);
    let absorption = material.absorption.unwrap();
    let j = choose|j: int|
        0 <= j < absorption.grid().len() && w.num_eq(#[trigger] absorption.grid()[j])
            && absorption.samples()[j].num_le(Scalar::of(0));
    lemma_exact_response(ar, absorption, w, Scalar::of(ONE_BITS), share, j);
}

/// Copies a list of numbers.
fn copy_of(numbers: &Vec<Scalar>) -> (copy: Vec<Scalar>)
    ensures
        copy@ == numbers@,
{
    let mut copy: Vec<Scalar> = Vec::new();
    let mut k: usize = 0;
    while k < numbers.len()
        invariant
            0 <= k <= numbers.len(),
            copy@ == numbers@.take(k as int),
        decreases numbers.len() - k,
    {
        copy.push(numbers[k]);
        assert(numbers@.take(k + 1) =~= numbers@.take(k as int).push(numbers[k as int]));
        k += 1;
    }
    assert(numbers@.take(k as int) =~= numbers@);
    copy
}

/// A renderer that estimates the power that reaches each pixel by following
/// random paths of light backwards from the camera.
#[derive(Clone, Copy, Debug)]
pub struct PathTracer {
    /// The number of paths followed per pixel.
    pub spp: u32,
    /// When a path stops being followed.
    pub extinction: RayExtinction,
}

impl Default for PathTracer {
    /// 16 samples per pixel, paths cut beyond depth 5.
    fn default() -> (tracer: PathTracer)
        ensures
            tracer.spp == DEFAULT_SAMPLES_PER_PIXEL,
            tracer.extinction == RayExtinction::Fix(DEFAULT_MAX_DEPTH),
    {
        PathTracer {
            spp: DEFAULT_SAMPLES_PER_PIXEL,
            extinction: RayExtinction::Fix(DEFAULT_MAX_DEPTH),
        }
    }
}

impl PathTracer {
    /// A tracer that takes 16 samples per pixel and cuts paths beyond depth 5.
    pub fn new() -> (tracer: PathTracer)
        ensures
            tracer.spp == DEFAULT_SAMPLES_PER_PIXEL,
            tracer.extinction == RayExtinction::Fix(DEFAULT_MAX_DEPTH),
    {
        PathTracer {
            spp: DEFAULT_SAMPLES_PER_PIXEL,
            extinction: RayExtinction::Fix(DEFAULT_MAX_DEPTH),
        }
    }

    /// Sets the number of samples taken per pixel.
    pub fn samples_per_pixel(&mut self, spp: u32) -> (tracer: &mut PathTracer)
        ensures
            tracer.spp == spp,
            tracer.extinction == old(self).extinction,
            *final(self) == *final(tracer),
    {
        self.spp = spp;
        self
    }

    /// Has paths cut once their depth exceeds `depth`.
    pub fn max_depth(&mut self, depth: u32) -> (tracer: &mut PathTracer)
        ensures
            tracer.spp == old(self).spp,
            tracer.extinction == RayExtinction::Fix(depth),
            *final(self) == *final(tracer),
    {
        self.extinction = RayExtinction::Fix(depth);
        self
    }

    /// Has paths cut at random, so that half of them survive `half_life`
    /// bounces: each bounce is survived with the probability
    /// `exp(-ln 2 / half_life)`, which is computed here, once.
    pub fn half_life<A: Arithmetic>(&mut self, ar: &A, half_life: Scalar) -> (tracer:
        &mut PathTracer)
        ensures
            tracer.spp == old(self).spp,
            tracer.extinction matches RayExtinction::HalfLife { half_life: h, propagation_probability }
                && h == half_life && is_survival(ar, half_life, propagation_probability),
            *final(self) == *final(tracer),
    {
        let exponent = ar.div(Scalar::from_bits(LN_2_BITS).neg(), half_life);
        let propagation_probability = ar.exp(exponent);
        assert(is_decay(ar, half_life, exponent, propagation_probability));
        self.extinction = RayExtinction::HalfLife { half_life, propagation_probability };
        self
    }

    /// The power that arrives along a ray from the point where it hit a
    /// surface: what the surface emits at the ray's wavelength, plus the share
    /// that it passes on of what arrives at that point along a random direction.
    /// A surface that passes on nothing, or a path at the greatest depth that
    /// can be counted, ends the path there.
    pub fn scatter<A: Arithmetic>(
        &self,
        ar: &A,
        ray: &Ray,
        record: &HitRecord,
        material: &Material,
        scene: &Scene,
        depth: u32,
        rng: &mut StdRng,
    ) -> (power: Scalar)
        requires
            scene.well_formed(),
            material.well_formed(),
        ensures
            is_scattered(*self, ar, *ray, *record, *material, *scene, depth, power),
            forall|e: Scalar|
                absorbs_all(*material, ray.wavelength) && #[trigger] emits_exactly(
                    *material,
                    ray.wavelength,
                    e,
                ) ==> power == e,
            absorbs_all(*material, ray.wavelength) && material.emission.is_none() ==> power
                == Scalar::of(0),
        decreases u32::MAX - depth, 0nat,
    {
        let emitted = material.emitted(ar, ray.wavelength);
        let share = material.bsdf(ar, ray.wavelength);
        assert(is_answer(ar, *material, ray.wavelength, emitted, share));
        if share.le(Scalar::zero()) || depth == u32::MAX {
            return emitted;
        }
        let facing = record.normal.dot(ar, ray.direction);
        let normal = against(&record.normal, facing);
        let direction = material.sample_bounce(ar, &normal, rng);
        let onward = Ray::new(ar, record.point, direction, ray.wavelength);
        let arriving = self.propagate_ray(ar, &onward, scene, depth + 1, rng);
        let passed = ar.mul(share, arriving);
        let power = ar.add(emitted, passed);
        assert(is_onward(ar, *ray, *record, facing, direction, onward));
        assert(is_sent(ar, emitted, share, arriving, passed, power));
        power
    }

    /// The power that arrives along a ray, against its direction: zero if the
    /// path is cut or the ray meets nothing, else what the nearest surface
    /// sends along it.
    pub fn propagate_ray<A: Arithmetic>(
        &self,
        ar: &A,
        ray: &Ray,
        scene: &Scene,
        depth: u32,
        rng: &mut StdRng,
    ) -> (power: Scalar)
        requires
            scene.well_formed(),
        ensures
            is_arriving(*self, ar, *ray, *scene, depth, power),
            self.extinction matches RayExtinction::Fix(max_depth) && depth > max_depth ==> power
                == Scalar::of(0),
            scene.objects.len() == 0 ==> power == Scalar::of(0),
            forall|e: Scalar| #[trigger]
                all_glow(scene.objects@, ray.wavelength, e) ==> power == Scalar::of(0) || power
                    == e,
        decreases u32::MAX - depth, 1nat,
    {
        let q = match self.extinction {
            RayExtinction::Fix(_) => Scalar::zero(),
            RayExtinction::HalfLife { .. } => unit_sample(rng),
        };
        assert(is_draw(self.extinction, q));
        if self.extinction.is_cut(depth, q) {
            return Scalar::zero();
        }
        let closest = get_closest_hit(ar, &scene.objects, ray);
        assert(is_closest_hit(ar, scene.objects@, *ray, hit_and_object(closest)));
        match closest {
            None => Scalar::zero(),
            Some((record, object)) => self.scatter(
                ar,
                ray,
                &record,
                &object.material,
                scene,
                depth,
                rng,
            ),
        }
    }

    /// The spectrum of the light that reaches pixel `(i, j)`: for each sample a
    /// wavelength is picked at random from the list, a ray of that wavelength is
    /// cast through the pixel and followed, and the power that arrives along it,
    /// divided by the number of samples, is added to the spectrum at that
    /// wavelength.
    pub fn render_pixel<A: Arithmetic>(
        &self,
        ar: &A,
        scene: &Scene,
        camera: &Camera,
        wavelengths: &Vec<Scalar>,
        i: u32,
        j: u32,
        rng: &mut StdRng,
    ) -> (spectrum: Spectrum)
        requires
            scene.well_formed(),
            is_grid(wavelengths@),
        ensures
            spectrum.well_formed(),
            spectrum.grid() == wavelengths@,
            is_sampled(
                *self,
                ar,
                *scene,
                *camera,
                wavelengths@,
                i,
                j,
                self.spp as nat,
                spectrum.samples(),
            ),
            i >= camera.resolution.0 || j >= camera.resolution.1 || self.spp == 0
                || wavelengths.len() == 0 ==> forall|k: int|
                0 <= k < wavelengths.len() ==> #[trigger] spectrum.samples()[k] == Scalar::of(0),
    {
        let mut spectrum = Spectrum::new(copy_of(wavelengths));
        let count = Scalar::from_u32(self.spp);
        let mut n: u32 = 0;
        while n < self.spp
            invariant
                0 <= n <= self.spp,
                scene.well_formed(),
                spectrum.well_formed(),
                spectrum.grid() == wavelengths@,
                spectrum.samples().len() == wavelengths.len(),
                is_whole(count, self.spp),
                is_sampled(
                    *self,
                    ar,
                    *scene,
                    *camera,
                    wavelengths@,
                    i,
                    j,
                    n as nat,
                    spectrum.samples(),
                ),
                n == 0 || i >= camera.resolution.0 || j >= camera.resolution.1
                    || wavelengths.len() == 0 ==> forall|k: int|
                    0 <= k < wavelengths.len() ==> #[trigger] spectrum.samples()[k] == Scalar::of(
                        0,
                    ),
            decreases self.spp - n,
        {
            let ghost before = spectrum.samples();
            match pick_index(rng, wavelengths.len()) {
                None => {},
                Some(k) => {
                    match camera.cast_ray(ar, i, j, wavelengths[k], rng) {
                        None => {},
                        Some(ray) => {
                            let power = self.propagate_ray(ar, &ray, scene, 0, rng);
                            let share = ar.div(power, count);
                            let sum = ar.add(spectrum.index(k), share);
                            spectrum.set(k, sum);
                            assert(is_contribution(
                                *self,
                                ar,
                                *scene,
                                *camera,
                                wavelengths@,
                                i,
                                j,
                                before,
                                k as int,
                                ray,
                                power,
                                count,
                                share,
                                sum,
                            ));
                        },
                    }
                },
            }
            proof {
                let after = spectrum.samples();
                assert(is_sample(*self, ar, *scene, *camera, wavelengths@, i, j, before, after));
                lemma_one_more_sample(
                    *self,
                    ar,
                    *scene,
                    *camera,
                    wavelengths@,
                    i,
                    j,
                    n as nat,
                    before,
                    after,
                );
            }
            n += 1;
        }
        spectrum
    }

    /// The image in spectra: for each row from the top, for each pixel from the
    /// left, the spectrum of the light that reaches it.
    pub fn render_spectra<A: Arithmetic>(
        &self,
        ar: &A,
        scene: &Scene,
        camera: &Camera,
        wavelengths: &Vec<Scalar>,
        rng: &mut StdRng,
    ) -> (image: Vec<Vec<Spectrum>>)
        requires
            scene.well_formed(),
            is_grid(wavelengths@),
        ensures
            image.len() == camera.resolution.1,
            forall|j: int| 0 <= j < image.len() ==> (#[trigger] image[j]).len() == camera.resolution.0,
            forall|j: int, i: int|
                0 <= j < image.len() && 0 <= i < image[j].len() ==> (#[trigger] image[j][i]).well_formed()
                    && image[j][i].grid() == wavelengths@,
            forall|j: int, i: int|
                0 <= j < image.len() && 0 <= i < image[j].len() ==> is_sampled(
                    *self,
                    ar,
                    *scene,
                    *camera,
                    wavelengths@,
                    i as u32,
                    j as u32,
                    self.spp as nat,
                    (#[trigger] image[j][i]).samples(),
                ),
    {
        let (width, height) = camera.resolution;
        let mut image: Vec<Vec<Spectrum>> = Vec::new();
        let mut j: u32 = 0;
        while j < height
            invariant
                0 <= j <= height,
                (width, height) == camera.resolution,
                scene.well_formed(),
                is_grid(wavelengths@),
                image.len() == j,
                forall|r: int| 0 <= r < image.len() ==> (#[trigger] image[r]).len() == width,
                forall|r: int, c: int|
                    0 <= r < image.len() && 0 <= c < image[r].len() ==> (#[trigger] image[r][c]).well_formed()
                        && image[r][c].grid() == wavelengths@,
                forall|r: int, c: int|
                    0 <= r < image.len() && 0 <= c < image[r].len() ==> is_sampled(
                        *self,
                        ar,
                        *scene,
                        *camera,
                        wavelengths@,
                        c as u32,
                        r as u32,
                        self.spp as nat,
                        (#[trigger] image[r][c]).samples(),
                    ),
            decreases height - j,
        {
            let mut row: Vec<Spectrum> = Vec::new();
            let mut i: u32 = 0;
            while i < width
                invariant
                    0 <= i <= width,
                    scene.well_formed(),
                    is_grid(wavelengths@),
                    row.len() == i,
                    forall|c: int|
                        0 <= c < row.len() ==> (#[trigger] row[c]).well_formed() && row[c].grid()
                            == wavelengths@,
                    forall|c: int|
                        0 <= c < row.len() ==> is_sampled(
                            *self,
                            ar,
                            *scene,
                            *camera,
                            wavelengths@,
                            c as u32,
                            j,
                            self.spp as nat,
                            (#[trigger] row[c]).samples(),
                        ),
                decreases width - i,
            {
                let spectrum = self.render_pixel(ar, scene, camera, wavelengths, i, j, rng);
                row.push(spectrum);
                i += 1;
            }
            image.push(row);
            j += 1;
        }
        image
    }

    /// The image: for each row from the top, for each pixel from the left, the
    /// color that shows the spectrum of the light that reaches it.
    pub fn render<A: Arithmetic>(
        &self,
        ar: &A,
        scene: &Scene,
        camera: &Camera,
        wavelengths: &Vec<Scalar>,
        rng: &mut StdRng,
    ) -> (image: Vec<Vec<Rgb>>)
        requires
            scene.well_formed(),
            is_grid(wavelengths@),
        ensures
            image.len() == camera.resolution.1,
            forall|j: int| 0 <= j < image.len() ==> (#[trigger] image[j]).len() == camera.resolution.0,
            forall|j: int, i: int|
                0 <= j < image.len() && 0 <= i < image[j].len() ==> is_pixel_color(
                    *self,
                    ar,
                    *scene,
                    *camera,
                    wavelengths@,
                    i as u32,
                    j as u32,
                    #[trigger] image[j][i],
                ),
            wavelengths.len() == 0 ==> forall|j: int, i: int|
                0 <= j < image.len() && 0 <= i < image[j].len() ==> #[trigger] image[j][i] == (Rgb {
                    r: 0,
                    g: 0,
                    b: 0,
                }),
    {
        let (width, height) = camera.resolution;
        let mut image: Vec<Vec<Rgb>> = Vec::new();
        let mut j: u32 = 0;
        while j < height
            invariant
                0 <= j <= height,
                (width, height) == camera.resolution,
                scene.well_formed(),
                is_grid(wavelengths@),
                image.len() == j,
                forall|r: int| 0 <= r < image.len() ==> (#[trigger] image[r]).len() == width,
                forall|r: int, c: int|
                    0 <= r < image.len() && 0 <= c < image[r].len() ==> is_pixel_color(
                        *self,
                        ar,
                        *scene,
                        *camera,
                        wavelengths@,
                        c as u32,
                        r as u32,
                        #[trigger] image[r][c],
                    ),
                wavelengths.len() == 0 ==> forall|r: int, c: int|
                    0 <= r < image.len() && 0 <= c < image[r].len() ==> #[trigger] image[r][c] == (Rgb {
                        r: 0,
                        g: 0,
                        b: 0,
                    }),
            decreases height - j,
        {
            let mut row: Vec<Rgb> = Vec::new();
            let mut i: u32 = 0;
            while i < width
                invariant
                    0 <= i <= width,
                    scene.well_formed(),
                    is_grid(wavelengths@),
                    row.len() == i,
                    forall|c: int|
                        0 <= c < row.len() ==> is_pixel_color(
                            *self,
                            ar,
                            *scene,
                            *camera,
                            wavelengths@,
                            c as u32,
                            j,
                            #[trigger] row[c],
                        ),
                    wavelengths.len() == 0 ==> forall|c: int|
                        0 <= c < row.len() ==> #[trigger] row[c] == (Rgb { r: 0, g: 0, b: 0 }),
                decreases width - i,
            {
                let spectrum = self.render_pixel(ar, scene, camera, wavelengths, i, j, rng);
                let color = display_color(ar, &spectrum);
                assert(is_sampled(
                    *self,
                    ar,
                    *scene,
                    *camera,
                    wavelengths@,
                    i,
                    j,
                    self.spp as nat,
                    spectrum.samples(),
                ) && is_display_color(ar, wavelengths@, spectrum.samples(), color));
                row.push(color);
                i += 1;
            }
            image.push(row);
            j += 1;
        }
        image
    }
}

/// Whether the values are a sample of pixel `(i, j)` at the wavelength `k`: a
/// ray of the camera through the pixel with that wavelength, the power that
/// arrives along it, the share of it that one of `count` samples has, and the
/// sum of that share and the power that the wavelength had before.
pub open spec fn is_contribution<A: Arithmetic>(
    tracer: PathTracer,
    ar: &A,
    scene: Scene,
    camera: Camera,
    wavelengths: Seq<Scalar>,
    i: u32,
    j: u32,
    before: Seq<Scalar>,
    k: int,
    ray: Ray,
    power: Scalar,
    count: Scalar,
    share: Scalar,
    sum: Scalar,
) -> bool {
    &&& 0 <= k < wavelengths.len()
    &&& is_cast(ar, camera, i, j, wavelengths[k], ray)
    &&& is_arriving(tracer, ar, ray, scene, 0, power)
    &&& is_whole(count, tracer.spp)
    &&& is_quotient(ar, power, count, share)
    &&& is_sum(ar, before[k], share, sum)
}

/// Whether `after` is what one sample of pixel `(i, j)` makes of the powers
/// `before`: the same, where there is no wavelength to pick or the pixel lies
/// outside the image, and else the powers with the sample's share added at the
/// wavelength that was picked.
pub open spec fn is_sample<A: Arithmetic>(
    tracer: PathTracer,
    ar: &A,
    scene: Scene,
    camera: Camera,
    wavelengths: Seq<Scalar>,
    i: u32,
    j: u32,
    before: Seq<Scalar>,
    after: Seq<Scalar>,
) -> bool {
    if wavelengths.len() == 0 || i >= camera.resolution.0 || j >= camera.resolution.1 {
        after == before
    } else {
        exists|k: int, ray: Ray, power: Scalar, count: Scalar, share: Scalar, sum: Scalar|
            #[trigger] is_contribution(
                tracer,
                ar,
                scene,
                camera,
                wavelengths,
                i,
                j,
                before,
                k,
                ray,
                power,
                count,
                share,
                sum,
            ) && after == before.update(k, sum)
    }
}

/// Whether `samples` are what the arithmetic gives as the powers of pixel
/// `(i, j)` after `n` samples: zero at each wavelength to begin with, and what
/// each sample in turn makes of them.
pub open spec fn is_sampled<A: Arithmetic>(
    tracer: PathTracer,
    ar: &A,
    scene: Scene,
    camera: Camera,
    wavelengths: Seq<Scalar>,
    i: u32,
    j: u32,
    n: nat,
    samples: Seq<Scalar>,
) -> bool
    decreases n,
{
    if n == 0 {
        &&& samples.len() == wavelengths.len()
        &&& forall|k: int| 0 <= k < samples.len() ==> #[trigger] samples[k] == Scalar::of(0)
    } else {
        exists|before: Seq<Scalar>|
            is_sampled(tracer, ar, scene, camera, wavelengths, i, j, (n - 1) as nat, before)
                && #[trigger] is_sample(tracer, ar, scene, camera, wavelengths, i, j, before, samples)
    }
}

/// The powers after `n + 1` samples come from those after `n` by one sample.
proof fn lemma_one_more_sample<A: Arithmetic>(
    tracer: PathTracer,
    ar: &A,
    scene: Scene,
    camera: Camera,
    wavelengths: Seq<Scalar>,
    i: u32,
    j: u32,
    n: nat,
    before: Seq<Scalar>,
    after: Seq<Scalar>,
)
    requires
        is_sampled(tracer, ar, scene, camera, wavelengths, i, j, n, before),
        is_sample(tracer, ar, scene, camera, wavelengths, i, j, before, after),
    ensures
        is_sampled(tracer, ar, scene, camera, wavelengths, i, j, n + 1, after),
{
    assert((n + 1 - 1) as nat == n);
}

/// Whether `color` is what the arithmetic gives as the color of pixel
/// `(i, j)`: the color that shows the powers that the tracer's samples of the
/// pixel add up to.
pub open spec fn is_pixel_color<A: Arithmetic>(
    tracer: PathTracer,
    ar: &A,
    scene: Scene,
    camera: Camera,
    wavelengths: Seq<Scalar>,
    i: u32,
    j: u32,
    color: Rgb,
) -> bool {
    exists|samples: Seq<Scalar>|
        #[trigger] is_sampled(
            tracer,
            ar,
            scene,
            camera,
            wavelengths,
            i,
            j,
            tracer.spp as nat,
            samples,
        ) && is_display_color(ar, wavelengths, samples, color)
}

/// Whether `seen` names the nearest of the candidates: its index, and none if
/// no candidate is in reach.
pub open spec fn is_nearest_index(hits: Seq<Option<HitRecord>>, seen: Option<usize>) -> bool {
    match seen {
        Some(k) => is_nearest(hits, k as int),
        None => forall|j: int| 0 <= j < hits.len() ==> !in_reach(#[trigger] hits[j]),
    }
}

/// Whether `seen` is what the arithmetic gives as the object that pixel
/// `(i, j)` shows: the index of the nearest of the objects' hits for a ray of
/// the camera through the pixel, and none if the ray meets none of them.
pub open spec fn is_seen<A: Arithmetic>(
    ar: &A,
    objects: Seq<Object>,
    camera: Camera,
    i: u32,
    j: u32,
    seen: Option<usize>,
) -> bool {
    exists|ray: Ray, hits: Seq<Option<HitRecord>>|
        is_cast(ar, camera, i, j, Scalar::of(0), ray) && #[trigger] are_hits(ar, objects, ray, hits)
            && is_nearest_index(hits, seen)
}

/// The object that each pixel shows: for each row from the top, for each pixel
/// from the left, the index of the object that the ray through the pixel meets
/// first; none where it meets the background.
pub fn render_geometry<A: Arithmetic>(ar: &A, scene: &Scene, camera: &Camera, rng: &mut StdRng) -> (image:
    Vec<Vec<Option<usize>>>)
    ensures
        image.len() == camera.resolution.1,
        forall|j: int| 0 <= j < image.len() ==> (#[trigger] image[j]).len() == camera.resolution.0,
        forall|j: int, i: int|
            0 <= j < image.len() && 0 <= i < image[j].len() ==> is_seen(
                ar,
                scene.objects@,
                *camera,
                i as u32,
                j as u32,
                #[trigger] image[j][i],
            ),
        forall|j: int, i: int|
            0 <= j < image.len() && 0 <= i < image[j].len() && (#[trigger] image[j][i]).is_some()
                ==> image[j][i].unwrap() < scene.objects.len(),
        scene.objects.len() == 0 ==> forall|j: int, i: int|
            0 <= j < image.len() && 0 <= i < image[j].len() ==> (#[trigger] image[j][i]).is_none(),
{
    let (width, height) = camera.resolution;
    let mut image: Vec<Vec<Option<usize>>> = Vec::new();
    let mut j: u32 = 0;
    while j < height
        invariant
            0 <= j <= height,
            (width, height) == camera.resolution,
            image.len() == j,
            forall|r: int| 0 <= r < image.len() ==> (#[trigger] image[r]).len() == width,
            forall|r: int, c: int|
                0 <= r < image.len() && 0 <= c < image[r].len() ==> is_seen(
                    ar,
                    scene.objects@,
                    *camera,
                    c as u32,
                    r as u32,
                    #[trigger] image[r][c],
                ),
            forall|r: int, c: int|
                0 <= r < image.len() && 0 <= c < image[r].len() && (#[trigger] image[r][c]).is_some()
                    ==> image[r][c].unwrap() < scene.objects.len(),
            scene.objects.len() == 0 ==> forall|r: int, c: int|
                0 <= r < image.len() && 0 <= c < image[r].len() ==> (#[trigger] image[r][c]).is_none(),
        decreases height - j,
    {
        let mut row: Vec<Option<usize>> = Vec::new();
        let mut i: u32 = 0;
        while i < width
            invariant
                0 <= i <= width,
                j < height,
                (width, height) == camera.resolution,
                row.len() == i,
                forall|c: int|
                    0 <= c < row.len() ==> is_seen(
                        ar,
                        scene.objects@,
                        *camera,
                        c as u32,
                        j,
                        #[trigger] row[c],
                    ),
                forall|c: int|
                    0 <= c < row.len() && (#[trigger] row[c]).is_some() ==> row[c].unwrap()
                        < scene.objects.len(),
                scene.objects.len() == 0 ==> forall|c: int|
                    0 <= c < row.len() ==> (#[trigger] row[c]).is_none(),
            decreases width - i,
        {
            let seen = match camera.cast_ray(ar, i, j, Scalar::zero(), rng) {
                None => None,
                Some(ray) => {
                    let hits = intersect_all(ar, &scene.objects, &ray);
                    let seen = nearest(&hits);
                    assert(is_cast(ar, *camera, i, j, Scalar::of(0), ray) && are_hits(
                        ar,
                        scene.objects@,
                        ray,
                        hits@,
                    ) && is_nearest_index(hits@, seen));
                    seen
                },
            };
            assert(is_seen(ar, scene.objects@, *camera, i, j, seen));
            row.push(seen);
            i += 1;
        }
        image.push(row);
        j += 1;
    }
    image
}

} // verus!
