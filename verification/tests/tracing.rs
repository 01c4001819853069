use rand::rngs::StdRng;
use rand::SeedableRng;
use light::arithmetic::Arithmetic;
use light::camera::Camera;
use light::camera::CameraConfig;
use light::camera::FieldOfView;
use light::camera::FocusMode;
use light::color::Rgb;
use light::material::against;
use light::material::bounce;
use light::material::reference_axis;
use light::material::Material;
use light::random::pick_index;
use light::random::unit_from_bits;
use light::random::unit_sample;
use light::ray::Ray;
use light::render::render_geometry;
use light::render::DEFAULT_MAX_DEPTH;
use light::render::DEFAULT_SAMPLES_PER_PIXEL;
use light::render::PathTracer;
use light::render::RayExtinction;
use light::scalar::Scalar;
use light::scene::get_closest_hit;
use light::scene::intersect_all;
use light::scene::Object;
use light::scene::Scene;
use light::shape::HitRecord;
use light::shape::Plane;
use light::shape::Shape;
use light::shape::Sphere;
use light::shape::Triangle;
use light::spectrum::Spectrum;
use light::vec3::Vec3;

/// The machine's own binary64 arithmetic.
struct Machine;

fn s(x: f64) -> Scalar {
    Scalar::from_bits(x.to_bits())
}

fn f(x: Scalar) -> f64 {
    f64::from_bits(x.to_bits())
}

impl Arithmetic for Machine {
    fn add(&self, a: Scalar, b: Scalar) -> Scalar {
        s(f(a) + f(b))
    }

    fn sub(&self, a: Scalar, b: Scalar) -> Scalar {
        s(f(a) - f(b))
    }

    fn mul(&self, a: Scalar, b: Scalar) -> Scalar {
        s(f(a) * f(b))
    }

    fn div(&self, a: Scalar, b: Scalar) -> Scalar {
        s(f(a) / f(b))
    }

    fn sqrt(&self, a: Scalar) -> Scalar {
        s(f(a).sqrt())
    }

    fn sin(&self, a: Scalar) -> Scalar {
        s(f(a).sin())
    }

    fn cos(&self, a: Scalar) -> Scalar {
        s(f(a).cos())
    }

    fn tan(&self, a: Scalar) -> Scalar {
        s(f(a).tan())
    }

    fn exp(&self, a: Scalar) -> Scalar {
        s(f(a).exp())
    }
}

fn vec3(x: f64, y: f64, z: f64) -> Vec3 {
    Vec3::new(s(x), s(y), s(z))
}

fn xyz(v: Vec3) -> [f64; 3] {
    [f(v.x), f(v.y), f(v.z)]
}

fn scalars(numbers: &[f64]) -> Vec<Scalar> {
    numbers.iter().map(|x| s(*x)).collect()
}

fn spectrum(wavelengths: &[f64], powers: &[f64]) -> Spectrum {
    Spectrum::from_samples(scalars(wavelengths), scalars(powers))
}

const GREEN: f64 = 550e-9;

/// A surface that emits `e` at the test wavelength and passes on the share `t`.
fn glowing(e: f64, t: f64) -> Material {
    let mut material = Material::new();
    material.emission = Some(spectrum(&[GREEN], &[e]));
    material.absorption = Some(spectrum(&[GREEN], &[t]));
    material
}

fn ball(z: f64, radius: f64, material: Material) -> Object {
    Object { shape: Shape::Sphere(Sphere::new(vec3(0.0, 0.0, z), s(radius))), material }
}

fn forward() -> Ray {
    Ray::new(&Machine, vec3(0.0, 0.0, 0.0), vec3(0.0, 0.0, 1.0), s(GREEN))
}

fn camera(width: u32, height: u32) -> Camera {
    Camera::new(
        &Machine,
        &CameraConfig {
            position: vec3(0.0, 0.0, 0.0),
            direction: vec3(0.0, 0.0, 1.0),
            resolution: (width, height),
            rotation: s(0.0),
            fov: FieldOfView::Vertical(s(0.5)),
            focus_mode: FocusMode::PinHole,
        },
    )
}

#[test]
fn a_new_material_is_dark_and_passes_on_all_light() {
    let material = Material::new();
    assert!(material.emission.is_none());
    assert!(material.absorption.is_none());
    assert_eq!(1.0, f(material.transmittance));
    assert_eq!(0.0, f(material.roughness));
    assert_eq!(1.0, f(material.refraction_index));
    assert!(material.is_well_formed());
    assert_eq!(0.0, f(material.emitted(&Machine, s(GREEN))));
    assert_eq!(1.0, f(material.bsdf(&Machine, s(GREEN))));
}

#[test]
fn a_material_answers_by_its_spectra() {
    let mut material = Material::new();
    material.emission = Some(spectrum(&[1.0, 3.0], &[10.0, 20.0]));
    material.absorption = Some(spectrum(&[1.0, 3.0], &[0.25, 0.75]));
    assert_eq!(10.0, f(material.emitted(&Machine, s(1.0))));
    assert_eq!(15.0, f(material.emitted(&Machine, s(2.0))));
    assert_eq!(20.0, f(material.emitted(&Machine, s(3.0))));
    assert_eq!(0.25, f(material.bsdf(&Machine, s(1.0))));
    assert_eq!(0.5, f(material.bsdf(&Machine, s(2.0))));
    // Outside the spectra: no emission, and all light is passed on.
    assert_eq!(0.0, f(material.emitted(&Machine, s(0.5))));
    assert_eq!(0.0, f(material.emitted(&Machine, s(3.5))));
    assert_eq!(1.0, f(material.bsdf(&Machine, s(0.5))));
    assert_eq!(1.0, f(material.bsdf(&Machine, s(f64::NAN))));
}

#[test]
fn a_material_out_of_range_is_not_well_formed() {
    let ok = |change: fn(&mut Material)| {
        let mut material = Material::new();
        change(&mut material);
        (material.in_range(), material.is_well_formed())
    };
    assert_eq!((true, true), ok(|_| {}));
    assert_eq!((true, true), ok(|m| m.transmittance = s(0.0)));
    assert_eq!((true, true), ok(|m| m.roughness = s(1.0)));
    assert_eq!((true, true), ok(|m| m.refraction_index = s(2.4)));
    assert_eq!((false, false), ok(|m| m.transmittance = s(-0.1)));
    assert_eq!((false, false), ok(|m| m.transmittance = s(1.1)));
    assert_eq!((false, false), ok(|m| m.transmittance = s(f64::NAN)));
    assert_eq!((false, false), ok(|m| m.roughness = s(-0.1)));
    assert_eq!((false, false), ok(|m| m.roughness = s(1.1)));
    assert_eq!((false, false), ok(|m| m.refraction_index = s(0.9)));
    assert_eq!((false, false), ok(|m| m.refraction_index = s(f64::NAN)));
}

#[test]
fn the_reference_axis_avoids_the_normal() {
    assert_eq!([1.0, 0.0, 0.0], xyz(reference_axis(&vec3(0.0, 1.0, 0.0))));
    assert_eq!([1.0, 0.0, 0.0], xyz(reference_axis(&vec3(0.9, 0.0, 0.0))));
    assert_eq!([1.0, 0.0, 0.0], xyz(reference_axis(&vec3(-0.9, 0.0, 0.0))));
    assert_eq!([1.0, 0.0, 0.0], xyz(reference_axis(&vec3(f64::NAN, 0.0, 0.0))));
    assert_eq!([0.0, 1.0, 0.0], xyz(reference_axis(&vec3(1.0, 0.0, 0.0))));
    assert_eq!([0.0, 1.0, 0.0], xyz(reference_axis(&vec3(-1.0, 0.0, 0.0))));
    assert_eq!([0.0, 1.0, 0.0], xyz(reference_axis(&vec3(0.9000000000000001, 0.0, 0.0))));
}

#[test]
fn a_normal_is_turned_against_the_ray() {
    let normal = vec3(1.0, -2.0, 0.0);
    assert_eq!([1.0, -2.0, 0.0], xyz(against(&normal, s(-0.5))));
    assert_eq!([1.0, -2.0, 0.0], xyz(against(&normal, s(0.0))));
    assert_eq!([1.0, -2.0, 0.0], xyz(against(&normal, s(f64::NAN))));
    assert_eq!([-1.0, 2.0, -0.0], xyz(against(&normal, s(0.5))));
    assert_eq!((-0.0_f64).to_bits(), against(&normal, s(0.5)).z.to_bits());
}

#[test]
fn a_bounce_leaves_on_the_side_of_the_normal() {
    let material = Material::new();
    let mut rng = StdRng::from_entropy();
    let normals = [
        vec3(0.0, 1.0, 0.0),
        vec3(1.0, 0.0, 0.0),
        vec3(-1.0, 0.0, 0.0),
        vec3(0.0, 0.0, -1.0),
        vec3(0.6, 0.0, 0.8),
    ];
    for normal in normals {
        for _ in 0..500 {
            let direction = material.sample_bounce(&Machine, &normal, &mut rng);
            assert!((f(direction.norm(&Machine)) - 1.0).abs() < 1e-12);
            assert!(f(direction.dot(&Machine, normal)) >= 0.0);
        }
    }
}

#[test]
fn an_index_is_drawn_from_the_list() {
    let mut rng = StdRng::from_entropy();
    assert_eq!(None, pick_index(&mut rng, 0));
    for _ in 0..100 {
        assert_eq!(Some(0), pick_index(&mut rng, 1));
    }
    let mut seen = [false; 5];
    for _ in 0..1000 {
        let index = pick_index(&mut rng, 5).unwrap();
        assert!(index < 5);
        seen[index] = true;
    }
    assert_eq!([true; 5], seen);
}

#[test]
fn random_bits_become_a_number_of_the_unit_interval() {
    let step = 1.0 / 9007199254740992.0;
    assert_eq!(0.0, f(unit_from_bits(0)));
    assert_eq!(0.0, f(unit_from_bits(2047)));
    assert_eq!(step, f(unit_from_bits(2048)));
    assert_eq!(0.5, f(unit_from_bits(1 << 63)));
    assert_eq!(0.75, f(unit_from_bits(3 << 62)));
    assert_eq!(1.0 - step, f(unit_from_bits(u64::MAX)));
    let mut bits: u64 = 1;
    for _ in 0..100000 {
        bits = bits.wrapping_mul(6364136223846793005).wrapping_add(1442695040888963407);
        let expected = (bits >> 11) as f64 * step;
        assert_eq!(expected.to_bits(), unit_from_bits(bits).to_bits());
        let small = bits >> (bits % 64);
        let expected = (small >> 11) as f64 * step;
        assert_eq!(expected.to_bits(), unit_from_bits(small).to_bits());
    }
}

#[test]
fn a_unit_sample_lies_in_the_unit_interval() {
    let mut rng = StdRng::from_entropy();
    let mut low = false;
    let mut high = false;
    for _ in 0..10000 {
        let u = f(unit_sample(&mut rng));
        assert!((0.0..1.0).contains(&u));
        low = low || u < 0.25;
        high = high || u > 0.75;
    }
    assert!(low && high);
}

#[test]
fn a_scene_keeps_its_objects_in_order() {
    let mut scene = Scene::new();
    assert_eq!(0, scene.get_objects().len());
    assert_eq!(Rgb { r: 0, g: 0, b: 0 }, scene.background_color);
    scene
        .add_object(ball(10.0, 1.0, Material::new()))
        .add_object(ball(20.0, 2.0, Material::new()))
        .add_object(ball(30.0, 3.0, Material::new()));
    let objects = scene.get_objects();
    assert_eq!(3, objects.len());
    for (index, radius) in [1.0, 2.0, 3.0].iter().enumerate() {
        match &objects[index].shape {
            Shape::Sphere(sphere) => assert_eq!(*radius, f(sphere.radius())),
            _ => panic!("expected a sphere"),
        }
    }
    assert!(scene.is_well_formed());
}

#[test]
fn a_scene_with_a_material_out_of_range_is_not_well_formed() {
    let mut scene = Scene::new();
    let mut material = Material::new();
    material.transmittance = s(2.0);
    scene.add_object(ball(10.0, 1.0, Material::new())).add_object(ball(20.0, 1.0, material));
    assert!(!scene.is_well_formed());
}

#[test]
fn the_nearest_object_is_the_one_hit() {
    let mut scene = Scene::new();
    scene
        .add_object(ball(30.0, 1.0, glowing(3.0, 0.0)))
        .add_object(ball(10.0, 1.0, glowing(1.0, 0.0)))
        .add_object(ball(20.0, 1.0, glowing(2.0, 0.0)))
        .add_object(ball(-5.0, 1.0, glowing(4.0, 0.0)));
    let ray = forward();
    let hits = intersect_all(&Machine, scene.get_objects(), &ray);
    let distances: Vec<Option<f64>> = hits.iter().map(|h| h.map(|r| f(r.ray_t))).collect();
    assert_eq!(vec![Some(29.0), Some(9.0), Some(19.0), None], distances);

    let (record, object) = get_closest_hit(&Machine, scene.get_objects(), &ray).unwrap();
    assert_eq!(9.0, f(record.ray_t));
    assert_eq!([0.0, 0.0, 9.0], xyz(record.point));
    assert_eq!(1.0, f(object.material.emitted(&Machine, s(GREEN))));

    let (point, object) = scene.nearest_hit(&Machine, &ray).unwrap();
    assert_eq!([0.0, 0.0, 9.0], xyz(point));
    assert_eq!(1.0, f(object.material.emitted(&Machine, s(GREEN))));
}

#[test]
fn of_two_objects_equally_near_the_earlier_is_hit() {
    let mut scene = Scene::new();
    scene
        .add_object(ball(10.0, 1.0, glowing(1.0, 0.0)))
        .add_object(ball(10.0, 1.0, glowing(2.0, 0.0)));
    let (_, object) = scene.nearest_hit(&Machine, &forward()).unwrap();
    assert_eq!(1.0, f(object.material.emitted(&Machine, s(GREEN))));
}

#[test]
fn a_ray_that_meets_nothing_has_no_nearest_hit() {
    let mut scene = Scene::new();
    assert!(scene.nearest_hit(&Machine, &forward()).is_none());
    assert!(get_closest_hit(&Machine, scene.get_objects(), &forward()).is_none());
    scene.add_object(ball(-10.0, 1.0, Material::new()));
    assert!(scene.nearest_hit(&Machine, &forward()).is_none());
}

#[test]
fn a_new_tracer_takes_sixteen_samples_to_depth_five() {
    let tracer = PathTracer::new();
    assert_eq!(16, tracer.spp);
    assert_eq!(RayExtinction::Fix(5), tracer.extinction);
    assert_eq!((16, 5), (DEFAULT_SAMPLES_PER_PIXEL, DEFAULT_MAX_DEPTH));
    let default = PathTracer::default();
    assert_eq!(16, default.spp);
    assert_eq!(RayExtinction::Fix(5), default.extinction);
}

#[test]
fn a_tracer_is_set_up_step_by_step() {
    let mut tracer = PathTracer::new();
    tracer.samples_per_pixel(32).max_depth(7);
    assert_eq!(32, tracer.spp);
    assert_eq!(RayExtinction::Fix(7), tracer.extinction);
    tracer.max_depth(0);
    assert_eq!(32, tracer.spp);
    assert_eq!(RayExtinction::Fix(0), tracer.extinction);
    tracer.half_life(&Machine, s(2.0)).samples_per_pixel(1);
    assert_eq!(1, tracer.spp);
    match tracer.extinction {
        RayExtinction::HalfLife { half_life, propagation_probability } => {
            assert_eq!(2.0, f(half_life));
            assert_eq!((-std::f64::consts::LN_2 / 2.0).exp(), f(propagation_probability));
            assert!((f(propagation_probability).powi(2) - 0.5).abs() < 1e-15);
        },
        RayExtinction::Fix(_) => panic!("expected a half life"),
    }
}

#[test]
fn a_path_is_cut_beyond_the_depth_or_by_the_draw() {
    let fix = RayExtinction::Fix(5);
    assert!(!fix.is_cut(0, s(0.0)));
    assert!(!fix.is_cut(5, s(0.99)));
    assert!(fix.is_cut(6, s(0.0)));
    assert!(fix.is_cut(u32::MAX, s(0.0)));
    assert!(!RayExtinction::Fix(u32::MAX).is_cut(u32::MAX, s(0.0)));
    let half = RayExtinction::HalfLife { half_life: s(1.0), propagation_probability: s(0.5) };
    assert!(!half.is_cut(0, s(0.25)));
    assert!(!half.is_cut(1000, s(0.5)));
    assert!(half.is_cut(0, s(0.75)));
    assert!(!half.is_cut(0, s(f64::NAN)));
}

#[test]
fn a_glowing_surface_that_passes_on_nothing_sends_what_it_emits() {
    let mut scene = Scene::new();
    scene.add_object(ball(10.0, 1.0, glowing(42.5, 0.0)));
    let tracer = PathTracer::new();
    let mut rng = StdRng::from_entropy();
    for depth in 0..=5 {
        let power = tracer.propagate_ray(&Machine, &forward(), &scene, depth, &mut rng);
        assert_eq!(42.5, f(power));
    }
    for depth in [6, 7, 1000, u32::MAX] {
        let power = tracer.propagate_ray(&Machine, &forward(), &scene, depth, &mut rng);
        assert_eq!(0.0, f(power));
    }
    let mut negative = Scene::new();
    negative.add_object(ball(10.0, 1.0, glowing(1.5, -0.25)));
    assert_eq!(1.5, f(tracer.propagate_ray(&Machine, &forward(), &negative, 0, &mut rng)));
}

#[test]
fn a_ray_that_meets_nothing_brings_no_power() {
    let tracer = PathTracer::new();
    let mut rng = StdRng::from_entropy();
    let empty = Scene::new();
    assert_eq!(0.0, f(tracer.propagate_ray(&Machine, &forward(), &empty, 0, &mut rng)));
    let mut behind = Scene::new();
    behind.add_object(ball(-10.0, 1.0, glowing(42.5, 0.0)));
    assert_eq!(0.0, f(tracer.propagate_ray(&Machine, &forward(), &behind, 0, &mut rng)));
}

#[test]
fn the_power_of_a_lamp_arrives_by_way_of_a_passing_surface() {
    // A pane that passes on half of the light, inside a shell that glows.
    let pane = Triangle::new(
        &Machine,
        vec3(-4.0, -4.0, 8.0),
        vec3(4.0, -4.0, 8.0),
        vec3(0.0, 4.0, 8.0),
    );
    let mut scene = Scene::new();
    scene
        .add_object(Object { shape: Shape::Triangle(pane), material: glowing(0.0, 0.5) })
        .add_object(ball(0.0, 100.0, glowing(8.0, 0.0)));
    let mut tracer = PathTracer::new();
    let mut rng = StdRng::from_entropy();
    for _ in 0..50 {
        let power = tracer.propagate_ray(&Machine, &forward(), &scene, 0, &mut rng);
        assert_eq!(4.0, f(power));
    }
    // At the last depth that is followed, the bounce off the pane is cut.
    tracer.max_depth(3);
    assert_eq!(0.0, f(tracer.propagate_ray(&Machine, &forward(), &scene, 3, &mut rng)));
    assert_eq!(4.0, f(tracer.propagate_ray(&Machine, &forward(), &scene, 2, &mut rng)));
}

#[test]
fn scatter_ends_the_path_at_a_surface_that_passes_on_nothing() {
    let tracer = PathTracer::new();
    let mut rng = StdRng::from_entropy();
    let scene = Scene::new();
    let record = HitRecord { ray_t: s(9.0), point: vec3(0.0, 0.0, 9.0), normal: vec3(0.0, 0.0, 1.0) };
    let ray = forward();
    let power = tracer.scatter(&Machine, &ray, &record, &glowing(3.5, 0.0), &scene, 0, &mut rng);
    assert_eq!(3.5, f(power));
    // A surface that passes light on into an empty scene adds nothing to its own.
    let power = tracer.scatter(&Machine, &ray, &record, &glowing(3.5, 1.0), &scene, 0, &mut rng);
    assert_eq!(3.5, f(power));
    let power = tracer.scatter(&Machine, &ray, &record, &Material::new(), &scene, 0, &mut rng);
    assert_eq!(0.0, f(power));
}

#[test]
fn paths_with_a_half_life_end() {
    let mut scene = Scene::new();
    scene.add_object(ball(0.0, 100.0, glowing(1.0, 1.0)));
    let mut tracer = PathTracer::new();
    tracer.half_life(&Machine, s(1.0));
    let mut rng = StdRng::from_entropy();
    let mut total = 0.0;
    let paths = 20000;
    for _ in 0..paths {
        let power = f(tracer.propagate_ray(&Machine, &forward(), &scene, 0, &mut rng));
        assert!(power >= 0.0 && power == power.floor());
        total += power;
    }
    // Each bounce is survived with probability one half: a path gathers one
    // unit per surface it reaches, one on average.
    let mean = total / f64::from(paths);
    assert!((mean - 1.0).abs() < 0.1);
}

#[test]
fn the_image_has_a_spectrum_for_each_pixel() {
    let mut scene = Scene::new();
    scene.add_object(ball(0.0, 100.0, glowing(8.0, 0.0)));
    let mut tracer = PathTracer::new();
    tracer.samples_per_pixel(4);
    let mut rng = StdRng::from_entropy();
    let wavelengths = scalars(&[GREEN]);
    let image = tracer.render_spectra(&Machine, &scene, &camera(3, 2), &wavelengths, &mut rng);
    assert_eq!(2, image.len());
    for row in &image {
        assert_eq!(3, row.len());
        for pixel in row {
            assert_eq!(1, pixel.size());
            assert_eq!(GREEN, f(pixel.wavelength(0)));
            // Four samples of 8 / 4 each.
            assert_eq!(8.0, f(pixel.index(0)));
        }
    }
}

#[test]
fn each_sample_adds_its_share_at_its_own_wavelength() {
    let red = 650e-9;
    let mut lamp = Material::new();
    lamp.emission = Some(spectrum(&[GREEN, red], &[16.0, 32.0]));
    lamp.absorption = Some(spectrum(&[GREEN, red], &[0.0, 0.0]));
    let mut scene = Scene::new();
    scene.add_object(ball(0.0, 100.0, lamp));
    let mut tracer = PathTracer::new();
    tracer.samples_per_pixel(64);
    let mut rng = StdRng::from_entropy();
    let wavelengths = scalars(&[GREEN, red]);
    let pixel = tracer.render_pixel(&Machine, &scene, &camera(1, 1), &wavelengths, 0, 0, &mut rng);
    // A sample at green adds 16 / 64, one at red 32 / 64: the two counts sum to 64.
    let green_samples = f(pixel.index(0)) / 0.25;
    let red_samples = f(pixel.index(1)) / 0.5;
    assert_eq!(64.0, green_samples + red_samples);
    assert!(green_samples > 0.0 && red_samples > 0.0);
}

#[test]
fn nothing_is_sampled_without_samples_wavelengths_or_pixel() {
    let mut scene = Scene::new();
    scene.add_object(ball(0.0, 100.0, glowing(8.0, 0.0)));
    let mut rng = StdRng::from_entropy();
    let wavelengths = scalars(&[GREEN]);
    let mut tracer = PathTracer::new();
    let outside =
        tracer.render_pixel(&Machine, &scene, &camera(1, 1), &wavelengths, 1, 0, &mut rng);
    assert_eq!(0, outside.index(0).to_bits());
    let none = tracer.render_pixel(&Machine, &scene, &camera(1, 1), &vec![], 0, 0, &mut rng);
    assert_eq!(0, none.size());
    tracer.samples_per_pixel(0);
    let unsampled =
        tracer.render_pixel(&Machine, &scene, &camera(1, 1), &wavelengths, 0, 0, &mut rng);
    assert_eq!(0, unsampled.index(0).to_bits());
    let image = tracer.render_spectra(&Machine, &scene, &Camera::default(), &wavelengths, &mut rng);
    assert!(image.is_empty());
    let image = tracer.render(&Machine, &scene, &Camera::default(), &wavelengths, &mut rng);
    assert!(image.is_empty());
}

#[test]
fn the_geometry_shows_the_object_in_front() {
    let mut scene = Scene::new();
    scene
        .add_object(Object {
            shape: Shape::Plane(Plane {
                position: vec3(0.0, 0.0, 50.0),
                normal: vec3(0.0, 0.0, -1.0),
            }),
            material: Material::new(),
        })
        .add_object(ball(10.0, 1.0, Material::new()));
    let mut rng = StdRng::from_entropy();
    // Three by three pixels: the ball covers the middle one only.
    let image = render_geometry(&Machine, &scene, &camera(3, 3), &mut rng);
    assert_eq!(3, image.len());
    for (j, row) in image.iter().enumerate() {
        assert_eq!(3, row.len());
        for (i, seen) in row.iter().enumerate() {
            let expected = if i == 1 && j == 1 { Some(1) } else { Some(0) };
            assert_eq!(expected, *seen);
        }
    }
    let empty = render_geometry(&Machine, &Scene::new(), &camera(2, 1), &mut rng);
    assert_eq!(vec![vec![None, None]], empty);
}

#[test]
fn the_image_shows_each_pixel_in_the_color_of_its_light() {
    let red = 650e-9;
    let blue = 450e-9;
    let mut lamp = Material::new();
    lamp.emission = Some(spectrum(&[blue, GREEN, red], &[0.0, 100.5, 1e6]));
    lamp.absorption = Some(spectrum(&[blue, GREEN, red], &[0.0, 0.0, 0.0]));
    let mut scene = Scene::new();
    scene.add_object(ball(0.0, 100.0, lamp));
    let mut tracer = PathTracer::new();
    tracer.samples_per_pixel(1);
    let mut rng = StdRng::from_entropy();
    let image = tracer.render(&Machine, &scene, &camera(3, 2), &scalars(&[red]), &mut rng);
    assert_eq!(vec![vec![Rgb { r: 255, g: 0, b: 0 }; 3]; 2], image);
    let image = tracer.render(&Machine, &scene, &camera(2, 1), &scalars(&[GREEN]), &mut rng);
    assert_eq!(vec![vec![Rgb { r: 0, g: 100, b: 0 }; 2]; 1], image);
    let image = tracer.render(&Machine, &scene, &camera(1, 1), &scalars(&[blue]), &mut rng);
    assert_eq!(vec![vec![Rgb { r: 0, g: 0, b: 0 }]], image);
    let image = tracer.render(&Machine, &scene, &camera(2, 2), &vec![], &mut rng);
    assert_eq!(vec![vec![Rgb { r: 0, g: 0, b: 0 }; 2]; 2], image);
}

#[test]
fn a_bounce_follows_its_two_numbers() {
    let normal = vec3(0.0, 0.0, 1.0);
    // The tangents of this normal are (0, -1, 0) and (1, 0, 0).
    assert_eq!([0.0, 0.0, 1.0], xyz(bounce(&Machine, &normal, s(0.0), s(0.0))));
    assert_eq!([0.0, 0.0, 1.0], xyz(bounce(&Machine, &normal, s(0.75), s(0.0))));
    assert_eq!([0.0, -0.5, 0.75_f64.sqrt()], xyz(bounce(&Machine, &normal, s(0.0), s(0.25))));
    let half_turn = xyz(bounce(&Machine, &normal, s(0.5), s(0.25)));
    assert!(half_turn[0].abs() < 1e-15);
    assert_eq!([0.5, 0.75_f64.sqrt()], [half_turn[1], half_turn[2]]);
    let quarter_turn = xyz(bounce(&Machine, &normal, s(0.25), s(0.25)));
    assert!((quarter_turn[0] - 0.5).abs() < 1e-15 && quarter_turn[1].abs() < 1e-15);
    let flat = xyz(bounce(&Machine, &vec3(1.0, 0.0, 0.0), s(0.0), s(1.0)));
    // Along the first tangent of this normal, (0, 0, -1).
    assert_eq!([0.0, 0.0, -1.0], flat);
}
