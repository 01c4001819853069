use light::arithmetic::Arithmetic;
use light::ray::Ray;
use light::scalar::Scalar;
use light::vec3::Vec3;

/// The machine's own binary64 arithmetic.
struct Machine;

fn s(x: f64) -> Scalar {
    Scalar::from_bits(x.to_bits())
}

fn f(x: Scalar) -> f64 {
    f64::from_bits(x.to_bits())
}

impl Arithmetic for Machine {
    fn add(&self, a: Scalar, b: Scalar) -> Scalar {
        s(f(a) + f(b))
    }

    fn sub(&self, a: Scalar, b: Scalar) -> Scalar {
        s(f(a) - f(b))
    }

    fn mul(&self, a: Scalar, b: Scalar) -> Scalar {
        s(f(a) * f(b))
    }

    fn div(&self, a: Scalar, b: Scalar) -> Scalar {
        s(f(a) / f(b))
    }

    fn sqrt(&self, a: Scalar) -> Scalar {
        s(f(a).sqrt())
    }

    fn sin(&self, a: Scalar) -> Scalar {
        s(f(a).sin())
    }

    fn cos(&self, a: Scalar) -> Scalar {
        s(f(a).cos())
    }

    fn tan(&self, a: Scalar) -> Scalar {
        s(f(a).tan())
    }

    fn exp(&self, a: Scalar) -> Scalar {
        s(f(a).exp())
    }
}

fn vec3(x: f64, y: f64, z: f64) -> Vec3 {
    Vec3::new(s(x), s(y), s(z))
}

fn xyz(v: Vec3) -> [f64; 3] {
    [f(v.x), f(v.y), f(v.z)]
}

/// Equality up to the machine epsilon, absolute or relative to the larger of
/// the two.
fn relative_eq(a: f64, b: f64) -> bool {
    if a == b {
        return true;
    }
    if a.is_infinite() || b.is_infinite() {
        return false;
    }
    let diff = (a - b).abs();
    if diff <= f64::EPSILON {
        return true;
    }
    let largest = if a.abs() > b.abs() { a.abs() } else { b.abs() };
    diff <= largest * f64::EPSILON
}

fn relative_eq3(a: [f64; 3], b: [f64; 3]) -> bool {
    relative_eq(a[0], b[0]) && relative_eq(a[1], b[1]) && relative_eq(a[2], b[2])
}

/// Binary32 arithmetic: each result is rounded to single precision.
struct Single;

fn narrow(x: Scalar) -> f32 {
    f(x) as f32
}

fn widen(x: f32) -> Scalar {
    s(f64::from(x))
}

impl Arithmetic for Single {
    fn add(&self, a: Scalar, b: Scalar) -> Scalar {
        widen(narrow(a) + narrow(b))
    }

    fn sub(&self, a: Scalar, b: Scalar) -> Scalar {
        widen(narrow(a) - narrow(b))
    }

    fn mul(&self, a: Scalar, b: Scalar) -> Scalar {
        widen(narrow(a) * narrow(b))
    }

    fn div(&self, a: Scalar, b: Scalar) -> Scalar {
        widen(narrow(a) / narrow(b))
    }

    fn sqrt(&self, a: Scalar) -> Scalar {
        widen(narrow(a).sqrt())
    }

    fn sin(&self, a: Scalar) -> Scalar {
        widen(narrow(a).sin())
    }

    fn cos(&self, a: Scalar) -> Scalar {
        widen(narrow(a).cos())
    }

    fn tan(&self, a: Scalar) -> Scalar {
        widen(narrow(a).tan())
    }

    fn exp(&self, a: Scalar) -> Scalar {
        widen(narrow(a).exp())
    }
}

fn vec3f(x: f32, y: f32, z: f32) -> Vec3 {
    Vec3::new(widen(x), widen(y), widen(z))
}

fn xyzf(v: Vec3) -> [f32; 3] {
    [narrow(v.x), narrow(v.y), narrow(v.z)]
}

#[test]
fn light_point_at() {
    let ray = Ray::new(&Machine, vec3(1.0, 1.0, 1.0), vec3(1.0, 1.0, 1.0), s(0.0));

    let component: f64 = (3.0 + 3.0_f64.sqrt()) / 3.0;
    assert!(relative_eq3([component, component, component], xyz(ray.point_at(&Machine, s(1.0)))));
}

#[test]
fn ray_point_at() {
    let ray = Ray::new(&Single, vec3f(1.0, 1.0, 1.0), vec3f(1.0, 1.0, 1.0), widen(0.0));

    let component: f32 = (3.0 + 3.0_f32.sqrt()) / 3.0;
    assert_eq!([component, component, component], xyzf(ray.point_at(&Single, widen(1.0))));
}

#[test]
fn a_ray_has_a_direction_of_length_one() {
    let ray = Ray::new(&Machine, vec3(1.0, 2.0, 3.0), vec3(0.0, 3.0, 4.0), s(5.5e-7));
    assert_eq!([1.0, 2.0, 3.0], xyz(ray.origin()));
    assert_eq!([0.0, 0.6, 0.8], xyz(ray.direction()));
    assert_eq!(5.5e-7, f(ray.wavelength()));
    assert_eq!([1.0, 5.0, 7.0], xyz(ray.point_at(&Machine, s(5.0))));
    assert_eq!([1.0, 2.0, 3.0], xyz(ray.point_at(&Machine, s(0.0))));
}
