use light::arithmetic::Arithmetic;
use light::scalar::Scalar;
use light::vec3::scale;
use light::vec3::Vec3;

/// The machine's own binary64 arithmetic.
struct Machine;

fn s(x: f64) -> Scalar {
    Scalar::from_bits(x.to_bits())
}

fn f(x: Scalar) -> f64 {
    f64::from_bits(x.to_bits())
}

impl Arithmetic for Machine {
    fn add(&self, a: Scalar, b: Scalar) -> Scalar {
        s(f(a) + f(b))
    }

    fn sub(&self, a: Scalar, b: Scalar) -> Scalar {
        s(f(a) - f(b))
    }

    fn mul(&self, a: Scalar, b: Scalar) -> Scalar {
        s(f(a) * f(b))
    }

    fn div(&self, a: Scalar, b: Scalar) -> Scalar {
        s(f(a) / f(b))
    }

    fn sqrt(&self, a: Scalar) -> Scalar {
        s(f(a).sqrt())
    }

    fn sin(&self, a: Scalar) -> Scalar {
        s(f(a).sin())
    }

    fn cos(&self, a: Scalar) -> Scalar {
        s(f(a).cos())
    }

    fn tan(&self, a: Scalar) -> Scalar {
        s(f(a).tan())
    }

    fn exp(&self, a: Scalar) -> Scalar {
        s(f(a).exp())
    }
}

fn vec3(x: f64, y: f64, z: f64) -> Vec3 {
    Vec3::new(s(x), s(y), s(z))
}

fn xyz(v: Vec3) -> [f64; 3] {
    [f(v.x), f(v.y), f(v.z)]
}

/// Equality up to the machine epsilon, absolute or relative to the larger of
/// the two.
fn relative_eq(a: f64, b: f64) -> bool {
    if a == b {
        return true;
    }
    if a.is_infinite() || b.is_infinite() {
        return false;
    }
    let diff = (a - b).abs();
    if diff <= f64::EPSILON {
        return true;
    }
    let largest = if a.abs() > b.abs() { a.abs() } else { b.abs() };
    diff <= largest * f64::EPSILON
}

fn relative_eq3(a: [f64; 3], b: [f64; 3]) -> bool {
    relative_eq(a[0], b[0]) && relative_eq(a[1], b[1]) && relative_eq(a[2], b[2])
}

/// Binary32 arithmetic: each result is rounded to single precision.
struct Single;

fn narrow(x: Scalar) -> f32 {
    f(x) as f32
}

fn widen(x: f32) -> Scalar {
    s(f64::from(x))
}

impl Arithmetic for Single {
    fn add(&self, a: Scalar, b: Scalar) -> Scalar {
        widen(narrow(a) + narrow(b))
    }

    fn sub(&self, a: Scalar, b: Scalar) -> Scalar {
        widen(narrow(a) - narrow(b))
    }

    fn mul(&self, a: Scalar, b: Scalar) -> Scalar {
        widen(narrow(a) * narrow(b))
    }

    fn div(&self, a: Scalar, b: Scalar) -> Scalar {
        widen(narrow(a) / narrow(b))
    }

    fn sqrt(&self, a: Scalar) -> Scalar {
        widen(narrow(a).sqrt())
    }

    fn sin(&self, a: Scalar) -> Scalar {
        widen(narrow(a).sin())
    }

    fn cos(&self, a: Scalar) -> Scalar {
        widen(narrow(a).cos())
    }

    fn tan(&self, a: Scalar) -> Scalar {
        widen(narrow(a).tan())
    }

    fn exp(&self, a: Scalar) -> Scalar {
        widen(narrow(a).exp())
    }
}

fn vec3f(x: f32, y: f32, z: f32) -> Vec3 {
    Vec3::new(widen(x), widen(y), widen(z))
}

fn xyzf(v: Vec3) -> [f32; 3] {
    [narrow(v.x), narrow(v.y), narrow(v.z)]
}

/// Equality up to the machine epsilon of single precision, absolute or
/// relative to the larger of the two.
fn relative_eq32(a: f32, b: f32) -> bool {
    if a == b {
        return true;
    }
    if a.is_infinite() || b.is_infinite() {
        return false;
    }
    let diff = (a - b).abs();
    if diff <= f32::EPSILON {
        return true;
    }
    let largest = if a.abs() > b.abs() { a.abs() } else { b.abs() };
    diff <= largest * f32::EPSILON
}

#[test]
fn add() {
    let v1 = vec3f(1.0, 1.0, 1.0);
    let v2 = vec3f(-1.0, 2.0, -3.0);
    assert_eq!([0.0, 3.0, -2.0], xyzf(v1.add(&Single, v2)));
}

#[test]
fn sub() {
    let v1 = vec3f(1.0, 1.0, 1.0);
    let v2 = vec3f(-1.0, 2.0, -3.0);
    assert_eq!([2.0, -1.0, 4.0], xyzf(v1.sub(&Single, v2)));
}

#[test]
fn mul() {
    let v = vec3f(1.0, 2.0, 3.0);
    assert_eq!([0.5, 1.0, 1.5], xyzf(scale(&Single, widen(0.5), v)));
    assert_eq!([0.5, 1.0, 1.5], xyzf(v.mul(&Single, widen(0.5))));
}

#[test]
fn negative() {
    let v = vec3f(1.0, 1.0, 1.0);
    assert_eq!([-1.0, -1.0, -1.0], xyzf(v.neg()));
}

#[test]
fn norm() {
    let v = vec3f(1.0, 1.0, 1.0);
    assert_eq!(3.0_f32.sqrt(), narrow(v.norm(&Single)));
}

#[test]
fn norm2() {
    let v = vec3f(1.0, 1.0, 1.0);
    assert_eq!(3.0_f32, narrow(v.norm2(&Single)));
}

#[test]
fn normalize() {
    let mut v = vec3f(1.0, 2.0, 3.0);
    v.normalize(&Single);

    assert!(relative_eq32(1.0_f32, narrow(v.norm(&Single))));
}

#[test]
fn dot() {
    let vx = vec3f(1.0, 0.0, 0.0);
    let vy = vec3f(0.0, 1.0, 0.0);
    let vz = vec3f(0.0, 0.0, 1.0);

    assert_eq!(0.0, narrow(vx.dot(&Single, vy)));
    assert_eq!(0.0, narrow(vy.dot(&Single, vz)));
    assert_eq!(0.0, narrow(vx.dot(&Single, vz)));
    assert_eq!(0.0, narrow(vz.dot(&Single, vx)));
    assert_eq!(0.0, narrow(vy.dot(&Single, vz)));
    assert_eq!(0.0, narrow(vz.dot(&Single, vy)));

    let v1 = vec3f(1.0, 0.0, 0.0);
    let v2 = vec3f(0.5, 10.0, 10.0);

    assert_eq!(1.0, narrow(v1.dot(&Single, v1)));
    assert_eq!(0.5, narrow(v1.dot(&Single, v2)));
    assert_eq!(0.5, narrow(v2.dot(&Single, v1)));
    assert_eq!(-1.0, narrow(v1.dot(&Single, v1.neg())));
    assert_eq!(-1.0, narrow(v1.neg().dot(&Single, v1)));
}

#[test]
fn cross() {
    let vx = vec3f(1.0, 0.0, 0.0);
    let vy = vec3f(0.0, 1.0, 0.0);
    let vz = vec3f(0.0, 0.0, 1.0);

    assert_eq!(xyzf(vz), xyzf(vx.cross(&Single, vy)));
    assert_eq!(xyzf(vz.neg()), xyzf(vy.cross(&Single, vx)));
    assert_eq!(xyzf(vx), xyzf(vy.cross(&Single, vz)));
    assert_eq!(xyzf(vx.neg()), xyzf(vz.cross(&Single, vy)));
    assert_eq!(xyzf(vy), xyzf(vz.cross(&Single, vx)));
    assert_eq!(xyzf(vy.neg()), xyzf(vx.cross(&Single, vz)));
}

#[test]
fn the_sum_adds_each_component_to_its_own() {
    let v1 = vec3(1.0, 10.0, 100.0);
    let v2 = vec3(2.0, 30.0, 400.0);
    assert_eq!([3.0, 40.0, 500.0], xyz(v1.add(&Machine, v2)));
    assert_eq!([-1.0, -20.0, -300.0], xyz(v1.sub(&Machine, v2)));
}

#[test]
fn normalized_returns_a_unit_vector_and_leaves_its_own_as_it_is() {
    let v = vec3(3.0, 0.0, 4.0);
    let unit = v.normalized(&Machine);
    assert_eq!([0.6, 0.0, 0.8], xyz(unit));
    assert_eq!([3.0, 0.0, 4.0], xyz(v));
    assert_eq!(25.0, f(v.norm2(&Machine)));
    assert_eq!(5.0, f(v.norm(&Machine)));
}

#[test]
fn negation_flips_the_sign_of_zero_and_of_nan() {
    let v = vec3(0.0, -0.0, f64::INFINITY).neg();
    assert_eq!((-0.0_f64).to_bits(), v.x.to_bits());
    assert_eq!(0.0_f64.to_bits(), v.y.to_bits());
    assert_eq!(f64::NEG_INFINITY, f(v.z));
    assert!(f(s(f64::NAN).neg()).is_nan());
}

#[test]
fn zeros_is_the_origin() {
    assert_eq!([0.0, 0.0, 0.0], xyz(Vec3::zeros()));
    assert_eq!(0, Vec3::zeros().x.to_bits());
}
