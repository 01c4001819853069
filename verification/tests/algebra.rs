use light::algebra::count_roots;
use light::algebra::linear_interpolation;
use light::algebra::order_roots;
use light::algebra::rotate_vector;
use light::algebra::solve_deg2_eq;
use light::algebra::RootCount;
use light::arithmetic::Arithmetic;
use light::scalar::Scalar;
use light::vec3::Vec3;

/// The machine's own binary64 arithmetic.
struct Machine;

fn s(x: f64) -> Scalar {
    Scalar::from_bits(x.to_bits())
}

fn f(x: Scalar) -> f64 {
    f64::from_bits(x.to_bits())
}

impl Arithmetic for Machine {
    fn add(&self, a: Scalar, b: Scalar) -> Scalar {
        s(f(a) + f(b))
    }

    fn sub(&self, a: Scalar, b: Scalar) -> Scalar {
        s(f(a) - f(b))
    }

    fn mul(&self, a: Scalar, b: Scalar) -> Scalar {
        s(f(a) * f(b))
    }

    fn div(&self, a: Scalar, b: Scalar) -> Scalar {
        s(f(a) / f(b))
    }

    fn sqrt(&self, a: Scalar) -> Scalar {
        s(f(a).sqrt())
    }

    fn sin(&self, a: Scalar) -> Scalar {
        s(f(a).sin())
    }

    fn cos(&self, a: Scalar) -> Scalar {
        s(f(a).cos())
    }

    fn tan(&self, a: Scalar) -> Scalar {
        s(f(a).tan())
    }

    fn exp(&self, a: Scalar) -> Scalar {
        s(f(a).exp())
    }
}

fn vec3(x: f64, y: f64, z: f64) -> Vec3 {
    Vec3::new(s(x), s(y), s(z))
}

fn xyz(v: Vec3) -> [f64; 3] {
    [f(v.x), f(v.y), f(v.z)]
}

/// Equality up to the machine epsilon, absolute or relative to the larger of
/// the two.
fn relative_eq(a: f64, b: f64) -> bool {
    if a == b {
        return true;
    }
    if a.is_infinite() || b.is_infinite() {
        return false;
    }
    let diff = (a - b).abs();
    if diff <= f64::EPSILON {
        return true;
    }
    let largest = if a.abs() > b.abs() { a.abs() } else { b.abs() };
    diff <= largest * f64::EPSILON
}

fn relative_eq3(a: [f64; 3], b: [f64; 3]) -> bool {
    relative_eq(a[0], b[0]) && relative_eq(a[1], b[1]) && relative_eq(a[2], b[2])
}

fn solve(a: f64, b: f64, c: f64) -> Option<(f64, f64)> {
    solve_deg2_eq(&Machine, s(a), s(b), s(c)).map(|(x1, x2)| (f(x1), f(x2)))
}

#[test]
fn deg2_eq_solutions() {
    let (a, b, c) = (-1.0, 2.0, 3.0);
    let solutions = solve(a, b, c);
    assert_eq!(Some((-1.0, 3.0)), solutions);

    let (a, b, c) = (1.0, 1.0, 0.0);
    let solutions = solve(a, b, c);
    assert_eq!(Some((-1.0, 0.0)), solutions);

    let (a, b, c) = (2.0, 2.0, 0.0);
    let solutions = solve(a, b, c);
    assert_eq!(Some((-1.0, 0.0)), solutions);

    let (a, b, c) = (0.0, 1.0, 2.0);
    let solutions = solve(a, b, c);
    assert_eq!(Some((-2.0, -2.0)), solutions);

    let (a, b, c) = (0.0, 0.0, 2.0);
    let solutions = solve(a, b, c);
    assert_eq!(None, solutions);

    let (a, b, c) = (1.0, 0.0, -1.0);
    let solutions = solve(a, b, c);
    assert_eq!(Some((-1.0, 1.0)), solutions);

    let (a, b, c) = (1.0, 2.0, 1.0);
    let solutions = solve(a, b, c);
    assert_eq!(Some((-1.0, -1.0)), solutions);

    let (a, b, c) = (1.0, 2.0, 3.0);
    let solutions = solve(a, b, c);
    assert_eq!(None, solutions);
}

#[test]
fn rotate_vectors() {
    let v = vec3(0.0, 1.0, 0.0);
    let k = vec3(0.0, 0.0, 1.0);
    let v_rot = rotate_vector(&Machine, &v, &k, s(45.0_f64.to_radians()));
    assert!(relative_eq3(
        [-2.0_f64.sqrt() / 2.0, 2.0_f64.sqrt() / 2.0, 0.0],
        xyz(v_rot)
    ));

    let v = vec3(0.0, 1.0, 0.0);
    let k = vec3(0.0, 0.0, 1.0);
    let v_rot = rotate_vector(&Machine, &v, &k, s(90.0_f64.to_radians()));
    assert!(relative_eq3([-1.0, 0.0, 0.0], xyz(v_rot)));

    let v = vec3(0.0, 1.0, 0.0);
    let k = vec3(1.0, 0.0, 0.0);
    let v_rot = rotate_vector(&Machine, &v, &k, s(45.0_f64.to_radians()));
    assert!(relative_eq3(
        [0.0, 2.0_f64.sqrt() / 2.0, 2.0_f64.sqrt() / 2.0],
        xyz(v_rot)
    ));

    let v = vec3(0.0, 1.0, 0.0);
    let k = vec3(1.0, 0.0, 0.0);
    let v_rot = rotate_vector(&Machine, &v, &k, s(90.0_f64.to_radians()));
    assert!(relative_eq3([0.0, 0.0, 1.0_f64], xyz(v_rot)));
}

#[test]
fn roots_come_in_ascending_order() {
    let coefficients = [-3.0, -1.0, -0.5, 0.5, 1.0, 2.0, 7.0];
    for a in coefficients {
        for b in coefficients {
            for c in coefficients {
                if let Some((x1, x2)) = solve(a, b, c) {
                    assert!(x1 <= x2);
                }
            }
        }
    }
}

#[test]
fn a_negative_leading_coefficient_swaps_the_roots() {
    // x1 = (-b + sqrt(d)) / 2a is the larger root only while a is positive.
    assert_eq!(Some((1.0, 2.0)), solve(1.0, -3.0, 2.0));
    assert_eq!(Some((1.0, 2.0)), solve(-1.0, 3.0, -2.0));
}

#[test]
fn a_nan_coefficient_gives_no_root() {
    assert_eq!(None, solve(f64::NAN, 1.0, 1.0));
    assert_eq!(None, solve(1.0, f64::NAN, 1.0));
    assert_eq!(None, solve(1.0, 1.0, f64::NAN));
}

#[test]
fn a_negative_zero_leading_coefficient_is_zero() {
    assert_eq!(Some((-2.0, -2.0)), solve(-0.0, 1.0, 2.0));
    assert_eq!(None, solve(-0.0, -0.0, 2.0));
}

#[test]
fn count_roots_follows_the_discriminant() {
    assert_eq!(RootCount::Two, count_roots(s(1.0), s(0.0), s(4.0)));
    assert_eq!(RootCount::Repeated, count_roots(s(1.0), s(0.0), s(0.0)));
    assert_eq!(RootCount::Repeated, count_roots(s(1.0), s(0.0), s(-0.0)));
    assert_eq!(RootCount::Zero, count_roots(s(1.0), s(0.0), s(-4.0)));
    assert_eq!(RootCount::Zero, count_roots(s(1.0), s(0.0), s(f64::NAN)));
    assert_eq!(RootCount::Linear, count_roots(s(0.0), s(3.0), s(9.0)));
    assert_eq!(RootCount::Linear, count_roots(s(0.0), s(f64::NAN), s(9.0)));
    assert_eq!(RootCount::Zero, count_roots(s(0.0), s(0.0), s(9.0)));
    assert_eq!(RootCount::Two, count_roots(s(f64::INFINITY), s(0.0), s(f64::INFINITY)));
}

#[test]
fn order_roots_sorts_two_numbers() {
    let (lo, hi) = order_roots(s(3.0), s(-1.0));
    assert_eq!((-1.0, 3.0), (f(lo), f(hi)));
    let (lo, hi) = order_roots(s(-1.0), s(3.0));
    assert_eq!((-1.0, 3.0), (f(lo), f(hi)));
    let (lo, hi) = order_roots(s(2.0), s(2.0));
    assert_eq!((2.0, 2.0), (f(lo), f(hi)));
    // An unordered pair is swapped, as the comparison is false.
    let (lo, hi) = order_roots(s(f64::NAN), s(1.0));
    assert_eq!(1.0, f(lo));
    assert!(f(hi).is_nan());
}

#[test]
fn linear_interpolation_follows_the_line() {
    let y = linear_interpolation(&Machine, s(1.0), s(3.0), s(10.0), s(20.0), s(2.0));
    assert_eq!(15.0, f(y));
    let y = linear_interpolation(&Machine, s(1.0), s(3.0), s(10.0), s(20.0), s(1.5));
    assert_eq!(12.5, f(y));
    let y = linear_interpolation(&Machine, s(0.0), s(4.0), s(8.0), s(0.0), s(1.0));
    assert_eq!(6.0, f(y));
}

#[test]
fn a_quarter_turn_keeps_the_length_and_is_perpendicular() {
    let quarter = s(std::f64::consts::FRAC_PI_2);
    let axes = [vec3(1.0, 0.0, 0.0), vec3(0.0, 1.0, 0.0), vec3(0.0, 0.0, 1.0)];
    let vectors = [vec3(3.0, -4.0, 0.0), vec3(0.0, 2.0, -5.0), vec3(1.5, 0.0, 2.5)];
    for (k, v) in axes.iter().zip([vectors[1], vectors[2], vectors[0]].iter()) {
        assert_eq!(0.0, f(k.dot(&Machine, *v)));
        let rotated = rotate_vector(&Machine, v, k, quarter);
        let tolerance = 1e-12;
        assert!(f(rotated.dot(&Machine, *v)).abs() < tolerance);
        assert!(f(rotated.dot(&Machine, *k)).abs() < tolerance);
        assert!((f(rotated.norm(&Machine)) - f(v.norm(&Machine))).abs() < tolerance);
    }
}

#[test]
fn roots_that_are_no_numbers_are_not_ordered() {
    let (x1, x2) = solve(1.0, f64::INFINITY, 0.0).unwrap();
    assert_eq!(f64::NEG_INFINITY, x1);
    assert!(x2.is_nan());
    assert!(!(x1 <= x2) && !(x2 < x1));
}
