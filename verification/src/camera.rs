//! The camera: from pixels to rays.

use vstd::prelude::*;
use rand::rngs::StdRng;
use vstd::arithmetic::power2::pow2;
use crate::algebra::is_rotated;
use crate::algebra::lemma_rotation_is_unique;
use crate::algebra::rotate_vector;
use crate::arithmetic::is_cosine;
use crate::arithmetic::is_function;
use crate::arithmetic::is_difference;
use crate::arithmetic::is_product;
use crate::arithmetic::is_quotient;
use crate::arithmetic::is_root;
use crate::arithmetic::is_sine;
use crate::arithmetic::is_tangent;
use crate::arithmetic::Arithmetic;
use crate::random::is_unit;
use crate::random::unit_sample;
use crate::ray::Ray;
use crate::scalar::Scalar;
use crate::scalar::HALF_PI_BITS;
use crate::scalar::ONE_BITS;
use crate::scalar::PI_BITS;
use crate::scalar::TWO_BITS;
use crate::vec3::is_cross;
use crate::vec3::is_normalized;
use crate::vec3::is_scaled;
use crate::vec3::is_vector_difference;
use crate::vec3::is_vector_sum;
use crate::vec3::lemma_vectors_are_unique;
use crate::vec3::Vec3;

verus! {

/// The angle that the camera sees, in radians, and the side of the image along
/// which it is measured.
#[derive(Clone, Copy, Debug, PartialEq, Eq, Structural)]
pub enum FieldOfView {
    Horizontal(Scalar),
    Vertical(Scalar),
}

impl FieldOfView {
    /// The angle.
    pub open spec fn angle(self) -> Scalar {
        match self {
            FieldOfView::Horizontal(alpha) => alpha,
            FieldOfView::Vertical(alpha) => alpha,
        }
    }
}

impl Default for FieldOfView {
    /// A quarter turn, measured vertically.
    fn default() -> (fov: FieldOfView)
        ensures
            fov == FieldOfView::Vertical(Scalar::of(HALF_PI_BITS)),
    {
        FieldOfView::Vertical(Scalar::from_bits(HALF_PI_BITS))
    }
}

/// How the camera focuses.
#[derive(Clone, Copy, Debug, PartialEq, Eq, Structural)]
pub enum FocusMode {
    /// A lens of the given aperture, focused at the given distance.
    FocalPlane { focal_distance: Scalar, aperture: Scalar },
    /// A hole without extent: everything is in focus.
    PinHole,
}

impl Default for FocusMode {
    /// The pinhole.
    fn default() -> (mode: FocusMode)
        ensures
            mode == FocusMode::PinHole,
    {
        FocusMode::PinHole
    }
}

/// What a camera is set up from.
#[derive(Clone, Copy, Debug)]
pub struct CameraConfig {
    /// Where the camera stands.
    pub position: Vec3,
    /// Where it looks: any vector but the zero vector.
    pub direction: Vec3,
    /// Width and height of the image, in pixels.
    pub resolution: (u32, u32),
    /// The roll about the viewing direction, in radians.
    pub rotation: Scalar,
    pub fov: FieldOfView,
    pub focus_mode: FocusMode,
}

impl Default for CameraConfig {
    /// At the origin, 800 by 600 pixels, no roll, the default field of view
    /// and focus. The direction is the zero vector and has to be set.
    fn default() -> (config: CameraConfig)
        ensures
            config.position == (Vec3 { x: Scalar::of(0), y: Scalar::of(0), z: Scalar::of(0) }),
            config.direction == (Vec3 { x: Scalar::of(0), y: Scalar::of(0), z: Scalar::of(0) }),
            config.resolution == (800u32, 600u32),
            config.rotation == Scalar::of(0),
            config.fov == FieldOfView::Vertical(Scalar::of(HALF_PI_BITS)),
            config.focus_mode == FocusMode::PinHole,
    {
        CameraConfig {
            position: Vec3::zeros(),
            direction: Vec3::zeros(),
            resolution: (800, 600),
            rotation: Scalar::zero(),
            fov: FieldOfView::Vertical(Scalar::from_bits(HALF_PI_BITS)),
            focus_mode: FocusMode::PinHole,
        }
    }
}

/// Why a configuration is rejected.
#[derive(Clone, Copy, Debug, PartialEq, Eq, Structural)]
pub enum ConfigError {
    /// The image has no pixels.
    Resolution,
    /// The horizontal field of view is not strictly between 0 and pi.
    HorizontalFov,
    /// The vertical field of view is not strictly between 0 and pi.
    VerticalFov,
    /// The focal distance is negative.
    FocalDistance,
    /// The aperture is negative.
    Aperture,
}

impl ConfigError {
    /// The error in words.
    pub fn message(&self) -> (text: &'static str)
        ensures
            text@ == match *self {
                ConfigError::Resolution => "The camera resolution cannot be zero"@,
                ConfigError::HorizontalFov => "Horizontal field of view must be in the interval (0, 180)"@,
                ConfigError::VerticalFov => "Vertical field of view must be in the interval (0, 180)"@,
                ConfigError::FocalDistance => "Focal distance must be positive"@,
                ConfigError::Aperture => "Aperture must be positive"@,
            },
    {
        match self {
            ConfigError::Resolution => "The camera resolution cannot be zero",
            ConfigError::HorizontalFov => "Horizontal field of view must be in the interval (0, 180)",
            ConfigError::VerticalFov => "Vertical field of view must be in the interval (0, 180)",
            ConfigError::FocalDistance => "Focal distance must be positive",
            ConfigError::Aperture => "Aperture must be positive",
        }
    }
}

/// The direction that counts as up in the world: the second axis.
pub fn world_up() -> (up: Vec3)
    ensures
        up == up_axis(),
{
    Vec3::new(Scalar::zero(), Scalar::one(), Scalar::zero())
}

/// Whether an angle lies strictly between 0 and pi.
pub open spec fn angle_in_range(alpha: Scalar) -> bool {
    Scalar::of(0).num_lt(alpha) && alpha.num_lt(Scalar::of(PI_BITS))
}

/// The first reason to reject a configuration, none if it is accepted: an
/// image without pixels, then a field of view outside `(0, pi)`, then a
/// negative focal distance, then a negative aperture.
pub open spec fn config_error(config: CameraConfig) -> Option<ConfigError> {
    if config.resolution.0 == 0 || config.resolution.1 == 0 {
        Some(ConfigError::Resolution)
    } else if !angle_in_range(config.fov.angle()) {
        match config.fov {
            FieldOfView::Horizontal(_) => Some(ConfigError::HorizontalFov),
            FieldOfView::Vertical(_) => Some(ConfigError::VerticalFov),
        }
    } else {
        match config.focus_mode {
            FocusMode::FocalPlane { focal_distance, aperture } => {
                if focal_distance.num_lt(Scalar::of(0)) {
                    Some(ConfigError::FocalDistance)
                } else if aperture.num_lt(Scalar::of(0)) {
                    Some(ConfigError::Aperture)
                } else {
                    None
                }
            },
            FocusMode::PinHole => None,
        }
    }
}

/// Checks a configuration, and names the first reason to reject it.
pub fn validate(config: &CameraConfig) -> (result: Result<(), ConfigError>)
    ensures
        match config_error(*config) {
            Some(error) => result == Err::<(), ConfigError>(error),
            None => result.is_ok(),
        },
{
    if config.resolution.0 == 0 || config.resolution.1 == 0 {
        return Err(ConfigError::Resolution);
    }
    let pi = Scalar::from_bits(PI_BITS);
    match config.fov {
        FieldOfView::Horizontal(alpha) => {
            if !alpha.is_positive() || !alpha.lt(pi) {
                return Err(ConfigError::HorizontalFov);
            }
        },
        FieldOfView::Vertical(alpha) => {
            if !alpha.is_positive() || !alpha.lt(pi) {
                return Err(ConfigError::VerticalFov);
            }
        },
    }
    match config.focus_mode {
        FocusMode::FocalPlane { focal_distance, aperture } => {
            if focal_distance.lt(Scalar::zero()) {
                return Err(ConfigError::FocalDistance);
            } else if aperture.lt(Scalar::zero()) {
                return Err(ConfigError::Aperture);
            }
        },
        FocusMode::PinHole => {},
    }
    Ok(())
}

/// An origin and three axes of length 1, each perpendicular to the others.
#[derive(Clone, Copy, Debug, PartialEq, Eq, Structural)]
pub struct CoordinateSystem {
    pub origin: Vec3,
    pub u: Vec3,
    pub v: Vec3,
    pub w: Vec3,
}

impl CoordinateSystem {
    /// The system with the given origin and axes.
    pub fn new(origin: Vec3, u: Vec3, v: Vec3, w: Vec3) -> (system: CoordinateSystem)
        ensures
            system == (CoordinateSystem { origin, u, v, w }),
    {
        CoordinateSystem { origin, u, v, w }
    }
}

/// A camera: where it stands, how it is turned, and the image plane that its
/// rays pass through.
#[derive(Clone, Copy, Debug)]
pub struct Camera {
    pub coordinate_system: CoordinateSystem,
    pub rotation: Scalar,
    pub resolution: (u32, u32),
    pub fov: FieldOfView,
    pub focus_mode: FocusMode,
    pub distance_to_plane: Scalar,
    pub first_pixel_pos: Vec3,
    pub pixel_width: Scalar,
    pub pixel_height: Scalar,
}

impl Default for Camera {
    /// A camera that is not set up yet: its image has no pixels.
    fn default() -> (camera: Camera)
        ensures
            camera.resolution == (0u32, 0u32),
            camera.fov == FieldOfView::Vertical(Scalar::of(HALF_PI_BITS)),
            camera.focus_mode == FocusMode::PinHole,
    {
        let zeros = Vec3::zeros();
        Camera {
            coordinate_system: CoordinateSystem::new(zeros, zeros, zeros, zeros),
            rotation: Scalar::zero(),
            resolution: (0, 0),
            fov: FieldOfView::Vertical(Scalar::from_bits(HALF_PI_BITS)),
            focus_mode: FocusMode::PinHole,
            distance_to_plane: Scalar::zero(),
            first_pixel_pos: zeros,
            pixel_width: Scalar::zero(),
            pixel_height: Scalar::zero(),
        }
    }
}

/// Width and height of the sensor and its distance from the eye.
struct Sensor {
    width: Scalar,
    height: Scalar,
    distance: Scalar,
}

/// The direction that counts as up in the world, as a value.
pub open spec fn up_axis() -> Vec3 {
    Vec3 { x: Scalar::of(0), y: Scalar::of(ONE_BITS), z: Scalar::of(0) }
}

/// Whether `s` is the binary64 number equal to the whole number `n`.
pub open spec fn is_whole(s: Scalar, n: u32) -> bool {
    &&& s.value() == n * pow2(1074)
    &&& !s.nan()
    &&& s.finite()
    &&& !s.sign_set()
}

/// Whether `tangent` is what the arithmetic gives as `tan(alpha / 2)`, by way
/// of `half`.
pub open spec fn is_half_tangent<A: Arithmetic>(
    ar: &A,
    alpha: Scalar,
    half: Scalar,
    tangent: Scalar,
) -> bool {
    is_quotient(ar, alpha, Scalar::of(TWO_BITS), half) && is_tangent(ar, half, tangent)
}

/// Whether the numbers are the steps to the sensor behind a lens: it lies at
/// the focal distance and spans `(2 d) tan(fov / 2)` along the side that the
/// field of view is measured on; the other side follows from the ratio of the
/// image's width to its height.
pub open spec fn is_lens_sensor<A: Arithmetic>(
    ar: &A,
    fov: FieldOfView,
    focal_distance: Scalar,
    aspect_ratio: Scalar,
    half: Scalar,
    tangent: Scalar,
    twice: Scalar,
    width: Scalar,
    height: Scalar,
    distance: Scalar,
) -> bool {
    &&& is_half_tangent(ar, fov.angle(), half, tangent)
    &&& is_product(ar, Scalar::of(TWO_BITS), focal_distance, twice)
    &&& distance == focal_distance
    &&& match fov {
        FieldOfView::Horizontal(_) => is_product(ar, twice, tangent, width) && is_quotient(
            ar,
            width,
            aspect_ratio,
            height,
        ),
        FieldOfView::Vertical(_) => is_product(ar, twice, tangent, height) && is_product(
            ar,
            height,
            aspect_ratio,
            width,
        ),
    }
}

/// Whether the numbers are the steps to the sensor behind a pinhole: it is 1
/// high and as wide as the ratio says, at the distance `side / (2 tan(fov /
/// 2))`, with `side` the side that the field of view is measured on.
pub open spec fn is_pinhole_sensor<A: Arithmetic>(
    ar: &A,
    fov: FieldOfView,
    aspect_ratio: Scalar,
    half: Scalar,
    tangent: Scalar,
    twice: Scalar,
    width: Scalar,
    height: Scalar,
    distance: Scalar,
) -> bool {
    &&& is_half_tangent(ar, fov.angle(), half, tangent)
    &&& is_product(ar, Scalar::of(TWO_BITS), tangent, twice)
    &&& height == Scalar::of(ONE_BITS)
    &&& is_product(ar, height, aspect_ratio, width)
    &&& match fov {
        FieldOfView::Horizontal(_) => is_quotient(ar, width, twice, distance),
        FieldOfView::Vertical(_) => is_quotient(ar, height, twice, distance),
    }
}

/// Whether width, height and distance are what the arithmetic gives as the
/// sensor for the field of view, the focus and the ratio of the image's width
/// to its height.
pub open spec fn is_sensor<A: Arithmetic>(
    ar: &A,
    fov: FieldOfView,
    focus_mode: FocusMode,
    aspect_ratio: Scalar,
    width: Scalar,
    height: Scalar,
    distance: Scalar,
) -> bool {
    match focus_mode {
        FocusMode::FocalPlane { focal_distance, aperture } => exists|
            half: Scalar,
            tangent: Scalar,
            twice: Scalar,
        |
            #[trigger] is_lens_sensor(
                ar,
                fov,
                focal_distance,
                aspect_ratio,
                half,
                tangent,
                twice,
                width,
                height,
                distance,
            ),
        FocusMode::PinHole => exists|half: Scalar, tangent: Scalar, twice: Scalar|
            #[trigger] is_pinhole_sensor(
                ar,
                fov,
                aspect_ratio,
                half,
                tangent,
                twice,
                width,
                height,
                distance,
            ),
    }
}

/// The sensor for a field of view, a focus and the ratio of the image's width
/// to its height. Behind a pinhole the sensor is 1 high, at the distance that
/// makes it fill the field of view. Behind a lens it lies at the focal
/// distance and spans `2 d tan(fov / 2)` along the side that the field of view
/// is measured on.
fn sensor<A: Arithmetic>(ar: &A, fov: FieldOfView, focus_mode: FocusMode, aspect_ratio: Scalar) -> (s:
    Sensor)
    ensures
        is_sensor(ar, fov, focus_mode, aspect_ratio, s.width, s.height, s.distance),
        focus_mode matches FocusMode::FocalPlane { focal_distance, aperture } ==> s.distance
            == focal_distance,
        focus_mode is PinHole ==> s.height == Scalar::of(ONE_BITS),
{
    let two = Scalar::two();
    let alpha = match fov {
        FieldOfView::Horizontal(alpha) => alpha,
        FieldOfView::Vertical(alpha) => alpha,
    };
    let half = ar.div(alpha, two);
    let tangent = ar.tan(half);
    assert(is_half_tangent(ar, fov.angle(), half, tangent));
    match focus_mode {
        FocusMode::FocalPlane { focal_distance, aperture: _ } => {
            let twice = ar.mul(two, focal_distance);
            let span = ar.mul(twice, tangent);
            let s = match fov {
                FieldOfView::Horizontal(_) => Sensor {
                    width: span,
                    height: ar.div(span, aspect_ratio),
                    distance: focal_distance,
                },
                FieldOfView::Vertical(_) => Sensor {
                    width: ar.mul(span, aspect_ratio),
                    height: span,
                    distance: focal_distance,
                },
            };
            assert(is_lens_sensor(
                ar,
                fov,
                focal_distance,
                aspect_ratio,
                half,
                tangent,
                twice,
                s.width,
                s.height,
                s.distance,
            ));
            s
        },
        FocusMode::PinHole => {
            let twice = ar.mul(two, tangent);
            let height = Scalar::one();
            let width = ar.mul(height, aspect_ratio);
            let distance = match fov {
                FieldOfView::Horizontal(_) => ar.div(width, twice),
                FieldOfView::Vertical(_) => ar.div(height, twice),
            };
            assert(is_pinhole_sensor(
                ar,
                fov,
                aspect_ratio,
                half,
                tangent,
                twice,
                width,
                height,
                distance,
            ));
            Sensor { width, height, distance }
        },
    }
}

/// Whether the vectors are the steps to the axes of a camera that looks along
/// `direction`, before any roll: `w` is the direction scaled to length 1, `u`
/// is `w x up` and `v` is `u x w`, both scaled to length 1.
pub open spec fn is_upright<A: Arithmetic>(
    ar: &A,
    direction: Vec3,
    w: Vec3,
    across: Vec3,
    u: Vec3,
    above: Vec3,
    v: Vec3,
) -> bool {
    &&& is_normalized(ar, direction, w)
    &&& is_cross(ar, w, up_axis(), across)
    &&& is_normalized(ar, across, u)
    &&& is_cross(ar, u, w, above)
    &&& is_normalized(ar, above, v)
}

/// Whether `rolled` is what the arithmetic gives as `axis` turned about `w`
/// by the roll and scaled to length 1 again, by way of `turned`.
pub open spec fn is_roll<A: Arithmetic>(
    ar: &A,
    axis: Vec3,
    w: Vec3,
    rotation: Scalar,
    turned: Vec3,
    rolled: Vec3,
) -> bool {
    is_rotated(ar, axis, w, rotation, turned) && is_normalized(ar, turned, rolled)
}

/// Whether `u` and `v` are what the roll makes of the upright axes `u0` and
/// `v0`: the same without a roll, and else each turned about `w` and scaled to
/// length 1.
pub open spec fn is_rolled<A: Arithmetic>(
    ar: &A,
    rotation: Scalar,
    w: Vec3,
    u0: Vec3,
    v0: Vec3,
    u: Vec3,
    v: Vec3,
) -> bool {
    if rotation.is_zero() {
        u == u0 && v == v0
    } else {
        exists|turned_u: Vec3, turned_v: Vec3|
            #[trigger] is_roll(ar, u0, w, rotation, turned_u, u) && #[trigger] is_roll(
                ar,
                v0,
                w,
                rotation,
                turned_v,
                v,
            )
    }
}

/// Whether `u`, `v` and `w` are what the arithmetic gives as the axes of a
/// camera that looks along `direction` with the given roll.
pub open spec fn is_basis<A: Arithmetic>(
    ar: &A,
    direction: Vec3,
    rotation: Scalar,
    u: Vec3,
    v: Vec3,
    w: Vec3,
) -> bool {
    exists|across: Vec3, u0: Vec3, above: Vec3, v0: Vec3|
        #[trigger] is_upright(ar, direction, w, across, u0, above, v0) && is_rolled(
            ar,
            rotation,
            w,
            u0,
            v0,
            u,
            v,
        )
}

/// Whether `pixel` and `margin` are what the arithmetic gives for one side of
/// the sensor: the size of a pixel, `side / count`, and the distance from the
/// middle of the sensor to the middle of its outermost pixel,
/// `side / 2 - pixel / 2`.
pub open spec fn is_side<A: Arithmetic>(
    ar: &A,
    side: Scalar,
    count: Scalar,
    pixel: Scalar,
    half_side: Scalar,
    half_pixel: Scalar,
    margin: Scalar,
) -> bool {
    &&& is_quotient(ar, side, count, pixel)
    &&& is_quotient(ar, side, Scalar::of(TWO_BITS), half_side)
    &&& is_quotient(ar, pixel, Scalar::of(TWO_BITS), half_pixel)
    &&& is_difference(ar, half_side, half_pixel, margin)
}

/// Whether the vectors are the steps to the center of the first pixel:
/// `((origin + w d) - u right) + v up`.
pub open spec fn is_corner<A: Arithmetic>(
    ar: &A,
    system: CoordinateSystem,
    distance: Scalar,
    right: Scalar,
    up: Scalar,
    ahead: Vec3,
    middle: Vec3,
    left: Vec3,
    edge: Vec3,
    raised: Vec3,
    first: Vec3,
) -> bool {
    &&& is_scaled(ar, system.w, distance, ahead)
    &&& is_vector_sum(ar, system.origin, ahead, middle)
    &&& is_scaled(ar, system.u, right, left)
    &&& is_vector_difference(ar, middle, left, edge)
    &&& is_scaled(ar, system.v, up, raised)
    &&& is_vector_sum(ar, edge, raised, first)
}

/// Whether the numbers are the steps from the resolution to the sensor and
/// its pixels: the ratio of width to height, the sensor for it, and for each
/// side the size of a pixel and the margin.
pub open spec fn is_raster<A: Arithmetic>(
    ar: &A,
    config: CameraConfig,
    camera: Camera,
    columns: Scalar,
    rows: Scalar,
    aspect_ratio: Scalar,
    width: Scalar,
    height: Scalar,
    half_width: Scalar,
    half_column: Scalar,
    right: Scalar,
    half_height: Scalar,
    half_row: Scalar,
    up: Scalar,
) -> bool {
    &&& is_whole(columns, config.resolution.0)
    &&& is_whole(rows, config.resolution.1)
    &&& is_quotient(ar, columns, rows, aspect_ratio)
    &&& is_sensor(
        ar,
        config.fov,
        config.focus_mode,
        aspect_ratio,
        width,
        height,
        camera.distance_to_plane,
    )
    &&& is_side(ar, width, columns, camera.pixel_width, half_width, half_column, right)
    &&& is_side(ar, height, rows, camera.pixel_height, half_height, half_row, up)
}

/// Whether the camera's image plane is what the arithmetic gives for the
/// configuration and the camera's axes: the distance to the sensor, the size
/// of a pixel and the center of the first pixel, at
/// `origin + d w - u (width / 2 - pixel_width / 2) + v (height / 2 - pixel_height / 2)`.
pub open spec fn is_image_plane<A: Arithmetic>(ar: &A, config: CameraConfig, camera: Camera) -> bool {
    exists|
        columns: Scalar,
        rows: Scalar,
        aspect_ratio: Scalar,
        width: Scalar,
        height: Scalar,
        half_width: Scalar,
        half_column: Scalar,
        right: Scalar,
        half_height: Scalar,
        half_row: Scalar,
        up: Scalar,
        ahead: Vec3,
        middle: Vec3,
        left: Vec3,
        edge: Vec3,
        raised: Vec3,
    |
        #[trigger] is_raster(
            ar,
            config,
            camera,
            columns,
            rows,
            aspect_ratio,
            width,
            height,
            half_width,
            half_column,
            right,
            half_height,
            half_row,
            up,
        ) && #[trigger] is_corner(
            ar,
            camera.coordinate_system,
            camera.distance_to_plane,
            right,
            up,
            ahead,
            middle,
            left,
            edge,
            raised,
            camera.first_pixel_pos,
        )
}

/// Whether the camera is what the arithmetic gives as the set-up for the
/// configuration: it keeps what the configuration gives, its axes are those
/// for the direction and the roll, and its image plane is the one for them.
pub open spec fn is_set_up<A: Arithmetic>(ar: &A, config: CameraConfig, camera: Camera) -> bool {
    &&& camera.keeps(config)
    &&& is_basis(
        ar,
        config.direction,
        config.rotation,
        camera.coordinate_system.u,
        camera.coordinate_system.v,
        camera.coordinate_system.w,
    )
    &&& is_image_plane(ar, config, camera)
}

/// Whether the values are the steps to a point of the lens: at the distance
/// `r = (aperture / 2) sqrt(u1)` from the camera's position, in the direction
/// that `phi = (2 pi) u2` gives in the plane of `u` and `v`:
/// `origin + (u (r cos(phi)) + v (r sin(phi)))`.
pub open spec fn is_on_lens<A: Arithmetic>(
    ar: &A,
    system: CoordinateSystem,
    aperture: Scalar,
    u1: Scalar,
    u2: Scalar,
    radius: Scalar,
    root: Scalar,
    r: Scalar,
    two_pi: Scalar,
    phi: Scalar,
    cos: Scalar,
    x: Scalar,
    sin: Scalar,
    y: Scalar,
    along_u: Vec3,
    along_v: Vec3,
    offset: Vec3,
    point: Vec3,
) -> bool {
    &&& is_quotient(ar, aperture, Scalar::of(TWO_BITS), radius)
    &&& is_root(ar, u1, root)
    &&& is_product(ar, radius, root, r)
    &&& is_product(ar, Scalar::of(TWO_BITS), Scalar::of(PI_BITS), two_pi)
    &&& is_product(ar, two_pi, u2, phi)
    &&& is_cosine(ar, phi, cos)
    &&& is_product(ar, r, cos, x)
    &&& is_sine(ar, phi, sin)
    &&& is_product(ar, r, sin, y)
    &&& is_scaled(ar, system.u, x, along_u)
    &&& is_scaled(ar, system.v, y, along_v)
    &&& is_vector_sum(ar, along_u, along_v, offset)
    &&& is_vector_sum(ar, system.origin, offset, point)
}

/// Whether `point` is what the arithmetic gives as the point of the lens for
/// the numbers `u1` and `u2`.
pub open spec fn is_lens_point<A: Arithmetic>(
    ar: &A,
    system: CoordinateSystem,
    aperture: Scalar,
    u1: Scalar,
    u2: Scalar,
    point: Vec3,
) -> bool {
    exists|
        radius: Scalar,
        root: Scalar,
        r: Scalar,
        two_pi: Scalar,
        phi: Scalar,
        cos: Scalar,
        x: Scalar,
        sin: Scalar,
        y: Scalar,
        along_u: Vec3,
        along_v: Vec3,
        offset: Vec3,
    |
        #[trigger] is_on_lens(
            ar,
            system,
            aperture,
            u1,
            u2,
            radius,
            root,
            r,
            two_pi,
            phi,
            cos,
            x,
            sin,
            y,
            along_u,
            along_v,
            offset,
            point,
        )
}

/// Whether `origin` is where a ray of the camera can start: where the camera
/// stands behind a pinhole, and behind a lens at the point of the lens for
/// some two numbers of `[0, 1)`.
pub open spec fn is_ray_origin<A: Arithmetic>(ar: &A, camera: Camera, origin: Vec3) -> bool {
    match camera.focus_mode {
        FocusMode::PinHole => origin == camera.coordinate_system.origin,
        FocusMode::FocalPlane { focal_distance, aperture } => exists|u1: Scalar, u2: Scalar|
            is_unit(u1) && is_unit(u2) && #[trigger] is_lens_point(
                ar,
                camera.coordinate_system,
                aperture,
                u1,
                u2,
                origin,
            ),
    }
}

/// Whether the values are the steps to the ray through the center of pixel
/// `(i, j)` from `origin`: the center is
/// `(first + u (i pixel_width)) - v (j pixel_height)`, and the ray points from
/// the origin to it.
pub open spec fn is_through_pixel<A: Arithmetic>(
    ar: &A,
    camera: Camera,
    i: u32,
    j: u32,
    origin: Vec3,
    column: Scalar,
    row: Scalar,
    right: Scalar,
    down: Scalar,
    across: Vec3,
    moved: Vec3,
    below: Vec3,
    center: Vec3,
    towards: Vec3,
    direction: Vec3,
) -> bool {
    &&& is_whole(column, i)
    &&& is_whole(row, j)
    &&& is_product(ar, column, camera.pixel_width, right)
    &&& is_product(ar, row, camera.pixel_height, down)
    &&& is_scaled(ar, camera.coordinate_system.u, right, across)
    &&& is_vector_sum(ar, camera.first_pixel_pos, across, moved)
    &&& is_scaled(ar, camera.coordinate_system.v, down, below)
    &&& is_vector_difference(ar, moved, below, center)
    &&& is_vector_difference(ar, center, origin, towards)
    &&& is_normalized(ar, towards, direction)
}

/// Whether `ray` is what the arithmetic gives as a ray of the camera through
/// the center of pixel `(i, j)`: from an origin of the camera, pointing at the
/// center with length 1, carrying the wavelength.
pub open spec fn is_cast<A: Arithmetic>(
    ar: &A,
    camera: Camera,
    i: u32,
    j: u32,
    wavelength: Scalar,
    ray: Ray,
) -> bool {
    &&& ray.wavelength == wavelength
    &&& is_ray_origin(ar, camera, ray.origin)
    &&& exists|
        column: Scalar,
        row: Scalar,
        right: Scalar,
        down: Scalar,
        across: Vec3,
        moved: Vec3,
        below: Vec3,
        center: Vec3,
        towards: Vec3,
    |
        #[trigger] is_through_pixel(
            ar,
            camera,
            i,
            j,
            ray.origin,
            column,
            row,
            right,
            down,
            across,
            moved,
            below,
            center,
            towards,
            ray.direction,
        )
}

/// The point of the lens for two numbers of `[0, 1)`: at the distance
/// `(aperture / 2) sqrt(u1)` from the origin of the system, in the direction
/// that `2 pi u2` gives in the plane of its axes `u` and `v`.
pub fn lens_point<A: Arithmetic>(
    ar: &A,
    system: &CoordinateSystem,
    aperture: Scalar,
    u1: Scalar,
    u2: Scalar,
) -> (point: Vec3)
    ensures
        is_lens_point(ar, *system, aperture, u1, u2, point),
{
    let radius = ar.div(aperture, Scalar::two());
    let root = ar.sqrt(u1);
    let r = ar.mul(radius, root);
    let two_pi = ar.mul(Scalar::two(), Scalar::from_bits(PI_BITS));
    let phi = ar.mul(two_pi, u2);
    let cos = ar.cos(phi);
    let x = ar.mul(r, cos);
    let sin = ar.sin(phi);
    let y = ar.mul(r, sin);
    let along_u = system.u.mul(ar, x);
    let along_v = system.v.mul(ar, y);
    let offset = along_u.add(ar, along_v);
    let point = system.origin.add(ar, offset);
    assert(is_on_lens(
        ar,
        *system,
        aperture,
        u1,
        u2,
        radius,
        root,
        r,
        two_pi,
        phi,
        cos,
        x,
        sin,
        y,
        along_u,
        along_v,
        offset,
        point,
    ));
    point
}

impl Camera {
    /// The camera for a configuration that `validate` accepts.
    pub fn new<A: Arithmetic>(ar: &A, config: &CameraConfig) -> (camera: Camera)
        requires
            config_error(*config).is_none(),
        ensures
            is_set_up(ar, *config, camera),
    {
        let mut camera = Camera::default();
        let _ = camera.config(ar, config);
        camera
    }

    /// Whether the camera keeps what the configuration gives: it stands at its
    /// position and has its resolution, roll, field of view and focus, and
    /// behind a lens its sensor lies at the focal distance.
    pub open spec fn keeps(&self, config: CameraConfig) -> bool {
        &&& self.coordinate_system.origin == config.position
        &&& self.resolution == config.resolution
        &&& self.rotation == config.rotation
        &&& self.fov == config.fov
        &&& self.focus_mode == config.focus_mode
        &&& config.focus_mode matches FocusMode::FocalPlane { focal_distance, aperture }
            ==> self.distance_to_plane == focal_distance
    }

    /// Where the camera stands.
    pub fn position(&self) -> (position: Vec3)
        ensures
            position == self.coordinate_system.origin,
    {
        self.coordinate_system.origin
    }

    /// Where the camera looks: a vector of length 1.
    pub fn direction(&self) -> (direction: Vec3)
        ensures
            direction == self.coordinate_system.w,
    {
        self.coordinate_system.w
    }

    /// The roll about the viewing direction, in radians.
    pub fn rotation(&self) -> (rotation: Scalar)
        ensures
            rotation == self.rotation,
    {
        self.rotation
    }

    /// The field of view.
    pub fn fov(&self) -> (fov: FieldOfView)
        ensures
            fov == self.fov,
    {
        self.fov
    }

    /// Width and height of the image, in pixels.
    pub fn resolution(&self) -> (resolution: (u32, u32))
        ensures
            resolution == self.resolution,
    {
        self.resolution
    }

    /// Sets the camera up anew. A configuration that is rejected leaves the
    /// camera as it was; one that is accepted replaces all of its state.
    ///
    /// The viewing axis `w` is the direction scaled to length 1, `u` is `w x up`
    /// and `v` is `u x w`, both scaled to length 1 and then rolled about `w`. The
    /// first pixel's center lies at
    /// `origin + d w - u (width / 2 - pixel_width / 2) + v (height / 2 - pixel_height / 2)`,
    /// with `d` the distance to the sensor and `width` and `height` its size.
    pub fn config<A: Arithmetic>(&mut self, ar: &A, config: &CameraConfig) -> (result: Result<
        (),
        ConfigError,
    >)
        ensures
            match config_error(*config) {
                Some(error) => result == Err::<(), ConfigError>(error) && *final(self) == *old(
                    self,
                ),
                None => result.is_ok() && is_set_up(ar, *config, *final(self)),
            },
    {
        match validate(config) {
            Err(error) => {
                return Err(error);
            },
            Ok(_) => {},
        }
        let w = config.direction.normalized(ar);
        let across = w.cross(ar, world_up());
        let u0 = across.normalized(ar);
        let above = u0.cross(ar, w);
        let v0 = above.normalized(ar);
        assert(is_upright(ar, config.direction, w, across, u0, above, v0));
        let mut u = u0;
        let mut v = v0;
        if !config.rotation.eq_zero() {
            let turned_u = rotate_vector(ar, &u0, &w, config.rotation);
            u = turned_u.normalized(ar);
            let turned_v = rotate_vector(ar, &v0, &w, config.rotation);
            v = turned_v.normalized(ar);
            assert(is_roll(ar, u0, w, config.rotation, turned_u, u));
            assert(is_roll(ar, v0, w, config.rotation, turned_v, v));
        }
        assert(is_rolled(ar, config.rotation, w, u0, v0, u, v));
        let system = CoordinateSystem::new(config.position, u, v, w);

        let columns = Scalar::from_u32(config.resolution.0);
        let rows = Scalar::from_u32(config.resolution.1);
        let aspect_ratio = ar.div(columns, rows);
        let s = sensor(ar, config.fov, config.focus_mode, aspect_ratio);
        let two = Scalar::two();
        let pixel_width = ar.div(s.width, columns);
        let half_width = ar.div(s.width, two);
        let half_column = ar.div(pixel_width, two);
        let right = ar.sub(half_width, half_column);
        let pixel_height = ar.div(s.height, rows);
        let half_height = ar.div(s.height, two);
        let half_row = ar.div(pixel_height, two);
        let up = ar.sub(half_height, half_row);

        let ahead = w.mul(ar, s.distance);
        let middle = config.position.add(ar, ahead);
        let left = u.mul(ar, right);
        let edge = middle.sub(ar, left);
        let raised = v.mul(ar, up);
        let first_pixel_pos = edge.add(ar, raised);

        let camera = Camera {
            coordinate_system: system,
            rotation: config.rotation,
            resolution: config.resolution,
            fov: config.fov,
            focus_mode: config.focus_mode,
            distance_to_plane: s.distance,
            first_pixel_pos,
            pixel_width,
            pixel_height,
        };
        assert(is_side(ar, s.width, columns, pixel_width, half_width, half_column, right));
        assert(is_side(ar, s.height, rows, pixel_height, half_height, half_row, up));
        assert(is_raster(
            ar,
            *config,
            camera,
            columns,
            rows,
            aspect_ratio,
            s.width,
            s.height,
            half_width,
            half_column,
            right,
            half_height,
            half_row,
            up,
        ));
        assert(is_corner(
            ar,
            camera.coordinate_system,
            camera.distance_to_plane,
            right,
            up,
            ahead,
            middle,
            left,
            edge,
            raised,
            camera.first_pixel_pos,
        ));
        assert(is_image_plane(ar, *config, camera));
        assert(is_basis(ar, config.direction, config.rotation, u, v, w));
        *self = camera;
        Ok(())
    }

    /// The ray through the center of pixel `(i, j)`, carrying light of the
    /// given wavelength; none for a pixel outside the image.
    ///
    /// Behind a pinhole every ray starts where the camera stands. Behind a lens
    /// it starts at a random point of the aperture's disc: with `u1` and `u2`
    /// uniform in `[0, 1)`, at the distance `(aperture / 2) sqrt(u1)` from the
    /// camera's position, in the direction that `2 pi u2` gives in the plane of
    /// `u` and `v`.
    pub fn cast_ray<A: Arithmetic>(
        &self,
        ar: &A,
        i: u32,
        j: u32,
        wavelength: Scalar,
        rng: &mut StdRng,
    ) -> (ray: Option<Ray>)
        ensures
            ray.is_none() <==> i >= self.resolution.0 || j >= self.resolution.1,
            ray.is_some() ==> is_cast(ar, *self, i, j, wavelength, ray.unwrap()),
            ray.is_some() ==> ray.unwrap().wavelength == wavelength,
            ray.is_some() && self.focus_mode is PinHole ==> ray.unwrap().origin
                == self.coordinate_system.origin,
    {
        if i >= self.resolution.0 || j >= self.resolution.1 {
            return None;
        }
        let cs = &self.coordinate_system;
        let origin = match self.focus_mode {
            FocusMode::PinHole => cs.origin,
            FocusMode::FocalPlane { focal_distance: _, aperture } => {
                let u1 = unit_sample(rng);
                let u2 = unit_sample(rng);
                let point = lens_point(ar, cs, aperture, u1, u2);
                assert(is_unit(u1) && is_unit(u2) && is_lens_point(ar, *cs, aperture, u1, u2, point));
                point
            },
        };
        assert(is_ray_origin(ar, *self, origin));
        let column = Scalar::from_u32(i);
        let row = Scalar::from_u32(j);
        let right = ar.mul(column, self.pixel_width);
        let down = ar.mul(row, self.pixel_height);
        let across = cs.u.mul(ar, right);
        let moved = self.first_pixel_pos.add(ar, across);
        let below = cs.v.mul(ar, down);
        let center = moved.sub(ar, below);
        let towards = center.sub(ar, origin);
        let ray = Ray::new(ar, origin, towards, wavelength);
        assert(is_through_pixel(
            ar,
            *self,
            i,
            j,
            origin,
            column,
            row,
            right,
            down,
            across,
            moved,
            below,
            center,
            towards,
            ray.direction,
        ));
        Some(ray)
    }
}

/// The binary64 number equal to a whole number is the one that there is.
pub proof fn lemma_whole_is_unique()
    ensures
        forall|s1: Scalar, s2: Scalar, n: u32|
            #[trigger] is_whole(s1, n) && #[trigger] is_whole(s2, n) ==> s1 == s2,
{
    assert forall|s1: Scalar, s2: Scalar, n: u32|
        #[trigger] is_whole(s1, n) && #[trigger] is_whole(s2, n) implies s1 == s2 by {
        crate::value::lemma_size_decides_magnitude(s1, s2);
    }
}

/// Setting a camera up is repeatable: with an arithmetic that is a function,
/// two cameras that are set up from one configuration agree in every field,
/// whatever they were before.
pub proof fn lemma_set_up_is_unique<A: Arithmetic>(
    ar: &A,
    config: CameraConfig,
    first: Camera,
    second: Camera,
)
    requires
        is_function(ar),
        is_set_up(ar, config, first),
        is_set_up(ar, config, second),
    ensures
        first == second,
{
    lemma_vectors_are_unique(ar);
    lemma_rotation_is_unique(ar);
    lemma_whole_is_unique();
}

} // verus!
