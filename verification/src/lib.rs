//! A spectral Monte Carlo path tracer whose decisions are verified.
//!
//! The renderer turns a camera and a scene of spheres, planes and triangles
//! into an image: for each pixel it follows random paths of light of one
//! wavelength each, backwards from the camera, and adds up the power that
//! arrives along them.
//!
//! Numbers are binary64 numbers held by their bit patterns. What the renderer
//! decides with them, it decides here, by comparisons that are stated and proved
//! over the integers: which root of a quadratic is the nearest hit, whether a
//! ray misses a triangle, which samples of a spectrum bracket a wavelength,
//! whether a camera's configuration is valid, when a path ends. What it
//! computes with them, sums and products and roots, it asks of an
//! implementation of [`arithmetic::Arithmetic`], of which nothing is assumed.

pub mod algebra;
pub mod arithmetic;
pub mod camera;
pub mod color;
pub mod convert;
pub mod loader;
pub mod material;
pub mod random;
pub mod ray;
pub mod render;
pub mod scalar;
pub mod scene;
pub mod shape;
pub mod spectrum;
pub mod value;
pub mod vec3;
