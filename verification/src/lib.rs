//! A Monte Carlo path tracer with a verified core.
//!
//! All quantities are fixed-point numbers: an `i64` holding the value times
//! `fx::SCALE`. Every arithmetic step is specified exactly, including its
//! rounding, so the whole rendering pipeline — camera rays, ray/geometry
//! intersection, material scattering, the recursive radiance estimator and
//! the sample-accumulation loop — carries contracts that pin down its result.

pub mod camera;
pub mod color;
pub mod common;
pub mod fx;
pub mod hittable;
pub mod hittable_list;
pub mod material;
pub mod noise;
pub mod quad;
pub mod sphere;
pub mod ray;
pub mod render;
pub mod rng;
pub mod vec3;
