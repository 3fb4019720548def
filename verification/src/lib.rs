//! A Monte Carlo ray tracer over fixed-point arithmetic.
//!
//! The renderer traces jittered, lens-sampled camera rays through a scene of
//! spheres, bouncing off diffuse, metallic and refractive materials up to a
//! depth limit, and resolves the averaged radiance into 8-bit pixels. Every
//! scalar is a fixed-point number, so each stage carries an exact contract.

pub mod camera;
pub mod fixed;
pub mod hittable;
pub mod interval;
pub mod material;
pub mod ray;
pub mod rng;
pub mod sphere;
pub mod vec3;
