//! A recursive Monte Carlo path tracer over a fixed-point numeric model.
//!
//! All geometry and radiometry is carried in signed 64.16 fixed-point
//! values (an `i128` holding `value * 65536`), so that every arithmetic
//! step has an exact, machine-checkable meaning. The scene is a list of
//! spheres with Lambertian, metallic or dielectric materials; textures
//! are solid colors, a world-space checkerboard, or a sampled image held
//! as plain pixel bytes.

pub mod fx;
pub mod vec3;
pub mod trig;
pub mod texture;
pub mod material;
pub mod ray;
pub mod surface;
pub mod sphere;
pub mod surface_list;
pub mod camera;
pub mod rng;
pub mod integrator;
