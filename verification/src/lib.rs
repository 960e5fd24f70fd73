//! The exact core of a progressive path tracer.
//!
//! Everything here is decided over whole numbers: scene descriptions in
//! thousandths of a unit and their faults, the sample sequence as
//! fractions, the pass schedule and its blend weights, the shared frame
//! buffer, the life of a traced path, texture selection, and the text of
//! the image file with its gamma encoding. The numerical work on rays
//! (intersection, scattering, tone mapping) is floating-point work and is
//! done by the application that drives this library.

pub mod accumulate;
pub mod bvh;
pub mod camera;
pub mod fault;
pub mod framebuffer;
pub mod halton;
pub mod hittable;
pub mod integrator;
pub mod material;
pub mod mesh;
pub mod ppm;
pub mod raster;
pub mod scenes;
pub mod texture;
pub mod vec3;
