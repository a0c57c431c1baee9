//! A deterministic, float-free voxel scene renderer.
//!
//! The numeric core is a signed 64-bit fixed-point type with 24 fractional
//! bits; on top of it sit a polynomial sine/cosine approximation, a
//! 3-component vector algebra, a fixed-size voxel world with grid ray
//! traversal, and a terminal rasterizer that emits a minimal stream of
//! color-change escape sequences.

pub mod fixed;
pub mod screen;
pub mod sin_cos;
pub mod vec3d;
pub mod world;
