//! A verified Whitted-style ray tracer over fixed-point arithmetic.
//!
//! All geometry and color arithmetic is carried out in signed 64-bit
//! fixed-point numbers (16 fractional bits), so every numeric step of the
//! renderer has an exact mathematical model that the proofs speak about.

pub mod fixed;
pub mod laws;
pub mod primitive;
pub mod render;
pub mod scene;
pub mod vec3;
