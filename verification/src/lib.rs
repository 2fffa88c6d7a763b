//! An exact-arithmetic ray-tracing core.
//!
//! Every quantity the engine computes with is a rational number held as a
//! reduced fraction of 128-bit integers, so intersection tests, shading and
//! rasterization are exact: each public operation is specified against a
//! mathematical mirror of itself and verified to return precisely the value
//! the mirror names, or a [`rat::NumError`] that says why no exact value
//! exists (the result left the representable range, required an irrational
//! square root, or divided by zero on degenerate input).

pub mod color;
pub mod laws;
pub mod raster;
pub mod rat;
pub mod render;
pub mod scene;
pub mod shape;
pub mod vec3;

pub use color::Color;
pub use rat::Rat;
pub use vec3::Vec3;
