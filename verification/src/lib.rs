//! A software rendering pipeline over 16.16 fixed-point arithmetic.
//!
//! The crate transforms mesh vertices into screen space, assembles
//! triangles, rasterizes them into shaded fragments with a depth test,
//! and composites the result into a framebuffer, all in verified code.

pub mod color;
pub mod fixed;
pub mod framebuffer;
pub mod geom;
pub mod pipeline;
pub mod raster;
pub mod shaders;
pub mod transform;
pub mod vertex;
