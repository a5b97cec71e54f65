//! Border-colour extraction and adaptive frame compositing for album-jacket
//! artwork, with machine-checked contracts.

pub mod args;
pub mod border;
pub mod color;
pub mod compositor;
pub mod error;
pub mod geometry;
pub mod raster;
pub mod sampler;
