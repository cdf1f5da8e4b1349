//! A CPU-side triangle rasterizer core: indexed meshes and their baked
//! attributes, mip-mapped textures, and colour/depth buffers.
//!
//! The crate is generic over the numbers it computes with. It needs them to
//! be ordered and to have the basic arithmetic operations; square roots,
//! rounding and the like are left to the caller, who hands them in where a
//! step needs them. Contracts state results in terms of the specifications
//! of those operations, and hold for every number type that obeys them.

pub mod assets;
pub mod buffer;
pub mod color;
pub mod draw;
pub mod editor;
pub mod error;
pub mod geometry;
pub mod input;
pub mod math;
pub mod obj;
pub mod raster;
pub mod render;
pub mod shaders;
pub mod texture;
