pub mod bake;
pub mod edge;
pub mod mesh;
pub mod triangle;
pub mod vertex;

pub use bake::accumulate;
pub use edge::edge_function;
pub use mesh::{addresses, Indices, Mesh};
pub use triangle::Triangles;
pub use vertex::VertexAttributes;

use vstd::prelude::*;

verus! {

/// Position of a corner in an index stream.
pub type Idx = usize;

/// Index into the vertex position set.
pub type VIdx = usize;

/// Index into the normal set.
pub type NIdx = usize;

/// Index into the UV set.
pub type TIdx = usize;

} // verus!
