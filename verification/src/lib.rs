//! Block models for a voxel world: namespaced identifiers, models that
//! inherit from one another, the texture atlas, and the mesh of a chunk
//! with the faces left out that a neighbouring block hides.

pub mod assets;
pub mod chunk;
pub mod identity;
pub mod render;
pub mod table;
pub mod text;
