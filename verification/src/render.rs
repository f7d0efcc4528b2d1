//! The mesh of a chunk: which faces are drawn, and the vertices they make.

pub mod meshing;
pub mod voxel;
