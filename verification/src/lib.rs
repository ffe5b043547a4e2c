//! A voxel world core: chunked voxel storage, distance-based chunk
//! streaming, and per-voxel face / ambient-occlusion masks.

pub mod block;
pub mod chunk;
pub mod coords;
pub mod generator;
pub mod hyper;
pub mod loader;
pub mod mesh;
pub mod registry;
