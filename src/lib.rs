//! Voxel world core: a sparse grid of fixed-size chunks, terrain generation
//! with a deferred-placement queue, and face-culled meshing with per-corner
//! ambient shading.

pub mod chunk;
pub mod chunk_manager;
pub mod chunk_mesh;
pub mod random;
pub mod rebuild;
pub mod voxel_data_manager;
