//! The voxel-world core of a first-person sandbox: block storage, light
//! propagation through blocks, and the geometry derived from both.

pub mod block;
pub mod chunk;
pub mod consts;
pub mod grid;
pub mod light;
pub mod mesh;
pub mod outcomes;
pub mod region;
pub mod surrounding;
pub mod types;
