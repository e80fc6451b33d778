//! Sizes shared by storage, lighting and meshing.

use vstd::prelude::*;

verus! {

/// Edge length of a chunk along X, in blocks.
pub const CHUNK_X_BLOCKS: usize = 16;

/// Edge length of a chunk along Y, in blocks.
pub const CHUNK_Y_BLOCKS: usize = 16;

/// Edge length of a chunk along Z, in blocks.
pub const CHUNK_Z_BLOCKS: usize = 16;

/// Number of blocks in one chunk.
pub const CHUNK_TOTAL_BLOCKS: usize = 4096;

/// Edge length of a region along X, in chunks.
pub const REGION_X_CHUNKS: usize = 16;

/// Edge length of a region along Y, in chunks.
pub const REGION_Y_CHUNKS: usize = 16;

/// Edge length of a region along Z, in chunks.
pub const REGION_Z_CHUNKS: usize = 16;

/// Number of chunks in one region.
pub const REGION_TOTAL_CHUNKS: usize = 4096;

/// The brightest light level.
pub const LIGHT_MAX: isize = 15;

} // verus!
