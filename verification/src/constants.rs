//! Grid dimensions shared by the whole library.

use vstd::prelude::*;


verus! {

/// The log2 of the size of the World Grid.
pub const WORLD_SIZE_LOG: usize = 20;

/// The size of the World Grid.
pub const WORLD_SIZE: usize = 1048576;

/// The log2 of the height of the World Grid.
pub const WORLD_HEIGHT_LOG: usize = 10;

/// The height of the World Grid.
pub const WORLD_HEIGHT: usize = 1024;

/// The log2 of the size of the Chunk Grid.
pub const CHUNK_SIZE_LOG: usize = 5;

/// The size of the Chunk Grid: a chunk is `CHUNK_SIZE` voxels wide in each axis.
pub const CHUNK_SIZE: usize = 32;

/// The log2 of the size of the World Grid counted in Chunks.
pub const WORLD_SIZE_IN_CHUNKS_LOG: usize = 15;

/// The size of the World Grid counted in Chunks.
pub const WORLD_SIZE_IN_CHUNKS: usize = 32768;

/// The log2 of the height of the World Grid counted in Chunks.
pub const WORLD_HEIGHT_IN_CHUNKS_LOG: usize = 5;

/// The height of the World Grid counted in Chunks.
pub const WORLD_HEIGHT_IN_CHUNKS: usize = 32;

/// The sizes and their logarithms agree.
pub proof fn lemma_constants_consistent()
    ensures
        WORLD_SIZE == 1usize << WORLD_SIZE_LOG,
        WORLD_HEIGHT == 1usize << WORLD_HEIGHT_LOG,
        CHUNK_SIZE == 1usize << CHUNK_SIZE_LOG,
        WORLD_SIZE_IN_CHUNKS_LOG == WORLD_SIZE_LOG - CHUNK_SIZE_LOG,
        WORLD_SIZE_IN_CHUNKS == WORLD_SIZE / CHUNK_SIZE,
        WORLD_HEIGHT_IN_CHUNKS_LOG == WORLD_HEIGHT_LOG - CHUNK_SIZE_LOG,
        WORLD_HEIGHT_IN_CHUNKS == WORLD_HEIGHT / CHUNK_SIZE,
{
    assert(1048576usize == 1usize << 20usize && 1024usize == 1usize << 10usize && 32usize == 1usize
        << 5usize) by (bit_vector);
}

/// The value of the `BlockId` reserved for "Air". Use `BlockId::air()` rather than `BlockId::new(0)`.
pub const AIR_ID: u16 = 0;

} // verus!
