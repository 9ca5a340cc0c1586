//! Voxel world engine: chunk coordinates, space-filling curves, block ids,
//! chunk storage and the scheduling of chunk work.

pub mod arith;
pub mod block_at;
pub mod block_id;
pub mod chunk;
pub mod chunk_pos;
pub mod chunk_version;
pub mod command;
pub mod constants;
pub mod conversions;
pub mod curves;
pub mod dir;
pub mod manager;
pub mod naive_chunk;
pub mod nano_pos;
pub mod pos;
pub mod scheduler;
pub mod smart_chunk;
pub mod tick;
pub mod version;
pub mod voxel_pos;
pub mod workers;
pub mod world;
pub mod world_pos;

pub use block_id::BlockId;
