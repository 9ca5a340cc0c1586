//! The work a worker does for one chunk task, and how many workers a pool
//! runs on a machine.

use vstd::prelude::*;

use crate::chunk::Chunk;
use crate::naive_chunk::all_air;
use crate::scheduler::{ChunkTask, ChunkTaskKind, ChunkTaskResult};

verus! {

/// The number of workers for a machine that runs `parallelism` threads at
/// once: one thread is left to the caller below 8, two from 8 on, and at
/// least one worker runs.
pub open spec fn spec_worker_count(parallelism: nat) -> nat {
    if parallelism < 8 {
        if parallelism <= 1 {
            1
        } else {
            (parallelism - 1) as nat
        }
    } else {
        (parallelism - 2) as nat
    }
}

/// The number of workers to run for a machine that runs `parallelism`
/// threads at once.
pub fn worker_count(parallelism: usize) -> (r: usize)
    ensures
        r == spec_worker_count(parallelism as nat),
        r >= 1,
{
    if parallelism < 8 {
        let n = parallelism.saturating_sub(1);
        if n > 1 {
            n
        } else {
            1
        }
    } else {
        parallelism - 2
    }
}

/// Does the work of `task`: a load makes an empty chunk at the task's
/// position; a mesh, a save and an unload report that they are done.
pub fn process_task_sync(task: ChunkTask) -> (r: ChunkTaskResult)
    ensures
        match task.key.kind {
            ChunkTaskKind::Load => r matches ChunkTaskResult::Loaded { key, chunk } && key == task.key
                && chunk@ == all_air() && chunk.spec_chunk_pos() == task.key.chunk_pos
                && chunk.spec_version().value() == 0,
            ChunkTaskKind::Mesh => r == (ChunkTaskResult::Meshed { key: task.key, mesh: true }),
            ChunkTaskKind::Save => r == (ChunkTaskResult::Saved { key: task.key }),
            ChunkTaskKind::Unload => r == (ChunkTaskResult::Unloaded { key: task.key }),
        },
{
    let key = task.key();
    match key.kind() {
        ChunkTaskKind::Load => {
            let chunk = Chunk::new(key.chunk_pos());
            ChunkTaskResult::Loaded { key, chunk }
        },
        ChunkTaskKind::Mesh => {
            let mesh = true;
            ChunkTaskResult::Meshed { key, mesh }
        },
        ChunkTaskKind::Save => ChunkTaskResult::Saved { key },
        ChunkTaskKind::Unload => ChunkTaskResult::Unloaded { key },
    }
}

} // verus!
