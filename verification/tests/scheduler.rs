use voxt::chunk::Chunk;
use voxt::chunk_pos::ChunkPos;
use voxt::manager::ChunkManager;
use voxt::scheduler::{
    ChunkDemand, ChunkDemandKind, ChunkScheduler, ChunkSchedulerConfig, ChunkTask, ChunkTaskKey,
    ChunkTaskKind, ChunkTaskResult,
};
use voxt::tick::Tick;
use voxt::version::Version;
use voxt::workers::{process_task_sync, worker_count};
use voxt::BlockId;

fn pos(x: i16) -> ChunkPos {
    ChunkPos::from_raw(x, 0, 0)
}

#[test]
fn repeated_commit_does_not_duplicate_pending_work() {
    let mut scheduler = ChunkScheduler::new(ChunkSchedulerConfig::new(Tick::new(10)));
    let mut manager = ChunkManager::new();
    let chunk_pos = pos(0);

    manager.insert_chunk(Chunk::new(chunk_pos));

    let version = Version::new(1, 1, 0);

    scheduler.add(ChunkDemandKind::Mesh, chunk_pos, version, Tick::new(0));

    scheduler.commit(&manager, &chunk_pos, Tick::new(1));
    scheduler.commit(&manager, &chunk_pos, Tick::new(2));
    scheduler.commit(&manager, &chunk_pos, Tick::new(3));

    assert!(scheduler.branch().is_some());
    assert!(scheduler.branch().is_none());
}

#[test]
fn multiple_demand_kinds_can_coexist() {
    let mut scheduler = ChunkScheduler::new(ChunkSchedulerConfig::new(Tick::new(10)));
    let mut manager = ChunkManager::new();
    let chunk_pos = pos(0);

    manager.insert_chunk(Chunk::new(chunk_pos));

    let version = Version::new(2, 3, 4);

    scheduler.add(ChunkDemandKind::Mesh, chunk_pos, version, Tick::new(0));
    scheduler.add(ChunkDemandKind::Save, chunk_pos, version, Tick::new(0));

    scheduler.commit(&manager, &chunk_pos, Tick::new(0));

    let first = scheduler.branch().unwrap();
    let second = scheduler.branch().unwrap();

    assert_ne!(first.key.kind, second.key.kind);
}

#[test]
fn completing_a_task_clears_only_that_demand() {
    let mut scheduler = ChunkScheduler::new(ChunkSchedulerConfig::new(Tick::new(10)));
    let mut manager = ChunkManager::new();
    let chunk_pos = pos(0);
    manager.insert_chunk(Chunk::new(chunk_pos));

    let ver = Version::new(0, 0, 0);

    scheduler.add(ChunkDemandKind::Mesh, chunk_pos, ver, Tick::new(0));
    scheduler.add(ChunkDemandKind::Save, chunk_pos, ver, Tick::new(0));
    scheduler.commit(&manager, &chunk_pos, Tick::new(0));

    let mesh = scheduler.branch().unwrap();
    let save = scheduler.branch().unwrap();
    scheduler.merge(&mesh.key);

    scheduler.commit(&manager, &chunk_pos, Tick::new(2));
    assert!(scheduler.branch().is_none());
    scheduler.merge(&save.key);
    scheduler.commit(&manager, &chunk_pos, Tick::new(3));
    assert!(scheduler.branch().is_none());
}

#[test]
fn later_demand_updates_chunk_version() {
    let mut scheduler = ChunkScheduler::new(ChunkSchedulerConfig::new(Tick::new(10)));
    let chunk_pos = pos(0);

    scheduler.add(
        ChunkDemandKind::Load,
        chunk_pos,
        Version::new(1, 0, 0),
        Tick::new(0),
    );

    scheduler.add(
        ChunkDemandKind::Mesh,
        chunk_pos,
        Version::new(1, 4, 2),
        Tick::new(1),
    );

    let demand = scheduler.demand(&chunk_pos).unwrap();

    assert_eq!(demand.version, Version::new(1, 4, 2));
}

#[test]
fn newer_version_can_schedule_new_mesh_while_old_mesh_is_active() {
    let mut scheduler = ChunkScheduler::new(ChunkSchedulerConfig::new(Tick::new(10)));
    let mut manager = ChunkManager::new();
    let chunk_pos = pos(0);

    manager.insert_chunk(Chunk::new(chunk_pos));

    let old_version = Version::new(1, 1, 0);
    let new_version = Version::new(1, 2, 0);

    scheduler.add(ChunkDemandKind::Mesh, chunk_pos, old_version, Tick::new(0));
    scheduler.commit(&manager, &chunk_pos, Tick::new(0));

    let old_task = scheduler.branch().unwrap();

    scheduler.add(ChunkDemandKind::Mesh, chunk_pos, new_version, Tick::new(1));
    scheduler.commit(&manager, &chunk_pos, Tick::new(1));

    let new_task = scheduler.branch().unwrap();

    assert_eq!(old_task.key.version, old_version);
    assert_eq!(new_task.key.version, new_version);
    assert_ne!(old_task.key, new_task.key);
}

#[test]
fn stale_mesh_completion_does_not_clear_newer_demand() {
    let mut scheduler = ChunkScheduler::new(ChunkSchedulerConfig::new(Tick::new(10)));
    let mut manager = ChunkManager::new();
    let chunk_pos = pos(0);

    manager.insert_chunk(Chunk::new(chunk_pos));

    let old_version = Version::new(1, 1, 0);
    let new_version = Version::new(1, 2, 0);

    scheduler.add(ChunkDemandKind::Mesh, chunk_pos, old_version, Tick::new(0));
    scheduler.commit(&manager, &chunk_pos, Tick::new(0));

    let old_task = scheduler.branch().unwrap();

    scheduler.add(ChunkDemandKind::Mesh, chunk_pos, new_version, Tick::new(1));

    scheduler.merge(&old_task.key);

    assert!(scheduler.demand(&chunk_pos).unwrap().needs_meshing);
}

#[test]
fn unload_is_not_scheduled_for_nonresident_chunk() {
    let mut scheduler = ChunkScheduler::new(ChunkSchedulerConfig::new(Tick::new(10)));
    let manager = ChunkManager::new();
    let chunk_pos = pos(0);

    scheduler.add(
        ChunkDemandKind::Unload,
        chunk_pos,
        Version::new(1, 0, 0),
        Tick::new(0),
    );

    scheduler.commit(&manager, &chunk_pos, Tick::new(10));

    assert!(scheduler.branch().is_none());
}

#[test]
fn unload_waits_for_hysteresis() {
    let mut scheduler = ChunkScheduler::new(ChunkSchedulerConfig::new(Tick::new(10)));
    let mut manager = ChunkManager::new();
    let chunk_pos = pos(0);

    manager.insert_chunk(Chunk::new(chunk_pos));

    let version = Version::new(1, 0, 0);

    scheduler.add(ChunkDemandKind::Load, chunk_pos, version, Tick::new(0));

    scheduler.add(ChunkDemandKind::Unload, chunk_pos, version, Tick::new(5));

    scheduler.commit(&manager, &chunk_pos, Tick::new(14));
    assert!(scheduler.branch().is_none());

    scheduler.commit(&manager, &chunk_pos, Tick::new(15));

    assert!(matches!(
        scheduler.branch(),
        Some(ChunkTask {
            key: ChunkTaskKey {
                kind: ChunkTaskKind::Unload,
                ..
            },
            ..
        })
    ));
}

#[test]
fn load_completion_does_not_cancel_pending_unload() {
    let mut scheduler = ChunkScheduler::new(ChunkSchedulerConfig::new(Tick::new(10)));
    let mut manager = ChunkManager::new();
    let chunk_pos = pos(0);
    let version = Version::new(0, 0, 0);

    scheduler.add(ChunkDemandKind::Load, chunk_pos, version, Tick::new(0));
    scheduler.commit(&manager, &chunk_pos, Tick::new(0));
    let load = scheduler.branch().unwrap();

    scheduler.add(ChunkDemandKind::Unload, chunk_pos, version, Tick::new(1));
    scheduler.merge(&load.key());
    manager.insert_chunk(Chunk::new(chunk_pos));

    scheduler.commit(&manager, &chunk_pos, Tick::new(10));
    assert!(scheduler.branch().is_none());

    scheduler.commit(&manager, &chunk_pos, Tick::new(11));
    assert!(matches!(
        scheduler.branch(),
        Some(ChunkTask {
            key: ChunkTaskKey {
                kind: ChunkTaskKind::Unload,
                ..
            },
            ..
        })
    ));
}

#[test]
fn nearest_chunks_are_handed_out_first() {
    let mut scheduler = ChunkScheduler::new(ChunkSchedulerConfig::new(Tick::new(10)));
    let manager = ChunkManager::new();
    let v = Version::new(0, 0, 0);
    for x in [5, -1, 3, 0] {
        scheduler.add(ChunkDemandKind::Load, pos(x), v, Tick::new(0));
    }
    scheduler.commit(&manager, &pos(0), Tick::new(0));
    let order: Vec<i16> = (0..4).map(|_| scheduler.branch().unwrap().key.chunk_pos.x()).collect();
    assert_eq!(order, vec![0, -1, 3, 5]);
    assert!(scheduler.branch().is_none());
}

#[test]
fn farthest_chunks_are_unloaded_first() {
    let mut scheduler = ChunkScheduler::new(ChunkSchedulerConfig::new(Tick::new(0)));
    let mut manager = ChunkManager::new();
    let v = Version::new(0, 0, 0);
    for x in [1, 4, 2] {
        manager.insert_chunk(Chunk::new(pos(x)));
        scheduler.add(ChunkDemandKind::Unload, pos(x), v, Tick::new(0));
    }
    scheduler.commit(&manager, &pos(0), Tick::new(0));
    let first = scheduler.branch().unwrap();
    assert_eq!(first.key.chunk_pos, pos(4));
    assert_eq!(first.priority, u64::MAX - 16);
    assert_eq!(scheduler.branch().unwrap().key.chunk_pos, pos(2));
    assert_eq!(scheduler.branch().unwrap().key.chunk_pos, pos(1));
}

#[test]
fn merge_reports_whether_the_result_was_current() {
    let mut scheduler = ChunkScheduler::new(ChunkSchedulerConfig::new(Tick::new(10)));
    let mut manager = ChunkManager::new();
    let p = pos(2);
    manager.insert_chunk(Chunk::new(p));
    scheduler.add(ChunkDemandKind::Save, p, Version::new(1, 2, 3), Tick::new(0));
    scheduler.commit(&manager, &p, Tick::new(0));
    let save = scheduler.branch().unwrap();
    assert_eq!(save.key.kind, ChunkTaskKind::Save);
    // A newer minor version makes the save stale.
    scheduler.add(ChunkDemandKind::Save, p, Version::new(1, 3, 0), Tick::new(1));
    assert!(!scheduler.merge(&save.key));
    assert!(scheduler.demand(&p).unwrap().needs_saving);
    // A result for a chunk with no demand is not current.
    let missing = ChunkTaskKey { chunk_pos: pos(9), version: Version::new(0, 0, 0), kind: ChunkTaskKind::Load };
    assert!(!scheduler.merge(&missing));
}

#[test]
fn settled_demand_is_dropped() {
    let mut scheduler = ChunkScheduler::new(ChunkSchedulerConfig::new(Tick::new(10)));
    let mut manager = ChunkManager::new();
    let p = pos(1);
    manager.insert_chunk(Chunk::new(p));
    scheduler.add(ChunkDemandKind::Mesh, p, Version::new(0, 0, 1), Tick::new(0));
    scheduler.commit(&manager, &p, Tick::new(0));
    let mesh = scheduler.branch().unwrap();
    assert!(scheduler.merge(&mesh.key));
    assert!(scheduler.demand(&p).is_none());
}

#[test]
fn fresh_demand_is_idle() {
    let d = ChunkDemand::new(Version::new(1, 2, 3));
    assert!(d.is_idle());
    assert_eq!(d.version, Version::new(1, 2, 3));
    let mut busy = d;
    busy.needs_saving = true;
    assert!(!busy.is_idle());
}

#[test]
fn ticks_since_saturates() {
    assert_eq!(Tick::new(15).ticks_since(&Tick::new(5)), Tick::new(10));
    assert_eq!(Tick::new(5).ticks_since(&Tick::new(15)), Tick::new(0));
    assert_eq!(Tick::new(7).as_u64(), 7);
}

#[test]
fn worker_count_leaves_threads_to_the_caller() {
    assert_eq!(worker_count(0), 1);
    assert_eq!(worker_count(1), 1);
    assert_eq!(worker_count(2), 1);
    assert_eq!(worker_count(4), 3);
    assert_eq!(worker_count(7), 6);
    assert_eq!(worker_count(8), 6);
    assert_eq!(worker_count(16), 14);
}

#[test]
fn workers_answer_each_kind_of_task() {
    let key = |kind| ChunkTaskKey { chunk_pos: ChunkPos::from_raw(3, -1, 2), version: Version::new(0, 1, 0), kind };
    match process_task_sync(ChunkTask { priority: 0, key: key(ChunkTaskKind::Load) }) {
        ChunkTaskResult::Loaded { key: k, chunk } => {
            assert_eq!(k, key(ChunkTaskKind::Load));
            assert_eq!(chunk.chunk_pos(), ChunkPos::from_raw(3, -1, 2));
            assert_eq!(chunk.version().as_u64(), 0);
            assert_eq!(chunk.non_air(), 0);
            assert_eq!(chunk.get(voxt::voxel_pos::VoxelPos::from_raw(4, 4, 4)).id(), BlockId::air());
        },
        other => panic!("unexpected result {other:?}"),
    }
    assert!(matches!(
        process_task_sync(ChunkTask { priority: 1, key: key(ChunkTaskKind::Mesh) }),
        ChunkTaskResult::Meshed { mesh: true, .. }
    ));
    assert!(matches!(
        process_task_sync(ChunkTask { priority: 1, key: key(ChunkTaskKind::Save) }),
        ChunkTaskResult::Saved { .. }
    ));
    assert!(matches!(
        process_task_sync(ChunkTask { priority: 1, key: key(ChunkTaskKind::Unload) }),
        ChunkTaskResult::Unloaded { .. }
    ));
}
