use voxt::block_at::BatVoxel;
use voxt::chunk::Chunk;
use voxt::chunk_pos::ChunkPos;
use voxt::manager::ChunkManager;
use voxt::voxel_pos::VoxelPos;
use voxt::BlockId;

fn chunk(x: i16, y: i16, z: i16) -> Chunk {
    Chunk::new(ChunkPos::from_raw(x, y, z))
}

#[test]
fn new_manager_is_empty() {
    let manager = ChunkManager::new();

    assert!(manager.is_empty());
    assert_eq!(manager.num_chunks(), 0);
}

#[test]
fn insert_and_get_chunk() {
    let mut manager = ChunkManager::new();
    let chunk = chunk(1, 2, 3);
    let pos = chunk.chunk_pos();

    assert!(manager.insert_chunk(chunk).is_none());

    let stored = manager.get_chunk(&pos).unwrap();
    assert_eq!(stored.chunk_pos(), pos);
}

#[test]
fn get_missing_chunk_returns_none() {
    let manager = ChunkManager::new();
    let pos = ChunkPos::from_raw(1, 2, 3);

    assert!(manager.get_chunk(&pos).is_none());
}

#[test]
fn get_chunk_mut_allows_mutation() {
    let mut manager = ChunkManager::new();
    let pos = ChunkPos::from_raw(1, 2, 3);

    manager.insert_chunk(Chunk::new(pos));

    let mut chunk = manager.remove_chunk(&pos).unwrap();
    let _ = chunk.set(BatVoxel::new(VoxelPos::from_raw_checked(0, 0, 0), BlockId::new(1)));
    manager.insert_chunk(chunk);

    assert_eq!(
        manager
            .get_chunk(&pos)
            .unwrap()
            .get(VoxelPos::from_raw_checked(0, 0, 0))
            .id(),
        BlockId::new(1)
    );
}

#[test]
fn contains_chunk() {
    let mut manager = ChunkManager::new();
    let present = ChunkPos::from_raw(1, 2, 3);
    let absent = ChunkPos::from_raw(4, 5, 6);

    manager.insert_chunk(Chunk::new(present));

    assert!(manager.contains_chunk(&present));
    assert!(!manager.contains_chunk(&absent));
}

#[test]
fn remove_chunk() {
    let mut manager = ChunkManager::new();
    let pos = ChunkPos::from_raw(1, 2, 3);

    manager.insert_chunk(Chunk::new(pos));

    let removed = manager.remove_chunk(&pos).unwrap();

    assert_eq!(removed.chunk_pos(), pos);
    assert!(!manager.contains_chunk(&pos));
    assert!(manager.is_empty());
}

#[test]
fn remove_missing_chunk_returns_none() {
    let mut manager = ChunkManager::new();
    let pos = ChunkPos::from_raw(1, 2, 3);

    assert!(manager.remove_chunk(&pos).is_none());
}

#[test]
fn inserting_same_position_replaces_chunk() {
    let mut manager = ChunkManager::new();
    let pos = ChunkPos::from_raw(1, 2, 3);

    let first = Chunk::new(pos);

    let mut second = Chunk::new(pos);
    let _ = second.set(BatVoxel::new(VoxelPos::from_raw_checked(0, 0, 0), BlockId::new(42)));

    assert!(manager.insert_chunk(first).is_none());

    let replaced = manager.insert_chunk(second).unwrap();

    assert_eq!(replaced.chunk_pos(), pos);
    assert_eq!(replaced.version().as_u64(), 0);

    assert_eq!(manager.num_chunks(), 1);
    assert_eq!(
        manager
            .get_chunk(&pos)
            .unwrap()
            .get(VoxelPos::from_raw_checked(0, 0, 0))
            .id(),
        BlockId::new(42)
    );
}

#[test]
fn num_chunks_tracks_resident_chunks() {
    let mut manager = ChunkManager::new();

    let a = ChunkPos::from_raw(0, 0, 0);
    let b = ChunkPos::from_raw(1, 0, 0);
    let c = ChunkPos::from_raw(2, 0, 0);

    assert_eq!(manager.num_chunks(), 0);

    manager.insert_chunk(Chunk::new(a));
    assert_eq!(manager.num_chunks(), 1);

    manager.insert_chunk(Chunk::new(b));
    assert_eq!(manager.num_chunks(), 2);

    manager.insert_chunk(Chunk::new(c));
    assert_eq!(manager.num_chunks(), 3);

    manager.remove_chunk(&b);
    assert_eq!(manager.num_chunks(), 2);

    manager.remove_chunk(&a);
    manager.remove_chunk(&c);

    assert_eq!(manager.num_chunks(), 0);
}

#[test]
fn extreme_positions_do_not_collide() {
    let mut manager = ChunkManager::new();
    let positions = [
        ChunkPos::from_raw(i16::MIN, i16::MIN, i16::MIN),
        ChunkPos::from_raw(i16::MAX, i16::MAX, i16::MAX),
        ChunkPos::from_raw(-1, -1, -1),
        ChunkPos::from_raw(0, 0, 0),
        ChunkPos::from_raw(0, 0, -1),
        ChunkPos::from_raw(0, -1, 0),
        ChunkPos::from_raw(-1, 0, 0),
    ];
    for p in positions {
        assert!(manager.insert_chunk(Chunk::new(p)).is_none());
    }
    assert_eq!(manager.num_chunks(), positions.len());
    for p in positions {
        assert_eq!(manager.get_chunk(&p).unwrap().chunk_pos(), p);
    }
}
