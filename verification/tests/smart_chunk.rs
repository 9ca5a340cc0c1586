use voxt::block_at::BatVoxel;
use voxt::chunk::Chunk;
use voxt::chunk_pos::ChunkPos;
use voxt::smart_chunk::SmartChunk;
use voxt::voxel_pos::VoxelPos;
use voxt::BlockId;

fn air() -> BlockId {
    BlockId::air()
}

fn position(index: usize) -> VoxelPos {
    VoxelPos::from_raw(
        ((index / 32) % 32) as u8,
        (index / (32 * 32)) as u8,
        (index % 32) as u8,
    )
}

#[test]
fn reads_and_writes_every_packed_position() {
    let mut chunk = SmartChunk::new();

    for index in 0..SmartChunk::VOL {
        let block_id = BlockId::new((index % 3 + 1) as u16);
        assert_eq!(chunk.set(position(index), block_id), air());
    }

    for index in 0..SmartChunk::VOL {
        assert_eq!(
            chunk.get(position(index)),
            BlockId::new((index % 3 + 1) as u16)
        );
    }
}

#[test]
fn palette_grows_and_shrinks_without_losing_values() {
    let mut chunk = SmartChunk::new();

    for id in 1..=257 {
        assert_eq!(chunk.set(position(id as usize), BlockId::new(id)), air());
    }
    assert_eq!(chunk.step(), 16);

    for id in 12..=257 {
        chunk.set(position(id as usize), air());
    }
    assert_eq!(chunk.step(), 4);

    for id in 1..=11 {
        assert_eq!(chunk.get(position(id as usize)), BlockId::new(id));
    }
    assert_eq!(chunk.get(position(12)), air());
}

#[test]
fn new_with_applies_duplicate_positions_in_order() {
    let pos = VoxelPos::from_raw(3, 4, 5);
    let chunk = SmartChunk::new_with(&[
        BatVoxel::new(pos, BlockId::new(1)),
        BatVoxel::new(pos, BlockId::new(2)),
    ]);

    assert_eq!(chunk.get(pos), BlockId::new(2));
}

#[test]
fn new_smart_chunk_is_all_air_with_narrow_indices() {
    let chunk = SmartChunk::new();
    assert_eq!(chunk.step(), 4);
    assert_eq!(chunk.get(VoxelPos::from_raw(31, 31, 31)), air());
    assert_eq!(chunk.get(VoxelPos::from_raw(0, 0, 0)), air());
}

#[test]
fn indices_widen_to_eight_bits_past_sixteen_ids() {
    let mut chunk = SmartChunk::new();
    for id in 1..=15u16 {
        chunk.set(position(id as usize), BlockId::new(id));
    }
    assert_eq!(chunk.step(), 4);
    chunk.set(position(16), BlockId::new(16));
    assert_eq!(chunk.step(), 8);
    for id in 1..=16u16 {
        assert_eq!(chunk.get(position(id as usize)), BlockId::new(id));
    }
}

#[test]
fn rewriting_an_id_keeps_the_palette_width() {
    let mut chunk = SmartChunk::new();
    let p = VoxelPos::from_raw(1, 2, 3);
    assert_eq!(chunk.set(p, BlockId::new(9)), air());
    assert_eq!(chunk.set(p, BlockId::new(9)), BlockId::new(9));
    assert_eq!(chunk.set(p, air()), BlockId::new(9));
    assert_eq!(chunk.get(p), air());
    assert_eq!(chunk.step(), 4);
}

#[test]
fn smart_chunk_agrees_with_naive_chunk() {
    let writes: Vec<BatVoxel> = (0..2000usize)
        .map(|i| BatVoxel::new(position((i * 7919) % 32768), BlockId::new((i % 300) as u16)))
        .collect();
    let smart = SmartChunk::new_with(&writes);
    let naive = Chunk::new_with(ChunkPos::from_raw(0, 0, 0), &writes);
    for index in 0..SmartChunk::VOL {
        assert_eq!(smart.get(position(index)), naive.get(position(index)).id());
    }
}

#[test]
fn narrowing_leaves_room_before_the_next_widening() {
    let mut chunk = SmartChunk::new();
    for id in 1..=16u16 {
        chunk.set(position(id as usize), BlockId::new(id));
    }
    assert_eq!(chunk.step(), 8);
    // Clearing ids until at most twelve are in use narrows back to 4 bits.
    for id in 5..=16u16 {
        chunk.set(position(id as usize), air());
    }
    assert_eq!(chunk.step(), 4);
    // Four new ids fit again without widening.
    for id in 100..104u16 {
        chunk.set(position(id as usize), BlockId::new(id));
    }
    assert_eq!(chunk.step(), 4);
}

#[test]
fn overwriting_one_voxel_with_many_ids_keeps_the_palette_small() {
    let mut chunk = SmartChunk::new();
    let p = VoxelPos::from_raw(7, 7, 7);
    for id in 1..=2000u16 {
        chunk.set(p, BlockId::new(id));
    }
    assert_eq!(chunk.get(p), BlockId::new(2000));
    assert!(chunk.step() <= 8);
}
