use voxt::block_at::BatVoxel;
use voxt::chunk::Chunk;
use voxt::chunk_pos::ChunkPos;
use voxt::voxel_pos::VoxelPos;
use voxt::BlockId;

fn air() -> BlockId {
    BlockId::air()
}

/// Blocks inside a chunk, one per `(x, y, z, id)`.
fn ck(items: &[(u8, u8, u8, u16)]) -> Vec<BatVoxel> {
    items
        .iter()
        .map(|&(x, y, z, id)| BatVoxel::new(VoxelPos::from_raw(x, y, z), BlockId::new(id)))
        .collect()
}

fn output_for(blocks: &[BatVoxel]) -> Vec<BatVoxel> {
    blocks
        .iter()
        .map(|block| BatVoxel::new(block.pos(), air()))
        .collect()
}

#[test]
fn new_chunk_is_empty() {
    let chunk = Chunk::new(ChunkPos::from_raw(0, 0, 0));

    assert_eq!(chunk.chunk_pos().clone(), ChunkPos::from_raw(0, 0, 0));
    assert_eq!(chunk.version().as_u64(), 0);
}

#[test]
fn new_chunk_contains_only_air() {
    let chunk = Chunk::new(ChunkPos::from_raw(0, 0, 0));

    let positions = [
        VoxelPos::from_raw(0, 0, 0),
        VoxelPos::from_raw(1, 2, 3),
        VoxelPos::from_raw(30, 30, 30),
        VoxelPos::from_raw(15, 20, 7),
    ];

    for pos in positions {
        assert_eq!(chunk.get(pos).id(), air());
        assert_eq!(chunk.get(pos).pos(), pos);
    }
}

#[test]
fn new_with_places_blocks_at_requested_positions() {
    let chunk = Chunk::new_with(
        ChunkPos::from_raw(0, 0, 0),
        &ck(&[(1, 2, 3, 1), (30, 30, 30, 2)]),
    );

    assert_eq!(chunk.get(VoxelPos::from_raw(1, 2, 3)).id(), BlockId::new(1));

    assert_eq!(
        chunk.get(VoxelPos::from_raw(30, 30, 30)).id(),
        BlockId::new(2)
    );

    assert_eq!(chunk.get(VoxelPos::from_raw(0, 0, 0)).id(), air());
}

#[test]
fn setting_one_voxel_does_not_change_neighbors() {
    let mut chunk = Chunk::new(ChunkPos::from_raw(0, 0, 0));

    let target = VoxelPos::from_raw(5, 6, 7);
    let other = VoxelPos::from_raw(5, 6, 8);

    let stone = BlockId::new(1);

    let _ = chunk.set(BatVoxel::new(target, stone));

    assert_eq!(chunk.get(target).id(), stone);
    assert_eq!(chunk.get(other).id(), air());
}

#[test]
fn set_returns_previous_block() {
    let mut chunk = Chunk::new(ChunkPos::from_raw(0, 0, 0));

    let pos = VoxelPos::from_raw(3, 4, 5);
    let stone = BlockId::new(1);
    let dirt = BlockId::new(2);

    let old = chunk.set(BatVoxel::new(pos, stone));

    assert_eq!(old.pos(), pos);
    assert_eq!(old.id(), air());

    let old = chunk.set(BatVoxel::new(pos, dirt));

    assert_eq!(old.pos(), pos);
    assert_eq!(old.id(), stone);

    assert_eq!(chunk.get(pos).id(), dirt);
}

#[test]
fn air_to_block_and_back_to_air_works() {
    let mut chunk = Chunk::new(ChunkPos::from_raw(0, 0, 0));

    let pos = VoxelPos::from_raw(10, 20, 30);
    let stone = BlockId::new(1);

    assert_eq!(chunk.get(pos).id(), air());

    let _ = chunk.set(BatVoxel::new(pos, stone));
    assert_eq!(chunk.get(pos).id(), stone);

    let _ = chunk.set(BatVoxel::new(pos, air()));
    assert_eq!(chunk.get(pos).id(), air());
}

#[test]
fn setting_same_block_is_a_no_op() {
    let mut chunk = Chunk::new(ChunkPos::from_raw(0, 0, 0));

    let pos = VoxelPos::from_raw(1, 1, 1);
    let stone = BlockId::new(1);

    let _ = chunk.set(BatVoxel::new(pos, stone));
    let version_after_change = chunk.version();

    let old = chunk.set(BatVoxel::new(pos, stone));

    assert_eq!(old.id(), stone);
    assert_eq!(chunk.version(), version_after_change);
    assert_eq!(chunk.get(pos).id(), stone);
}

#[test]
fn mutation_increments_version_once() {
    let mut chunk = Chunk::new(ChunkPos::from_raw(0, 0, 0));

    let pos = VoxelPos::from_raw(1, 2, 3);
    let stone = BlockId::new(1);

    assert_eq!(chunk.version().as_u64(), 0);

    let _ = chunk.set(BatVoxel::new(pos, stone));

    assert_eq!(chunk.version().as_u64(), 1);

    let _ = chunk.set(BatVoxel::new(pos, BlockId::new(2)));

    assert_eq!(chunk.version().as_u64(), 2);
}

#[test]
fn changing_back_to_air_is_still_a_mutation() {
    let mut chunk = Chunk::new(ChunkPos::from_raw(0, 0, 0));

    let pos = VoxelPos::from_raw(1, 2, 3);
    let stone = BlockId::new(1);

    let _ = chunk.set(BatVoxel::new(pos, stone));
    assert_eq!(chunk.version().as_u64(), 1);

    let _ = chunk.set(BatVoxel::new(pos, air()));
    assert_eq!(chunk.version().as_u64(), 2);
}

#[test]
fn all_chunk_corners_are_addressable() {
    let mut chunk = Chunk::new(ChunkPos::from_raw(0, 0, 0));

    let corners = [
        VoxelPos::from_raw(0, 0, 0),
        VoxelPos::from_raw(0, 0, 31),
        VoxelPos::from_raw(0, 31, 0),
        VoxelPos::from_raw(0, 31, 31),
        VoxelPos::from_raw(31, 0, 0),
        VoxelPos::from_raw(31, 0, 31),
        VoxelPos::from_raw(31, 31, 0),
        VoxelPos::from_raw(31, 31, 31),
    ];

    for (i, pos) in corners.into_iter().enumerate() {
        let block = BlockId::new((i + 1) as u16);

        let _ = chunk.set(BatVoxel::new(pos, block));
    }

    for (i, pos) in corners.into_iter().enumerate() {
        assert_eq!(chunk.get(pos).id(), BlockId::new((i + 1) as u16));
    }
}

#[test]
fn distinct_positions_remain_distinct() {
    let mut chunk = Chunk::new(ChunkPos::from_raw(0, 0, 0));

    let positions = [
        VoxelPos::from_raw(0, 0, 0),
        VoxelPos::from_raw(1, 0, 0),
        VoxelPos::from_raw(0, 1, 0),
        VoxelPos::from_raw(0, 0, 1),
        VoxelPos::from_raw(31, 0, 0),
        VoxelPos::from_raw(0, 31, 0),
        VoxelPos::from_raw(0, 0, 31),
        VoxelPos::from_raw(31, 31, 31),
    ];

    for (i, pos) in positions.into_iter().enumerate() {
        let _ = chunk.set(BatVoxel::new(pos, BlockId::new((i + 1) as u16)));
    }

    for (i, pos) in positions.into_iter().enumerate() {
        assert_eq!(chunk.get(pos).id(), BlockId::new((i + 1) as u16));
    }
}

#[test]
fn get_bulk_preserves_requested_order() {
    let chunk = Chunk::new_with(
        ChunkPos::from_raw(0, 0, 0),
        &ck(&[(1, 2, 3, 1), (4, 5, 6, 2), (7, 8, 9, 3)]),
    );

    let requested = [
        VoxelPos::from_raw(7, 8, 9),
        VoxelPos::from_raw(1, 2, 3),
        VoxelPos::from_raw(4, 5, 6),
    ];

    let mut blocks = requested
        .iter()
        .map(|&pos| BatVoxel::new(pos, air()))
        .collect::<Vec<_>>();
    chunk.get_bulk(&requested, &mut blocks);

    assert_eq!(blocks.len(), 3);
    assert_eq!(blocks[0].pos(), requested[0]);
    assert_eq!(blocks[1].pos(), requested[1]);
    assert_eq!(blocks[2].pos(), requested[2]);

    assert_eq!(blocks[0].id(), BlockId::new(3));
    assert_eq!(blocks[1].id(), BlockId::new(1));
    assert_eq!(blocks[2].id(), BlockId::new(2));
}

#[test]
fn get_bulk_on_empty_chunk_returns_air() {
    let chunk = Chunk::new(ChunkPos::from_raw(0, 0, 0));

    let positions = [
        VoxelPos::from_raw(0, 0, 0),
        VoxelPos::from_raw(10, 20, 30),
        VoxelPos::from_raw(31, 31, 31),
    ];

    let mut blocks = positions
        .iter()
        .map(|&pos| BatVoxel::new(pos, air()))
        .collect::<Vec<_>>();
    chunk.get_bulk(&positions, &mut blocks);

    assert_eq!(blocks.len(), positions.len());

    for (block, &pos) in blocks.iter().zip(positions.iter()) {
        assert_eq!(block.pos(), pos);
        assert_eq!(block.id(), air());
    }
}

#[test]
fn empty_get_bulk_request_leaves_output_unchanged() {
    let chunk = Chunk::new(ChunkPos::from_raw(0, 0, 0));
    let pos = VoxelPos::from_raw(1, 2, 3);
    let mut output = vec![BatVoxel::new(pos, BlockId::new(7))];

    chunk.get_bulk(&[], &mut output);

    assert_eq!(output, [BatVoxel::new(pos, BlockId::new(7))]);
}

#[test]
fn set_bulk_returns_previous_blocks() {
    let mut chunk = Chunk::new(ChunkPos::from_raw(0, 0, 0));

    let positions = &[
        VoxelPos::from_raw(1, 2, 3),
        VoxelPos::from_raw(4, 5, 6),
        VoxelPos::from_raw(7, 8, 9),
    ];

    let blocks = &[BlockId::new(1), BlockId::new(2), BlockId::new(3)];

    let requests = BatVoxel::new_bulk(positions, blocks);
    let mut output = output_for(&requests);
    chunk.set_bulk(&requests, &mut output);

    assert_eq!(output.len(), 3);

    for (old_block, &pos) in output.iter().zip(positions.iter()) {
        assert_eq!(old_block.pos(), pos);
        assert_eq!(old_block.id(), air());
    }

    for (&pos, &block) in positions.iter().zip(blocks.iter()) {
        assert_eq!(chunk.get(pos).id(), block);
    }
}

#[test]
fn set_bulk_returns_current_values_on_replacement() {
    let mut chunk = Chunk::new(ChunkPos::from_raw(0, 0, 0));

    let positions = &[VoxelPos::from_raw(1, 2, 3), VoxelPos::from_raw(4, 5, 6)];

    let first = &[BlockId::new(1), BlockId::new(2)];

    let second = &[BlockId::new(3), BlockId::new(4)];

    let first_blocks = BatVoxel::new_bulk(positions, first);
    let mut first_output = output_for(&first_blocks);
    chunk.set_bulk(&first_blocks, &mut first_output);

    let second_blocks = BatVoxel::new_bulk(positions, second);
    let mut second_output = output_for(&second_blocks);
    chunk.set_bulk(&second_blocks, &mut second_output);

    assert_eq!(second_output[0].id(), first[0]);
    assert_eq!(second_output[1].id(), first[1]);

    assert_eq!(chunk.get(positions[0]).id(), second[0]);
    assert_eq!(chunk.get(positions[1]).id(), second[1]);
}

#[test]
fn set_bulk_respects_position_order() {
    let mut chunk = Chunk::new(ChunkPos::from_raw(0, 0, 0));

    let a = VoxelPos::from_raw(1, 2, 3);
    let b = VoxelPos::from_raw(10, 20, 30);
    let c = VoxelPos::from_raw(31, 31, 31);

    let positions = &[c, a, b];
    let blocks = &[BlockId::new(3), BlockId::new(1), BlockId::new(2)];

    let blocks = BatVoxel::new_bulk(positions, blocks);
    let mut output = output_for(&blocks);
    chunk.set_bulk(&blocks, &mut output);

    assert_eq!(chunk.get(c).id(), BlockId::new(3));
    assert_eq!(chunk.get(a).id(), BlockId::new(1));
    assert_eq!(chunk.get(b).id(), BlockId::new(2));
}

#[test]
fn bulk_setting_air_keeps_chunk_effectively_empty() {
    let mut chunk = Chunk::new(ChunkPos::from_raw(0, 0, 0));

    let positions = &[VoxelPos::from_raw(1, 2, 3), VoxelPos::from_raw(4, 5, 6)];

    let blocks = &[air(), air()];

    let requests = BatVoxel::new_bulk(positions, blocks);
    let mut output = output_for(&requests);
    chunk.set_bulk(&requests, &mut output);

    assert_eq!(output[0].id(), air());
    assert_eq!(output[1].id(), air());

    for &pos in positions {
        assert_eq!(chunk.get(pos).id(), air());
    }
}

#[test]
fn bulk_setting_blocks_then_air_restores_air_state() {
    let mut chunk = Chunk::new(ChunkPos::from_raw(0, 0, 0));

    let positions = &[VoxelPos::from_raw(1, 2, 3), VoxelPos::from_raw(4, 5, 6)];

    let blocks = BatVoxel::new_bulk(positions, &[BlockId::new(1), BlockId::new(2)]);
    let mut output = output_for(&blocks);
    chunk.set_bulk(&blocks, &mut output);

    let blocks = BatVoxel::new_bulk(positions, &[air(), air()]);
    let mut output = output_for(&blocks);
    chunk.set_bulk(&blocks, &mut output);

    for &pos in positions {
        assert_eq!(chunk.get(pos).id(), air());
    }
}

#[test]
fn set_bulk_applies_duplicate_positions_in_order() {
    let mut chunk = Chunk::new(ChunkPos::from_raw(0, 0, 0));
    let pos = VoxelPos::from_raw(10, 20, 30);
    let requests = ck(&[(10, 20, 30, 1), (10, 20, 30, 2)]);
    let mut output = output_for(&requests);

    chunk.set_bulk(&requests, &mut output);

    assert_eq!(output[0].id(), air());
    assert_eq!(output[1].id(), BlockId::new(1));
    assert_eq!(chunk.get(pos).id(), BlockId::new(2));
    assert_eq!(chunk.version().as_u64(), 1);
}

#[test]
fn empty_set_bulk_request_is_a_no_op() {
    let mut chunk = Chunk::new(ChunkPos::from_raw(0, 0, 0));
    let pos = VoxelPos::from_raw(1, 2, 3);
    let mut output = vec![BatVoxel::new(pos, BlockId::new(7))];

    chunk.set_bulk(&[], &mut output);

    assert_eq!(output, [BatVoxel::new(pos, BlockId::new(7))]);
    assert_eq!(chunk.version().as_u64(), 0);
    assert_eq!(chunk.get(pos).id(), air());
}

#[test]
fn set_bulk_increments_version_once_for_multiple_changes() {
    let mut chunk = Chunk::new(ChunkPos::from_raw(0, 0, 0));

    let voxels = ck(&[(1, 2, 3, 1), (4, 5, 6, 2), (7, 8, 9, 3)]);

    let voxels = voxels.to_vec();
    let mut output = output_for(&voxels);
    chunk.set_bulk(&voxels, &mut output);

    assert_eq!(chunk.version().as_u64(), 1);
}

#[test]
fn repeated_identical_bulk_set_is_a_no_op() {
    let mut chunk = Chunk::new(ChunkPos::from_raw(0, 0, 0));

    let voxels = ck(&[(1, 2, 3, 1), (4, 5, 6, 2)]);

    let first = voxels.to_vec();
    let mut first_output = output_for(&first);
    chunk.set_bulk(&first, &mut first_output);
    assert_eq!(chunk.version().as_u64(), 1);

    let second = voxels.to_vec();
    let mut second_output = output_for(&second);
    chunk.set_bulk(&second, &mut second_output);
    assert_eq!(chunk.version().as_u64(), 1);
}

#[test]
fn public_chunk_api_supports_read_modify_read() {
    let mut chunk = Chunk::new(ChunkPos::from_raw(4, -2, 7));

    let pos = VoxelPos::from_raw(10, 20, 30);
    let stone = BlockId::new(1);

    assert_eq!(chunk.get(pos).id(), air());

    let voxels = ck(&[(10, 20, 30, stone.id())]).to_vec();

    let mut output = vec![BatVoxel::new(pos, air()); voxels.len()];
    chunk.set_bulk(&voxels, &mut output);

    assert_eq!(output[0].id(), air());
    assert_eq!(chunk.get(pos).id(), stone);
    assert_eq!(chunk.chunk_pos().clone(), ChunkPos::from_raw(4, -2, 7));
}

#[test]
fn bulk_set_applies_duplicate_coordinates_in_order() {
    let mut chunk = Chunk::new(ChunkPos::from_raw(0, 0, 0));
    let pos = VoxelPos::from_raw(10, 20, 30);
    let requests = ck(&[(10, 20, 30, 1), (10, 20, 30, 2)]);
    let mut output = vec![BatVoxel::new(pos, air()); requests.len()];

    chunk.set_bulk(&requests, &mut output);

    assert_eq!(output[0].id(), air());
    assert_eq!(output[1].id(), BlockId::new(1));
    assert_eq!(chunk.get(pos).id(), BlockId::new(2));
}

#[test]
fn non_air_counts_non_air_voxels() {
    let mut chunk = Chunk::new(ChunkPos::from_raw(0, 0, 0));
    assert_eq!(chunk.non_air(), 0);
    let _ = chunk.set(BatVoxel::new(VoxelPos::from_raw(0, 0, 0), BlockId::new(3)));
    let _ = chunk.set(BatVoxel::new(VoxelPos::from_raw(0, 0, 1), BlockId::new(4)));
    assert_eq!(chunk.non_air(), 2);
    let _ = chunk.set(BatVoxel::new(VoxelPos::from_raw(0, 0, 1), BlockId::new(5)));
    assert_eq!(chunk.non_air(), 2);
    let _ = chunk.set(BatVoxel::new(VoxelPos::from_raw(0, 0, 0), air()));
    assert_eq!(chunk.non_air(), 1);
    let full = Chunk::new_with(ChunkPos::from_raw(0, 0, 0), &ck(&[(1, 1, 1, 9), (1, 1, 1, 0)]));
    assert_eq!(full.non_air(), 0);
}

#[test]
fn later_write_wins_and_untouched_positions_keep_air() {
    let blocks = ck(&[(2, 2, 2, 5), (3, 3, 3, 6), (2, 2, 2, 7)]);
    let chunk = Chunk::new_with(ChunkPos::from_raw(1, 1, 1), &blocks);
    assert_eq!(chunk.get(VoxelPos::from_raw(2, 2, 2)).id(), BlockId::new(7));
    assert_eq!(chunk.get(VoxelPos::from_raw(3, 3, 3)).id(), BlockId::new(6));
    assert_eq!(chunk.get(VoxelPos::from_raw(4, 4, 4)).id(), air());
}
