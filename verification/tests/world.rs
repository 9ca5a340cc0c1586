use voxt::block_at::{BatVoxel, BatWorld};
use voxt::chunk::Chunk;
use voxt::chunk_pos::ChunkPos;
use voxt::command::{FailureReason, InvalidReason, WorldRequest, WorldResponse};
use voxt::voxel_pos::VoxelPos;
use voxt::world::World;
use voxt::world_pos::WorldPos;
use voxt::BlockId;

/// Blocks inside a chunk, one per `(x, y, z, id)`.
fn ck(items: &[(u8, u8, u8, u16)]) -> Vec<BatVoxel> {
    items
        .iter()
        .map(|&(x, y, z, id)| BatVoxel::new(VoxelPos::from_raw(x, y, z), BlockId::new(id)))
        .collect()
}

/// Blocks in the world, one per `(x, y, z, id)`.
fn wd(items: &[(i32, i32, i32, u16)]) -> Vec<BatWorld> {
    items
        .iter()
        .map(|&(x, y, z, id)| BatWorld::new(WorldPos::from_raw(x, y, z), BlockId::new(id)))
        .collect()
}

#[test]
fn new_world_has_no_chunks() {
    let world = World::new();

    assert!(world.chunks().is_empty());
    assert_eq!(world.chunks().num_chunks(), 0);
}

#[test]
fn world_can_access_chunk_manager() {
    let mut world = World::new();
    let pos = ChunkPos::from_raw(1, 2, 3);

    world.chunks_mut().insert_chunk(Chunk::new(pos));

    assert!(world.chunks().contains_chunk(&pos));
    assert_eq!(
        world.chunks().get_chunk(&pos).unwrap().chunk_pos().clone(),
        pos
    );
}

#[test]
fn world_can_mutate_chunk_manager() {
    let mut world = World::new();
    let chunk_pos = ChunkPos::from_raw(1, 2, 3);
    let voxel_pos = VoxelPos::from_raw(4, 5, 6);
    let block = BlockId::new(42);

    world.chunks_mut().insert_chunk(Chunk::new(chunk_pos));

    let mut chunk = world.chunks_mut().remove_chunk(&chunk_pos).unwrap();
    let _ = chunk.set(BatVoxel::new(voxel_pos, block));
    world.chunks_mut().insert_chunk(chunk);

    assert_eq!(
        world
            .chunks()
            .get_chunk(&chunk_pos)
            .unwrap()
            .get(voxel_pos)
            .id(),
        block
    );
}

#[test]
fn get_block_on_resident_and_on_missing() {
    let input = [
        WorldPos::from_raw(0, 0, 0),
        WorldPos::from_raw(35, 0, 0),
        WorldPos::from_raw(111, 111, 111),
    ];

    let expected = wd(&[(0, 0, 0, 0), (35, 0, 0, 0)]);

    let mut world = World::new();
    let chunk_pos0 = ChunkPos::from_raw(0, 0, 0);
    let chunk_pos1 = ChunkPos::from_raw(1, 0, 0);

    world.chunks_mut().insert_chunk(Chunk::new(chunk_pos0));
    world.chunks_mut().insert_chunk(Chunk::new(chunk_pos1));

    let res0 = world.apply(WorldRequest::GetBlock(input[0]));
    let res1 = world.apply(WorldRequest::GetBlock(input[1]));
    let res2 = world.apply(WorldRequest::GetBlock(input[2]));

    assert_eq!(WorldResponse::ReturnBlock(expected[0]), res0);
    assert_eq!(WorldResponse::ReturnBlock(expected[1]), res1);
    assert_eq!(
        WorldResponse::Failure {
            reason: FailureReason::ChunkNotInMemory
        },
        res2
    );
}

#[test]
fn set_block_on_resident_and_on_missing() {
    let input = wd(&[(0, 0, 0, 1), (35, 60, 37, 2), (283, 202, 1490, 3)]);

    let expected = wd(&[(0, 0, 0, 0), (35, 60, 37, 0)]);

    let mut world = World::new();
    let chunk_pos0 = ChunkPos::from_raw(0, 0, 0);
    let chunk_pos1 = ChunkPos::from_raw(1, 1, 1);

    world.chunks_mut().insert_chunk(Chunk::new(chunk_pos0));
    world.chunks_mut().insert_chunk(Chunk::new(chunk_pos1));

    let res0 = world.apply(WorldRequest::SetBlock(input[0]));
    let res1 = world.apply(WorldRequest::SetBlock(input[1]));
    let res2 = world.apply(WorldRequest::SetBlock(input[2]));

    assert_eq!(WorldResponse::ReturnBlock(expected[0]), res0);
    assert_eq!(WorldResponse::ReturnBlock(expected[1]), res1);
    assert_eq!(
        WorldResponse::Failure {
            reason: FailureReason::ChunkNotInMemory
        },
        res2
    );
}

#[test]
fn get_block_bulk_on_resident_and_on_missing() {
    let start0 = ck(&[
        (0, 0, 0, 10),
        (1, 1, 1, 11),
        (2, 2, 2, 12),
        (3, 3, 3, 13),
        (4, 4, 4, 14),
        (5, 5, 5, 15),
        (6, 6, 6, 16),
        (7, 7, 7, 17),
        (8, 8, 8, 18),
    ]);
    let input0 = vec![
        WorldPos::from_raw(0, 0, 0),
        WorldPos::from_raw(1, 1, 1),
        WorldPos::from_raw(2, 2, 2),
    ];
    let input1 = vec![
        WorldPos::from_raw(3, 3, 3),
        WorldPos::from_raw(4, 4, 4),
        WorldPos::from_raw(5, 5, 5),
    ];
    let input2 = vec![
        WorldPos::from_raw(32, 32, 32),
        WorldPos::from_raw(33, 33, 33),
        WorldPos::from_raw(34, 34, 34),
    ];
    let expected0 = wd(&[(0, 0, 0, 10), (1, 1, 1, 11), (2, 2, 2, 12)]);
    let expected1 = wd(&[(3, 3, 3, 13), (4, 4, 4, 14), (5, 5, 5, 15)]);

    let mut world = World::new();
    let chunk_pos0 = ChunkPos::from_raw(0, 0, 0);

    world
        .chunks_mut()
        .insert_chunk(Chunk::new_with(chunk_pos0, &start0));

    let res0 = world.apply(WorldRequest::GetBlockBulk(input0));
    let res1 = world.apply(WorldRequest::GetBlockBulk(input1));
    let res2 = world.apply(WorldRequest::GetBlockBulk(input2));

    assert_eq!(WorldResponse::ReturnBlockBulk(expected0), res0);
    assert_eq!(WorldResponse::ReturnBlockBulk(expected1), res1);
    assert_eq!(
        WorldResponse::Failure {
            reason: FailureReason::ChunkNotInMemory
        },
        res2
    );
}

#[test]
fn set_block_bulk_on_resident_and_on_missing() {
    let start = ck(&[
        (0, 0, 0, 10),
        (1, 1, 1, 11),
        (2, 2, 2, 12),
        (3, 3, 3, 13),
        (4, 4, 4, 14),
        (5, 5, 5, 15),
        (6, 6, 6, 16),
        (7, 7, 7, 17),
        (8, 8, 8, 18),
    ]);
    let input0 = wd(&[(0, 0, 0, 0), (1, 1, 1, 1), (2, 2, 2, 2), (3, 3, 3, 3)]);
    let input1 = wd(&[(4, 4, 4, 4), (5, 5, 5, 5), (6, 6, 6, 6)]);
    let input2 = wd(&[(7, 7, 7, 7), (8, 8, 8, 8), (99, 99, 99, 9)]);
    let input3 = vec![WorldPos::from_raw(7, 7, 7), WorldPos::from_raw(8, 8, 8)];
    let expected0 = wd(&[(0, 0, 0, 10), (1, 1, 1, 11), (2, 2, 2, 12), (3, 3, 3, 13)]);
    let expected1 = wd(&[(4, 4, 4, 14), (5, 5, 5, 15), (6, 6, 6, 16)]);
    let expected2 = wd(&[(7, 7, 7, 17), (8, 8, 8, 18)]);

    let mut world = World::new();
    let chunk_pos = ChunkPos::from_raw(0, 0, 0);

    world
        .chunks_mut()
        .insert_chunk(Chunk::new_with(chunk_pos, &start));

    let res0 = world.apply(WorldRequest::SetBlockBulk(input0));
    let res1 = world.apply(WorldRequest::SetBlockBulk(input1));
    let res2 = world.apply(WorldRequest::SetBlockBulk(input2));

    assert_eq!(WorldResponse::ReturnBlockBulk(expected0), res0);
    assert_eq!(WorldResponse::ReturnBlockBulk(expected1), res1);
    assert_eq!(
        WorldResponse::Failure {
            reason: FailureReason::ChunkNotInMemory
        },
        res2
    );

    let res3 = world.apply(WorldRequest::GetBlockBulk(input3));
    assert_eq!(WorldResponse::ReturnBlockBulk(expected2), res3);
}

#[test]
fn request_order_is_preserved() {
    let input = wd(&[
        (0, 0, 0, 0),
        (32, 1, 1, 1),
        (63, 2, 2, 2),
        (3, 3, 3, 3),
        (4, 4, 4, 4),
        (39, 5, 5, 5),
        (50, 6, 6, 6),
        (70, 7, 7, 7),
        (70, 7, 7, 8),
    ]);
    let expected = wd(&[
        (0, 0, 0, 0),
        (32, 1, 1, 0),
        (63, 2, 2, 0),
        (3, 3, 3, 0),
        (4, 4, 4, 0),
        (39, 5, 5, 0),
        (50, 6, 6, 0),
        (70, 7, 7, 0),
        (70, 7, 7, 7),
    ]);

    let mut world = World::new();
    let chunk_pos0 = ChunkPos::from_raw(0, 0, 0);
    let chunk_pos1 = ChunkPos::from_raw(1, 0, 0);
    let chunk_pos2 = ChunkPos::from_raw(2, 0, 0);

    {
        let manager = world.chunks_mut();

        manager.insert_chunk(Chunk::new(chunk_pos0));
        manager.insert_chunk(Chunk::new(chunk_pos1));
        manager.insert_chunk(Chunk::new(chunk_pos2));
    }

    let res = world.apply(WorldRequest::SetBlockBulk(input));

    assert_eq!(WorldResponse::ReturnBlockBulk(expected), res);
}

#[test]
fn empty_bulk_requests_are_invalid() {
    let mut world = World::new();
    world.chunks_mut().insert_chunk(Chunk::new(ChunkPos::from_raw(0, 0, 0)));
    assert_eq!(
        world.apply(WorldRequest::GetBlockBulk(vec![])),
        WorldResponse::Invalid { reason: InvalidReason::EmptyBlockBulkRequest }
    );
    assert_eq!(
        world.apply(WorldRequest::SetBlockBulk(vec![])),
        WorldResponse::Invalid { reason: InvalidReason::EmptyBlockBulkRequest }
    );
}

#[test]
fn read_after_write_gives_the_written_block() {
    let mut world = World::new();
    world.chunks_mut().insert_chunk(Chunk::new(ChunkPos::from_raw(-1, 0, 0)));
    let at = WorldPos::from_raw(-5, 3, 4);
    let other = WorldPos::from_raw(-6, 3, 4);
    let res = world.apply(WorldRequest::SetBlock(BatWorld::new(at, BlockId::new(77))));
    assert_eq!(res, WorldResponse::ReturnBlock(BatWorld::new(at, BlockId::new(0))));
    assert_eq!(
        world.apply(WorldRequest::GetBlock(at)),
        WorldResponse::ReturnBlock(BatWorld::new(at, BlockId::new(77)))
    );
    assert_eq!(
        world.apply(WorldRequest::GetBlock(other)),
        WorldResponse::ReturnBlock(BatWorld::new(other, BlockId::new(0)))
    );
    assert_eq!(
        world.chunks().get_chunk(&ChunkPos::from_raw(-1, 0, 0)).unwrap().version().as_u64(),
        1
    );
}

#[test]
fn failed_bulk_write_changes_nothing() {
    let mut world = World::new();
    world.chunks_mut().insert_chunk(Chunk::new(ChunkPos::from_raw(0, 0, 0)));
    let res = world.apply(WorldRequest::SetBlockBulk(wd(&[(1, 1, 1, 5), (40, 1, 1, 6)])));
    assert_eq!(res, WorldResponse::Failure { reason: FailureReason::ChunkNotInMemory });
    assert_eq!(
        world.apply(WorldRequest::GetBlock(WorldPos::from_raw(1, 1, 1))),
        WorldResponse::ReturnBlock(BatWorld::new(WorldPos::from_raw(1, 1, 1), BlockId::new(0)))
    );
}

#[test]
fn ticks_advance_one_at_a_time() {
    let mut world = World::new();
    assert_eq!(world.tick(), 0);
    world.advance();
    world.advance();
    assert_eq!(world.tick(), 2);
}

#[test]
fn read_after_bulk_write_gives_the_last_write() {
    let mut world = World::new();
    world.chunks_mut().insert_chunk(Chunk::new(ChunkPos::from_raw(0, 0, 0)));
    world.chunks_mut().insert_chunk(Chunk::new(ChunkPos::from_raw(1, 0, 0)));
    let writes = wd(&[(3, 3, 3, 1), (40, 3, 3, 2), (3, 3, 3, 4), (40, 3, 3, 0)]);
    let res = world.apply(WorldRequest::SetBlockBulk(writes));
    assert_eq!(
        res,
        WorldResponse::ReturnBlockBulk(wd(&[(3, 3, 3, 0), (40, 3, 3, 0), (3, 3, 3, 1), (40, 3, 3, 2)]))
    );
    let read = world.apply(WorldRequest::GetBlockBulk(vec![
        WorldPos::from_raw(3, 3, 3),
        WorldPos::from_raw(40, 3, 3),
        WorldPos::from_raw(4, 3, 3),
    ]));
    assert_eq!(read, WorldResponse::ReturnBlockBulk(wd(&[(3, 3, 3, 4), (40, 3, 3, 0), (4, 3, 3, 0)])));
}
