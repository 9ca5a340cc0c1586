use std::collections::HashMap;

use voxt::chunk_pos::ChunkPos;
use voxt::constants::CHUNK_SIZE;
use voxt::dir::Dir;
use voxt::nano_pos::NanoPos;
use voxt::voxel_pos::VoxelPos;
use voxt::world_pos::WorldPos;

#[test]
fn pos_from_raw_preserves_coordinates() {
    let pos = WorldPos::from_raw(1, -2, 3);

    assert_eq!(pos.pos(), (1, -2, 3));
    assert_eq!(pos.x(), 1);
    assert_eq!(pos.y(), -2);
    assert_eq!(pos.z(), 3);
}

#[test]
fn pos_tuple_conversion_preserves_coordinates() {
    let pos = WorldPos::from((1, 2, 3));

    assert_eq!(pos.pos(), (1, 2, 3));
}

#[test]
fn pos_array_conversion_preserves_coordinates() {
    let pos = WorldPos::from([1, 2, 3]);

    assert_eq!(pos.pos(), (1, 2, 3));
}

#[test]
fn pos_converts_to_tuple() {
    let pos = WorldPos::from_raw(1, 2, 3);

    let tuple: (i32, i32, i32) = pos.into();

    assert_eq!(tuple, (1, 2, 3));
}

#[test]
fn pos_converts_to_array() {
    let pos = WorldPos::from_raw(1, 2, 3);

    let array: [i32; 3] = pos.into();

    assert_eq!(array, [1, 2, 3]);
}

fn takes_chunk_pos(_: ChunkPos) {}

fn takes_world_voxel_pos(_: WorldPos) {}

#[test]
fn pos_position_aliases_are_usable_as_distinct_types() {
    let chunk = ChunkPos::from_raw(1, 2, 3);
    let world = WorldPos::from_raw(1, 2, 3);

    takes_chunk_pos(chunk);
    takes_world_voxel_pos(world);
}

#[test]
fn pos_try_new_accepts_valid_bounds() {
    assert!(VoxelPos::try_new(0, 0, 0).is_some());
    assert!(VoxelPos::try_new(31, 31, 31).is_some());
}

#[test]
fn pos_try_new_accepts_interior_coordinates() {
    let pos = VoxelPos::try_new(1, 2, 3).unwrap();

    assert_eq!(pos.pos(), (1, 2, 3));
}

#[test]
fn pos_try_new_rejects_invalid_x() {
    assert!(VoxelPos::try_new(32, 0, 0).is_none());
}

#[test]
fn pos_try_new_rejects_invalid_y() {
    assert!(VoxelPos::try_new(0, 32, 0).is_none());
}

#[test]
fn pos_try_new_rejects_invalid_z() {
    assert!(VoxelPos::try_new(0, 0, 32).is_none());
}

#[test]
fn pos_try_new_rejects_invalid_coordinates() {
    assert!(VoxelPos::try_new(32, 32, 32).is_none());
}

#[test]
fn pos_try_new_rejects_values_above_chunk_bounds() {
    assert!(VoxelPos::try_new(u8::MAX, 0, 0).is_none());
    assert!(VoxelPos::try_new(0, u8::MAX, 0).is_none());
    assert!(VoxelPos::try_new(0, 0, u8::MAX).is_none());
}

#[test]
fn from_raw_accepts_valid_coordinates() {
    let pos = VoxelPos::from_raw(31, 10, 0);

    assert_eq!(pos.pos(), (31, 10, 0));
}

#[test]
fn pos_world_origin_decomposes_correctly() {
    let world = WorldPos::from_raw(0, 0, 0);

    assert_eq!(ChunkPos::from(&world), ChunkPos::from_raw(0, 0, 0));
    assert_eq!(VoxelPos::from(&world), VoxelPos::from_raw(0, 0, 0));
}

#[test]
fn pos_last_voxel_of_first_chunk_decomposes_correctly() {
    let world = WorldPos::from_raw(31, 31, 31);

    assert_eq!(ChunkPos::from(&world), ChunkPos::from_raw(0, 0, 0));
    assert_eq!(VoxelPos::from(&world), VoxelPos::from_raw(31, 31, 31));
}

#[test]
fn pos_first_voxel_of_next_chunk_decomposes_correctly() {
    let world = WorldPos::from_raw(32, 32, 32);

    assert_eq!(ChunkPos::from(&world), ChunkPos::from_raw(1, 1, 1));
    assert_eq!(VoxelPos::from(&world), VoxelPos::from_raw(0, 0, 0));
}

#[test]
fn pos_negative_one_decomposes_to_previous_chunk_last_voxel() {
    let world = WorldPos::from_raw(-1, -1, -1);

    assert_eq!(ChunkPos::from(&world), ChunkPos::from_raw(-1, -1, -1));
    assert_eq!(VoxelPos::from(&world), VoxelPos::from_raw(31, 31, 31));
}

#[test]
fn pos_negative_chunk_boundary_decomposes_correctly() {
    let world = WorldPos::from_raw(-32, -32, -32);

    assert_eq!(ChunkPos::from(&world), ChunkPos::from_raw(-1, -1, -1));
    assert_eq!(VoxelPos::from(&world), VoxelPos::from_raw(0, 0, 0));
}

#[test]
fn pos_negative_coordinate_just_beyond_chunk_boundary_decomposes_correctly() {
    let world = WorldPos::from_raw(-33, -33, -33);

    assert_eq!(ChunkPos::from(&world), ChunkPos::from_raw(-2, -2, -2));
    assert_eq!(VoxelPos::from(&world), VoxelPos::from_raw(31, 31, 31));
}

#[test]
fn pos_mixed_sign_coordinates_decompose_independently() {
    let world = WorldPos::from_raw(-1, 0, 32);

    assert_eq!(ChunkPos::from(&world), ChunkPos::from_raw(-1, 0, 1));
    assert_eq!(VoxelPos::from(&world), VoxelPos::from_raw(31, 0, 0));
}

#[test]
fn pos_coordinate_decomposition_round_trips() {
    let cases = [
        (0, 0, 0),
        (1, 2, 3),
        (31, 31, 31),
        (32, 32, 32),
        (33, 47, 33),
        (-1, -1, -1),
        (-32, -32, -32),
        (-33, -33, -33),
        (-33, 42, 97),
    ];

    for (x, y, z) in cases {
        let world = WorldPos::from_raw(x, y, z);

        let chunk = ChunkPos::from(&world);
        let voxel = VoxelPos::from(&world);

        let reconstructed = WorldPos::from((chunk, voxel));

        assert_eq!(reconstructed, world, "round-trip failed for {world:?}");
    }
}

#[test]
fn pos_world_conversion_always_produces_valid_voxel_positions() {
    for x in -100..=100 {
        for y in -100..=100 {
            for z in -100..=100 {
                let world = WorldPos::from_raw(x, y, z);
                let voxel = VoxelPos::from(world);

                assert!(voxel.x() < CHUNK_SIZE as u8);
                assert!(voxel.y() < CHUNK_SIZE as u8);
                assert!(voxel.z() < CHUNK_SIZE as u8);
            }
        }
    }
}

#[test]
fn pos_chunk_pos_is_suitable_as_hash_map_key() {
    let mut chunks = HashMap::new();

    chunks.insert(ChunkPos::from_raw(-4, 7, 12), "chunk");

    assert_eq!(chunks.get(&ChunkPos::from_raw(-4, 7, 12)), Some(&"chunk"));
}

#[test]
fn public_position_api_supports_basic_world_coordinates() {
    let world = WorldPos::from_raw(-33, 12, 64);

    let chunk = ChunkPos::from(world);
    let voxel = VoxelPos::from(world);

    assert_eq!(chunk, ChunkPos::from_raw(-2, 0, 2));
    assert_eq!(voxel, VoxelPos::from_raw_checked(31, 12, 0));

    let reconstructed = WorldPos::from((chunk, voxel));

    assert_eq!(reconstructed, world);
}

#[test]
fn split_into_chunk_and_voxel_and_join_back() {
    let world = WorldPos::from_raw(-65, 100, 1000);
    let (chunk, voxel): (ChunkPos, VoxelPos) = world.into();
    assert_eq!(chunk, ChunkPos::from_raw(-3, 3, 31));
    assert_eq!(voxel, VoxelPos::from_raw(31, 4, 8));
    assert_eq!(WorldPos::from((&chunk, &voxel)), world);
    assert_eq!(chunk.into_world_pos(&voxel), world);
    assert_eq!(voxel.into_world_pos(&chunk), world);
    assert_eq!(world.into_chunk_and_voxel_pos(), (chunk, voxel));
    let (c2, v2): (ChunkPos, VoxelPos) = (&world).into();
    assert_eq!((c2, v2), (chunk, voxel));
}

#[test]
fn coordinate_conversions_of_chunk_and_voxel_positions() {
    assert_eq!(ChunkPos::from((1, -2, 3)).pos(), (1, -2, 3));
    assert_eq!(ChunkPos::from([1, -2, 3]).pos(), (1, -2, 3));
    let t: (i16, i16, i16) = ChunkPos::from_raw(4, 5, 6).into();
    assert_eq!(t, (4, 5, 6));
    let a: [i16; 3] = ChunkPos::from_raw(4, 5, 6).into();
    assert_eq!(a, [4, 5, 6]);
    assert_eq!(VoxelPos::from((1, 2, 3)).pos(), (1, 2, 3));
    assert_eq!(VoxelPos::from([1, 2, 3]).pos(), (1, 2, 3));
    let t: (u8, u8, u8) = VoxelPos::from_raw(7, 8, 9).into();
    assert_eq!(t, (7, 8, 9));
    let a: [u8; 3] = VoxelPos::from_raw(7, 8, 9).into();
    assert_eq!(a, [7, 8, 9]);
}

#[test]
fn world_try_new_checks_world_bounds() {
    assert!(WorldPos::try_new(524287, 511, -524288).is_some());
    assert!(WorldPos::try_new(524288, 0, 0).is_none());
    assert!(WorldPos::try_new(0, 512, 0).is_none());
    assert!(WorldPos::try_new(0, -513, 0).is_none());
    assert!(ChunkPos::try_new(16383, 15, -16384).is_some());
    assert!(ChunkPos::try_new(0, 16, 0).is_none());
    assert!(ChunkPos::try_new(-16385, 0, 0).is_none());
}

#[test]
fn neighbor_steps_one_voxel_and_stays_in_bounds() {
    let v = VoxelPos::from_raw(0, 5, 31);
    assert_eq!(v.neighbor(Dir::Up), Some(VoxelPos::from_raw(0, 6, 31)));
    assert_eq!(v.neighbor(Dir::Down), Some(VoxelPos::from_raw(0, 4, 31)));
    assert_eq!(v.neighbor(Dir::Left), None);
    assert_eq!(v.neighbor(Dir::Right), Some(VoxelPos::from_raw(1, 5, 31)));
    assert_eq!(v.neighbor(Dir::Front), None);
    assert_eq!(v.neighbor(Dir::Back), Some(VoxelPos::from_raw(0, 5, 30)));

    let w = WorldPos::from_raw(-3, 511, 7);
    assert_eq!(w.neighbor(Dir::Up), None);
    assert_eq!(w.neighbor(Dir::Left), Some(WorldPos::from_raw(-4, 511, 7)));

    let c = ChunkPos::from_raw(0, -16, 0);
    assert_eq!(c.neighbor(Dir::Down), None);
    assert_eq!(c.neighbor(Dir::Up), Some(ChunkPos::from_raw(0, -15, 0)));
}

#[test]
fn neighborhood_follows_direction_order() {
    let v = VoxelPos::from_raw(1, 1, 1);
    let n = v.neighborhood();
    let dirs = Dir::iter();
    for i in 0..6 {
        assert_eq!(n[i], v.neighbor(dirs[i]));
    }
}

#[test]
fn checked_add_and_sub_stay_in_bounds() {
    let a = VoxelPos::from_raw(10, 20, 30);
    let b = VoxelPos::from_raw(1, 2, 1);
    assert_eq!(a.checked_add(&b), Some(VoxelPos::from_raw(11, 22, 31)));
    assert_eq!(a.checked_sub(&b), Some(VoxelPos::from_raw(9, 18, 29)));
    assert_eq!(a.checked_add(&VoxelPos::from_raw(0, 0, 2)), None);
    assert_eq!(b.checked_sub(&a), None);
    let w = WorldPos::from_raw(524287, 0, 0);
    assert_eq!(w.checked_add(&WorldPos::from_raw(1, 0, 0)), None);
    assert_eq!(
        WorldPos::from_raw(-5, 3, 2).checked_sub(&WorldPos::from_raw(5, 3, -2)),
        Some(WorldPos::from_raw(-10, 0, 4))
    );
}

#[test]
fn distances_between_positions() {
    let a = WorldPos::from_raw(1, 2, 3);
    let b = WorldPos::from_raw(-2, 6, 3);
    assert_eq!(a.dist_euclid_2(&b), 25);
    assert_eq!(a.dist_manhattan(&b), 7);
    let c = ChunkPos::from_raw(0, 0, 0);
    let d = ChunkPos::from_raw(3, -4, 12);
    assert_eq!(c.dist_euclid_2(&d), 169);
    assert_eq!(d.dist_manhattan(&c), 19);
    let v = VoxelPos::from_raw(0, 0, 0);
    assert_eq!(v.dist_euclid_2(&VoxelPos::from_raw(31, 31, 31)), 3 * 961);
}

#[test]
fn directions_invert_and_map_to_offsets() {
    for d in Dir::iter() {
        assert_eq!(d.inv().inv(), d);
        assert_eq!(Dir::from_off_tuple(d.as_off_tuple()), Some(d));
        assert_eq!(Dir::from_off_array(d.as_off_array()), Some(d));
        assert_ne!(d.inv(), d);
        assert!(d.is_plus() != d.is_minus());
        let axes = [d.is_x(), d.is_y(), d.is_z()];
        assert_eq!(axes.iter().filter(|a| **a).count(), 1);
    }
    assert_eq!(Dir::Up.as_off_tuple(), (0, 1, 0));
    assert_eq!(Dir::Left.as_off_array(), [-1, 0, 0]);
    assert_eq!(Dir::from_off_tuple((1, 1, 0)), None);
    assert_eq!(Dir::from_off_array([0, 0, 0]), None);
    assert!(Dir::Front.is_z() && Dir::Front.is_plus());
}

#[test]
fn nano_pos_keeps_its_coordinates() {
    let n = NanoPos::new(1, 200, 255);
    assert_eq!(n.coord(), (1, 200, 255));
    assert_eq!((n.x(), n.y(), n.z()), (1, 200, 255));
    assert_eq!(NanoPos::from_u8_tuple((1, 200, 255)), n);
    assert_eq!(NanoPos::from_u8_array([1, 200, 255]), n);
    assert_eq!(NanoPos::default().coord(), (0, 0, 0));
}

#[test]
fn adding_and_subtracting_positions_checks_the_grid() {
    assert_eq!(
        VoxelPos::from_raw(1, 2, 3) + VoxelPos::from_raw(4, 5, 6),
        Some(VoxelPos::from_raw(5, 7, 9))
    );
    assert_eq!(VoxelPos::from_raw(30, 0, 0) + VoxelPos::from_raw(2, 0, 0), None);
    assert_eq!(VoxelPos::from_raw(1, 0, 0) - VoxelPos::from_raw(2, 0, 0), None);
    assert_eq!(
        ChunkPos::from_raw(-3, 2, 1) - ChunkPos::from_raw(1, 2, 3),
        Some(ChunkPos::from_raw(-4, 0, -2))
    );
    assert_eq!(ChunkPos::from_raw(0, 15, 0) + ChunkPos::from_raw(0, 1, 0), None);
    assert_eq!(
        WorldPos::from_raw(100, -20, 7) + WorldPos::from_raw(-50, 10, 3),
        Some(WorldPos::from_raw(50, -10, 10))
    );
    assert_eq!(WorldPos::from_raw(0, -512, 0) - WorldPos::from_raw(0, 1, 0), None);
}

#[test]
fn directions_have_labels() {
    assert_eq!(Dir::Up.label(), "Up (+Y)");
    assert_eq!(Dir::Down.label(), "Down (-Y)");
    assert_eq!(Dir::Left.label(), "Left (-X)");
    assert_eq!(Dir::Right.label(), "Right (+X)");
    assert_eq!(Dir::Front.label(), "Front (+Z)");
    assert_eq!(Dir::Back.label(), "Back (-Z)");
}

#[test]
fn from_raw_checked_keeps_valid_coordinates() {
    assert_eq!(VoxelPos::from_raw_checked(31, 0, 17).pos(), (31, 0, 17));
}
