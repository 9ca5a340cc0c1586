//! Conversions between positions and their coordinates, and between a world
//! position and the chunk and voxel positions it splits into.

use vstd::prelude::*;
use vstd::std_specs::convert::{FromSpec, FromSpecImpl};

use crate::block_at::{BatVoxel, BatWorld, BlockAt};
use crate::chunk_pos::ChunkPos;
use crate::voxel_pos::VoxelPos;
use crate::world_pos::{chunk_coord, voxel_coord, world_coord, WorldPos};

verus! {

broadcast use {
    BlockAt::lemma_spec_new,
    BlockAt::lemma_fields_eq,
    WorldPos::lemma_view_eq,
    WorldPos::lemma_spec_new,
    ChunkPos::lemma_view_eq,
    ChunkPos::lemma_spec_new,
    VoxelPos::lemma_view_eq,
    VoxelPos::lemma_spec_new,
};

/// The position of the chunk that holds `w`.
pub open spec fn chunk_of_spec(w: WorldPos) -> ChunkPos {
    ChunkPos::spec_new(chunk_coord(w@.0), chunk_coord(w@.1), chunk_coord(w@.2))
}

/// The position of `w` inside its chunk.
pub open spec fn voxel_of_spec(w: WorldPos) -> VoxelPos {
    VoxelPos::spec_new(voxel_coord(w@.0), voxel_coord(w@.1), voxel_coord(w@.2))
}

/// The world position of voxel `v` inside the chunk at `c`.
pub open spec fn joined_spec(c: ChunkPos, v: VoxelPos) -> WorldPos {
    WorldPos::spec_new(world_coord(c@.0, v@.0), world_coord(c@.1, v@.1), world_coord(c@.2, v@.2))
}

impl FromSpecImpl<(i32, i32, i32)> for WorldPos {
    open spec fn obeys_from_spec() -> bool {
        true
    }

    open spec fn from_spec(v: (i32, i32, i32)) -> Self {
        WorldPos::spec_new(v.0, v.1, v.2)
    }
}

impl From<(i32, i32, i32)> for WorldPos {
    fn from(v: (i32, i32, i32)) -> (r: Self) {
        let r = WorldPos::from_raw(v.0, v.1, v.2);
        assert(r@ == WorldPos::spec_new(v.0, v.1, v.2)@);
        r
    }
}

impl FromSpecImpl<[i32; 3]> for WorldPos {
    open spec fn obeys_from_spec() -> bool {
        true
    }

    open spec fn from_spec(v: [i32; 3]) -> Self {
        WorldPos::spec_new(v@[0], v@[1], v@[2])
    }
}

impl From<[i32; 3]> for WorldPos {
    fn from(v: [i32; 3]) -> (r: Self) {
        let r = WorldPos::from_raw(v[0], v[1], v[2]);
        assert(r@ == WorldPos::spec_new(v@[0], v@[1], v@[2])@);
        r
    }
}

impl FromSpecImpl<WorldPos> for (i32, i32, i32) {
    open spec fn obeys_from_spec() -> bool {
        true
    }

    open spec fn from_spec(w: WorldPos) -> Self {
        w@
    }
}

impl From<WorldPos> for (i32, i32, i32) {
    fn from(w: WorldPos) -> (r: Self) {
        w.pos()
    }
}

impl FromSpecImpl<WorldPos> for [i32; 3] {
    open spec fn obeys_from_spec() -> bool {
        true
    }

    open spec fn from_spec(w: WorldPos) -> Self {
        [w@.0, w@.1, w@.2]
    }
}

impl From<WorldPos> for [i32; 3] {
    fn from(w: WorldPos) -> (r: Self) {
        [w.x(), w.y(), w.z()]
    }
}

impl FromSpecImpl<(ChunkPos, VoxelPos)> for WorldPos {
    open spec fn obeys_from_spec() -> bool {
        true
    }

    open spec fn from_spec(v: (ChunkPos, VoxelPos)) -> Self {
        joined_spec(v.0, v.1)
    }
}

impl From<(ChunkPos, VoxelPos)> for WorldPos {
    fn from(v: (ChunkPos, VoxelPos)) -> (r: Self) {
        let r = WorldPos::from_chunk_and_voxel_pos(&v.0, &v.1);
        assert(r@ == joined_spec(v.0, v.1)@);
        r
    }
}

impl FromSpecImpl<&WorldPos> for ChunkPos {
    open spec fn obeys_from_spec() -> bool {
        true
    }

    open spec fn from_spec(w: &WorldPos) -> Self {
        chunk_of_spec(*w)
    }
}

impl From<&WorldPos> for ChunkPos {
    fn from(w: &WorldPos) -> (r: Self) {
        let r = ChunkPos::from_world_pos(w);
        assert(r@ == chunk_of_spec(*w)@);
        r
    }
}

impl FromSpecImpl<(&ChunkPos, &VoxelPos)> for WorldPos {
    open spec fn obeys_from_spec() -> bool {
        true
    }

    open spec fn from_spec(v: (&ChunkPos, &VoxelPos)) -> Self {
        joined_spec(*v.0, *v.1)
    }
}

impl From<(&ChunkPos, &VoxelPos)> for WorldPos {
    fn from(v: (&ChunkPos, &VoxelPos)) -> (r: Self) {
        let r = WorldPos::from_chunk_and_voxel_pos(v.0, v.1);
        assert(r@ == joined_spec(*v.0, *v.1)@);
        r
    }
}

impl FromSpecImpl<WorldPos> for (ChunkPos, VoxelPos) {
    open spec fn obeys_from_spec() -> bool {
        true
    }

    open spec fn from_spec(v: WorldPos) -> Self {
        (chunk_of_spec(v), voxel_of_spec(v))
    }
}

impl From<WorldPos> for (ChunkPos, VoxelPos) {
    fn from(v: WorldPos) -> (r: Self) {
        let r = v.into_chunk_and_voxel_pos();
        assert(r.0@ == chunk_of_spec(v)@);
        assert(r.1@ == voxel_of_spec(v)@);
        r
    }
}

impl FromSpecImpl<&WorldPos> for (ChunkPos, VoxelPos) {
    open spec fn obeys_from_spec() -> bool {
        true
    }

    open spec fn from_spec(v: &WorldPos) -> Self {
        (chunk_of_spec(*v), voxel_of_spec(*v))
    }
}

impl From<&WorldPos> for (ChunkPos, VoxelPos) {
    fn from(v: &WorldPos) -> (r: Self) {
        let r = v.into_chunk_and_voxel_pos();
        assert(r.0@ == chunk_of_spec(*v)@);
        assert(r.1@ == voxel_of_spec(*v)@);
        r
    }
}

impl FromSpecImpl<WorldPos> for ChunkPos {
    open spec fn obeys_from_spec() -> bool {
        true
    }

    open spec fn from_spec(v: WorldPos) -> Self {
        chunk_of_spec(v)
    }
}

impl From<WorldPos> for ChunkPos {
    fn from(v: WorldPos) -> (r: Self) {
        let r = ChunkPos::from_world_pos(&v);
        assert(r@ == chunk_of_spec(v)@);
        r
    }
}

impl FromSpecImpl<(i16, i16, i16)> for ChunkPos {
    open spec fn obeys_from_spec() -> bool {
        true
    }

    open spec fn from_spec(v: (i16, i16, i16)) -> Self {
        ChunkPos::spec_new(v.0, v.1, v.2)
    }
}

impl From<(i16, i16, i16)> for ChunkPos {
    fn from(v: (i16, i16, i16)) -> (r: Self) {
        let r = ChunkPos::from_raw(v.0, v.1, v.2);
        assert(r@ == ChunkPos::spec_new(v.0, v.1, v.2)@);
        r
    }
}

impl FromSpecImpl<[i16; 3]> for ChunkPos {
    open spec fn obeys_from_spec() -> bool {
        true
    }

    open spec fn from_spec(v: [i16; 3]) -> Self {
        ChunkPos::spec_new(v@[0], v@[1], v@[2])
    }
}

impl From<[i16; 3]> for ChunkPos {
    fn from(v: [i16; 3]) -> (r: Self) {
        let r = ChunkPos::from_raw(v[0], v[1], v[2]);
        assert(r@ == ChunkPos::spec_new(v@[0], v@[1], v@[2])@);
        r
    }
}

impl FromSpecImpl<ChunkPos> for (i16, i16, i16) {
    open spec fn obeys_from_spec() -> bool {
        true
    }

    open spec fn from_spec(v: ChunkPos) -> Self {
        v@
    }
}

impl From<ChunkPos> for (i16, i16, i16) {
    fn from(v: ChunkPos) -> (r: Self) {
        v.pos()
    }
}

impl FromSpecImpl<ChunkPos> for [i16; 3] {
    open spec fn obeys_from_spec() -> bool {
        true
    }

    open spec fn from_spec(v: ChunkPos) -> Self {
        [v@.0, v@.1, v@.2]
    }
}

impl From<ChunkPos> for [i16; 3] {
    fn from(v: ChunkPos) -> (r: Self) {
        [v.x(), v.y(), v.z()]
    }
}

impl FromSpecImpl<WorldPos> for VoxelPos {
    open spec fn obeys_from_spec() -> bool {
        true
    }

    open spec fn from_spec(v: WorldPos) -> Self {
        voxel_of_spec(v)
    }
}

impl From<WorldPos> for VoxelPos {
    fn from(v: WorldPos) -> (r: Self) {
        let r = VoxelPos::from_world_pos(&v);
        assert(r@ == voxel_of_spec(v)@);
        r
    }
}

impl FromSpecImpl<&WorldPos> for VoxelPos {
    open spec fn obeys_from_spec() -> bool {
        true
    }

    open spec fn from_spec(v: &WorldPos) -> Self {
        voxel_of_spec(*v)
    }
}

impl From<&WorldPos> for VoxelPos {
    fn from(v: &WorldPos) -> (r: Self) {
        let r = VoxelPos::from_world_pos(v);
        assert(r@ == voxel_of_spec(*v)@);
        r
    }
}

impl FromSpecImpl<(u8, u8, u8)> for VoxelPos {
    open spec fn obeys_from_spec() -> bool {
        true
    }

    open spec fn from_spec(v: (u8, u8, u8)) -> Self {
        VoxelPos::spec_new(v.0, v.1, v.2)
    }
}

impl From<(u8, u8, u8)> for VoxelPos {
    fn from(v: (u8, u8, u8)) -> (r: Self) {
        let r = VoxelPos::from_raw(v.0, v.1, v.2);
        assert(r@ == VoxelPos::spec_new(v.0, v.1, v.2)@);
        r
    }
}

impl FromSpecImpl<[u8; 3]> for VoxelPos {
    open spec fn obeys_from_spec() -> bool {
        true
    }

    open spec fn from_spec(v: [u8; 3]) -> Self {
        VoxelPos::spec_new(v@[0], v@[1], v@[2])
    }
}

impl From<[u8; 3]> for VoxelPos {
    fn from(v: [u8; 3]) -> (r: Self) {
        let r = VoxelPos::from_raw(v[0], v[1], v[2]);
        assert(r@ == VoxelPos::spec_new(v@[0], v@[1], v@[2])@);
        r
    }
}

impl FromSpecImpl<VoxelPos> for (u8, u8, u8) {
    open spec fn obeys_from_spec() -> bool {
        true
    }

    open spec fn from_spec(v: VoxelPos) -> Self {
        v@
    }
}

impl From<VoxelPos> for (u8, u8, u8) {
    fn from(v: VoxelPos) -> (r: Self) {
        v.pos()
    }
}

impl FromSpecImpl<VoxelPos> for [u8; 3] {
    open spec fn obeys_from_spec() -> bool {
        true
    }

    open spec fn from_spec(v: VoxelPos) -> Self {
        [v@.0, v@.1, v@.2]
    }
}

impl From<VoxelPos> for [u8; 3] {
    fn from(v: VoxelPos) -> (r: Self) {
        [v.x(), v.y(), v.z()]
    }
}

impl FromSpecImpl<BatWorld> for BlockAt<ChunkPos> {
    open spec fn obeys_from_spec() -> bool {
        true
    }

    open spec fn from_spec(v: BatWorld) -> Self {
        BlockAt::spec_new(chunk_of_spec(v.spec_pos()), v.spec_id())
    }
}

impl From<BatWorld> for BlockAt<ChunkPos> {
    fn from(v: BatWorld) -> (r: Self) {
        let p = v.pos();
        let c = ChunkPos::from_world_pos(&p);
        assert(c@ == chunk_of_spec(v.spec_pos())@);
        let r = BlockAt::new(c, v.id());
        assert(c == chunk_of_spec(v.spec_pos()));
        assert(r.spec_pos() == BlockAt::spec_new(chunk_of_spec(v.spec_pos()), r.spec_id()).spec_pos());
        r
    }
}

impl FromSpecImpl<BatWorld> for BatVoxel {
    open spec fn obeys_from_spec() -> bool {
        true
    }

    open spec fn from_spec(v: BatWorld) -> Self {
        BlockAt::spec_new(voxel_of_spec(v.spec_pos()), v.spec_id())
    }
}

impl From<BatWorld> for BatVoxel {
    fn from(v: BatWorld) -> (r: Self) {
        let p = v.pos();
        let c = VoxelPos::from_world_pos(&p);
        assert(c@ == voxel_of_spec(v.spec_pos())@);
        let r = BlockAt::new(c, v.id());
        assert(c == voxel_of_spec(v.spec_pos()));
        assert(r.spec_pos() == BlockAt::spec_new(voxel_of_spec(v.spec_pos()), r.spec_id()).spec_pos());
        r
    }
}

impl FromSpecImpl<&BatWorld> for BlockAt<ChunkPos> {
    open spec fn obeys_from_spec() -> bool {
        true
    }

    open spec fn from_spec(v: &BatWorld) -> Self {
        BlockAt::spec_new(chunk_of_spec((*v).spec_pos()), (*v).spec_id())
    }
}

impl From<&BatWorld> for BlockAt<ChunkPos> {
    fn from(v: &BatWorld) -> (r: Self) {
        let p = v.pos();
        let c = ChunkPos::from_world_pos(&p);
        assert(c@ == chunk_of_spec((*v).spec_pos())@);
        let r = BlockAt::new(c, v.id());
        assert(c == chunk_of_spec((*v).spec_pos()));
        assert(r.spec_pos() == BlockAt::spec_new(chunk_of_spec((*v).spec_pos()), r.spec_id()).spec_pos());
        r
    }
}

impl FromSpecImpl<&BatWorld> for BatVoxel {
    open spec fn obeys_from_spec() -> bool {
        true
    }

    open spec fn from_spec(v: &BatWorld) -> Self {
        BlockAt::spec_new(voxel_of_spec((*v).spec_pos()), (*v).spec_id())
    }
}

impl From<&BatWorld> for BatVoxel {
    fn from(v: &BatWorld) -> (r: Self) {
        let p = v.pos();
        let c = VoxelPos::from_world_pos(&p);
        assert(c@ == voxel_of_spec((*v).spec_pos())@);
        let r = BlockAt::new(c, v.id());
        assert(c == voxel_of_spec((*v).spec_pos()));
        assert(r.spec_pos() == BlockAt::spec_new(voxel_of_spec((*v).spec_pos()), r.spec_id()).spec_pos());
        r
    }
}


/// One axis of a split: the voxel coordinate is the remainder, and where the
/// quotient fits a chunk coordinate, the chunk coordinate is the quotient and
/// the two join back.
proof fn lemma_axis_split(w: i32)
    ensures
        voxel_coord(w) as int == w as int % 32,
        -1048576 <= w < 1048576 ==> chunk_coord(w) as int == w as int / 32 && world_coord(
            chunk_coord(w),
            voxel_coord(w),
        ) == w,
{
    vstd::arithmetic::div_mod::lemma_fundamental_div_mod(w as int, 32);
}

/// One axis of a join: a voxel coordinate in `0..32` plus 32 times a chunk
/// coordinate splits back into the two.
proof fn lemma_axis_join(c: i16, v: u8)
    requires
        v < 32,
    ensures
        world_coord(c, v) as int == v as int + 32 * c as int,
        chunk_coord(world_coord(c, v)) == c,
        voxel_coord(world_coord(c, v)) == v,
{
    let w = v as int + 32 * c as int;
    vstd::arithmetic::div_mod::lemma_fundamental_div_mod_converse(w, 32, c as int, v as int);
}

/// Converting a block at a world position into a block at a voxel position
/// keeps its id and takes each coordinate modulo the chunk size, rounded
/// towards negative infinity, so that it lies in `0..32`; converting it into a
/// block at a chunk position keeps its id and divides each coordinate by the
/// chunk size, rounded down, wherever that quotient fits a chunk coordinate.
/// The two parts join back to the world position. This holds by value and by
/// reference alike.
pub proof fn lemma_world_block_split(b: BatWorld)
    ensures
        <BatVoxel as FromSpec<&BatWorld>>::obeys_from_spec(),
        <BatVoxel as FromSpec<BatWorld>>::obeys_from_spec(),
        <BlockAt<ChunkPos> as FromSpec<&BatWorld>>::obeys_from_spec(),
        <BlockAt<ChunkPos> as FromSpec<BatWorld>>::obeys_from_spec(),
        <BatVoxel as FromSpec<&BatWorld>>::from_spec(&b) == <BatVoxel as FromSpec<BatWorld>>::from_spec(b),
        <BlockAt<ChunkPos> as FromSpec<&BatWorld>>::from_spec(&b) == <BlockAt<
            ChunkPos,
        > as FromSpec<BatWorld>>::from_spec(b),
        ({
            let w = b.spec_pos()@;
            let bv = <BatVoxel as FromSpec<&BatWorld>>::from_spec(&b);
            let bc = <BlockAt<ChunkPos> as FromSpec<&BatWorld>>::from_spec(&b);
            let v = bv.spec_pos()@;
            let c = bc.spec_pos()@;
            &&& bv.spec_id() == b.spec_id()
            &&& bc.spec_id() == b.spec_id()
            &&& bv.spec_pos().is_valid()
            &&& 0 <= v.0 < 32 && 0 <= v.1 < 32 && 0 <= v.2 < 32
            &&& v.0 as int == w.0 as int % 32
            &&& v.1 as int == w.1 as int % 32
            &&& v.2 as int == w.2 as int % 32
            &&& -1048576 <= w.0 < 1048576 ==> c.0 as int == w.0 as int / 32 && c.0 * 32 + v.0 == w.0
            &&& -1048576 <= w.1 < 1048576 ==> c.1 as int == w.1 as int / 32 && c.1 * 32 + v.1 == w.1
            &&& -1048576 <= w.2 < 1048576 ==> c.2 as int == w.2 as int / 32 && c.2 * 32 + v.2 == w.2
        }),
{
    let w = b.spec_pos()@;
    lemma_axis_split(w.0);
    lemma_axis_split(w.1);
    lemma_axis_split(w.2);
    let bv = <BatVoxel as FromSpec<&BatWorld>>::from_spec(&b);
    let bc = <BlockAt<ChunkPos> as FromSpec<&BatWorld>>::from_spec(&b);
    assert(bv.spec_pos() == voxel_of_spec(b.spec_pos()));
    assert(bc.spec_pos() == chunk_of_spec(b.spec_pos()));
    assert(bv.spec_pos()@ == (voxel_coord(w.0), voxel_coord(w.1), voxel_coord(w.2)));
    assert(bc.spec_pos()@ == (chunk_coord(w.0), chunk_coord(w.1), chunk_coord(w.2)));
}

/// Splitting a world position gives the chunk that holds it and its position
/// inside that chunk, as the block conversions do: each voxel coordinate is the
/// world coordinate modulo the chunk size, in `0..32`, and each chunk
/// coordinate the world coordinate divided by the chunk size, rounded down,
/// wherever that fits a chunk coordinate.
pub proof fn lemma_world_pos_split(w: WorldPos)
    ensures
        <VoxelPos as FromSpec<WorldPos>>::obeys_from_spec(),
        <VoxelPos as FromSpec<&WorldPos>>::obeys_from_spec(),
        <ChunkPos as FromSpec<WorldPos>>::obeys_from_spec(),
        <ChunkPos as FromSpec<&WorldPos>>::obeys_from_spec(),
        <(ChunkPos, VoxelPos) as FromSpec<WorldPos>>::obeys_from_spec(),
        <(ChunkPos, VoxelPos) as FromSpec<&WorldPos>>::obeys_from_spec(),
        ({
            let vp = <VoxelPos as FromSpec<WorldPos>>::from_spec(w);
            let cp = <ChunkPos as FromSpec<WorldPos>>::from_spec(w);
            let v = vp@;
            let c = cp@;
            let x = w@;
            &&& <VoxelPos as FromSpec<&WorldPos>>::from_spec(&w) == vp
            &&& <ChunkPos as FromSpec<&WorldPos>>::from_spec(&w) == cp
            &&& <(ChunkPos, VoxelPos) as FromSpec<WorldPos>>::from_spec(w) == (cp, vp)
            &&& <(ChunkPos, VoxelPos) as FromSpec<&WorldPos>>::from_spec(&w) == (cp, vp)
            &&& vp.is_valid()
            &&& v.0 as int == x.0 as int % 32
            &&& v.1 as int == x.1 as int % 32
            &&& v.2 as int == x.2 as int % 32
            &&& -1048576 <= x.0 < 1048576 ==> c.0 as int == x.0 as int / 32
            &&& -1048576 <= x.1 < 1048576 ==> c.1 as int == x.1 as int / 32
            &&& -1048576 <= x.2 < 1048576 ==> c.2 as int == x.2 as int / 32
        }),
{
}

/// Joining a chunk position and a voxel position inside it gives the world
/// position `voxel + 32 * chunk` on each axis, and splitting that world
/// position gives the two back.
pub proof fn lemma_join_split(c: ChunkPos, v: VoxelPos)
    requires
        v.is_valid(),
    ensures
        <WorldPos as FromSpec<(ChunkPos, VoxelPos)>>::obeys_from_spec(),
        <WorldPos as FromSpec<(&ChunkPos, &VoxelPos)>>::obeys_from_spec(),
        ({
            let w = <WorldPos as FromSpec<(ChunkPos, VoxelPos)>>::from_spec((c, v));
            let x = w@;
            &&& <WorldPos as FromSpec<(&ChunkPos, &VoxelPos)>>::from_spec((&c, &v)) == w
            &&& x.0 == v@.0 + 32 * c@.0
            &&& x.1 == v@.1 + 32 * c@.1
            &&& x.2 == v@.2 + 32 * c@.2
            &&& <(ChunkPos, VoxelPos) as FromSpec<WorldPos>>::from_spec(w) == (c, v)
        }),
{
    let cc = c@;
    let vv = v@;
    lemma_axis_join(cc.0, vv.0);
    lemma_axis_join(cc.1, vv.1);
    lemma_axis_join(cc.2, vv.2);
    let w = joined_spec(c, v);
    assert(chunk_of_spec(w)@ == cc);
    assert(voxel_of_spec(w)@ == vv);
}

} // verus!
