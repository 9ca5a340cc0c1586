//! Positions of voxels in the world.

use vstd::prelude::*;

use crate::dir::{dir_list, dir_offset, Dir};
use crate::chunk_pos::ChunkPos;
use crate::voxel_pos::VoxelPos;
use crate::pos::{abs, i16_from_i64, i32_from_i64, u8_from_i64};

verus! {

/// Represents the position of a Voxel in the World Grid: each coordinate is an i32.
#[derive(Debug, Clone, Copy, PartialEq, Eq, Structural, PartialOrd, Ord, Hash)]
pub struct WorldPos {
    x: i32,
    y: i32,
    z: i32,
}

impl View for WorldPos {
    type V = (i32, i32, i32);

    closed spec fn view(&self) -> (i32, i32, i32) {
        (self.x, self.y, self.z)
    }
}

impl WorldPos {
    /// Smallest valid x and z coordinate.
    pub const MIN: i32 = -524288;

    /// Largest valid x and z coordinate.
    pub const MAX: i32 = 524287;

    /// Smallest valid y coordinate.
    pub const MIN_HEIGHT: i32 = -512;

    /// Largest valid y coordinate.
    pub const MAX_HEIGHT: i32 = 511;

    /// Two positions are equal exactly when their coordinates are.
    pub broadcast proof fn lemma_view_eq(a: Self, b: Self)
        ensures
            #![trigger a@, b@]
            a@ == b@ <==> a == b,
    {
    }

    /// The position with the given coordinates.
    pub closed spec fn spec_new(x: i32, y: i32, z: i32) -> Self {
        Self { x, y, z }
    }

    /// The position made from coordinates holds those coordinates.
    pub broadcast proof fn lemma_spec_new(x: i32, y: i32, z: i32)
        ensures
            #[trigger] Self::spec_new(x, y, z)@ == (x, y, z),
    {
    }

    /// Whether integer coordinates lie within the valid range of this grid.
    pub open spec fn coords_in_range(x: int, y: int, z: int) -> bool {
        &&& -524288 <= x <= 524287
        &&& -512 <= y <= 511
        &&& -524288 <= z <= 524287
    }

    /// Whether the position lies within the valid range of this grid.
    pub open spec fn is_valid(self) -> bool {
        Self::coords_in_range(self@.0 as int, self@.1 as int, self@.2 as int)
    }

    /// `r` is the position at `(x, y, z)` when those coordinates are valid, and
    /// `None` otherwise.
    pub open spec fn checked_result(x: int, y: int, z: int, r: Option<Self>) -> bool {
        if Self::coords_in_range(x, y, z) {
            r is Some && r->0@ == (x as i32, y as i32, z as i32)
        } else {
            r is None
        }
    }

    /// The squared euclidean distance between two positions.
    pub open spec fn spec_dist_euclid_2(self, rhs: Self) -> int {
        let dx = self@.0 - rhs@.0;
        let dy = self@.1 - rhs@.1;
        let dz = self@.2 - rhs@.2;
        dx * dx + dy * dy + dz * dz
    }

    /// The manhattan distance between two positions.
    pub open spec fn spec_dist_manhattan(self, rhs: Self) -> int {
        abs(self@.0 - rhs@.0) + abs(self@.1 - rhs@.1) + abs(self@.2 - rhs@.2)
    }

    /// Creates a position from raw coordinates, without checking them.
    pub fn from_raw(x: i32, y: i32, z: i32) -> (r: Self)
        ensures
            r@ == (x, y, z),
    {
        Self { x, y, z }
    }

    /// Creates a position if the coordinates are valid for this grid.
    pub fn try_new(x: i32, y: i32, z: i32) -> (r: Option<Self>)
        ensures
            Self::checked_result(x as int, y as int, z as int, r),
    {
        if (Self::MIN <= x && x <= Self::MAX) && (Self::MIN_HEIGHT <= y && y <= Self::MAX_HEIGHT) && (Self::MIN <= z && z <= Self::MAX) {
            Some(Self::from_raw(x, y, z))
        } else {
            None
        }
    }

    /// Returns the three coordinates.
    pub fn pos(&self) -> (r: (i32, i32, i32))
        ensures
            r == self@,
    {
        (self.x, self.y, self.z)
    }

    /// Returns the x coordinate.
    pub fn x(&self) -> (r: i32)
        ensures
            r == self@.0,
    {
        self.x
    }

    /// Returns the y coordinate.
    pub fn y(&self) -> (r: i32)
        ensures
            r == self@.1,
    {
        self.y
    }

    /// Returns the z coordinate.
    pub fn z(&self) -> (r: i32)
        ensures
            r == self@.2,
    {
        self.z
    }

    /// The position one step away in direction `dir`, if it is valid.
    pub fn neighbor(&self, dir: Dir) -> (r: Option<Self>)
        ensures
            Self::checked_result(
                self@.0 + dir_offset(dir).0,
                self@.1 + dir_offset(dir).1,
                self@.2 + dir_offset(dir).2,
                r,
            ),
    {
        let (dx, dy, dz) = dir.as_off_tuple();
        let rx: i64 = self.x as i64 + dx as i64;
        let ry: i64 = self.y as i64 + dy as i64;
        let rz: i64 = self.z as i64 + dz as i64;
        let nx = match i32_from_i64(rx) {
            Some(v) => v,
            None => return None,
        };
        let ny = match i32_from_i64(ry) {
            Some(v) => v,
            None => return None,
        };
        let nz = match i32_from_i64(rz) {
            Some(v) => v,
            None => return None,
        };
        Self::try_new(nx, ny, nz)
    }

    /// The valid neighbors in the six directions, in the order of `Dir::iter`.
    pub fn neighborhood(&self) -> (r: [Option<Self>; 6])
        ensures
            forall|i: int|
                0 <= i < 6 ==> Self::checked_result(
                    self@.0 + dir_offset(#[trigger] dir_list()[i]).0,
                    self@.1 + dir_offset(dir_list()[i]).1,
                    self@.2 + dir_offset(dir_list()[i]).2,
                    r@[i],
                ),
    {
        let r = [
            self.neighbor(Dir::Up),
            self.neighbor(Dir::Down),
            self.neighbor(Dir::Left),
            self.neighbor(Dir::Right),
            self.neighbor(Dir::Front),
            self.neighbor(Dir::Back),
        ];
        assert(dir_list() =~= seq![Dir::Up, Dir::Down, Dir::Left, Dir::Right, Dir::Front, Dir::Back]);
        r
    }

    /// The componentwise sum of two positions, if it is valid.
    pub fn checked_add(&self, rhs: &Self) -> (r: Option<Self>)
        ensures
            Self::checked_result(self@.0 + rhs@.0, self@.1 + rhs@.1, self@.2 + rhs@.2, r),
    {
        let nx = match self.x.checked_add(rhs.x) {
            Some(v) => v,
            None => return None,
        };
        let ny = match self.y.checked_add(rhs.y) {
            Some(v) => v,
            None => return None,
        };
        let nz = match self.z.checked_add(rhs.z) {
            Some(v) => v,
            None => return None,
        };
        Self::try_new(nx, ny, nz)
    }

    /// The componentwise difference of two positions, if it is valid.
    pub fn checked_sub(&self, rhs: &Self) -> (r: Option<Self>)
        ensures
            Self::checked_result(self@.0 - rhs@.0, self@.1 - rhs@.1, self@.2 - rhs@.2, r),
    {
        let nx = match self.x.checked_sub(rhs.x) {
            Some(v) => v,
            None => return None,
        };
        let ny = match self.y.checked_sub(rhs.y) {
            Some(v) => v,
            None => return None,
        };
        let nz = match self.z.checked_sub(rhs.z) {
            Some(v) => v,
            None => return None,
        };
        Self::try_new(nx, ny, nz)
    }

    /// The squared euclidean distance to `rhs`.
    pub fn dist_euclid_2(&self, rhs: &Self) -> (r: u64)
        requires
            (self@.0 - rhs@.0) * (self@.0 - rhs@.0) <= i64::MAX,
            (self@.1 - rhs@.1) * (self@.1 - rhs@.1) <= i64::MAX,
            (self@.2 - rhs@.2) * (self@.2 - rhs@.2) <= i64::MAX,
            self.spec_dist_euclid_2(*rhs) <= u64::MAX,
        ensures
            r == self.spec_dist_euclid_2(*rhs),
    {
        let dx: i64 = self.x as i64 - rhs.x as i64;
        let dy: i64 = self.y as i64 - rhs.y as i64;
        let dz: i64 = self.z as i64 - rhs.z as i64;
        assert(0 <= dx * dx && 0 <= dy * dy && 0 <= dz * dz) by (nonlinear_arith);
        (dx * dx) as u64 + (dy * dy) as u64 + (dz * dz) as u64
    }

    /// The manhattan distance to `rhs`.
    pub fn dist_manhattan(&self, rhs: &Self) -> (r: u64)
        ensures
            r == self.spec_dist_manhattan(*rhs),
    {
        let dx: i64 = self.x as i64 - rhs.x as i64;
        let dy: i64 = self.y as i64 - rhs.y as i64;
        let dz: i64 = self.z as i64 - rhs.z as i64;
        let ax: u64 = if dx < 0 {
            (-dx) as u64
        } else {
            dx as u64
        };
        let ay: u64 = if dy < 0 {
            (-dy) as u64
        } else {
            dy as u64
        };
        let az: u64 = if dz < 0 {
            (-dz) as u64
        } else {
            dz as u64
        };
        ax + ay + az
    }
}

/// The coordinate of the chunk that holds world coordinate `w`: `w` divided
/// by the chunk size, rounded down (as `i32::div_euclid` does), as an `i16`.
pub open spec fn chunk_coord(w: i32) -> i16 {
    ((w as int) / 32) as i16
}

/// The coordinate of world coordinate `w` inside its chunk: `w` modulo the
/// chunk size, always in `0..32` (as `i32::rem_euclid` gives it).
pub open spec fn voxel_coord(w: i32) -> u8 {
    ((w as int) % 32) as u8
}

/// The world coordinate of voxel coordinate `v` inside the chunk at chunk
/// coordinate `c`.
pub open spec fn world_coord(c: i16, v: u8) -> i32 {
    (v as int + c as int * 32) as i32
}

/// The chunk coordinate of `w`, computed in place.
fn chunk_coord_of(w: i32) -> (r: i16)
    ensures
        r == chunk_coord(w),
{
    match w.checked_div_euclid(32) {
        Some(q) => q as i16,
        None => 0,
    }
}

/// The voxel coordinate of `w`, computed in place.
fn voxel_coord_of(w: i32) -> (r: u8)
    ensures
        r == voxel_coord(w),
        r < 32,
{
    match w.checked_rem_euclid(32) {
        Some(m) => m as u8,
        None => 0,
    }
}

impl WorldPos {
    /// The position of this voxel inside its chunk.
    pub fn into_voxel_pos(&self) -> (r: VoxelPos)
        ensures
            r@ == (voxel_coord(self@.0), voxel_coord(self@.1), voxel_coord(self@.2)),
            r.is_valid(),
    {
        VoxelPos::from_raw(voxel_coord_of(self.x), voxel_coord_of(self.y), voxel_coord_of(self.z))
    }

    /// The position of the chunk that holds this voxel.
    pub fn into_chunk_pos(&self) -> (r: ChunkPos)
        ensures
            r@ == (chunk_coord(self@.0), chunk_coord(self@.1), chunk_coord(self@.2)),
    {
        ChunkPos::from_raw(chunk_coord_of(self.x), chunk_coord_of(self.y), chunk_coord_of(self.z))
    }

    /// Splits the position into the chunk that holds it and its place inside that chunk.
    pub fn into_chunk_and_voxel_pos(&self) -> (r: (ChunkPos, VoxelPos))
        ensures
            r.0@ == (chunk_coord(self@.0), chunk_coord(self@.1), chunk_coord(self@.2)),
            r.1@ == (voxel_coord(self@.0), voxel_coord(self@.1), voxel_coord(self@.2)),
            r.1.is_valid(),
    {
        let voxel_pos = self.into_voxel_pos();
        let chunk_pos = self.into_chunk_pos();
        (chunk_pos, voxel_pos)
    }

    /// The world position of `voxel_pos` inside the chunk at `chunk_pos`.
    pub fn from_chunk_and_voxel_pos(chunk_pos: &ChunkPos, voxel_pos: &VoxelPos) -> (r: Self)
        ensures
            r@ == (
                world_coord(chunk_pos@.0, voxel_pos@.0),
                world_coord(chunk_pos@.1, voxel_pos@.1),
                world_coord(chunk_pos@.2, voxel_pos@.2),
            ),
    {
        Self::from_raw(
            voxel_pos.x() as i32 + chunk_pos.x() as i32 * 32,
            voxel_pos.y() as i32 + chunk_pos.y() as i32 * 32,
            voxel_pos.z() as i32 + chunk_pos.z() as i32 * 32,
        )
    }
}

impl VoxelPos {
    /// The position of a world voxel inside its chunk.
    pub fn from_world_pos(world_pos: &WorldPos) -> (r: Self)
        ensures
            r@ == (voxel_coord(world_pos@.0), voxel_coord(world_pos@.1), voxel_coord(world_pos@.2)),
            r.is_valid(),
    {
        world_pos.into_voxel_pos()
    }

    /// The world position of this voxel inside the chunk at `chunk_pos`.
    pub fn into_world_pos(&self, chunk_pos: &ChunkPos) -> (r: WorldPos)
        ensures
            r@ == (
                world_coord(chunk_pos@.0, self@.0),
                world_coord(chunk_pos@.1, self@.1),
                world_coord(chunk_pos@.2, self@.2),
            ),
    {
        WorldPos::from_chunk_and_voxel_pos(chunk_pos, self)
    }
}

impl ChunkPos {
    /// The position of the chunk that holds a world voxel.
    pub fn from_world_pos(world_pos: &WorldPos) -> (r: Self)
        ensures
            r@ == (chunk_coord(world_pos@.0), chunk_coord(world_pos@.1), chunk_coord(world_pos@.2)),
    {
        world_pos.into_chunk_pos()
    }

    /// The world position of `voxel_pos` inside this chunk.
    pub fn into_world_pos(&self, voxel_pos: &VoxelPos) -> (r: WorldPos)
        ensures
            r@ == (
                world_coord(self@.0, voxel_pos@.0),
                world_coord(self@.1, voxel_pos@.1),
                world_coord(self@.2, voxel_pos@.2),
            ),
    {
        WorldPos::from_chunk_and_voxel_pos(self, voxel_pos)
    }
}

/// Splitting a world coordinate into chunk and voxel coordinates and joining
/// them again gives the coordinate back, whenever its chunk coordinate fits
/// in an `i16` (every coordinate of the World Grid does).
pub proof fn lemma_coord_split_join(w: i32)
    requires
        -1048576 <= w < 1048576,
    ensures
        world_coord(chunk_coord(w), voxel_coord(w)) == w,
        voxel_coord(w) < 32,
{
}

/// Joining chunk and voxel coordinates and splitting the result gives them
/// back, for every voxel coordinate inside a chunk.
pub proof fn lemma_coord_join_split(c: i16, v: u8)
    requires
        v < 32,
    ensures
        chunk_coord(world_coord(c, v)) == c,
        voxel_coord(world_coord(c, v)) == v,
{
}

/// A world position split into its chunk and its voxel position and joined
/// again is the same position, for every position whose chunk coordinates
/// fit in an `i16` (every position of the World Grid).
pub proof fn lemma_world_split_join(w: WorldPos)
    requires
        -1048576 <= w@.0 < 1048576,
        -1048576 <= w@.1 < 1048576,
        -1048576 <= w@.2 < 1048576,
    ensures
        (
            world_coord(chunk_coord(w@.0), voxel_coord(w@.0)),
            world_coord(chunk_coord(w@.1), voxel_coord(w@.1)),
            world_coord(chunk_coord(w@.2), voxel_coord(w@.2)),
        ) == w@,
{
    lemma_coord_split_join(w@.0);
    lemma_coord_split_join(w@.1);
    lemma_coord_split_join(w@.2);
}

/// A chunk position and a valid voxel position joined into a world position
/// split back into the same two positions.
pub proof fn lemma_world_join_split(c: ChunkPos, v: VoxelPos)
    requires
        v.is_valid(),
    ensures
        (
            chunk_coord(world_coord(c@.0, v@.0)),
            chunk_coord(world_coord(c@.1, v@.1)),
            chunk_coord(world_coord(c@.2, v@.2)),
        ) == c@,
        (
            voxel_coord(world_coord(c@.0, v@.0)),
            voxel_coord(world_coord(c@.1, v@.1)),
            voxel_coord(world_coord(c@.2, v@.2)),
        ) == v@,
{
    lemma_coord_join_split(c@.0, v@.0);
    lemma_coord_join_split(c@.1, v@.1);
    lemma_coord_join_split(c@.2, v@.2);
}

} // verus!
