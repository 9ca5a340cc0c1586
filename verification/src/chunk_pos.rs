//! Positions of chunks in the world.

use vstd::prelude::*;

use crate::dir::{dir_list, dir_offset, Dir};
use crate::pos::{abs, i16_from_i64, i32_from_i64, u8_from_i64};

verus! {

/// Represents the position of a Chunk in the World Grid: each coordinate is an i16.
#[derive(Debug, Clone, Copy, PartialEq, Eq, Structural, PartialOrd, Ord, Hash)]
pub struct ChunkPos {
    x: i16,
    y: i16,
    z: i16,
}

impl View for ChunkPos {
    type V = (i16, i16, i16);

    closed spec fn view(&self) -> (i16, i16, i16) {
        (self.x, self.y, self.z)
    }
}

impl ChunkPos {
    /// Smallest valid x and z coordinate.
    pub const MIN: i16 = -16384;

    /// Largest valid x and z coordinate.
    pub const MAX: i16 = 16383;

    /// Smallest valid y coordinate.
    pub const MIN_HEIGHT: i16 = -16;

    /// Largest valid y coordinate.
    pub const MAX_HEIGHT: i16 = 15;

    /// Two positions are equal exactly when their coordinates are.
    pub broadcast proof fn lemma_view_eq(a: Self, b: Self)
        ensures
            #![trigger a@, b@]
            a@ == b@ <==> a == b,
    {
    }

    /// The position with the given coordinates.
    pub closed spec fn spec_new(x: i16, y: i16, z: i16) -> Self {
        Self { x, y, z }
    }

    /// The position made from coordinates holds those coordinates.
    pub broadcast proof fn lemma_spec_new(x: i16, y: i16, z: i16)
        ensures
            #[trigger] Self::spec_new(x, y, z)@ == (x, y, z),
    {
    }

    /// Whether integer coordinates lie within the valid range of this grid.
    pub open spec fn coords_in_range(x: int, y: int, z: int) -> bool {
        &&& -16384 <= x <= 16383
        &&& -16 <= y <= 15
        &&& -16384 <= z <= 16383
    }

    /// Whether the position lies within the valid range of this grid.
    pub open spec fn is_valid(self) -> bool {
        Self::coords_in_range(self@.0 as int, self@.1 as int, self@.2 as int)
    }

    /// `r` is the position at `(x, y, z)` when those coordinates are valid, and
    /// `None` otherwise.
    pub open spec fn checked_result(x: int, y: int, z: int, r: Option<Self>) -> bool {
        if Self::coords_in_range(x, y, z) {
            r is Some && r->0@ == (x as i16, y as i16, z as i16)
        } else {
            r is None
        }
    }

    /// The squared euclidean distance between two positions.
    pub open spec fn spec_dist_euclid_2(self, rhs: Self) -> int {
        let dx = self@.0 - rhs@.0;
        let dy = self@.1 - rhs@.1;
        let dz = self@.2 - rhs@.2;
        dx * dx + dy * dy + dz * dz
    }

    /// The manhattan distance between two positions.
    pub open spec fn spec_dist_manhattan(self, rhs: Self) -> int {
        abs(self@.0 - rhs@.0) + abs(self@.1 - rhs@.1) + abs(self@.2 - rhs@.2)
    }

    /// Creates a position from raw coordinates, without checking them.
    pub fn from_raw(x: i16, y: i16, z: i16) -> (r: Self)
        ensures
            r@ == (x, y, z),
    {
        Self { x, y, z }
    }

    /// Creates a position if the coordinates are valid for this grid.
    pub fn try_new(x: i16, y: i16, z: i16) -> (r: Option<Self>)
        ensures
            Self::checked_result(x as int, y as int, z as int, r),
    {
        if (Self::MIN <= x && x <= Self::MAX) && (Self::MIN_HEIGHT <= y && y <= Self::MAX_HEIGHT) && (Self::MIN <= z && z <= Self::MAX) {
            Some(Self::from_raw(x, y, z))
        } else {
            None
        }
    }

    /// Returns the three coordinates.
    pub fn pos(&self) -> (r: (i16, i16, i16))
        ensures
            r == self@,
    {
        (self.x, self.y, self.z)
    }

    /// Returns the x coordinate.
    pub fn x(&self) -> (r: i16)
        ensures
            r == self@.0,
    {
        self.x
    }

    /// Returns the y coordinate.
    pub fn y(&self) -> (r: i16)
        ensures
            r == self@.1,
    {
        self.y
    }

    /// Returns the z coordinate.
    pub fn z(&self) -> (r: i16)
        ensures
            r == self@.2,
    {
        self.z
    }

    /// The position one step away in direction `dir`, if it is valid.
    pub fn neighbor(&self, dir: Dir) -> (r: Option<Self>)
        ensures
            Self::checked_result(
                self@.0 + dir_offset(dir).0,
                self@.1 + dir_offset(dir).1,
                self@.2 + dir_offset(dir).2,
                r,
            ),
    {
        let (dx, dy, dz) = dir.as_off_tuple();
        let rx: i64 = self.x as i64 + dx as i64;
        let ry: i64 = self.y as i64 + dy as i64;
        let rz: i64 = self.z as i64 + dz as i64;
        let nx = match i16_from_i64(rx) {
            Some(v) => v,
            None => return None,
        };
        let ny = match i16_from_i64(ry) {
            Some(v) => v,
            None => return None,
        };
        let nz = match i16_from_i64(rz) {
            Some(v) => v,
            None => return None,
        };
        Self::try_new(nx, ny, nz)
    }

    /// The valid neighbors in the six directions, in the order of `Dir::iter`.
    pub fn neighborhood(&self) -> (r: [Option<Self>; 6])
        ensures
            forall|i: int|
                0 <= i < 6 ==> Self::checked_result(
                    self@.0 + dir_offset(#[trigger] dir_list()[i]).0,
                    self@.1 + dir_offset(dir_list()[i]).1,
                    self@.2 + dir_offset(dir_list()[i]).2,
                    r@[i],
                ),
    {
        let r = [
            self.neighbor(Dir::Up),
            self.neighbor(Dir::Down),
            self.neighbor(Dir::Left),
            self.neighbor(Dir::Right),
            self.neighbor(Dir::Front),
            self.neighbor(Dir::Back),
        ];
        assert(dir_list() =~= seq![Dir::Up, Dir::Down, Dir::Left, Dir::Right, Dir::Front, Dir::Back]);
        r
    }

    /// The componentwise sum of two positions, if it is valid.
    pub fn checked_add(&self, rhs: &Self) -> (r: Option<Self>)
        ensures
            Self::checked_result(self@.0 + rhs@.0, self@.1 + rhs@.1, self@.2 + rhs@.2, r),
    {
        let nx = match self.x.checked_add(rhs.x) {
            Some(v) => v,
            None => return None,
        };
        let ny = match self.y.checked_add(rhs.y) {
            Some(v) => v,
            None => return None,
        };
        let nz = match self.z.checked_add(rhs.z) {
            Some(v) => v,
            None => return None,
        };
        Self::try_new(nx, ny, nz)
    }

    /// The componentwise difference of two positions, if it is valid.
    pub fn checked_sub(&self, rhs: &Self) -> (r: Option<Self>)
        ensures
            Self::checked_result(self@.0 - rhs@.0, self@.1 - rhs@.1, self@.2 - rhs@.2, r),
    {
        let nx = match self.x.checked_sub(rhs.x) {
            Some(v) => v,
            None => return None,
        };
        let ny = match self.y.checked_sub(rhs.y) {
            Some(v) => v,
            None => return None,
        };
        let nz = match self.z.checked_sub(rhs.z) {
            Some(v) => v,
            None => return None,
        };
        Self::try_new(nx, ny, nz)
    }

    /// The squared euclidean distance to `rhs`.
    pub fn dist_euclid_2(&self, rhs: &Self) -> (r: u64)
        ensures
            r == self.spec_dist_euclid_2(*rhs),
    {
        let dx: i64 = self.x as i64 - rhs.x as i64;
        let dy: i64 = self.y as i64 - rhs.y as i64;
        let dz: i64 = self.z as i64 - rhs.z as i64;
        assert(0 <= dx * dx <= 0x1_0000_0000 && 0 <= dy * dy <= 0x1_0000_0000 && 0 <= dz * dz <= 0x1_0000_0000)
            by (nonlinear_arith)
            requires
                -65536 <= dx <= 65536,
                -65536 <= dy <= 65536,
                -65536 <= dz <= 65536,
        ;
        (dx * dx) as u64 + (dy * dy) as u64 + (dz * dz) as u64
    }

    /// The manhattan distance to `rhs`.
    pub fn dist_manhattan(&self, rhs: &Self) -> (r: u64)
        ensures
            r == self.spec_dist_manhattan(*rhs),
    {
        let dx: i64 = self.x as i64 - rhs.x as i64;
        let dy: i64 = self.y as i64 - rhs.y as i64;
        let dz: i64 = self.z as i64 - rhs.z as i64;
        let ax: u64 = if dx < 0 {
            (-dx) as u64
        } else {
            dx as u64
        };
        let ay: u64 = if dy < 0 {
            (-dy) as u64
        } else {
            dy as u64
        };
        let az: u64 = if dz < 0 {
            (-dz) as u64
        } else {
            dz as u64
        };
        ax + ay + az
    }
}

} // verus!
