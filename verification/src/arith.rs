//! Adding and subtracting positions componentwise, with `None` when the
//! result leaves its grid.

use vstd::prelude::*;
use vstd::std_specs::ops::{AddSpecImpl, SubSpecImpl};

use crate::chunk_pos::ChunkPos;
use crate::voxel_pos::VoxelPos;
use crate::world_pos::WorldPos;

verus! {

broadcast use {
    WorldPos::lemma_view_eq,
    WorldPos::lemma_spec_new,
    ChunkPos::lemma_view_eq,
    ChunkPos::lemma_spec_new,
    VoxelPos::lemma_view_eq,
    VoxelPos::lemma_spec_new,
};

/// The voxel position at `(x, y, z)` if those coordinates are valid.
pub open spec fn voxel_checked(x: int, y: int, z: int) -> Option<VoxelPos> {
    if VoxelPos::coords_in_range(x, y, z) {
        Some(VoxelPos::spec_new(x as u8, y as u8, z as u8))
    } else {
        None
    }
}

/// The chunk position at `(x, y, z)` if those coordinates are valid.
pub open spec fn chunk_checked(x: int, y: int, z: int) -> Option<ChunkPos> {
    if ChunkPos::coords_in_range(x, y, z) {
        Some(ChunkPos::spec_new(x as i16, y as i16, z as i16))
    } else {
        None
    }
}

/// The world position at `(x, y, z)` if those coordinates are valid.
pub open spec fn world_checked(x: int, y: int, z: int) -> Option<WorldPos> {
    if WorldPos::coords_in_range(x, y, z) {
        Some(WorldPos::spec_new(x as i32, y as i32, z as i32))
    } else {
        None
    }
}

impl AddSpecImpl for VoxelPos {
    open spec fn obeys_add_spec() -> bool {
        true
    }

    open spec fn add_req(self, rhs: Self) -> bool {
        true
    }

    open spec fn add_spec(self, rhs: Self) -> Option<Self> {
        voxel_checked(self@.0 + rhs@.0, self@.1 + rhs@.1, self@.2 + rhs@.2)
    }
}

impl core::ops::Add for VoxelPos {
    type Output = Option<Self>;

    fn add(self, rhs: Self) -> (r: Option<Self>) {
        let r = self.checked_add(&rhs);
        proof {
            if r is Some {
                assert(r->0@ == voxel_checked(self@.0 + rhs@.0, self@.1 + rhs@.1, self@.2 + rhs@.2)->0@);
            }
        }
        r
    }
}

impl SubSpecImpl for VoxelPos {
    open spec fn obeys_sub_spec() -> bool {
        true
    }

    open spec fn sub_req(self, rhs: Self) -> bool {
        true
    }

    open spec fn sub_spec(self, rhs: Self) -> Option<Self> {
        voxel_checked(self@.0 - rhs@.0, self@.1 - rhs@.1, self@.2 - rhs@.2)
    }
}

impl core::ops::Sub for VoxelPos {
    type Output = Option<Self>;

    fn sub(self, rhs: Self) -> (r: Option<Self>) {
        let r = self.checked_sub(&rhs);
        proof {
            if r is Some {
                assert(r->0@ == voxel_checked(self@.0 - rhs@.0, self@.1 - rhs@.1, self@.2 - rhs@.2)->0@);
            }
        }
        r
    }
}

impl AddSpecImpl for ChunkPos {
    open spec fn obeys_add_spec() -> bool {
        true
    }

    open spec fn add_req(self, rhs: Self) -> bool {
        true
    }

    open spec fn add_spec(self, rhs: Self) -> Option<Self> {
        chunk_checked(self@.0 + rhs@.0, self@.1 + rhs@.1, self@.2 + rhs@.2)
    }
}

impl core::ops::Add for ChunkPos {
    type Output = Option<Self>;

    fn add(self, rhs: Self) -> (r: Option<Self>) {
        let r = self.checked_add(&rhs);
        proof {
            if r is Some {
                assert(r->0@ == chunk_checked(self@.0 + rhs@.0, self@.1 + rhs@.1, self@.2 + rhs@.2)->0@);
            }
        }
        r
    }
}

impl SubSpecImpl for ChunkPos {
    open spec fn obeys_sub_spec() -> bool {
        true
    }

    open spec fn sub_req(self, rhs: Self) -> bool {
        true
    }

    open spec fn sub_spec(self, rhs: Self) -> Option<Self> {
        chunk_checked(self@.0 - rhs@.0, self@.1 - rhs@.1, self@.2 - rhs@.2)
    }
}

impl core::ops::Sub for ChunkPos {
    type Output = Option<Self>;

    fn sub(self, rhs: Self) -> (r: Option<Self>) {
        let r = self.checked_sub(&rhs);
        proof {
            if r is Some {
                assert(r->0@ == chunk_checked(self@.0 - rhs@.0, self@.1 - rhs@.1, self@.2 - rhs@.2)->0@);
            }
        }
        r
    }
}

impl AddSpecImpl for WorldPos {
    open spec fn obeys_add_spec() -> bool {
        true
    }

    open spec fn add_req(self, rhs: Self) -> bool {
        true
    }

    open spec fn add_spec(self, rhs: Self) -> Option<Self> {
        world_checked(self@.0 + rhs@.0, self@.1 + rhs@.1, self@.2 + rhs@.2)
    }
}

impl core::ops::Add for WorldPos {
    type Output = Option<Self>;

    fn add(self, rhs: Self) -> (r: Option<Self>) {
        let r = self.checked_add(&rhs);
        proof {
            if r is Some {
                assert(r->0@ == world_checked(self@.0 + rhs@.0, self@.1 + rhs@.1, self@.2 + rhs@.2)->0@);
            }
        }
        r
    }
}

impl SubSpecImpl for WorldPos {
    open spec fn obeys_sub_spec() -> bool {
        true
    }

    open spec fn sub_req(self, rhs: Self) -> bool {
        true
    }

    open spec fn sub_spec(self, rhs: Self) -> Option<Self> {
        world_checked(self@.0 - rhs@.0, self@.1 - rhs@.1, self@.2 - rhs@.2)
    }
}

impl core::ops::Sub for WorldPos {
    type Output = Option<Self>;

    fn sub(self, rhs: Self) -> (r: Option<Self>) {
        let r = self.checked_sub(&rhs);
        proof {
            if r is Some {
                assert(r->0@ == world_checked(self@.0 - rhs@.0, self@.1 - rhs@.1, self@.2 - rhs@.2)->0@);
            }
        }
        r
    }
}

} // verus!
