//! A block id placed at a position.

use vstd::prelude::*;

use crate::block_id::BlockId;
use crate::chunk_pos::ChunkPos;
use crate::voxel_pos::VoxelPos;
use crate::world_pos::{chunk_coord, voxel_coord, world_coord, WorldPos};

verus! {

/// A block id at a position, either inside a chunk (`BatVoxel`) or in the
/// world (`BatWorld`).
#[derive(Debug, Clone, Copy, PartialEq, Eq, Structural)]
pub struct BlockAt<P> {
    pos: P,
    id: BlockId,
}

/// A block at a position inside a chunk.
pub type BatVoxel = BlockAt<VoxelPos>;

/// A block at a position in the world.
pub type BatWorld = BlockAt<WorldPos>;

impl<P: Copy> BlockAt<P> {
    /// The position of the block.
    pub closed spec fn spec_pos(self) -> P {
        self.pos
    }

    /// The id of the block.
    pub closed spec fn spec_id(self) -> BlockId {
        self.id
    }

    /// The block with the given position and id.
    pub closed spec fn spec_new(pos: P, id: BlockId) -> Self {
        BlockAt { pos, id }
    }

    /// A block made from a position and an id holds them.
    pub broadcast proof fn lemma_spec_new(pos: P, id: BlockId)
        ensures
            #[trigger] Self::spec_new(pos, id).spec_pos() == pos,
            Self::spec_new(pos, id).spec_id() == id,
    {
    }

    /// Two blocks are equal exactly when their positions and ids are.
    pub broadcast proof fn lemma_fields_eq(a: Self, b: Self)
        ensures
            #![trigger a.spec_pos(), b.spec_pos()]
            (a.spec_pos() == b.spec_pos() && a.spec_id() == b.spec_id()) <==> a == b,
    {
    }

    /// Couples a position with a block id.
    pub fn new(pos: P, id: BlockId) -> (r: Self)
        ensures
            r.spec_pos() == pos,
            r.spec_id() == id,
    {
        Self { pos, id }
    }

    /// Couples each position with the id at the same place of `ids`.
    pub fn new_bulk(poss: &[P], ids: &[BlockId]) -> (r: Vec<Self>)
        requires
            poss@.len() == ids@.len(),
            poss@.len() > 0,
        ensures
            r@.len() == poss@.len(),
            forall|i: int|
                0 <= i < r@.len() ==> (#[trigger] r@[i]).spec_pos() == poss@[i] && r@[i].spec_id()
                    == ids@[i],
    {
        let mut r: Vec<Self> = Vec::new();
        let mut i: usize = 0;
        while i < poss.len()
            invariant
                poss@.len() == ids@.len(),
                i <= poss@.len(),
                r@.len() == i,
                forall|j: int|
                    0 <= j < i ==> (#[trigger] r@[j]).spec_pos() == poss@[j] && r@[j].spec_id()
                        == ids@[j],
            decreases poss@.len() - i,
        {
            r.push(Self { pos: poss[i], id: ids[i] });
            i += 1;
        }
        r
    }

    /// Returns the position of the block.
    pub fn pos(&self) -> (r: P)
        ensures
            r == self.spec_pos(),
    {
        self.pos
    }

    /// Returns the id of the block.
    pub fn id(&self) -> (r: BlockId)
        ensures
            r == self.spec_id(),
    {
        self.id
    }
}

impl BlockAt<VoxelPos> {
    /// The same block placed in the world, for a chunk at `chunk_pos`.
    pub fn into_world_bat(&self, chunk_pos: &ChunkPos) -> (r: BatWorld)
        ensures
            r.spec_id() == self.spec_id(),
            r.spec_pos()@ == (
                world_coord(chunk_pos@.0, self.spec_pos()@.0),
                world_coord(chunk_pos@.1, self.spec_pos()@.1),
                world_coord(chunk_pos@.2, self.spec_pos()@.2),
            ),
    {
        BlockAt { pos: self.pos.into_world_pos(chunk_pos), id: self.id }
    }

    /// The block at a world position, placed inside its chunk.
    pub fn from_world_bat(world_block: &BatWorld) -> (r: Self)
        ensures
            r.spec_id() == world_block.spec_id(),
            r.spec_pos()@ == (
                voxel_coord(world_block.spec_pos()@.0),
                voxel_coord(world_block.spec_pos()@.1),
                voxel_coord(world_block.spec_pos()@.2),
            ),
            r.spec_pos().is_valid(),
    {
        BlockAt { pos: world_block.pos.into_voxel_pos(), id: world_block.id }
    }
}

impl BlockAt<ChunkPos> {
    /// The block placed in the world at `voxel_pos` inside this chunk.
    pub fn into_world_bat(&self, voxel_pos: &VoxelPos) -> (r: BatWorld)
        ensures
            r.spec_id() == self.spec_id(),
            r.spec_pos()@ == (
                world_coord(self.spec_pos()@.0, voxel_pos@.0),
                world_coord(self.spec_pos()@.1, voxel_pos@.1),
                world_coord(self.spec_pos()@.2, voxel_pos@.2),
            ),
    {
        BlockAt { pos: self.pos.into_world_pos(voxel_pos), id: self.id }
    }

    /// The block at a world position, placed at the chunk that holds it.
    pub fn from_world_bat(world_block: &BatWorld) -> (r: Self)
        ensures
            r.spec_id() == world_block.spec_id(),
            r.spec_pos()@ == (
                chunk_coord(world_block.spec_pos()@.0),
                chunk_coord(world_block.spec_pos()@.1),
                chunk_coord(world_block.spec_pos()@.2),
            ),
    {
        BlockAt { pos: world_block.pos.into_chunk_pos(), id: world_block.id }
    }
}

} // verus!
