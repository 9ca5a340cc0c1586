//! Chunks: a cube of voxels at a position of the chunk grid, with a version
//! that counts the changes made to it.

use vstd::prelude::*;

use crate::block_at::{BatVoxel, BlockAt};
use crate::block_id::BlockId;
use crate::chunk_pos::ChunkPos;
use crate::chunk_version::ChunkVersion;
use crate::constants::AIR_ID;
use crate::naive_chunk::{
    all_air, all_valid, all_valid_pos, any_change, apply_sets, count_non_air, lemma_apply_sets_len,
    lemma_count_all_air, lemma_count_non_air_update, lemma_count_zero_all_air, naive_index, replaced,
    ChunkNaive, VOL,
};
use crate::voxel_pos::VoxelPos;

verus! {

broadcast use {
    BlockId::lemma_value_eq,
    BlockId::lemma_new_spec,
    BlockAt::lemma_fields_eq,
    VoxelPos::lemma_view_eq,
    ChunkVersion::lemma_value_eq,
};

/// A `Chunk`'s blocks: either nothing but air, or one id per voxel.
#[derive(Debug, Clone)]
enum ChunkData {
    Empty,
    General(ChunkNaive),
}

impl ChunkData {
    spec fn view(&self) -> Seq<BlockId> {
        match self {
            ChunkData::Empty => all_air(),
            ChunkData::General(c) => c@,
        }
    }

    /// The blocks are `Empty` exactly when no voxel holds a non-air id.
    spec fn empty_exactly_when_air(&self) -> bool {
        (self is Empty) <==> count_non_air(self.view()) == 0
    }

    spec fn wf(&self) -> bool {
        match self {
            ChunkData::Empty => true,
            ChunkData::General(c) => c.wf(),
        }
    }

    /// Creates a new `ChunkData`, which holds only air.
    fn new() -> (r: Self)
        ensures
            r.wf(),
            r.view() == all_air(),
            r.empty_exactly_when_air(),
    {
        proof {
            lemma_count_all_air(VOL as nat);
        }
        Self::Empty
    }

    /// Creates a new `ChunkData` with the given blocks written in order over air.
    fn new_with(blocks: &[BatVoxel]) -> (r: Self)
        requires
            all_valid(blocks@),
        ensures
            r.wf(),
            r.view() == apply_sets(all_air(), blocks@),
    {
        if blocks.len() == 0 {
            Self::Empty
        } else {
            Self::General(ChunkNaive::new(blocks))
        }
    }

    /// Returns the number of non-air blocks in the chunk.
    fn non_air_helper(&self) -> (r: u16)
        requires
            self.wf(),
        ensures
            r == count_non_air(self.view()),
    {
        match self {
            Self::Empty => {
                proof {
                    lemma_count_all_air(VOL as nat);
                }
                0
            },
            Self::General(c) => c.occupancy(),
        }
    }

    /// Returns the block at the given position.
    fn get_helper(&self, pos: VoxelPos) -> (r: BatVoxel)
        requires
            self.wf(),
            pos.is_valid(),
        ensures
            r.spec_pos() == pos,
            r.spec_id() == self.view()[naive_index(pos)],
    {
        match self {
            Self::Empty => BlockAt::new(pos, BlockId::new(AIR_ID)),
            Self::General(c) => c.get_naive(pos),
        }
    }

    fn get_bulk_helper(&self, poss: &[VoxelPos], output: &mut [BatVoxel])
        requires
            self.wf(),
            all_valid_pos(poss@),
            old(output)@.len() >= poss@.len(),
        ensures
            final(output)@.len() == old(output)@.len(),
            forall|i: int|
                0 <= i < poss@.len() ==> (#[trigger] final(output)@[i]).spec_pos() == poss@[i]
                    && final(output)@[i].spec_id() == self.view()[naive_index(poss@[i])],
            forall|i: int|
                poss@.len() <= i < old(output)@.len() ==> #[trigger] final(output)@[i] == old(
                    output,
                )@[i],
    {
        match self {
            Self::Empty => {
                let mut i: usize = 0;
                while i < poss.len()
                    invariant
                        self.view() == all_air(),
                        all_valid_pos(poss@),
                        i <= poss@.len(),
                        output@.len() == old(output)@.len(),
                        old(output)@.len() >= poss@.len(),
                        forall|j: int|
                            0 <= j < i ==> (#[trigger] output@[j]).spec_pos() == poss@[j]
                                && output@[j].spec_id() == self.view()[naive_index(poss@[j])],
                        forall|j: int|
                            i <= j < old(output)@.len() ==> #[trigger] output@[j] == old(output)@[j],
                    decreases poss@.len() - i,
                {
                    let pos = poss[i];
                    proof {
                        crate::naive_chunk::lemma_naive_index_bounds(pos);
                    }
                    output[i] = BlockAt::new(pos, BlockId::new(AIR_ID));
                    i += 1;
                }
            },
            Self::General(c) => c.get_bulk_naive(poss, output),
        }
    }

    fn set_helper(&mut self, block: BatVoxel) -> (r: (BatVoxel, bool))
        requires
            old(self).wf(),
            block.spec_pos().is_valid(),
        ensures
            final(self).wf(),
            final(self).view() == old(self).view().update(
                naive_index(block.spec_pos()),
                block.spec_id(),
            ),
            r.0.spec_pos() == block.spec_pos(),
            r.0.spec_id() == old(self).view()[naive_index(block.spec_pos())],
            r.1 == (r.0.spec_id() != block.spec_id()),
            final(self).empty_exactly_when_air(),
    {
        proof {
            crate::naive_chunk::lemma_naive_index_bounds(block.spec_pos());
        }
        match self {
            Self::Empty => {
                let at_chunk = block;
                let pos = at_chunk.pos();
                let new_id = at_chunk.id();
                let old_block = BlockAt::new(pos, BlockId::new(AIR_ID));
                if !new_id.is_air() {
                    let one = [BlockAt::new(pos, new_id)];
                    let ghost b = one@;
                    assert(b.drop_last() =~= Seq::<BatVoxel>::empty());
                    assert(apply_sets(all_air(), b) == all_air().update(naive_index(pos), new_id)) by {
                        reveal_with_fuel(apply_sets, 2);
                    }
                    *self = Self::General(ChunkNaive::new(&one));
                    proof {
                        lemma_count_all_air(VOL as nat);
                        lemma_count_non_air_update(all_air(), naive_index(pos), new_id);
                    }
                    (old_block, true)
                } else {
                    assert(all_air().update(naive_index(pos), new_id) =~= all_air());
                    proof {
                        lemma_count_all_air(VOL as nat);
                    }
                    (old_block, false)
                }
            },
            Self::General(c) => {
                let new_id = block.id();
                let old_block = c.set_naive(block);
                if c.is_empty() {
                    proof {
                        c.lemma_wf_len();
                        lemma_count_zero_all_air(c@);
                    }
                    *self = Self::Empty;
                }
                if !new_id.is_equal(&old_block.id()) {
                    (old_block, true)
                } else {
                    (old_block, false)
                }
            },
        }
    }

    fn set_bulk_helper(&mut self, blocks: &[BatVoxel], output: &mut [BatVoxel]) -> (r: bool)
        requires
            old(self).wf(),
            all_valid(blocks@),
            old(output)@.len() >= blocks@.len(),
        ensures
            final(self).wf(),
            final(self).view() == apply_sets(old(self).view(), blocks@),
            r == any_change(old(self).view(), blocks@),
            final(self).empty_exactly_when_air(),
            final(output)@.len() == old(output)@.len(),
            forall|i: int|
                0 <= i < blocks@.len() ==> (#[trigger] final(output)@[i]).spec_pos() == blocks@[i].spec_pos()
                    && final(output)@[i].spec_id() == replaced(old(self).view(), blocks@, i),
            forall|i: int|
                blocks@.len() <= i < old(output)@.len() ==> #[trigger] final(output)@[i] == old(
                    output,
                )@[i],
    {
        match self {
            Self::Empty => {
                let none: [BatVoxel; 0] = [];
                assert(none@ =~= Seq::<BatVoxel>::empty());
                let mut data = ChunkNaive::new(&none);
                let changed = data.set_bulk_naive(blocks, output);
                if !data.is_empty() {
                    *self = Self::General(data);
                } else {
                    proof {
                        data.lemma_wf_len();
                        lemma_count_zero_all_air(data@);
                    }
                }
                changed
            },
            Self::General(data) => {
                let changed = data.set_bulk_naive(blocks, output);
                if data.is_empty() {
                    proof {
                        data.lemma_wf_len();
                        lemma_count_zero_all_air(data@);
                    }
                    *self = Self::Empty;
                }
                changed
            },
        }
    }
}

/// A cube of `Chunk::WIDTH` voxels per side at a position of the chunk grid.
#[derive(Debug)]
pub struct Chunk {
    chunk_pos: ChunkPos,
    version: ChunkVersion,
    data: ChunkData,
}

impl View for Chunk {
    type V = Seq<BlockId>;

    /// The ids of the chunk's voxels, by naive index.
    closed spec fn view(&self) -> Seq<BlockId> {
        Seq::new(VOL as nat, |i: int| self.data.view()[i])
    }
}

impl Chunk {
    /// Length of a `Chunk` in voxels.
    pub const WIDTH: usize = 32;

    /// Area of a `Chunk` in voxels.
    pub const AREA: usize = 1024;

    /// Volume of a `Chunk` in voxels.
    pub const VOL: usize = 32768;

    /// The chunk's blocks are well formed.
    #[verifier::type_invariant]
    spec fn inv(&self) -> bool {
        self.data.wf()
    }

    /// A chunk holds one id per voxel.
    pub broadcast proof fn lemma_view_len(&self)
        ensures
            #[trigger] self@.len() == VOL,
    {
    }

    /// The view of well formed blocks is the blocks' own view.
    proof fn lemma_view_data(&self)
        requires
            self.data.wf(),
        ensures
            self@ == self.data.view(),
    {
        match &self.data {
            ChunkData::Empty => {},
            ChunkData::General(c) => {
                c.lemma_wf_len();
            },
        }
        assert(self@ =~= self.data.view());
    }

    /// The chunk's position in the chunk grid.
    pub closed spec fn spec_chunk_pos(&self) -> ChunkPos {
        self.chunk_pos
    }

    /// The chunk's version.
    pub closed spec fn spec_version(&self) -> ChunkVersion {
        self.version
    }

    /// The id of the block at a valid voxel position.
    pub open spec fn block_at(&self, pos: VoxelPos) -> BlockId {
        self@[naive_index(pos)]
    }

    /// Initializes an empty chunk at the provided chunk-grid position.
    pub fn new(chunk_pos: ChunkPos) -> (r: Self)
        ensures
            r@ == all_air(),
            r.spec_chunk_pos() == chunk_pos,
            r.spec_version().value() == 0,
    {
        let r = Self { chunk_pos, version: ChunkVersion::new(0), data: ChunkData::new() };
        proof {
            r.lemma_view_data();
        }
        r
    }

    /// Initializes a chunk with the provided voxel blocks.
    ///
    /// Use [`Self::new`] to create an empty chunk. Block positions must belong to
    /// this chunk and duplicate positions are applied in slice order.
    pub fn new_with(chunk_pos: ChunkPos, blocks: &[BatVoxel]) -> (r: Self)
        requires
            all_valid(blocks@),
        ensures
            r@ == apply_sets(all_air(), blocks@),
            r.spec_chunk_pos() == chunk_pos,
            r.spec_version().value() == 0,
    {
        let r = Self { chunk_pos, version: ChunkVersion::new(0), data: ChunkData::new_with(blocks) };
        proof {
            r.lemma_view_data();
        }
        r
    }

    /// Returns the number of non-air voxels in the chunk.
    pub fn non_air(&self) -> (r: u16)
        ensures
            r == count_non_air(self@),
    {
        proof {
            use_type_invariant(self);
            self.lemma_view_data();
        }
        self.data.non_air_helper()
    }

    /// Returns the chunk's position in the chunk grid.
    pub fn chunk_pos(&self) -> (r: ChunkPos)
        ensures
            r == self.spec_chunk_pos(),
    {
        self.chunk_pos
    }

    /// Returns the chunk version, which increments once for each mutating operation.
    pub fn version(&self) -> (r: ChunkVersion)
        ensures
            r == self.spec_version(),
    {
        self.version
    }

    /// Returns the block at the given position.
    pub fn get(&self, pos: VoxelPos) -> (r: BatVoxel)
        requires
            pos.is_valid(),
        ensures
            r.spec_pos() == pos,
            r.spec_id() == self.block_at(pos),
    {
        proof {
            use_type_invariant(self);
        }
        self.data.get_helper(pos)
    }

    /// Reads blocks at the requested positions into `output` in the same order.
    ///
    /// The caller must provide an output slice with at least one element for each
    /// requested position. An empty request leaves `output` unchanged.
    pub fn get_bulk(&self, poss: &[VoxelPos], output: &mut [BatVoxel])
        requires
            all_valid_pos(poss@),
            old(output)@.len() >= poss@.len(),
        ensures
            final(output)@.len() == old(output)@.len(),
            forall|i: int|
                0 <= i < poss@.len() ==> (#[trigger] final(output)@[i]).spec_pos() == poss@[i]
                    && final(output)@[i].spec_id() == self.block_at(poss@[i]),
            forall|i: int|
                poss@.len() <= i < old(output)@.len() ==> #[trigger] final(output)@[i] == old(
                    output,
                )@[i],
    {
        proof {
            use_type_invariant(self);
        }
        if poss.len() != 0 {
            self.data.get_bulk_helper(poss, output);
        }
    }

    /// Replaces a block and returns its previous value.
    ///
    /// The chunk version increments once when the block ID changes.
    pub fn set(&mut self, block: BatVoxel) -> (r: BatVoxel)
        requires
            block.spec_pos().is_valid(),
            old(self).spec_version().value() < u64::MAX,
        ensures
            final(self)@ == old(self)@.update(naive_index(block.spec_pos()), block.spec_id()),
            r.spec_pos() == block.spec_pos(),
            r.spec_id() == old(self).block_at(block.spec_pos()),
            final(self).spec_chunk_pos() == old(self).spec_chunk_pos(),
            final(self).spec_version().value() == old(self).spec_version().value() + if r.spec_id()
                != block.spec_id() {
                1int
            } else {
                0int
            },
    {
        proof {
            use_type_invariant(&*self);
            self.lemma_view_data();
        }
        let mut data = ChunkData::Empty;
        core::mem::swap(&mut data, &mut self.data);
        let (res, changed) = data.set_helper(block);
        self.data = data;
        proof {
            self.lemma_view_data();
        }
        if changed {
            self.version = self.version.next();
        }
        res
    }

    /// Replaces blocks in request order and writes their previous values to `output`.
    ///
    /// The caller must provide an output slice with at least one element for each
    /// requested block. Duplicate positions are applied sequentially, so each
    /// request observes the result of earlier requests in the same slice. The
    /// chunk version increments at most once for the whole operation.
    pub fn set_bulk(&mut self, blocks: &[BatVoxel], output: &mut [BatVoxel])
        requires
            all_valid(blocks@),
            old(output)@.len() >= blocks@.len(),
            old(self).spec_version().value() < u64::MAX,
        ensures
            final(self)@ == apply_sets(old(self)@, blocks@),
            final(self).spec_chunk_pos() == old(self).spec_chunk_pos(),
            final(self).spec_version().value() == old(self).spec_version().value() + if any_change(
                old(self)@,
                blocks@,
            ) {
                1int
            } else {
                0int
            },
            final(output)@.len() == old(output)@.len(),
            forall|i: int|
                0 <= i < blocks@.len() ==> (#[trigger] final(output)@[i]).spec_pos() == blocks@[i].spec_pos()
                    && final(output)@[i].spec_id() == replaced(old(self)@, blocks@, i),
            forall|i: int|
                blocks@.len() <= i < old(output)@.len() ==> #[trigger] final(output)@[i] == old(
                    output,
                )@[i],
    {
        proof {
            use_type_invariant(&*self);
            self.lemma_view_data();
        }
        if blocks.len() != 0 {
            let mut data = ChunkData::Empty;
            core::mem::swap(&mut data, &mut self.data);
            let changed = data.set_bulk_helper(blocks, output);
            self.data = data;
            proof {
                self.lemma_view_data();
            }
            if changed {
                self.version = self.version.next();
            }
        } else {
            assert(!any_change(old(self)@, blocks@));
        }
    }
}

} // verus!
