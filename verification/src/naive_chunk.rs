//! A chunk's blocks stored one id per voxel, in the naive layout.

use vstd::prelude::*;

use crate::block_at::{BatVoxel, BlockAt};
use crate::block_id::BlockId;
use crate::constants::AIR_ID;
use crate::voxel_pos::VoxelPos;

verus! {

broadcast use {BlockId::lemma_value_eq, BlockId::lemma_new_spec, BlockAt::lemma_fields_eq, VoxelPos::lemma_view_eq};

/// Number of voxels in a chunk.
pub const VOL: usize = 32768;

/// The index of a valid voxel position in the naive layout: z varies fastest,
/// then x, then y.
pub open spec fn naive_index(pos: VoxelPos) -> int {
    pos@.2 + 32 * pos@.0 + 1024 * pos@.1
}

/// Whether every block of `blocks` sits at a valid voxel position.
pub open spec fn all_valid(blocks: Seq<BatVoxel>) -> bool {
    forall|i: int| 0 <= i < blocks.len() ==> (#[trigger] blocks[i]).spec_pos().is_valid()
}

/// Whether every position of `poss` is a valid voxel position.
pub open spec fn all_valid_pos(poss: Seq<VoxelPos>) -> bool {
    forall|i: int| 0 <= i < poss.len() ==> (#[trigger] poss[i]).is_valid()
}

/// The contents of a chunk after writing `blocks` in order into `s`: a later
/// write to the same position wins.
pub open spec fn apply_sets(s: Seq<BlockId>, blocks: Seq<BatVoxel>) -> Seq<BlockId>
    decreases blocks.len(),
{
    if blocks.len() == 0 {
        s
    } else {
        let b = blocks.last();
        apply_sets(s, blocks.drop_last()).update(naive_index(b.spec_pos()), b.spec_id())
    }
}

/// The block that write `i` of `blocks` replaces: the block at its position
/// once the writes before it have been made.
pub open spec fn replaced(s: Seq<BlockId>, blocks: Seq<BatVoxel>, i: int) -> BlockId {
    apply_sets(s, blocks.take(i))[naive_index(blocks[i].spec_pos())]
}

/// Whether some write of `blocks`, made in order on `s`, puts a different id
/// than the one it replaces.
pub open spec fn any_change(s: Seq<BlockId>, blocks: Seq<BatVoxel>) -> bool {
    exists|i: int| 0 <= i < blocks.len() && #[trigger] replaced(s, blocks, i) != blocks[i].spec_id()
}

/// The number of non-air ids in `s`.
pub open spec fn count_non_air(s: Seq<BlockId>) -> nat
    decreases s.len(),
{
    if s.len() == 0 {
        0
    } else {
        count_non_air(s.drop_last()) + if s.last().spec_is_air() {
            0nat
        } else {
            1nat
        }
    }
}

/// A chunk that holds only air.
pub open spec fn all_air() -> Seq<BlockId> {
    Seq::new(VOL as nat, |i: int| BlockId::new_spec(AIR_ID))
}

/// The naive index of a valid position lies inside the chunk.
pub proof fn lemma_naive_index_bounds(pos: VoxelPos)
    requires
        pos.is_valid(),
    ensures
        0 <= naive_index(pos) < VOL,
{
}

/// Distinct valid positions have distinct naive indices.
pub proof fn lemma_naive_index_injective(a: VoxelPos, b: VoxelPos)
    requires
        a.is_valid(),
        b.is_valid(),
        naive_index(a) == naive_index(b),
    ensures
        a == b,
{
    assert(a@ == b@);
}

/// No more ids are non-air than there are ids.
pub proof fn lemma_count_non_air_bound(s: Seq<BlockId>)
    ensures
        count_non_air(s) <= s.len(),
    decreases s.len(),
{
    if s.len() > 0 {
        lemma_count_non_air_bound(s.drop_last());
    }
}

/// Replacing one id changes the count of non-air ids by the change in air-ness.
pub proof fn lemma_count_non_air_update(s: Seq<BlockId>, i: int, v: BlockId)
    requires
        0 <= i < s.len(),
    ensures
        count_non_air(s.update(i, v)) + (if s[i].spec_is_air() {
            0int
        } else {
            1int
        }) == count_non_air(s) + (if v.spec_is_air() {
            0int
        } else {
            1int
        }),
    decreases s.len(),
{
    let t = s.update(i, v);
    if i == s.len() - 1 {
        assert(t.drop_last() =~= s.drop_last());
    } else {
        lemma_count_non_air_update(s.drop_last(), i, v);
        assert(t.drop_last() =~= s.drop_last().update(i, v));
    }
}

/// An all-air chunk holds no non-air id.
pub proof fn lemma_count_all_air(n: nat)
    ensures
        count_non_air(Seq::new(n, |i: int| BlockId::new_spec(AIR_ID))) == 0,
    decreases n,
{
    if n > 0 {
        lemma_count_all_air((n - 1) as nat);
        assert(Seq::new(n, |i: int| BlockId::new_spec(AIR_ID)).drop_last() =~= Seq::new(
            (n - 1) as nat,
            |i: int| BlockId::new_spec(AIR_ID),
        ));
    }
}

/// Contents of a whole chunk with no non-air id are all air.
pub proof fn lemma_count_zero_all_air(s: Seq<BlockId>)
    requires
        s.len() == VOL,
        count_non_air(s) == 0,
    ensures
        s == all_air(),
{
    lemma_count_zero_is_air(s);
    assert forall|i: int| 0 <= i < s.len() implies #[trigger] s[i] == all_air()[i] by {
        assert(s[i].value() == BlockId::new_spec(AIR_ID).value());
    }
    assert(s =~= all_air());
}

proof fn lemma_count_zero_is_air(s: Seq<BlockId>)
    requires
        count_non_air(s) == 0,
    ensures
        forall|i: int| 0 <= i < s.len() ==> (#[trigger] s[i]).spec_is_air(),
    decreases s.len(),
{
    if s.len() > 0 {
        lemma_count_zero_is_air(s.drop_last());
        assert forall|i: int| 0 <= i < s.len() implies (#[trigger] s[i]).spec_is_air() by {
            if i < s.len() - 1 {
                assert(s[i] == s.drop_last()[i]);
            }
        }
    }
}

/// A prefix of writes one longer is the shorter prefix followed by one more write.
pub proof fn lemma_apply_sets_step(s: Seq<BlockId>, blocks: Seq<BatVoxel>, i: int)
    requires
        0 <= i < blocks.len(),
    ensures
        apply_sets(s, blocks.take(i + 1)) == apply_sets(s, blocks.take(i)).update(
            naive_index(blocks[i].spec_pos()),
            blocks[i].spec_id(),
        ),
{
    assert(blocks.take(i + 1).drop_last() =~= blocks.take(i));
}

/// Writes keep the length of the contents.
pub proof fn lemma_apply_sets_len(s: Seq<BlockId>, blocks: Seq<BatVoxel>)
    requires
        s.len() == VOL,
        all_valid(blocks),
    ensures
        apply_sets(s, blocks).len() == VOL,
    decreases blocks.len(),
{
    if blocks.len() > 0 {
        assert(all_valid(blocks.drop_last())) by {
            assert forall|i: int| 0 <= i < blocks.drop_last().len() implies (
            #[trigger] blocks.drop_last()[i]).spec_pos().is_valid() by {
                assert(blocks.drop_last()[i] == blocks[i]);
            }
        }
        lemma_apply_sets_len(s, blocks.drop_last());
        assert(blocks.last() == blocks[blocks.len() - 1]);
    }
}

/// A write that no later write to the same position overrides is what the
/// chunk holds at that position once all the writes are made.
pub proof fn lemma_last_write_wins(s: Seq<BlockId>, blocks: Seq<BatVoxel>, i: int)
    requires
        s.len() == VOL,
        all_valid(blocks),
        0 <= i < blocks.len(),
        forall|j: int| i < j < blocks.len() ==> (#[trigger] blocks[j]).spec_pos() != blocks[i].spec_pos(),
    ensures
        apply_sets(s, blocks)[naive_index(blocks[i].spec_pos())] == blocks[i].spec_id(),
    decreases blocks.len(),
{
    let init = blocks.drop_last();
    assert(all_valid(init)) by {
        assert forall|k: int| 0 <= k < init.len() implies (#[trigger] init[k]).spec_pos().is_valid() by {
            assert(init[k] == blocks[k]);
        }
    }
    lemma_apply_sets_len(s, init);
    let last = blocks[blocks.len() - 1];
    assert(blocks.last() == last);
    if i < blocks.len() - 1 {
        assert forall|j: int| i < j < init.len() implies (#[trigger] init[j]).spec_pos() != init[i].spec_pos() by {
            assert(init[j] == blocks[j]);
        }
        lemma_last_write_wins(s, init, i);
        assert(init[i] == blocks[i]);
        if naive_index(last.spec_pos()) == naive_index(blocks[i].spec_pos()) {
            lemma_naive_index_injective(last.spec_pos(), blocks[i].spec_pos());
        }
    }
}

/// A position that no write targets keeps what it held.
pub proof fn lemma_unwritten_kept(s: Seq<BlockId>, blocks: Seq<BatVoxel>, pos: VoxelPos)
    requires
        s.len() == VOL,
        all_valid(blocks),
        pos.is_valid(),
        forall|j: int| 0 <= j < blocks.len() ==> (#[trigger] blocks[j]).spec_pos() != pos,
    ensures
        apply_sets(s, blocks)[naive_index(pos)] == s[naive_index(pos)],
    decreases blocks.len(),
{
    if blocks.len() > 0 {
        let init = blocks.drop_last();
        assert(all_valid(init)) by {
            assert forall|k: int| 0 <= k < init.len() implies (#[trigger] init[k]).spec_pos().is_valid() by {
                assert(init[k] == blocks[k]);
            }
        }
        assert forall|j: int| 0 <= j < init.len() implies (#[trigger] init[j]).spec_pos() != pos by {
            assert(init[j] == blocks[j]);
        }
        lemma_unwritten_kept(s, init, pos);
        lemma_apply_sets_len(s, init);
        let last = blocks[blocks.len() - 1];
        assert(blocks.last() == last);
        if naive_index(last.spec_pos()) == naive_index(pos) {
            lemma_naive_index_injective(last.spec_pos(), pos);
        }
    }
}

/// Writes that each put the id already held at their position change nothing.
pub proof fn lemma_apply_sets_fixed(t: Seq<BlockId>, blocks: Seq<BatVoxel>)
    requires
        t.len() == VOL,
        all_valid(blocks),
        forall|j: int| 0 <= j < blocks.len() ==> t[naive_index((#[trigger] blocks[j]).spec_pos())] == blocks[j].spec_id(),
    ensures
        apply_sets(t, blocks) == t,
    decreases blocks.len(),
{
    if blocks.len() > 0 {
        let init = blocks.drop_last();
        assert(all_valid(init)) by {
            assert forall|k: int| 0 <= k < init.len() implies (#[trigger] init[k]).spec_pos().is_valid() by {
                assert(init[k] == blocks[k]);
            }
        }
        assert forall|j: int| 0 <= j < init.len() implies t[naive_index((#[trigger] init[j]).spec_pos())]
            == init[j].spec_id() by {
            assert(init[j] == blocks[j]);
        }
        lemma_apply_sets_fixed(t, init);
        let last = blocks[blocks.len() - 1];
        assert(blocks.last() == last);
        assert(t.update(naive_index(last.spec_pos()), last.spec_id()) =~= t);
    }
}

/// Making the same writes again, at distinct positions, changes no id: each
/// write puts back the id it finds.
pub proof fn lemma_rewrite_no_change(s: Seq<BlockId>, blocks: Seq<BatVoxel>)
    requires
        s.len() == VOL,
        all_valid(blocks),
        forall|i: int, j: int|
            0 <= i < j < blocks.len() ==> (#[trigger] blocks[i]).spec_pos() != (#[trigger] blocks[j]).spec_pos(),
    ensures
        !any_change(apply_sets(s, blocks), blocks),
        apply_sets(apply_sets(s, blocks), blocks) == apply_sets(s, blocks),
{
    let t = apply_sets(s, blocks);
    lemma_apply_sets_len(s, blocks);
    assert forall|j: int| 0 <= j < blocks.len() implies t[naive_index((#[trigger] blocks[j]).spec_pos())]
        == blocks[j].spec_id() by {
        assert forall|k: int| j < k < blocks.len() implies (#[trigger] blocks[k]).spec_pos() != blocks[j].spec_pos() by {
            assert(blocks[j].spec_pos() != blocks[k].spec_pos());
        }
        lemma_last_write_wins(s, blocks, j);
    }
    lemma_apply_sets_fixed(t, blocks);
    assert forall|i: int| 0 <= i < blocks.len() implies #[trigger] replaced(t, blocks, i) == blocks[i].spec_id() by {
        let pre = blocks.take(i);
        assert(all_valid(pre)) by {
            assert forall|k: int| 0 <= k < pre.len() implies (#[trigger] pre[k]).spec_pos().is_valid() by {
                assert(pre[k] == blocks[k]);
            }
        }
        assert forall|k: int| 0 <= k < pre.len() implies t[naive_index((#[trigger] pre[k]).spec_pos())]
            == pre[k].spec_id() by {
            assert(pre[k] == blocks[k]);
        }
        lemma_apply_sets_fixed(t, pre);
    }
}

/// A `ChunkNaive` holds one block id per voxel of a chunk, in the naive layout,
/// and the amount of non-air blocks of the chunk.
#[derive(Debug, Clone)]
pub struct ChunkNaive {
    data: Vec<BlockId>,
    occupancy: u16,
}

impl View for ChunkNaive {
    type V = Seq<BlockId>;

    /// The ids of the chunk, by naive index.
    closed spec fn view(&self) -> Seq<BlockId> {
        self.data@
    }
}

impl ChunkNaive {
    /// The ids cover the whole chunk and the occupancy counts the non-air ones.
    pub closed spec fn wf(&self) -> bool {
        &&& self.data@.len() == VOL
        &&& self.occupancy == count_non_air(self.data@)
    }

    /// A well formed chunk covers every voxel.
    pub proof fn lemma_wf_len(&self)
        requires
            self.wf(),
        ensures
            self@.len() == VOL,
    {
    }

    /// Creates a chunk holding the given blocks, written in order, over air.
    pub fn new(blocks: &[BatVoxel]) -> (r: Self)
        requires
            all_valid(blocks@),
        ensures
            r.wf(),
            r@ == apply_sets(all_air(), blocks@),
    {
        let mut data: Vec<BlockId> = Vec::with_capacity(VOL);
        while data.len() < VOL
            invariant
                data@.len() <= VOL,
                forall|j: int| 0 <= j < data@.len() ==> #[trigger] data@[j] == BlockId::new_spec(AIR_ID),
            decreases VOL - data@.len(),
        {
            data.push(BlockId::new(AIR_ID));
        }
        assert(data@ =~= all_air());
        proof {
            lemma_count_all_air(VOL as nat);
        }
        let mut chunk = Self { data, occupancy: 0 };
        let mut i: usize = 0;
        while i < blocks.len()
            invariant
                i <= blocks@.len(),
                all_valid(blocks@),
                chunk.wf(),
                chunk@ == apply_sets(all_air(), blocks@.take(i as int)),
            decreases blocks@.len() - i,
        {
            proof {
                lemma_apply_sets_step(all_air(), blocks@, i as int);
            }
            let _ = chunk.set_naive(blocks[i]);
            i += 1;
        }
        assert(blocks@.take(blocks@.len() as int) =~= blocks@);
        chunk
    }

    /// Returns the number of non-air blocks.
    pub fn occupancy(&self) -> (r: u16)
        requires
            self.wf(),
        ensures
            r == count_non_air(self@),
    {
        self.occupancy
    }

    /// Gets the block at the given position.
    pub fn get_naive(&self, pos: VoxelPos) -> (r: BatVoxel)
        requires
            self.wf(),
            pos.is_valid(),
        ensures
            r.spec_pos() == pos,
            r.spec_id() == self@[naive_index(pos)],
    {
        BlockAt::new(pos, self.data[naive(pos) as usize])
    }

    /// Gets the blocks at the given positions into `output`, in the same order.
    pub fn get_bulk_naive(&self, poss: &[VoxelPos], output: &mut [BatVoxel])
        requires
            self.wf(),
            all_valid_pos(poss@),
            old(output)@.len() >= poss@.len(),
        ensures
            final(output)@.len() == old(output)@.len(),
            forall|i: int|
                0 <= i < poss@.len() ==> (#[trigger] final(output)@[i]).spec_pos() == poss@[i]
                    && final(output)@[i].spec_id() == self@[naive_index(poss@[i])],
            forall|i: int|
                poss@.len() <= i < old(output)@.len() ==> #[trigger] final(output)@[i] == old(
                    output,
                )@[i],
    {
        let mut i: usize = 0;
        while i < poss.len()
            invariant
                self.wf(),
                all_valid_pos(poss@),
                i <= poss@.len(),
                output@.len() == old(output)@.len(),
                old(output)@.len() >= poss@.len(),
                forall|j: int|
                    0 <= j < i ==> (#[trigger] output@[j]).spec_pos() == poss@[j]
                        && output@[j].spec_id() == self@[naive_index(poss@[j])],
                forall|j: int| i <= j < old(output)@.len() ==> #[trigger] output@[j] == old(output)@[j],
            decreases poss@.len() - i,
        {
            let b = self.get_naive(poss[i]);
            output[i] = b;
            i += 1;
        }
    }

    /// Sets the block at the given position and returns the block it replaces.
    pub fn set_naive(&mut self, block: BatVoxel) -> (r: BatVoxel)
        requires
            old(self).wf(),
            block.spec_pos().is_valid(),
        ensures
            final(self).wf(),
            final(self)@ == old(self)@.update(naive_index(block.spec_pos()), block.spec_id()),
            r.spec_pos() == block.spec_pos(),
            r.spec_id() == old(self)@[naive_index(block.spec_pos())],
    {
        let pos = block.pos();
        let new_id = block.id();
        let i = naive(pos) as usize;
        let old_id = self.data[i];
        proof {
            lemma_count_non_air_update(self.data@, i as int, new_id);
            lemma_count_non_air_bound(self.data@);
            lemma_count_non_air_bound(self.data@.update(i as int, new_id));
        }
        self.data.set(i, new_id);
        if old_id.is_air() && !new_id.is_air() {
            self.occupancy += 1;
        } else if !old_id.is_air() && new_id.is_air() {
            self.occupancy -= 1;
        }
        BlockAt::new(pos, old_id)
    }

    /// Sets the blocks in order and writes the blocks they replace to `output`.
    /// Returns whether any write changed an id.
    pub fn set_bulk_naive(&mut self, blocks: &[BatVoxel], output: &mut [BatVoxel]) -> (r: bool)
        requires
            old(self).wf(),
            all_valid(blocks@),
            old(output)@.len() >= blocks@.len(),
        ensures
            final(self).wf(),
            final(self)@ == apply_sets(old(self)@, blocks@),
            r == any_change(old(self)@, blocks@),
            final(output)@.len() == old(output)@.len(),
            forall|i: int|
                0 <= i < blocks@.len() ==> (#[trigger] final(output)@[i]).spec_pos() == blocks@[i].spec_pos()
                    && final(output)@[i].spec_id() == replaced(old(self)@, blocks@, i),
            forall|i: int|
                blocks@.len() <= i < old(output)@.len() ==> #[trigger] final(output)@[i] == old(
                    output,
                )@[i],
    {
        let ghost s0 = self@;
        let mut changed = false;
        let mut i: usize = 0;
        while i < blocks.len()
            invariant
                self.wf(),
                all_valid(blocks@),
                i <= blocks@.len(),
                self@ == apply_sets(s0, blocks@.take(i as int)),
                changed == exists|j: int|
                    0 <= j < i && #[trigger] replaced(s0, blocks@, j) != blocks@[j].spec_id(),
                output@.len() == old(output)@.len(),
                old(output)@.len() >= blocks@.len(),
                forall|j: int|
                    0 <= j < i ==> (#[trigger] output@[j]).spec_pos() == blocks@[j].spec_pos()
                        && output@[j].spec_id() == replaced(s0, blocks@, j),
                forall|j: int| i <= j < old(output)@.len() ==> #[trigger] output@[j] == old(output)@[j],
            decreases blocks@.len() - i,
        {
            proof {
                lemma_apply_sets_step(s0, blocks@, i as int);
            }
            let ghost before = self@;
            let old_block = self.set_naive(blocks[i]);
            assert(replaced(s0, blocks@, i as int) == old_block.spec_id());
            if !old_block.id().is_equal(&blocks[i].id()) {
                changed = true;
            }
            output[i] = old_block;
            i += 1;
        }
        assert(blocks@.take(blocks@.len() as int) =~= blocks@);
        changed
    }

    /// Whether the chunk holds only air.
    pub fn is_empty(&self) -> (r: bool)
        requires
            self.wf(),
        ensures
            r == (count_non_air(self@) == 0),
    {
        self.occupancy == 0
    }
}

/// Turns a valid `VoxelPos` into its index in the naive layout of a chunk.
pub fn naive(pos: VoxelPos) -> (r: u16)
    requires
        pos.is_valid(),
    ensures
        r == naive_index(pos),
{
    let (x, y, z) = pos.pos();
    let r = (z as u16) | ((x as u16) << 5) | ((y as u16) << 10);
    assert(r == z + 32 * x + 1024 * y) by (bit_vector)
        requires
            x < 32,
            y < 32,
            z < 32,
            r == (z as u16) | ((x as u16) << 5u16) | ((y as u16) << 10u16),
    ;
    r
}

} // verus!
