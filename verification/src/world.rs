//! A world: the resident chunks and the clock, and the requests it answers.

use vstd::prelude::*;

use crate::block_at::{BatVoxel, BatWorld, BlockAt};
use crate::block_id::BlockId;
use crate::chunk::Chunk;
use crate::chunk_pos::ChunkPos;
use crate::command::{FailureReason, InvalidReason, WorldRequest, WorldResponse};
use crate::manager::ChunkManager;
use crate::naive_chunk::{
    all_valid, all_valid_pos, any_change, apply_sets, lemma_apply_sets_len, lemma_naive_index_injective,
    naive_index, replaced,
    VOL,
};
use crate::voxel_pos::VoxelPos;
use crate::world_pos::{chunk_coord, lemma_coord_split_join, voxel_coord, world_coord, WorldPos};

verus! {

broadcast use {
    BlockId::lemma_value_eq,
    BlockAt::lemma_fields_eq,
    BlockAt::lemma_spec_new,
    VoxelPos::lemma_view_eq,
    VoxelPos::lemma_spec_new,
    ChunkPos::lemma_view_eq,
    ChunkPos::lemma_spec_new,
    WorldPos::lemma_view_eq,
    vstd::seq_lib::lemma_seq_contains_after_push,
};

/// The position of the chunk that holds world position `w`.
pub open spec fn cpos_of(w: WorldPos) -> ChunkPos {
    ChunkPos::spec_new(chunk_coord(w@.0), chunk_coord(w@.1), chunk_coord(w@.2))
}

/// The position of world position `w` inside its chunk.
pub open spec fn vpos_of(w: WorldPos) -> VoxelPos {
    VoxelPos::spec_new(voxel_coord(w@.0), voxel_coord(w@.1), voxel_coord(w@.2))
}

/// The coordinates of `w` once split into chunk and voxel positions and joined
/// again: `w` itself for every position of the World Grid.
pub open spec fn rejoined(w: WorldPos) -> (i32, i32, i32) {
    (
        world_coord(chunk_coord(w@.0), voxel_coord(w@.0)),
        world_coord(chunk_coord(w@.1), voxel_coord(w@.1)),
        world_coord(chunk_coord(w@.2), voxel_coord(w@.2)),
    )
}

/// A write at a world position as a write inside its chunk.
pub open spec fn voxel_write(b: BatWorld) -> BatVoxel {
    BlockAt::spec_new(vpos_of(b.spec_pos()), b.spec_id())
}

/// The writes of `bats` that fall in the chunk at `c`, in order, as writes inside that chunk.
pub open spec fn chunk_writes(bats: Seq<BatWorld>, c: ChunkPos) -> Seq<BatVoxel>
    decreases bats.len(),
{
    if bats.len() == 0 {
        Seq::empty()
    } else {
        let r = chunk_writes(bats.drop_last(), c);
        if cpos_of(bats.last().spec_pos()) == c {
            r.push(voxel_write(bats.last()))
        } else {
            r
        }
    }
}

/// Whether the chunk of every position of `poss` is resident.
pub open spec fn all_resident(chunks: Map<ChunkPos, Chunk>, poss: Seq<WorldPos>) -> bool {
    forall|i: int| 0 <= i < poss.len() ==> chunks.contains_key(cpos_of(#[trigger] poss[i]))
}

/// Whether the chunk of every block of `bats` is resident.
pub open spec fn all_resident_bats(chunks: Map<ChunkPos, Chunk>, bats: Seq<BatWorld>) -> bool {
    forall|i: int| 0 <= i < bats.len() ==> chunks.contains_key(cpos_of((#[trigger] bats[i]).spec_pos()))
}

/// `b` is the block read at `w` from resident chunks `chunks`.
pub open spec fn read_block(chunks: Map<ChunkPos, Chunk>, w: WorldPos, b: BatWorld) -> bool {
    &&& b.spec_pos()@ == rejoined(w)
    &&& b.spec_id() == chunks[cpos_of(w)].block_at(vpos_of(w))
}

/// `new` is chunk `old` after the writes `writes`, made in order: its contents
/// follow the writes, its position stays and its version grows by one if any
/// write changed an id.
pub open spec fn chunk_written(old: Chunk, new: Chunk, writes: Seq<BatVoxel>) -> bool {
    &&& new@ == apply_sets(old@, writes)
    &&& new.spec_chunk_pos() == old.spec_chunk_pos()
    &&& new.spec_version().value() == old.spec_version().value() + if any_change(old@, writes) {
        1int
    } else {
        0int
    }
}

/// `new` is the resident chunks `old` after the writes `bats`: the same chunks
/// stay resident and each is written with the writes that fall in it.
pub open spec fn chunks_written(
    old: Map<ChunkPos, Chunk>,
    new: Map<ChunkPos, Chunk>,
    bats: Seq<BatWorld>,
) -> bool {
    &&& new.dom() == old.dom()
    &&& forall|c: ChunkPos| #[trigger]
        old.contains_key(c) ==> chunk_written(old[c], new[c], chunk_writes(bats, c))
}

/// `b` is what write `i` of `bats` replaced: the block at its position once
/// the earlier writes to the same chunk have been made.
pub open spec fn replaced_block(
    old: Map<ChunkPos, Chunk>,
    bats: Seq<BatWorld>,
    i: int,
    b: BatWorld,
) -> bool {
    let w = bats[i].spec_pos();
    let c = cpos_of(w);
    &&& b.spec_pos()@ == rejoined(w)
    &&& b.spec_id() == apply_sets(old[c]@, chunk_writes(bats.take(i), c))[naive_index(vpos_of(w))]
}

/// Every resident chunk that a write of `bats` falls in can still take one
/// more change of version.
pub open spec fn versions_below_max_for(chunks: Map<ChunkPos, Chunk>, bats: Seq<BatWorld>) -> bool {
    forall|i: int|
        0 <= i < bats.len() && chunks.contains_key(cpos_of((#[trigger] bats[i]).spec_pos()))
            ==> chunks[cpos_of(bats[i].spec_pos())].spec_version().value() < u64::MAX
}

/// The writes into one chunk sit at valid voxel positions.
pub proof fn lemma_chunk_writes_valid(bats: Seq<BatWorld>, c: ChunkPos)
    ensures
        all_valid(chunk_writes(bats, c)),
    decreases bats.len(),
{
    if bats.len() > 0 {
        lemma_chunk_writes_valid(bats.drop_last(), c);
        let r = chunk_writes(bats.drop_last(), c);
        let b = bats.last();
        if cpos_of(b.spec_pos()) == c {
            assert forall|i: int| 0 <= i < r.push(voxel_write(b)).len() implies (#[trigger] r.push(
                voxel_write(b),
            )[i]).spec_pos().is_valid() by {
                if i < r.len() {
                    assert(r.push(voxel_write(b))[i] == r[i]);
                }
            }
        }
    }
}

/// One more write extends the writes into its own chunk and no other.
pub proof fn lemma_chunk_writes_step(bats: Seq<BatWorld>, i: int, c: ChunkPos)
    requires
        0 <= i < bats.len(),
    ensures
        chunk_writes(bats.take(i + 1), c) == if cpos_of(bats[i].spec_pos()) == c {
            chunk_writes(bats.take(i), c).push(voxel_write(bats[i]))
        } else {
            chunk_writes(bats.take(i), c)
        },
{
    assert(bats.take(i + 1).drop_last() =~= bats.take(i));
    assert(bats.take(i + 1).last() == bats[i]);
}

/// No write of `bats` falls in a chunk that none of its positions lie in.
pub proof fn lemma_chunk_writes_none(bats: Seq<BatWorld>, c: ChunkPos)
    requires
        forall|i: int| 0 <= i < bats.len() ==> cpos_of((#[trigger] bats[i]).spec_pos()) != c,
    ensures
        chunk_writes(bats, c) == Seq::<BatVoxel>::empty(),
    decreases bats.len(),
{
    if bats.len() > 0 {
        assert forall|i: int| 0 <= i < bats.drop_last().len() implies cpos_of(
            (#[trigger] bats.drop_last()[i]).spec_pos(),
        ) != c by {
            assert(bats.drop_last()[i] == bats[i]);
        }
        lemma_chunk_writes_none(bats.drop_last(), c);
        assert(bats.last() == bats[bats.len() - 1]);
    }
}

/// A write of a block at a world position, as a write inside its chunk.
fn to_voxel_write(b: &BatWorld) -> (r: BatVoxel)
    ensures
        r == voxel_write(*b),
{
    let r = BatVoxel::from_world_bat(b);
    assert(r.spec_pos()@ == vpos_of(b.spec_pos())@);
    assert(r.spec_pos() == voxel_write(*b).spec_pos());
    r
}

/// The position of the chunk that holds `w`.
fn chunk_of(w: &WorldPos) -> (r: ChunkPos)
    ensures
        r == cpos_of(*w),
{
    let r = w.into_chunk_pos();
    assert(r@ == cpos_of(*w)@);
    r
}

/// The position of `w` inside its chunk.
fn voxel_of(w: &WorldPos) -> (r: VoxelPos)
    ensures
        r == vpos_of(*w),
        r.is_valid(),
{
    let r = w.into_voxel_pos();
    assert(r@ == vpos_of(*w)@);
    r
}

/// Whether `c` is one of `cs`.
fn contains_pos(cs: &Vec<ChunkPos>, c: &ChunkPos) -> (r: bool)
    ensures
        r == cs@.contains(*c),
{
    let mut i: usize = 0;
    while i < cs.len()
        invariant
            i <= cs@.len(),
            forall|j: int| 0 <= j < i ==> cs@[j] != *c,
        decreases cs@.len() - i,
    {
        if cs[i] == *c {
            return true;
        }
        i += 1;
    }
    false
}

/// A world: the chunks resident in memory and the number of ticks elapsed.
pub struct World {
    chunks: ChunkManager,
    tick: u64,
}

impl World {
    /// The resident chunks.
    pub closed spec fn spec_chunks(&self) -> Map<ChunkPos, Chunk> {
        self.chunks@
    }

    /// The number of ticks elapsed.
    pub closed spec fn spec_tick(&self) -> u64 {
        self.tick
    }

    /// Creates a world with no chunk, at tick 0.
    pub fn new() -> (r: Self)
        ensures
            r.spec_chunks() == Map::<ChunkPos, Chunk>::empty(),
            r.spec_tick() == 0,
    {
        Self { chunks: ChunkManager::new(), tick: 0 }
    }

    /// The number of ticks elapsed.
    pub fn tick(&self) -> (r: u64)
        ensures
            r == self.spec_tick(),
    {
        self.tick
    }

    /// Lets one tick elapse.
    pub fn advance(&mut self)
        requires
            old(self).spec_tick() < u64::MAX,
        ensures
            final(self).spec_tick() == old(self).spec_tick() + 1,
            final(self).spec_chunks() == old(self).spec_chunks(),
    {
        self.tick += 1;
    }

    /// The resident chunks.
    pub fn chunks(&self) -> (r: &ChunkManager)
        ensures
            r@ == self.spec_chunks(),
    {
        &self.chunks
    }

    /// The resident chunks, for changing them.
    pub fn chunks_mut(&mut self) -> (r: &mut ChunkManager)
        ensures
            r@ == old(self).spec_chunks(),
            final(self).spec_chunks() == final(r)@,
            final(self).spec_tick() == old(self).spec_tick(),
    {
        &mut self.chunks
    }

    /// Answers a request: reads or writes blocks in resident chunks.
    pub fn apply(&mut self, request: WorldRequest) -> (r: WorldResponse)
        requires
            match request {
                WorldRequest::SetBlock(bat) => versions_below_max_for(old(self).spec_chunks(), seq![bat]),
                WorldRequest::SetBlockBulk(bats) => versions_below_max_for(old(self).spec_chunks(), bats@),
                _ => true,
            },
        ensures
            final(self).spec_tick() == old(self).spec_tick(),
            match request {
                WorldRequest::GetBlock(pos) => {
                    &&& final(self).spec_chunks() == old(self).spec_chunks()
                    &&& if old(self).spec_chunks().contains_key(cpos_of(pos)) {
                        r matches WorldResponse::ReturnBlock(b) && read_block(
                            old(self).spec_chunks(),
                            pos,
                            b,
                        )
                    } else {
                        r == WorldResponse::Failure { reason: FailureReason::ChunkNotInMemory }
                    }
                },
                WorldRequest::SetBlock(bat) => if old(self).spec_chunks().contains_key(
                    cpos_of(bat.spec_pos()),
                ) {
                    &&& chunks_written(old(self).spec_chunks(), final(self).spec_chunks(), seq![bat])
                    &&& r matches WorldResponse::ReturnBlock(b) && replaced_block(
                        old(self).spec_chunks(),
                        seq![bat],
                        0,
                        b,
                    )
                } else {
                    &&& final(self).spec_chunks() == old(self).spec_chunks()
                    &&& r == WorldResponse::Failure { reason: FailureReason::ChunkNotInMemory }
                },
                WorldRequest::GetBlockBulk(poss) => {
                    &&& final(self).spec_chunks() == old(self).spec_chunks()
                    &&& if poss@.len() == 0 {
                        r == WorldResponse::Invalid { reason: InvalidReason::EmptyBlockBulkRequest }
                    } else if all_resident(old(self).spec_chunks(), poss@) {
                        r matches WorldResponse::ReturnBlockBulk(bs) && bs@.len() == poss@.len()
                            && forall|i: int|
                            0 <= i < poss@.len() ==> read_block(
                                old(self).spec_chunks(),
                                #[trigger] poss@[i],
                                bs@[i],
                            )
                    } else {
                        r == WorldResponse::Failure { reason: FailureReason::ChunkNotInMemory }
                    }
                },
                WorldRequest::SetBlockBulk(bats) => if bats@.len() == 0 {
                    &&& final(self).spec_chunks() == old(self).spec_chunks()
                    &&& r == WorldResponse::Invalid { reason: InvalidReason::EmptyBlockBulkRequest }
                } else if all_resident_bats(old(self).spec_chunks(), bats@) {
                    &&& chunks_written(old(self).spec_chunks(), final(self).spec_chunks(), bats@)
                    &&& r matches WorldResponse::ReturnBlockBulk(bs) && bs@.len() == bats@.len()
                        && forall|i: int|
                        0 <= i < bats@.len() ==> replaced_block(
                            old(self).spec_chunks(),
                            bats@,
                            i,
                            #[trigger] bs@[i],
                        )
                } else {
                    &&& final(self).spec_chunks() == old(self).spec_chunks()
                    &&& r == WorldResponse::Failure { reason: FailureReason::ChunkNotInMemory }
                },
            },
    {
        match request {
            WorldRequest::GetBlock(pos) => match self.get_block(pos) {
                Some(bat) => WorldResponse::ReturnBlock(bat),
                None => WorldResponse::Failure { reason: FailureReason::ChunkNotInMemory },
            },
            WorldRequest::SetBlock(bat) => {
                let one = [bat];
                let ghost s1 = one@;
                assert(s1 =~= seq![bat]);
                match self.set_block_bulk(&one) {
                    Some(bats) => WorldResponse::ReturnBlock(bats[0]),
                    None => WorldResponse::Failure { reason: FailureReason::ChunkNotInMemory },
                }
            },
            WorldRequest::GetBlockBulk(poss) => {
                if poss.len() == 0 {
                    WorldResponse::Invalid { reason: InvalidReason::EmptyBlockBulkRequest }
                } else {
                    match self.get_block_bulk(&poss) {
                        Some(bats) => WorldResponse::ReturnBlockBulk(bats),
                        None => WorldResponse::Failure { reason: FailureReason::ChunkNotInMemory },
                    }
                }
            },
            WorldRequest::SetBlockBulk(bats) => {
                if bats.len() == 0 {
                    WorldResponse::Invalid { reason: InvalidReason::EmptyBlockBulkRequest }
                } else {
                    match self.set_block_bulk(&bats) {
                        Some(bats) => WorldResponse::ReturnBlockBulk(bats),
                        None => WorldResponse::Failure { reason: FailureReason::ChunkNotInMemory },
                    }
                }
            },
        }
    }

    /// The block at `pos`, if its chunk is resident.
    fn get_block(&self, pos: WorldPos) -> (r: Option<BatWorld>)
        ensures
            match r {
                Some(b) => self.spec_chunks().contains_key(cpos_of(pos)) && read_block(
                    self.spec_chunks(),
                    pos,
                    b,
                ),
                None => !self.spec_chunks().contains_key(cpos_of(pos)),
            },
    {
        let chunk_pos = chunk_of(&pos);
        let voxel_pos = voxel_of(&pos);
        match self.chunks.get_chunk(&chunk_pos) {
            Some(chunk) => Some(chunk.get(voxel_pos).into_world_bat(&chunk_pos)),
            None => None,
        }
    }

    /// The blocks at `poss`, in order, if all their chunks are resident.
    fn get_block_bulk(&self, poss: &Vec<WorldPos>) -> (r: Option<Vec<BatWorld>>)
        ensures
            match r {
                Some(bs) => all_resident(self.spec_chunks(), poss@) && bs@.len() == poss@.len()
                    && forall|i: int|
                    0 <= i < poss@.len() ==> read_block(self.spec_chunks(), #[trigger] poss@[i], bs@[i]),
                None => !all_resident(self.spec_chunks(), poss@),
            },
    {
        let n = poss.len();
        let mut i: usize = 0;
        while i < n
            invariant
                n == poss@.len(),
                i <= n,
                forall|j: int| 0 <= j < i ==> self.spec_chunks().contains_key(cpos_of(#[trigger] poss@[j])),
            decreases n - i,
        {
            if !self.chunks.contains_chunk(&chunk_of(&poss[i])) {
                return None;
            }
            i += 1;
        }
        let ghost m = self.spec_chunks();
        let mut answ: Vec<BatWorld> = Vec::new();
        let mut i: usize = 0;
        while i < n
            invariant
                n == poss@.len(),
                i <= n,
                answ@.len() == i,
            decreases n - i,
        {
            answ.push(BlockAt::new(poss[i], BlockId::air()));
            i += 1;
        }
        let mut done: Vec<ChunkPos> = Vec::new();
        let mut i: usize = 0;
        while i < n
            invariant
                n == poss@.len(),
                i <= n,
                m == self.spec_chunks(),
                all_resident(m, poss@),
                answ@.len() == n,
                forall|j: int| 0 <= j < i ==> done@.contains(cpos_of(#[trigger] poss@[j])),
                forall|j: int|
                    0 <= j < n && done@.contains(cpos_of(poss@[j])) ==> read_block(
                        m,
                        #[trigger] poss@[j],
                        answ@[j],
                    ),
            decreases n - i,
        {
            let cp = chunk_of(&poss[i]);
            if !contains_pos(&done, &cp) {
                let mut idxs: Vec<usize> = Vec::new();
                let mut vps: Vec<VoxelPos> = Vec::new();
                let mut buffer: Vec<BatVoxel> = Vec::new();
                let mut j: usize = 0;
                while j < n
                    invariant
                        n == poss@.len(),
                        j <= n,
                        idxs@.len() == vps@.len(),
                        buffer@.len() == vps@.len(),
                        all_valid_pos(vps@),
                        forall|k: int| 0 <= k < idxs@.len() ==> #[trigger] idxs@[k] < n,
                        forall|k: int|
                            0 <= k < idxs@.len() ==> cpos_of(poss@[#[trigger] idxs@[k] as int]) == cp
                                && vps@[k] == vpos_of(poss@[idxs@[k] as int]),
                        forall|k: int|
                            0 <= k < j && cpos_of(#[trigger] poss@[k]) == cp ==> idxs@.contains(k as usize),
                    decreases n - j,
                {
                    if chunk_of(&poss[j]) == cp {
                        idxs.push(j);
                        let vp = voxel_of(&poss[j]);
                        vps.push(vp);
                        buffer.push(BlockAt::new(vp, BlockId::air()));
                        proof {
                            assert(idxs@[idxs@.len() - 1] == j);
                        }
                    }
                    j += 1;
                }
                let chunk = match self.chunks.get_chunk(&cp) {
                    Some(c) => c,
                    None => {
                        assert(false);
                        return None;
                    },
                };
                chunk.get_bulk(vps.as_slice(), buffer.as_mut_slice());
                let mut k: usize = 0;
                while k < idxs.len()
                    invariant
                        n == poss@.len(),
                        answ@.len() == n,
                        k <= idxs@.len(),
                        idxs@.len() == vps@.len(),
                        buffer@.len() == vps@.len(),
                        m.contains_key(cp),
                        *chunk == m[cp],
                        forall|l: int| 0 <= l < idxs@.len() ==> #[trigger] idxs@[l] < n,
                        forall|l: int|
                            0 <= l < idxs@.len() ==> cpos_of(poss@[#[trigger] idxs@[l] as int]) == cp
                                && vps@[l] == vpos_of(poss@[idxs@[l] as int]),
                        forall|l: int|
                            0 <= l < buffer@.len() ==> (#[trigger] buffer@[l]).spec_pos() == vps@[l]
                                && buffer@[l].spec_id() == chunk.block_at(vps@[l]),
                        forall|l: int|
                            0 <= l < k ==> read_block(m, poss@[#[trigger] idxs@[l] as int], answ@[idxs@[l] as int]),
                        forall|jj: int|
                            0 <= jj < n && done@.contains(cpos_of(poss@[jj])) ==> read_block(
                                m,
                                #[trigger] poss@[jj],
                                answ@[jj],
                            ),
                        !done@.contains(cp),
                    decreases idxs@.len() - k,
                {
                    let b = buffer[k].into_world_bat(&cp);
                    answ.set(idxs[k], b);
                    k += 1;
                }
                proof {
                    assert forall|jj: int|
                        0 <= jj < n && done@.push(cp).contains(cpos_of(poss@[jj])) implies read_block(
                        m,
                        #[trigger] poss@[jj],
                        answ@[jj],
                    ) by {
                        if !done@.contains(cpos_of(poss@[jj])) {
                            assert(cpos_of(poss@[jj]) == cp);
                            let l = choose|l: int| 0 <= l < idxs@.len() && idxs@[l] == jj;
                            assert(read_block(m, poss@[idxs@[l] as int], answ@[idxs@[l] as int]));
                        }
                    }
                }
                done.push(cp);
            }
            i += 1;
        }
        Some(answ)
    }

    /// Writes `bats` in order into their resident chunks, if all their chunks
    /// are resident, and returns the blocks the writes replaced.
    fn set_block_bulk(&mut self, bats: &[BatWorld]) -> (r: Option<Vec<BatWorld>>)
        requires
            versions_below_max_for(old(self).spec_chunks(), bats@),
        ensures
            final(self).spec_tick() == old(self).spec_tick(),
            match r {
                Some(bs) => {
                    &&& all_resident_bats(old(self).spec_chunks(), bats@)
                    &&& chunks_written(old(self).spec_chunks(), final(self).spec_chunks(), bats@)
                    &&& bs@.len() == bats@.len()
                    &&& forall|i: int|
                        0 <= i < bats@.len() ==> replaced_block(
                            old(self).spec_chunks(),
                            bats@,
                            i,
                            #[trigger] bs@[i],
                        )
                },
                None => !all_resident_bats(old(self).spec_chunks(), bats@) && final(self).spec_chunks()
                    == old(self).spec_chunks(),
            },
    {
        let n = bats.len();
        let mut i: usize = 0;
        while i < n
            invariant
                n == bats@.len(),
                i <= n,
                forall|j: int|
                    0 <= j < i ==> self.spec_chunks().contains_key(cpos_of((#[trigger] bats@[j]).spec_pos())),
            decreases n - i,
        {
            if !self.chunks.contains_chunk(&chunk_of(&bats[i].pos())) {
                return None;
            }
            i += 1;
        }
        let ghost m0 = self.spec_chunks();
        let mut answ: Vec<BatWorld> = Vec::new();
        let mut i: usize = 0;
        while i < n
            invariant
                n == bats@.len(),
                i <= n,
                answ@.len() == i,
            decreases n - i,
        {
            answ.push(bats[i]);
            i += 1;
        }
        let mut done: Vec<ChunkPos> = Vec::new();
        let mut i: usize = 0;
        while i < n
            invariant
                n == bats@.len(),
                i <= n,
                self.spec_tick() == old(self).spec_tick(),
                m0 == old(self).spec_chunks(),
                all_resident_bats(m0, bats@),
                versions_below_max_for(m0, bats@),
                self.spec_chunks().dom() == m0.dom(),
                forall|c: ChunkPos| #[trigger]
                    m0.contains_key(c) ==> if done@.contains(c) {
                        chunk_written(m0[c], self.spec_chunks()[c], chunk_writes(bats@, c))
                    } else {
                        self.spec_chunks()[c] == m0[c]
                    },
                answ@.len() == n,
                forall|j: int| 0 <= j < i ==> done@.contains(cpos_of((#[trigger] bats@[j]).spec_pos())),
                forall|j: int|
                    0 <= j < n && done@.contains(cpos_of(bats@[j].spec_pos())) ==> replaced_block(
                        m0,
                        bats@,
                        j,
                        #[trigger] answ@[j],
                    ),
            decreases n - i,
        {
            let cp = chunk_of(&bats[i].pos());
            if !contains_pos(&done, &cp) {
                let mut idxs: Vec<usize> = Vec::new();
                let mut writes: Vec<BatVoxel> = Vec::new();
                let mut buffer: Vec<BatVoxel> = Vec::new();
                let mut j: usize = 0;
                while j < n
                    invariant
                        n == bats@.len(),
                        j <= n,
                        writes@ == chunk_writes(bats@.take(j as int), cp),
                        idxs@.len() == writes@.len(),
                        buffer@.len() == writes@.len(),
                        forall|k: int|
                            0 <= k < idxs@.len() ==> #[trigger] idxs@[k] < n && cpos_of(
                                bats@[idxs@[k] as int].spec_pos(),
                            ) == cp && writes@[k] == voxel_write(bats@[idxs@[k] as int])
                                && chunk_writes(bats@.take(idxs@[k] as int), cp) == writes@.take(k),
                        forall|k: int|
                            0 <= k < j && cpos_of((#[trigger] bats@[k]).spec_pos()) == cp ==> idxs@.contains(k as usize),
                    decreases n - j,
                {
                    proof {
                        lemma_chunk_writes_step(bats@, j as int, cp);
                    }
                    if chunk_of(&bats[j].pos()) == cp {
                        let ghost before = writes@;
                        idxs.push(j);
                        let w = to_voxel_write(&bats[j]);
                        writes.push(w);
                        buffer.push(w);
                        proof {
                            assert(idxs@[idxs@.len() - 1] == j);
                            assert(writes@.take(writes@.len() - 1) =~= before);
                            assert forall|k: int| 0 <= k < idxs@.len() - 1 implies writes@.take(k)
                                == before.take(k) by {
                                assert(writes@.take(k) =~= before.take(k));
                            }
                        }
                    }
                    j += 1;
                }
                proof {
                    assert(bats@.take(n as int) =~= bats@);
                    lemma_chunk_writes_valid(bats@, cp);
                }
                let mut chunk = match self.chunks.remove_chunk(&cp) {
                    Some(c) => c,
                    None => {
                        assert(false);
                        return None;
                    },
                };
                let ghost c0 = chunk;
                assert(c0 == m0[cp]);
                chunk.set_bulk(writes.as_slice(), buffer.as_mut_slice());
                let ghost c1 = chunk;
                let _ = self.chunks.insert_chunk(chunk);
                let mut k: usize = 0;
                while k < idxs.len()
                    invariant
                        n == bats@.len(),
                        answ@.len() == n,
                        k <= idxs@.len(),
                        idxs@.len() == writes@.len(),
                        buffer@.len() == writes@.len(),
                        m0.contains_key(cp),
                        c0 == m0[cp],
                        forall|l: int|
                            0 <= l < idxs@.len() ==> #[trigger] idxs@[l] < n && cpos_of(
                                bats@[idxs@[l] as int].spec_pos(),
                            ) == cp && writes@[l] == voxel_write(bats@[idxs@[l] as int])
                                && chunk_writes(bats@.take(idxs@[l] as int), cp) == writes@.take(l),
                        forall|l: int|
                            0 <= l < writes@.len() ==> (#[trigger] buffer@[l]).spec_pos()
                                == writes@[l].spec_pos() && buffer@[l].spec_id() == replaced(
                                c0@,
                                writes@,
                                l,
                            ),
                        forall|l: int|
                            0 <= l < k ==> replaced_block(
                                m0,
                                bats@,
                                idxs@[l] as int,
                                answ@[#[trigger] idxs@[l] as int],
                            ),
                        forall|jj: int|
                            0 <= jj < n && done@.contains(cpos_of(bats@[jj].spec_pos())) ==> replaced_block(
                                m0,
                                bats@,
                                jj,
                                #[trigger] answ@[jj],
                            ),
                        !done@.contains(cp),
                    decreases idxs@.len() - k,
                {
                    let b = buffer[k].into_world_bat(&cp);
                    proof {
                        let w = bats@[idxs@[k as int] as int].spec_pos();
                        assert(cp@ == cpos_of(w)@);
                        assert(buffer@[k as int].spec_pos() == vpos_of(w));
                        assert(vpos_of(w)@ == (voxel_coord(w@.0), voxel_coord(w@.1), voxel_coord(w@.2)));
                    }
                    answ.set(idxs[k], b);
                    k += 1;
                }
                proof {
                    assert forall|jj: int|
                        0 <= jj < n && done@.push(cp).contains(cpos_of(bats@[jj].spec_pos())) implies replaced_block(
                        m0,
                        bats@,
                        jj,
                        #[trigger] answ@[jj],
                    ) by {
                        if !done@.contains(cpos_of(bats@[jj].spec_pos())) {
                            assert(cpos_of(bats@[jj].spec_pos()) == cp);
                            let l = choose|l: int| 0 <= l < idxs@.len() && idxs@[l] == jj;
                            assert(replaced_block(m0, bats@, idxs@[l] as int, answ@[idxs@[l] as int]));
                        }
                    }
                    assert forall|c: ChunkPos| #[trigger]
                        m0.contains_key(c) implies if done@.push(cp).contains(c) {
                        chunk_written(m0[c], self.spec_chunks()[c], chunk_writes(bats@, c))
                    } else {
                        self.spec_chunks()[c] == m0[c]
                    } by {
                        if c == cp {
                            assert(self.spec_chunks()[c] == c1);
                        }
                    }
                    assert(self.spec_chunks().dom() =~= m0.dom());
                }
                done.push(cp);
            }
            i += 1;
        }
        proof {
            assert forall|c: ChunkPos| #[trigger]
                m0.contains_key(c) implies chunk_written(
                m0[c],
                self.spec_chunks()[c],
                chunk_writes(bats@, c),
            ) by {
                if !done@.contains(c) {
                    assert forall|j: int| 0 <= j < bats@.len() implies cpos_of(
                        (#[trigger] bats@[j]).spec_pos(),
                    ) != c by {
                        assert(done@.contains(cpos_of(bats@[j].spec_pos())));
                    }
                    lemma_chunk_writes_none(bats@, c);
                    assert(!any_change(m0[c]@, Seq::<BatVoxel>::empty()));
                }
            }
        }
        Some(answ)
    }
}


/// After a write of `bat` into the resident chunks, a read at its position
/// gives the id written, and a read at any other valid position gives what
/// was there before.
pub proof fn lemma_world_read_after_write(
    old: Map<ChunkPos, Chunk>,
    new: Map<ChunkPos, Chunk>,
    bat: BatWorld,
    w: WorldPos,
    b: BatWorld,
)
    requires
        old.contains_key(cpos_of(bat.spec_pos())),
        old.contains_key(cpos_of(w)),
        bat.spec_pos().is_valid(),
        w.is_valid(),
        chunks_written(old, new, seq![bat]),
        read_block(new, w, b),
    ensures
        w == bat.spec_pos() ==> b.spec_id() == bat.spec_id(),
        w != bat.spec_pos() ==> b.spec_id() == old[cpos_of(w)].block_at(vpos_of(w)),
{
    let c = cpos_of(w);
    old[c].lemma_view_len();
    let one = seq![bat];
    assert(one.drop_last() =~= Seq::<BatWorld>::empty());
    assert(one.last() == bat);
    assert(chunk_writes(one.drop_last(), c) =~= Seq::<BatVoxel>::empty());
    let vw = vpos_of(w);
    let vb = vpos_of(bat.spec_pos());
    lemma_coord_split_join(w@.0);
    lemma_coord_split_join(w@.1);
    lemma_coord_split_join(w@.2);
    lemma_coord_split_join(bat.spec_pos()@.0);
    lemma_coord_split_join(bat.spec_pos()@.1);
    lemma_coord_split_join(bat.spec_pos()@.2);
    assert(vw.is_valid());
    assert(vb.is_valid());
    if cpos_of(bat.spec_pos()) == c {
        let writes = seq![voxel_write(bat)];
        assert(chunk_writes(one, c) =~= writes);
        assert(writes.drop_last() =~= Seq::<BatVoxel>::empty());
        assert(writes.last() == voxel_write(bat));
        assert(chunk_written(old[c], new[c], chunk_writes(one, c)));
        assert(apply_sets(old[c]@, writes.drop_last()) == old[c]@);
        assert(voxel_write(bat).spec_pos() == vb);
        assert(new[c]@ == old[c]@.update(naive_index(vb), bat.spec_id()));
        if w == bat.spec_pos() {
        } else {
            if naive_index(vw) == naive_index(vb) {
                lemma_naive_index_injective(vw, vb);
                assert(vw@ == vb@);
                assert(c@ == cpos_of(bat.spec_pos())@);
                assert(w@.0 == bat.spec_pos()@.0);
                assert(w@.1 == bat.spec_pos()@.1);
                assert(w@.2 == bat.spec_pos()@.2);
                assert(w@ == bat.spec_pos()@);
            }
        }
    } else {
        assert(chunk_writes(one, c) =~= Seq::<BatVoxel>::empty());
        assert(chunk_written(old[c], new[c], chunk_writes(one, c)));
        assert(new[c]@ == old[c]@);
    }
}


/// The id of the last write of `bats` to position `w`, if any write targets it.
pub open spec fn last_write_at(bats: Seq<BatWorld>, w: WorldPos) -> Option<BlockId>
    decreases bats.len(),
{
    if bats.len() == 0 {
        None
    } else if bats.last().spec_pos() == w {
        Some(bats.last().spec_id())
    } else {
        last_write_at(bats.drop_last(), w)
    }
}

/// The writes of `bats` that fall in the chunk of `w` leave at `w`'s place in
/// that chunk the id of the last write to `w`, or what was there before.
proof fn lemma_chunk_writes_at(s: Seq<BlockId>, bats: Seq<BatWorld>, w: WorldPos)
    requires
        s.len() == VOL,
        w.is_valid(),
        forall|i: int| 0 <= i < bats.len() ==> (#[trigger] bats[i]).spec_pos().is_valid(),
    ensures
        apply_sets(s, chunk_writes(bats, cpos_of(w)))[naive_index(vpos_of(w))] == match last_write_at(
            bats,
            w,
        ) {
            Some(id) => id,
            None => s[naive_index(vpos_of(w))],
        },
    decreases bats.len(),
{
    let c = cpos_of(w);
    lemma_coord_split_join(w@.0);
    lemma_coord_split_join(w@.1);
    lemma_coord_split_join(w@.2);
    if bats.len() > 0 {
        let init = bats.drop_last();
        let l = bats.last();
        assert(l == bats[bats.len() - 1]);
        assert forall|i: int| 0 <= i < init.len() implies (#[trigger] init[i]).spec_pos().is_valid() by {
            assert(init[i] == bats[i]);
        }
        lemma_chunk_writes_at(s, init, w);
        lemma_chunk_writes_valid(init, c);
        lemma_apply_sets_len(s, chunk_writes(init, c));
        if cpos_of(l.spec_pos()) == c {
            let cw = chunk_writes(init, c);
            assert(chunk_writes(bats, c) == cw.push(voxel_write(l)));
            assert(cw.push(voxel_write(l)).drop_last() =~= cw);
            assert(cw.push(voxel_write(l)).last() == voxel_write(l));
            let vl = vpos_of(l.spec_pos());
            let vw = vpos_of(w);
            assert(voxel_write(l).spec_pos() == vl);
            lemma_coord_split_join(l.spec_pos()@.0);
            lemma_coord_split_join(l.spec_pos()@.1);
            lemma_coord_split_join(l.spec_pos()@.2);
            if l.spec_pos() != w && naive_index(vl) == naive_index(vw) {
                lemma_naive_index_injective(vl, vw);
                assert(vl@ == vw@);
                assert(cpos_of(l.spec_pos())@ == c@);
                assert(l.spec_pos()@ == w@);
            }
        } else {
            assert(chunk_writes(bats, c) == chunk_writes(init, c));
            assert(l.spec_pos() != w);
        }
    }
}

/// After a bulk write into the resident chunks, a read at any valid position
/// gives the id of the last write to that position, or the block that was
/// there before when no write targets it.
pub proof fn lemma_world_read_after_bulk_write(
    old: Map<ChunkPos, Chunk>,
    new: Map<ChunkPos, Chunk>,
    bats: Seq<BatWorld>,
    w: WorldPos,
    b: BatWorld,
)
    requires
        old.contains_key(cpos_of(w)),
        w.is_valid(),
        forall|i: int| 0 <= i < bats.len() ==> (#[trigger] bats[i]).spec_pos().is_valid(),
        chunks_written(old, new, bats),
        read_block(new, w, b),
    ensures
        b.spec_id() == match last_write_at(bats, w) {
            Some(id) => id,
            None => old[cpos_of(w)].block_at(vpos_of(w)),
        },
{
    let c = cpos_of(w);
    old[c].lemma_view_len();
    assert(chunk_written(old[c], new[c], chunk_writes(bats, c)));
    lemma_chunk_writes_at(old[c]@, bats, w);
}

} // verus!
