//! A chunk's blocks stored as a palette of the distinct ids it holds and,
//! per voxel, an index into that palette packed into 4, 8 or 16 bits.

use vstd::prelude::*;

use crate::block_at::BatVoxel;
use crate::block_id::BlockId;
use crate::constants::AIR_ID;
use crate::naive_chunk::{all_air, all_valid, apply_sets, lemma_apply_sets_step, naive_index, VOL};
use crate::voxel_pos::VoxelPos;

verus! {

broadcast use {BlockId::lemma_value_eq, BlockId::lemma_new_spec, VoxelPos::lemma_view_eq};

/// The mask of the low `step` bits, for the three widths a palette index may have.
pub open spec fn mask_of(step: nat) -> u64 {
    if step == 4 {
        15
    } else if step == 8 {
        255
    } else {
        65535
    }
}

/// The most palette entries that indices of `step` bits can address.
pub open spec fn cap_of(step: nat) -> nat {
    if step == 4 {
        16
    } else if step == 8 {
        256
    } else {
        65535
    }
}

/// The palette index stored for voxel `idx` in the packed words `data`, at
/// `step` bits per index.
pub open spec fn slot_of(data: Seq<u64>, step: nat, idx: int) -> u16 {
    let density = 64nat / step;
    ((data[idx / density as int] >> (((idx % density as int) * step) as u64)) & mask_of(step)) as u16
}

/// The palette indices of all voxels.
pub open spec fn slots_of(data: Seq<u64>, step: nat) -> Seq<u16> {
    Seq::new(VOL as nat, |i: int| slot_of(data, step, i))
}

/// How many times `p` occurs in `s`.
pub open spec fn count_of(s: Seq<u16>, p: int) -> nat
    decreases s.len(),
{
    if s.len() == 0 {
        0
    } else {
        count_of(s.drop_last(), p) + if s.last() == p {
            1nat
        } else {
            0nat
        }
    }
}

proof fn lemma_count_of_bound(s: Seq<u16>, p: int)
    ensures
        count_of(s, p) <= s.len(),
    decreases s.len(),
{
    if s.len() > 0 {
        lemma_count_of_bound(s.drop_last(), p);
    }
}

proof fn lemma_count_of_update(s: Seq<u16>, i: int, v: u16, p: int)
    requires
        0 <= i < s.len(),
    ensures
        count_of(s.update(i, v), p) + (if s[i] == p {
            1int
        } else {
            0int
        }) == count_of(s, p) + (if v == p {
            1int
        } else {
            0int
        }),
    decreases s.len(),
{
    let t = s.update(i, v);
    if i == s.len() - 1 {
        assert(t.drop_last() =~= s.drop_last());
    } else {
        lemma_count_of_update(s.drop_last(), i, v, p);
        assert(t.drop_last() =~= s.drop_last().update(i, v));
    }
}

proof fn lemma_count_of_present(s: Seq<u16>, i: int)
    requires
        0 <= i < s.len(),
    ensures
        count_of(s, s[i] as int) >= 1,
    decreases s.len(),
{
    if i < s.len() - 1 {
        lemma_count_of_present(s.drop_last(), i);
        assert(s.drop_last()[i] == s[i]);
    }
}

proof fn lemma_count_of_absent(s: Seq<u16>, p: int)
    requires
        forall|i: int| 0 <= i < s.len() ==> s[i] != p,
    ensures
        count_of(s, p) == 0,
    decreases s.len(),
{
    if s.len() > 0 {
        assert forall|i: int| 0 <= i < s.drop_last().len() implies s.drop_last()[i] != p by {
            assert(s.drop_last()[i] == s[i]);
        }
        lemma_count_of_absent(s.drop_last(), p);
    }
}

/// Renumbering the values of a sequence keeps how often each renumbered value
/// occurs, when the renumbering is one-to-one on the values that occur.
proof fn lemma_count_of_map(s: Seq<u16>, t: Seq<u16>, f: Seq<u16>, p: int)
    requires
        t.len() == s.len(),
        forall|i: int| 0 <= i < s.len() ==> 0 <= #[trigger] s[i] < f.len(),
        forall|i: int| 0 <= i < s.len() ==> #[trigger] t[i] == f[s[i] as int],
        forall|i: int| 0 <= i < s.len() ==> (#[trigger] f[s[i] as int] == f[p] ==> s[i] == p),
        0 <= p < f.len(),
    ensures
        count_of(t, f[p] as int) == count_of(s, p),
    decreases s.len(),
{
    if s.len() > 0 {
        let s1 = s.drop_last();
        let t1 = t.drop_last();
        assert forall|i: int| 0 <= i < s1.len() implies 0 <= #[trigger] s1[i] < f.len() by {
            assert(s1[i] == s[i]);
        }
        assert forall|i: int| 0 <= i < s1.len() implies #[trigger] t1[i] == f[s1[i] as int] by {
            assert(s1[i] == s[i]);
            assert(t1[i] == t[i]);
        }
        assert forall|i: int| 0 <= i < s1.len() implies (#[trigger] f[s1[i] as int] == f[p] ==> s1[i]
            == p) by {
            assert(s1[i] == s[i]);
        }
        lemma_count_of_map(s1, t1, f, p);
        assert(t.last() == f[s.last() as int]);
    }
}

/// Overwriting the field of one index in a packed word puts the new value in
/// that field.
proof fn lemma_write_field_same(w: u64, v: u64, m: u64, st: u64, sh: u64)
    by (bit_vector)
    requires
        st == 4 || st == 8 || st == 16,
        m == (1u64 << st) - 1,
        sh + st <= 64,
        v <= m,
    ensures
        (((w & !(m << sh)) | ((v & m) << sh)) >> sh) & m == v,
{
}

/// Overwriting the field of one index in a packed word leaves every other
/// field of the word as it was.
proof fn lemma_write_field_other(w: u64, v: u64, m: u64, st: u64, sh: u64, sh2: u64)
    by (bit_vector)
    requires
        st == 4 || st == 8 || st == 16,
        m == (1u64 << st) - 1,
        sh + st <= 64,
        sh2 + st <= 64,
        sh + st <= sh2 || sh2 + st <= sh,
    ensures
        (((w & !(m << sh)) | ((v & m) << sh)) >> sh2) & m == (w >> sh2) & m,
{
}

/// Setting the field of one index in a packed word whose field is zero puts
/// the new value in that field.
proof fn lemma_or_field_same(w: u64, v: u64, m: u64, st: u64, sh: u64)
    by (bit_vector)
    requires
        st == 4 || st == 8 || st == 16,
        m == (1u64 << st) - 1,
        sh + st <= 64,
        ((w >> sh) & m) as u16 == 0,
        v <= m,
    ensures
        (((w | ((v & m) << sh)) >> sh) & m) as u16 == v as u16,
{
}

/// Setting the field of one index in a packed word leaves every other field
/// as it was.
proof fn lemma_or_field_other(w: u64, v: u64, m: u64, st: u64, sh: u64, sh2: u64)
    by (bit_vector)
    requires
        st == 4 || st == 8 || st == 16,
        m == (1u64 << st) - 1,
        sh + st <= 64,
        sh2 + st <= 64,
        sh + st <= sh2 || sh2 + st <= sh,
    ensures
        ((w | ((v & m) << sh)) >> sh2) & m == (w >> sh2) & m,
{
}

/// The field of any index in a zero word is zero.
proof fn lemma_zero_field(m: u64, sh: u64)
    by (bit_vector)
    ensures
        (0u64 >> sh) & m == 0,
{
}

/// Distinct indices in the same word occupy disjoint fields.
proof fn lemma_fields_disjoint(k: int, k2: int, st: int)
    requires
        st == 4 || st == 8 || st == 16,
        0 <= k < 64int / st,
        0 <= k2 < 64int / st,
        k != k2,
    ensures
        k * st + st <= k2 * st || k2 * st + st <= k * st,
        k * st + st <= 64,
{
}

/// The number of indices per word is 64 divided by their width.
proof fn lemma_density(step: nat, density: nat)
    requires
        step == 4 || step == 8 || step == 16,
        density * step == 64,
    ensures
        64nat / step == density,
{
    if step == 4 {
        assert(density == 16) by (nonlinear_arith)
            requires
                density * 4 == 64,
        ;
    } else if step == 8 {
        assert(density == 8) by (nonlinear_arith)
            requires
                density * 8 == 64,
        ;
    } else {
        assert(density == 4) by (nonlinear_arith)
            requires
                density * 16 == 64,
        ;
    }
}

/// The masks of the three widths.
proof fn lemma_masks()
    ensures
        15u64 == (1u64 << 4u64) - 1,
        255u64 == (1u64 << 8u64) - 1,
        65535u64 == (1u64 << 16u64) - 1,
{
    assert(15u64 == (1u64 << 4u64) - 1 && 255u64 == (1u64 << 8u64) - 1 && 65535u64 == (1u64 << 16u64)
        - 1) by (bit_vector);
}

/// The distinct ids that `blocks` write.
pub open spec fn ids_of(blocks: Seq<BatVoxel>) -> Set<BlockId> {
    blocks.map_values(|b: BatVoxel| b.spec_id()).to_set()
}

/// Whether a rebuild keeps `e`: one that widens the indices keeps every
/// entry, one that narrows them drops the entries no voxel uses.
spec fn keeps(e: PaletteEntry, grow: bool) -> bool {
    grow || e.count != 0
}

/// How many entries of `s` a rebuild keeps.
spec fn kept_count(s: Seq<PaletteEntry>, grow: bool) -> nat
    decreases s.len(),
{
    if s.len() == 0 {
        0
    } else {
        kept_count(s.drop_last(), grow) + if keeps(s.last(), grow) {
            1nat
        } else {
            0nat
        }
    }
}

/// The entries of `s` that a rebuild keeps, in order.
spec fn kept_entries(s: Seq<PaletteEntry>, grow: bool) -> Seq<PaletteEntry>
    decreases s.len(),
{
    if s.len() == 0 {
        Seq::empty()
    } else if keeps(s.last(), grow) {
        kept_entries(s.drop_last(), grow).push(s.last())
    } else {
        kept_entries(s.drop_last(), grow)
    }
}

proof fn lemma_kept_entries(s: Seq<PaletteEntry>, grow: bool)
    ensures
        kept_entries(s, grow).len() == kept_count(s, grow),
        grow ==> kept_entries(s, grow) == s,
    decreases s.len(),
{
    if s.len() > 0 {
        lemma_kept_entries(s.drop_last(), grow);
        if grow {
            assert(s.drop_last().push(s.last()) =~= s);
        }
    }
}

proof fn lemma_kept_count_bound(s: Seq<PaletteEntry>, grow: bool)
    ensures
        kept_count(s, grow) <= s.len(),
        grow ==> kept_count(s, grow) == s.len(),
    decreases s.len(),
{
    if s.len() > 0 {
        lemma_kept_count_bound(s.drop_last(), grow);
    }
}

/// The ids of the entries of `s` that some voxel uses, in palette order.
spec fn kept_ids(s: Seq<PaletteEntry>) -> Seq<BlockId>
    decreases s.len(),
{
    if s.len() == 0 {
        Seq::empty()
    } else if s.last().count != 0 {
        kept_ids(s.drop_last()).push(s.last().id)
    } else {
        kept_ids(s.drop_last())
    }
}

proof fn lemma_kept_ids(s: Seq<PaletteEntry>)
    requires
        forall|a: int, b: int| 0 <= a < b < s.len() ==> (#[trigger] s[a]).id != (#[trigger] s[b]).id,
    ensures
        kept_ids(s).len() == kept_count(s, false),
        kept_ids(s).no_duplicates(),
        forall|x: BlockId|
            kept_ids(s).contains(x) <==> exists|p: int|
                0 <= p < s.len() && (#[trigger] s[p]).count != 0 && s[p].id == x,
    decreases s.len(),
{
    if s.len() > 0 {
        let t = s.drop_last();
        assert forall|a: int, b: int| 0 <= a < b < t.len() implies (#[trigger] t[a]).id != (#[trigger] t[b]).id by {
            assert(t[a] == s[a]);
            assert(t[b] == s[b]);
        }
        lemma_kept_ids(t);
        let k = kept_ids(t);
        let l = s.last();
        assert(l == s[s.len() - 1]);
        assert forall|x: BlockId| kept_ids(s).contains(x) <==> exists|p: int|
            0 <= p < s.len() && (#[trigger] s[p]).count != 0 && s[p].id == x by {
            if kept_ids(s).contains(x) {
                if k.contains(x) {
                    let p = choose|p: int| 0 <= p < t.len() && (#[trigger] t[p]).count != 0 && t[p].id == x;
                    assert(s[p] == t[p]);
                } else {
                    assert(l.count != 0);
                    assert(kept_ids(s) == k.push(l.id));
                    let j = choose|j: int| 0 <= j < kept_ids(s).len() && kept_ids(s)[j] == x;
                    if j < k.len() {
                        assert(kept_ids(s)[j] == k[j]);
                        assert(k.contains(x));
                    }
                    assert(s[s.len() - 1].id == x);
                }
            }
            if exists|p: int| 0 <= p < s.len() && (#[trigger] s[p]).count != 0 && s[p].id == x {
                let p = choose|p: int| 0 <= p < s.len() && (#[trigger] s[p]).count != 0 && s[p].id == x;
                if p < s.len() - 1 {
                    assert(t[p] == s[p]);
                    assert(k.contains(x));
                    if l.count != 0 {
                        assert(k.push(l.id)[k.index_of(x)] == x);
                    }
                } else {
                    assert(kept_ids(s) == k.push(l.id));
                    assert(kept_ids(s)[k.len() as int] == x);
                }
            }
        }
        if l.count != 0 {
            assert(!k.contains(l.id)) by {
                if k.contains(l.id) {
                    let p = choose|p: int| 0 <= p < t.len() && (#[trigger] t[p]).count != 0 && t[p].id == l.id;
                    assert(s[p] == t[p]);
                    assert(s[p].id != s[s.len() - 1].id);
                }
            }
            assert forall|i: int, j: int| 0 <= i < k.push(l.id).len() && 0 <= j < k.push(l.id).len() && i != j
                implies k.push(l.id)[i] != k.push(l.id)[j] by {
                if i < k.len() && j < k.len() {
                } else if i < k.len() {
                    assert(k.contains(k[i]));
                } else {
                    assert(k.contains(k[j]));
                }
            }
        }
    }
}

/// A value counted at least once occurs in the sequence.
proof fn lemma_count_of_occurs(s: Seq<u16>, p: int)
    requires
        count_of(s, p) > 0,
    ensures
        exists|i: int| 0 <= i < s.len() && s[i] == p,
{
    if forall|i: int| 0 <= i < s.len() ==> s[i] != p {
        lemma_count_of_absent(s, p);
    }
}

proof fn lemma_count_of_const(s: Seq<u16>, p: u16)
    requires
        forall|i: int| 0 <= i < s.len() ==> s[i] == p,
    ensures
        count_of(s, p as int) == s.len(),
    decreases s.len(),
{
    if s.len() > 0 {
        assert forall|i: int| 0 <= i < s.drop_last().len() implies s.drop_last()[i] == p by {
            assert(s.drop_last()[i] == s[i]);
        }
        lemma_count_of_const(s.drop_last(), p);
    }
}

/// Entry for a SmartChunk's palette.
#[derive(Debug, Clone, Copy)]
pub struct PaletteEntry {
    /// References the BlockRegistry's BlockIds.
    id: BlockId,
    /// The amount of times such BlockId appears in this Chunk.
    count: u16,
}

/// Paletted and bit packed Chunk.
pub struct SmartChunk {
    /// Variable palette of existing unique BlockIds within a Chunk.
    palette: Vec<PaletteEntry>,
    /// Bit packed palette indices.
    data: Vec<u64>,
    /// Number of bits that it takes to represent a single palette index (either 4-8-16).
    step: usize,
    /// Number of palette indices that fit inside a single u64 (either 16-8-4).
    density: usize,
    /// (1 << step) - 1.
    mask: u64,
}

impl SmartChunk {
    /// Maximum amount of Blocks a Chunk may hold.
    pub const VOL: usize = 32768;

    /// Safety gap. Otherwise a Chunk might cycle between growing and shrinking it's palette continuously.
    pub const HYSTERESIS_MARGIN: usize = 4;

    /// The palette index stored for each voxel.
    spec fn slots(&self) -> Seq<u16> {
        slots_of(self.data@, self.step as nat)
    }

    /// The packing parameters agree with each other.
    spec fn layout_ok(&self) -> bool {
        &&& self.step == 4 || self.step == 8 || self.step == 16
        &&& self.density * self.step == 64
        &&& self.mask == mask_of(self.step as nat)
        &&& self.data@.len() * self.density == VOL
    }

    /// Every packed index points into the palette, the palette names each id
    /// at most once, and each entry counts the voxels that point to it.
    spec fn entries_ok(&self) -> bool {
        &&& 1 <= self.palette@.len()
        &&& forall|i: int| 0 <= i < VOL ==> (#[trigger] self.slots()[i]) < self.palette@.len()
        &&& forall|a: int, b: int|
            0 <= a < b < self.palette@.len() ==> (#[trigger] self.palette@[a]).id
                != (#[trigger] self.palette@[b]).id
        &&& forall|p: int|
            0 <= p < self.palette@.len() ==> (#[trigger] self.palette@[p]).count == count_of(
                self.slots(),
                p,
            )
    }

    /// The palette is consistent with the packed indices and fits their width.
    spec fn palette_ok(&self) -> bool {
        &&& self.entries_ok()
        &&& self.palette@.len() <= cap_of(self.step as nat)
    }

    /// The chunk's representation is well formed.
    pub closed spec fn wf(&self) -> bool {
        self.layout_ok() && self.palette_ok()
    }

    /// The ids of the chunk's voxels, by naive index.
    pub closed spec fn view(&self) -> Seq<BlockId> {
        Seq::new(VOL as nat, |i: int| self.palette@[self.slots()[i] as int].id)
    }

    /// The number of palette entries, including entries that no voxel uses
    /// any more but that no narrowing has dropped yet.
    pub closed spec fn palette_len(&self) -> nat {
        self.palette@.len()
    }

    /// Whether the palette has an entry for `id`.
    pub closed spec fn palette_has(&self, id: BlockId) -> bool {
        exists|p: int| 0 <= p < self.palette@.len() && #[trigger] self.palette@[p].id == id
    }

    /// The number of bits per packed palette index.
    pub closed spec fn spec_step(&self) -> nat {
        self.step as nat
    }

    /// The word that holds voxel `idx` and the shift of its field.
    fn locate(&self, idx: usize) -> (r: (usize, u64))
        requires
            self.layout_ok(),
            idx < VOL,
        ensures
            r.0 == idx as int / (self.density as int),
            r.0 < self.data@.len(),
            r.1 == (idx as int % (self.density as int)) * self.step,
            r.1 + self.step <= 64,
    {
        assert(self.density == 16 || self.density == 8 || self.density == 4);
        let k = idx % self.density;
        assert(k * self.step + self.step <= 64) by (nonlinear_arith)
            requires
                k < self.density,
                self.density * self.step == 64,
        ;
        assert(idx as int / (self.density as int) < self.data@.len()) by (nonlinear_arith)
            requires
                idx < VOL,
                self.data@.len() * self.density == VOL,
                self.density > 0,
        ;
        (idx / self.density, (k * self.step) as u64)
    }

    /// The palette index stored for voxel `idx`.
    fn read(&self, idx: usize) -> (r: u16)
        requires
            self.layout_ok(),
            idx < VOL,
        ensures
            r == self.slots()[idx as int],
    {
        let (w, shift) = self.locate(idx);
        let word = self.data[w];
        proof {
            lemma_density(self.step as nat, self.density as nat);
        }
        ((word >> shift) & self.mask) as u16
    }

    /// Stores palette index `val` for voxel `idx`.
    fn write(&mut self, idx: usize, val: u16)
        requires
            old(self).layout_ok(),
            idx < VOL,
            val <= mask_of(old(self).step as nat),
        ensures
            final(self).layout_ok(),
            final(self).palette@ == old(self).palette@,
            final(self).step == old(self).step,
            final(self).slots() == old(self).slots().update(idx as int, val),
    {
        let ghost old_slots = self.slots();
        let (w, shift) = self.locate(idx);
        let word = self.data[w];
        let packed = (val as u64 & self.mask) << shift;
        let new_word = (word & !(self.mask << shift)) | packed;
        self.data.set(w, new_word);
        proof {
            lemma_masks();
            let st = self.step as u64;
            let d = self.density as int;
            let i = idx as int;
            lemma_density(self.step as nat, self.density as nat);
            assert forall|j: int| 0 <= j < VOL implies #[trigger] self.slots()[j] == old_slots.update(
                idx as int,
                val,
            )[j] by {
                let sh2 = ((j % d) * self.step) as u64;
                if j / d == w {
                    if j == i {
                        lemma_write_field_same(word, val as u64, self.mask, st, shift);
                    } else {
                        assert(j % d != i % d) by (nonlinear_arith)
                            requires
                                j / d == i / d,
                                j != i,
                                d > 0,
                        ;
                        lemma_fields_disjoint(i % d, j % d, self.step as int);
                        lemma_write_field_other(word, val as u64, self.mask, st, shift, sh2);
                        assert(old_slots[j] == ((word >> sh2) & self.mask) as u16);
                    }
                } else {
                    assert(0 <= j / d < self.data@.len()) by (nonlinear_arith)
                        requires
                            0 <= j < VOL,
                            self.data@.len() * d == VOL,
                            d > 0,
                    ;
                    assert(self.data@[j / d] == old(self).data@[j / d]);
                }
            }
            assert(self.slots() =~= old_slots.update(idx as int, val));
        }
    }

    /// A chunk that holds only air, with 4-bit indices into a palette of one entry.
    pub fn new() -> (r: Self)
        ensures
            r.wf(),
            r@ == all_air(),
            r.spec_step() == 4,
            r.palette_len() == 1,
            forall|x: BlockId| #[trigger] r.palette_has(x) <==> x == BlockId::new_spec(AIR_ID),
    {
        let mut palette: Vec<PaletteEntry> = Vec::with_capacity(16);
        palette.push(PaletteEntry { id: BlockId::air(), count: Self::VOL as u16 });
        let step: usize = 4;
        let density: usize = 64 / step;
        proof {
            lemma_masks();
        }
        let mask: u64 = (1u64 << step as u64) - 1;
        let data: Vec<u64> = vec![0u64; Self::VOL / density];
        let r = Self { palette, data, step, density, mask };
        proof {
            assert(64nat / 4nat == 16);
            assert forall|i: int| 0 <= i < VOL implies #[trigger] r.slots()[i] == 0u16 by {
                assert(0 <= i / 16 < 2048);
                assert(r.data@[i / 16] == 0u64);
                lemma_zero_field(15u64, ((i % 16) * 4) as u64);
            }
            lemma_count_of_const(r.slots(), 0u16);
            assert forall|i: int| 0 <= i < VOL implies #[trigger] r@[i] == all_air()[i] by {
                assert(r.slots()[i] == 0u16);
                assert(r@[i] == r.palette@[0].id);
                assert(BlockId::new_spec(AIR_ID).value() == AIR_ID);
            }
            assert(r@ =~= all_air());
            assert(r.palette@[0].id.value() == BlockId::new_spec(AIR_ID).value());
            assert(r.palette@[0].id == BlockId::new_spec(AIR_ID));
            assert forall|x: BlockId| #[trigger] r.palette_has(x) <==> x == BlockId::new_spec(AIR_ID) by {
                if x == BlockId::new_spec(AIR_ID) {
                    assert(r.palette@[0].id == x);
                }
            }
        }
        r
    }

    /// The id of the block at `pos`.
    pub fn get(&self, pos: VoxelPos) -> (r: BlockId)
        requires
            self.wf(),
            pos.is_valid(),
        ensures
            r == self@[naive_index(pos)],
    {
        let i = self.read(Self::index(pos));
        self.palette[i as usize].id
    }

    /// Repacks the palette indices at `new_step` bits. Widening keeps every
    /// palette entry and index; narrowing drops the entries that no voxel uses
    /// and renumbers the others, keeping their order.
    fn rebuild(&mut self, new_step: usize)
        requires
            old(self).layout_ok(),
            old(self).entries_ok(),
            old(self).palette@.len() <= 65535,
            new_step == 4 || new_step == 8 || new_step == 16,
            new_step != old(self).step,
            kept_count(old(self).palette@, new_step > old(self).step) <= cap_of(new_step as nat),
        ensures
            final(self).wf(),
            final(self)@ == old(self)@,
            final(self).step == new_step,
            final(self).palette@ == kept_entries(old(self).palette@, new_step > old(self).step),
            final(self).palette@.len() <= old(self).palette@.len(),
            forall|x: BlockId| #[trigger] final(self).palette_has(x) ==> old(self).palette_has(x),
            new_step > old(self).step ==> final(self).palette@ == old(self).palette@
                && final(self).slots() == old(self).slots(),
    {
        let ghost old_slots = self.slots();
        let ghost pal = self.palette@;
        let grow = new_step > self.step;
        let n = self.palette.len();
        let mut remap: Vec<u16> = vec![u16::MAX; n];
        let mut new_palette: Vec<PaletteEntry> = Vec::with_capacity(n);
        let ghost mut origin: Seq<int> = Seq::empty();
        let mut k: usize = 0;
        while k < n
            invariant
                n == pal.len(),
                n <= 65535,
                self.palette@ == pal,
                grow == (new_step > self.step),
                k <= n,
                remap@.len() == n,
                new_palette@.len() == kept_count(pal.take(k as int), grow),
                new_palette@ == kept_entries(pal.take(k as int), grow),
                new_palette@.len() <= k,
                origin.len() == new_palette@.len(),
                forall|q: int|
                    0 <= q < origin.len() ==> 0 <= #[trigger] origin[q] < k && keeps(
                        pal[origin[q]],
                        grow,
                    ) && new_palette@[q] == pal[origin[q]] && remap@[origin[q]] == q,
                forall|q1: int, q2: int|
                    0 <= q1 < q2 < origin.len() ==> #[trigger] origin[q1] < #[trigger] origin[q2],
                forall|j: int|
                    0 <= j < k && keeps(pal[j], grow) ==> (#[trigger] remap@[j]) < new_palette@.len()
                        && origin[remap@[j] as int] == j,
                grow ==> origin.len() == k && forall|q: int| 0 <= q < k ==> #[trigger] origin[q] == q,
            decreases n - k,
        {
            let entry = self.palette[k];
            proof {
                assert(pal.take(k + 1).drop_last() =~= pal.take(k as int));
                assert(pal.take(k + 1).last() == pal[k as int]);
            }
            if entry.count != 0 || grow {
                remap.set(k, new_palette.len() as u16);
                new_palette.push(PaletteEntry { id: entry.id, count: entry.count });
                proof {
                    origin = origin.push(k as int);
                }
            }
            k += 1;
        }
        proof {
            assert(pal.take(n as int) =~= pal);
            lemma_kept_count_bound(pal, grow);
        }
        let new_density: usize = 64 / new_step;
        proof {
            lemma_masks();
            lemma_density(new_step as nat, new_density as nat);
            lemma_density(self.step as nat, self.density as nat);
            assert forall|i: int| 0 <= i < VOL implies keeps(pal[#[trigger] old_slots[i] as int], grow) by {
                if !grow {
                    lemma_count_of_present(old_slots, i);
                }
            }
        }
        let new_mask: u64 = (1u64 << new_step as u64) - 1;
        let mut new_data: Vec<u64> = vec![0u64; Self::VOL / new_density];
        proof {
            assert(new_data@.len() * new_density == VOL) by (nonlinear_arith)
                requires
                    new_data@.len() == VOL as int / (new_density as int),
                    new_density * new_step == 64,
                    new_step == 4 || new_step == 8 || new_step == 16,
            ;
            assert forall|i: int| 0 <= i < VOL implies #[trigger] slot_of(new_data@, new_step as nat, i)
                == 0 by {
                assert(0 <= i / (new_density as int) < new_data@.len()) by (nonlinear_arith)
                    requires
                        0 <= i < VOL,
                        new_data@.len() * new_density == VOL,
                        new_density > 0,
                ;
                assert(new_data@[i / (new_density as int)] == 0u64);
                lemma_zero_field(new_mask, ((i % (new_density as int)) * new_step) as u64);
            }
        }
        let mut idx: usize = 0;
        while idx < Self::VOL
            invariant
                self.layout_ok(),
                self.slots() == old_slots,
                remap@.len() == n,
                n == pal.len(),
                new_step == 4 || new_step == 8 || new_step == 16,
                new_density * new_step == 64,
                64nat / (new_step as nat) == new_density,
                new_mask == mask_of(new_step as nat),
                new_data@.len() * new_density == VOL,
                new_palette@.len() <= cap_of(new_step as nat),
                forall|i: int| 0 <= i < VOL ==> (#[trigger] old_slots[i]) < n,
                forall|i: int|
                    0 <= i < VOL ==> (#[trigger] remap@[old_slots[i] as int]) < new_palette@.len(),
                forall|i: int|
                    0 <= i < idx ==> #[trigger] slot_of(new_data@, new_step as nat, i)
                        == remap@[old_slots[i] as int],
                forall|i: int| idx <= i < VOL ==> #[trigger] slot_of(new_data@, new_step as nat, i) == 0,
            decreases VOL - idx,
        {
            let old_p = self.read(idx) as usize;
            let new_p = remap[old_p] as u64;
            let w = idx / new_density;
            let k = idx % new_density;
            assert(k * new_step + new_step <= 64) by (nonlinear_arith)
                requires
                    k < new_density,
                    new_density * new_step == 64,
            ;
            assert(w < new_data@.len()) by (nonlinear_arith)
                requires
                    idx < VOL,
                    new_data@.len() * new_density == VOL,
                    new_density > 0,
                    w == idx / new_density,
            ;
            let shift = (k * new_step) as u64;
            let word = new_data[w];
            let ghost prev = new_data@;
            new_data.set(w, word | ((new_p & new_mask) << shift));
            proof {
                lemma_masks();
                let d = new_density as int;
                let st = new_step as u64;
                let ii = idx as int;
                assert(new_p <= new_mask) by {
                    assert(new_p < new_palette@.len());
                }
                assert(slot_of(prev, new_step as nat, ii) == 0);
                assert forall|j: int| 0 <= j < VOL implies #[trigger] slot_of(new_data@, new_step as nat, j)
                    == if j <= ii {
                    remap@[old_slots[j] as int]
                } else {
                    0u16
                } by {
                    let sh2 = ((j % d) * new_step) as u64;
                    assert(0 <= j / d < new_data@.len()) by (nonlinear_arith)
                        requires
                            0 <= j < VOL,
                            new_data@.len() * d == VOL,
                            d > 0,
                    ;
                    if j / d == w {
                        if j == ii {
                            lemma_or_field_same(word, new_p, new_mask, st, shift);
                            assert(new_data@[w as int] == word | ((new_p & new_mask) << shift));
                            assert(slot_of(new_data@, new_step as nat, j) == new_p as u16);
                        } else {
                            assert(j % d != ii % d) by (nonlinear_arith)
                                requires
                                    j / d == ii / d,
                                    j != ii,
                                    d > 0,
                            ;
                            lemma_fields_disjoint(ii % d, j % d, new_step as int);
                            lemma_or_field_other(word, new_p, new_mask, st, shift, sh2);
                            assert(slot_of(prev, new_step as nat, j) == ((word >> sh2) & new_mask) as u16);
                            assert(slot_of(new_data@, new_step as nat, j) == slot_of(prev, new_step as nat, j));
                        }
                    } else {
                        assert(new_data@[j / d] == prev[j / d]);
                        assert(slot_of(new_data@, new_step as nat, j) == slot_of(prev, new_step as nat, j));
                    }
                }
            }
            idx += 1;
        }
        self.palette = new_palette;
        self.data = new_data;
        self.step = new_step;
        self.density = new_density;
        self.mask = new_mask;
        proof {
            let t = self.slots();
            assert forall|i: int| 0 <= i < VOL implies #[trigger] t[i] == remap@[old_slots[i] as int] by {
                assert(slot_of(self.data@, new_step as nat, i) == remap@[old_slots[i] as int]);
            }
            assert forall|q: int| 0 <= q < self.palette@.len() implies (#[trigger] self.palette@[q]).count
                == count_of(t, q) by {
                let f = remap@;
                assert forall|i: int|
                    0 <= i < old_slots.len() && #[trigger] f[old_slots[i] as int] == f[origin[q]] implies old_slots[i]
                    == origin[q] by {
                    assert(keeps(pal[old_slots[i] as int], grow));
                }
                lemma_count_of_map(old_slots, t, f, origin[q]);
            }
            assert forall|x: BlockId| #[trigger] self.palette_has(x) implies old(self).palette_has(x) by {
                let q = choose|q: int| 0 <= q < self.palette@.len() && #[trigger] self.palette@[q].id == x;
                assert(pal[origin[q]].id == x);
            }
            assert forall|i: int| 0 <= i < VOL implies #[trigger] self@[i] == old(self)@[i] by {
                assert(keeps(pal[old_slots[i] as int], grow));
            }
            assert(self@ =~= old(self)@);
            assert(t[0] < self.palette@.len());
            assert forall|a: int, b: int| 0 <= a < b < self.palette@.len() implies (
            #[trigger] self.palette@[a]).id != (#[trigger] self.palette@[b]).id by {
                assert(origin[a] < origin[b]);
                assert(pal[origin[a]] == self.palette@[a]);
                assert(pal[origin[b]] == self.palette@[b]);
            }
            if grow {
                assert forall|q: int| 0 <= q < pal.len() implies #[trigger] self.palette@[q] == pal[q] by {
                    assert(origin[q] == q);
                }
                assert(self.palette@ =~= pal);
                assert(t =~= old_slots);
            }
        }
    }

    /// The step a chunk narrows to after a write, given how many palette
    /// entries are in use: 16 bits narrow to 8 once at most 252 entries are
    /// used, 8 bits narrow to 4 once at most 12 are.
    pub open spec fn shrunk_step(step: nat, active: nat) -> nat {
        if step == 16 && active <= 252 {
            8
        } else if step == 8 && active <= 12 {
            4
        } else {
            step
        }
    }

    /// The palette entries in use are as many as the distinct ids of the chunk.
    proof fn lemma_active_is_distinct(&self)
        requires
            self.entries_ok(),
        ensures
            kept_count(self.palette@, false) == self@.to_set().len(),
    {
        let pal = self.palette@;
        lemma_kept_ids(pal);
        let k = kept_ids(pal);
        let v = self@;
        assert forall|x: BlockId| k.to_set().contains(x) <==> v.to_set().contains(x) by {
            if v.contains(x) {
                let i = choose|i: int| 0 <= i < v.len() && v[i] == x;
                let p = self.slots()[i] as int;
                lemma_count_of_present(self.slots(), i);
                assert(pal[p].count != 0);
                assert(pal[p].id == x);
            }
            if k.contains(x) {
                let p = choose|p: int| 0 <= p < pal.len() && (#[trigger] pal[p]).count != 0 && pal[p].id == x;
                lemma_count_of_occurs(self.slots(), p);
                let i = choose|i: int| 0 <= i < self.slots().len() && self.slots()[i] == p;
                assert(v[i] == x);
                assert(v.contains(x));
            }
        }
        assert(k.to_set() =~= v.to_set());
        k.unique_seq_to_set();
    }

    /// The step after writing an id that `self`'s palette may lack: 4 and 8
    /// bits widen to twice as many once an id is added to a full palette.
    pub open spec fn grown_step(&self, id: BlockId) -> nat {
        if !self.palette_has(id) && self.spec_step() < 16 && self.palette_len() == cap_of(
            self.spec_step(),
        ) {
            2 * self.spec_step()
        } else {
            self.spec_step()
        }
    }

    /// A chunk holds one id per voxel.
    pub broadcast proof fn lemma_view_len(&self)
        ensures
            #[trigger] self@.len() == VOL,
    {
    }

    /// Every voxel's id has a palette entry.
    pub proof fn lemma_view_in_palette(&self, i: int)
        requires
            self.wf(),
            0 <= i < VOL,
        ensures
            self.palette_has(self@[i]),
    {
        let p = self.slots()[i] as int;
        assert(self.palette@[p].id == self@[i]);
    }

    /// A palette whose ids all lie in `ids` has at most as many entries as `ids`.
    pub proof fn lemma_palette_len_bound(&self, ids: Set<BlockId>)
        requires
            self.wf(),
            ids.finite(),
            forall|x: BlockId| #[trigger] self.palette_has(x) ==> ids.contains(x),
        ensures
            self.palette_len() <= ids.len(),
    {
        let s = self.palette@.map_values(|e: PaletteEntry| e.id);
        assert forall|a: int, b: int| 0 <= a < s.len() && 0 <= b < s.len() && a != b implies s[a]
            != s[b] by {
            if a < b {
                assert(self.palette@[a].id != self.palette@[b].id);
            } else {
                assert(self.palette@[b].id != self.palette@[a].id);
            }
        }
        assert(s.no_duplicates());
        s.unique_seq_to_set();
        assert forall|x: BlockId| s.to_set().contains(x) implies ids.contains(x) by {
            let p = choose|p: int| 0 <= p < s.len() && s[p] == x;
            assert(self.palette@[p].id == x);
            assert(self.palette_has(x));
        }
        vstd::set_lib::lemma_len_subset(s.to_set(), ids);
    }

    /// The index of the palette entry for `block_id`, if there is one.
    fn find(&self, block_id: BlockId) -> (r: Option<usize>)
        ensures
            match r {
                Some(p) => p < self.palette@.len() && self.palette@[p as int].id == block_id,
                None => !self.palette_has(block_id),
            },
    {
        let n = self.palette.len();
        let mut i: usize = 0;
        while i < n
            invariant
                n == self.palette@.len(),
                i <= n,
                forall|j: int| 0 <= j < i ==> #[trigger] self.palette@[j].id != block_id,
            decreases n - i,
        {
            if self.palette[i].id == block_id {
                return Some(i);
            }
            i += 1;
        }
        None
    }

    /// The palette index of `block_id`, adding an entry for it if it has none
    /// and widening the indices when the palette outgrows them.
    fn get_or_grow_palette(&mut self, block_id: BlockId) -> (r: u16)
        requires
            old(self).wf(),
            old(self).palette_has(block_id) || old(self).palette_len() < 65535,
        ensures
            final(self).wf(),
            final(self).slots() == old(self).slots(),
            final(self)@ == old(self)@,
            final(self).palette@.len() == old(self).palette@.len() + if old(self).palette_has(block_id) {
                0int
            } else {
                1int
            },
            forall|p: int|
                0 <= p < old(self).palette@.len() ==> #[trigger] final(self).palette@[p]
                    == old(self).palette@[p],
            r < final(self).palette@.len(),
            final(self).palette@[r as int].id == block_id,
            forall|x: BlockId| #[trigger]
                final(self).palette_has(x) ==> old(self).palette_has(x) || x == block_id,
            final(self).spec_step() == old(self).grown_step(block_id),
    {
        if let Some(index) = self.find(block_id) {
            return index as u16;
        }
        let ghost old_slots = self.slots();
        let ghost n = self.palette@.len();
        self.palette.push(PaletteEntry { id: block_id, count: 0 });
        proof {
            assert(self.slots() == old_slots);
            assert forall|i: int| 0 <= i < old_slots.len() implies old_slots[i] != n by {
                assert(old_slots[i] < n);
            }
            lemma_count_of_absent(old_slots, n as int);
            assert forall|a: int, b: int| 0 <= a < b < self.palette@.len() implies (
            #[trigger] self.palette@[a]).id != (#[trigger] self.palette@[b]).id by {
                if b == n {
                    assert(old(self).palette@[a].id != block_id);
                } else {
                    assert(old(self).palette@[a] == self.palette@[a]);
                    assert(old(self).palette@[b] == self.palette@[b]);
                }
            }
            assert forall|x: BlockId| #[trigger] self.palette_has(x) implies old(self).palette_has(x)
                || x == block_id by {
                let p = choose|p: int| 0 <= p < self.palette@.len() && #[trigger] self.palette@[p].id == x;
                if p < n {
                    assert(old(self).palette@[p].id == x);
                }
            }
            assert((1usize << 4usize) == 16usize && (1usize << 8usize) == 256usize) by (bit_vector);
            lemma_kept_count_bound(self.palette@, true);
        }
        let new_len = self.palette.len();
        if self.step < 16 && new_len > (1usize << self.step) {
            self.rebuild(self.step * 2);
        }
        self.palette.len() as u16 - 1
    }

    /// Narrows the indices, dropping unused palette entries, once few enough
    /// entries are in use.
    fn try_shrink_palette(&mut self)
        requires
            old(self).wf(),
        ensures
            final(self).wf(),
            final(self)@ == old(self)@,
            final(self).step as nat == Self::shrunk_step(
                old(self).step as nat,
                old(self)@.to_set().len(),
            ),
            forall|x: BlockId| #[trigger] final(self).palette_has(x) ==> old(self).palette_has(x),
            final(self).palette_len() <= old(self).palette_len(),
            final(self).palette_len() == if final(self).step != old(self).step {
                old(self)@.to_set().len()
            } else {
                old(self).palette_len()
            },
    {
        let ghost pal = self.palette@;
        let n = self.palette.len();
        let mut active_len: usize = 0;
        let mut k: usize = 0;
        while k < n
            invariant
                n == pal.len(),
                self.palette@ == pal,
                *self == *old(self),
                k <= n,
                active_len == kept_count(pal.take(k as int), false),
                active_len <= k,
            decreases n - k,
        {
            proof {
                assert(pal.take(k + 1).drop_last() =~= pal.take(k as int));
                assert(pal.take(k + 1).last() == pal[k as int]);
            }
            if self.palette[k].count != 0 {
                active_len += 1;
            }
            k += 1;
        }
        proof {
            assert(pal.take(n as int) =~= pal);
            assert((1usize << 8usize) == 256usize && (1usize << 4usize) == 16usize) by (bit_vector);
            self.lemma_active_is_distinct();
            lemma_kept_entries(pal, false);
        }
        if self.step == 16 && active_len <= (1usize << 8usize) - Self::HYSTERESIS_MARGIN {
            self.rebuild(8);
        } else if self.step == 8 && active_len <= (1usize << 4usize) - Self::HYSTERESIS_MARGIN {
            self.rebuild(4);
        }
    }

    /// Writes `block_id` at `pos` and returns the id that was there.
    pub fn set(&mut self, pos: VoxelPos, block_id: BlockId) -> (r: BlockId)
        requires
            old(self).wf(),
            pos.is_valid(),
            old(self).palette_has(block_id) || old(self).palette_len() < 65535,
        ensures
            final(self).wf(),
            r == old(self)@[naive_index(pos)],
            final(self)@ == old(self)@.update(naive_index(pos), block_id),
            final(self).palette_has(block_id),
            forall|x: BlockId| #[trigger]
                final(self).palette_has(x) ==> old(self).palette_has(x) || x == block_id,
            final(self).palette_len() <= old(self).palette_len() + 1,
            final(self).palette_len() == if old(self)@[naive_index(pos)] == block_id {
                old(self).palette_len()
            } else if final(self).spec_step() < old(self).grown_step(block_id) {
                final(self)@.to_set().len()
            } else {
                old(self).palette_len() + if old(self).palette_has(block_id) {
                    0nat
                } else {
                    1nat
                }
            },
            final(self).spec_step() == if old(self)@[naive_index(pos)] == block_id {
                old(self).spec_step()
            } else {
                Self::shrunk_step(old(self).grown_step(block_id), final(self)@.to_set().len())
            },
            final(self).spec_step() < old(self).grown_step(block_id) ==> final(self).palette_len()
                + Self::HYSTERESIS_MARGIN <= cap_of(final(self).spec_step()),
    {
        let idx = Self::index(pos);
        let old_palette_idx = self.read(idx) as usize;
        let old_block_id = self.palette[old_palette_idx].id;
        if old_block_id == block_id {
            proof {
                assert(old(self)@.update(idx as int, block_id) =~= old(self)@);
                self.lemma_view_in_palette(idx as int);
            }
            return old_block_id;
        }
        let ghost slots0 = self.slots();
        let new_palette_idx = self.get_or_grow_palette(block_id) as usize;
        let ghost c1 = *self;
        let ghost pal1 = self.palette@;
        proof {
            lemma_count_of_present(slots0, idx as int);
            lemma_count_of_update(slots0, idx as int, new_palette_idx as u16, new_palette_idx as int);
            lemma_count_of_bound(slots0.update(idx as int, new_palette_idx as u16), new_palette_idx as int);
        }
        let mut e_old = self.palette[old_palette_idx];
        e_old.count = e_old.count - 1;
        self.palette.set(old_palette_idx, e_old);
        let mut e_new = self.palette[new_palette_idx];
        e_new.count = e_new.count + 1;
        self.palette.set(new_palette_idx, e_new);
        self.write(idx, new_palette_idx as u16);
        proof {
            let s1 = self.slots();
            assert(s1 == slots0.update(idx as int, new_palette_idx as u16));
            assert forall|p: int| 0 <= p < self.palette@.len() implies (#[trigger] self.palette@[p]).count
                == count_of(s1, p) by {
                lemma_count_of_update(slots0, idx as int, new_palette_idx as u16, p);
            }
            assert forall|a: int, b: int| 0 <= a < b < self.palette@.len() implies (
            #[trigger] self.palette@[a]).id != (#[trigger] self.palette@[b]).id by {
                assert(self.palette@[a].id == pal1[a].id);
                assert(self.palette@[b].id == pal1[b].id);
            }
            assert forall|x: BlockId| #[trigger] self.palette_has(x) implies old(self).palette_has(x)
                || x == block_id by {
                let p = choose|p: int| 0 <= p < self.palette@.len() && #[trigger] self.palette@[p].id == x;
                assert(c1.palette@[p].id == x);
                assert(c1.palette_has(x));
            }
            assert(self@ =~= old(self)@.update(idx as int, block_id));
        }
        self.try_shrink_palette();
        proof {
            self.lemma_view_in_palette(idx as int);
        }
        old_block_id
    }

    /// A chunk holding air but for `bats`, written in order: a later write to
    /// the same position wins.
    pub fn new_with(bats: &[BatVoxel]) -> (r: Self)
        requires
            all_valid(bats@),
            ids_of(bats@).len() < 65535,
        ensures
            r.wf(),
            r@ == apply_sets(all_air(), bats@),
    {
        let mut chunk = Self::new();
        let ghost air = BlockId::new_spec(AIR_ID);
        let ghost ids = ids_of(bats@).insert(air);
        proof {
            vstd::seq_lib::seq_to_set_is_finite(bats@.map_values(|b: BatVoxel| b.spec_id()));
            assert forall|x: BlockId| #[trigger] chunk.palette_has(x) implies ids.contains(x) by {
                let p = choose|p: int| 0 <= p < chunk.palette_len() && #[trigger] chunk.palette@[p].id == x;
                assert(chunk@[0] == air);
                assert(chunk.palette@[p] == chunk.palette@[0]);
            }
            assert(bats@.take(0) =~= Seq::<BatVoxel>::empty());
        }
        let mut i: usize = 0;
        while i < bats.len()
            invariant
                chunk.wf(),
                all_valid(bats@),
                i <= bats@.len(),
                chunk@ == apply_sets(all_air(), bats@.take(i as int)),
                ids == ids_of(bats@).insert(air),
                ids.finite(),
                ids.len() <= 65535,
                forall|x: BlockId| #[trigger] chunk.palette_has(x) ==> ids.contains(x),
            decreases bats@.len() - i,
        {
            let bat = bats[i];
            proof {
                let id = bat.spec_id();
                assert(bats@.map_values(|b: BatVoxel| b.spec_id())[i as int] == id);
                assert(ids.contains(id));
                if !chunk.palette_has(id) {
                    chunk.lemma_palette_len_bound(ids.remove(id));
                }
                lemma_apply_sets_step(all_air(), bats@, i as int);
                assert(bats@[i as int].spec_pos().is_valid());
            }
            chunk.set(bat.pos(), bat.id());
            i += 1;
        }
        proof {
            assert(bats@.take(bats@.len() as int) =~= bats@);
        }
        chunk
    }

    /// The number of bits per packed palette index: 4, 8 or 16.
    pub fn step(&self) -> (r: usize)
        ensures
            r == self.spec_step(),
    {
        self.step
    }

    /// The naive index of a valid voxel position.
    fn index(pos: VoxelPos) -> (r: usize)
        requires
            pos.is_valid(),
        ensures
            r == naive_index(pos),
            r < VOL,
    {
        crate::naive_chunk::naive(pos) as usize
    }
}

} // verus!
