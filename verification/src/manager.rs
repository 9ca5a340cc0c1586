//! The chunks resident in memory, by position.

use std::collections::HashMap;
use vstd::prelude::*;

use crate::chunk::Chunk;
use crate::chunk_pos::ChunkPos;

verus! {

broadcast use {
    vstd::std_specs::hash::group_hash_axioms,
    ChunkPos::lemma_view_eq,
    ChunkPos::lemma_spec_new,
};

/// The key under which the chunk at coordinates `p` is stored: the three
/// coordinates as 16-bit fields of one integer.
pub open spec fn chunk_key(p: (i16, i16, i16)) -> u64 {
    ((((p.0 as u16) as u64) << 32u64) | (((p.1 as u16) as u64) << 16u64)) | ((p.2 as u16) as u64)
}

/// The coordinates stored in a key.
pub open spec fn key_coords(k: u64) -> (i16, i16, i16) {
    (((k >> 32u64) as u16) as i16, ((k >> 16u64) as u16) as i16, (k as u16) as i16)
}

proof fn lemma_key_fields(x: i16, y: i16, z: i16, k: u64)
    by (bit_vector)
    requires
        k == ((((x as u16) as u64) << 32u64) | (((y as u16) as u64) << 16u64)) | ((z as u16) as u64),
    ensures
        ((k >> 32u64) as u16) as i16 == x,
        ((k >> 16u64) as u16) as i16 == y,
        (k as u16) as i16 == z,
{
}

/// The coordinates can be read back from a key.
pub proof fn lemma_key_coords(p: (i16, i16, i16))
    ensures
        key_coords(chunk_key(p)) == p,
{
    lemma_key_fields(p.0, p.1, p.2, chunk_key(p));
}

/// Distinct positions have distinct keys.
pub proof fn lemma_key_injective(a: ChunkPos, b: ChunkPos)
    requires
        chunk_key(a@) == chunk_key(b@),
    ensures
        a == b,
{
    lemma_key_coords(a@);
    lemma_key_coords(b@);
}

/// The key of a chunk position.
pub(crate) fn key_of(pos: &ChunkPos) -> (r: u64)
    ensures
        r == chunk_key(pos@),
{
    let (x, y, z) = pos.pos();
    (((x as u16) as u64) << 32) | (((y as u16) as u64) << 16) | ((z as u16) as u64)
}

/// The chunks resident in memory, each under the position it was inserted at.
pub struct ChunkManager {
    map: HashMap<u64, Chunk>,
}

impl View for ChunkManager {
    type V = Map<ChunkPos, Chunk>;

    /// The resident chunks by position.
    closed spec fn view(&self) -> Map<ChunkPos, Chunk> {
        Map::new(
            |p: ChunkPos| self.map@.contains_key(chunk_key(p@)),
            |p: ChunkPos| self.map@[chunk_key(p@)],
        )
    }
}

impl ChunkManager {
    /// Every stored key is the key of a position.
    #[verifier::type_invariant]
    spec fn inv(&self) -> bool {
        forall|k: u64| #[trigger]
            self.map@.contains_key(k) ==> chunk_key(key_coords(k)) == k && self.map@[k].spec_chunk_pos()@
                == key_coords(k)
    }

    /// Every resident chunk can still take one more change of version.
    pub open spec fn versions_below_max(&self) -> bool {
        forall|p: ChunkPos| #[trigger]
            self@.contains_key(p) ==> self@[p].spec_version().value() < u64::MAX
    }

    proof fn lemma_view_dom(&self)
        requires
            self.inv(),
        ensures
            self@.dom() == self.map@.dom().map(|k: u64| ChunkPos::spec_new(key_coords(k).0, key_coords(k).1, key_coords(k).2)),
            self@.dom().finite(),
            self@.dom().len() == self.map@.dom().len(),
    {
        let f = |k: u64| ChunkPos::spec_new(key_coords(k).0, key_coords(k).1, key_coords(k).2);
        let d = self.map@.dom();
        assert forall|p: ChunkPos| #[trigger] self@.dom().contains(p) implies d.map(f).contains(p) by {
            let k = chunk_key(p@);
            lemma_key_coords(p@);
            assert(f(k)@ == p@);
            assert(d.contains(k));
        }
        assert forall|p: ChunkPos| d.map(f).contains(p) implies #[trigger] self@.dom().contains(p) by {
            let k = choose|k: u64| d.contains(k) && f(k) == p;
            assert(chunk_key(key_coords(k)) == k);
        }
        assert(self@.dom() =~= d.map(f));
        assert forall|a: u64, b: u64| d.contains(a) && d.contains(b) && #[trigger] f(a) == #[trigger] f(b) implies a == b by {
            assert(chunk_key(key_coords(a)) == a);
            assert(chunk_key(key_coords(b)) == b);
            assert(f(a)@ == key_coords(a));
            assert(f(b)@ == key_coords(b));
        }
        vstd::set_lib::lemma_map_size(d, d.map(f), f);
    }

    /// Creates a manager with no chunks.
    pub fn new() -> (r: Self)
        ensures
            r@ == Map::<ChunkPos, Chunk>::empty(),
    {
        let r = Self { map: HashMap::new() };
        assert(r@ =~= Map::<ChunkPos, Chunk>::empty());
        r
    }

    /// The chunk at `pos`, if it is resident.
    pub fn get_chunk(&self, pos: &ChunkPos) -> (r: Option<&Chunk>)
        ensures
            match r {
                Some(c) => self@.contains_key(*pos) && *c == self@[*pos] && c.spec_chunk_pos() == *pos,
                None => !self@.contains_key(*pos),
            },
    {
        proof {
            use_type_invariant(self);
            lemma_key_coords(pos@);
        }
        let k = key_of(pos);
        self.map.get(&k)
    }

    /// Makes `chunk` resident at its position; returns the chunk it replaces there, if any.
    pub fn insert_chunk(&mut self, chunk: Chunk) -> (r: Option<Chunk>)
        ensures
            final(self)@ == old(self)@.insert(chunk.spec_chunk_pos(), chunk),
            match r {
                Some(c) => old(self)@.contains_key(chunk.spec_chunk_pos()) && c == old(self)@[chunk.spec_chunk_pos()],
                None => !old(self)@.contains_key(chunk.spec_chunk_pos()),
            },
    {
        proof {
            use_type_invariant(&*self);
        }
        let pos = chunk.chunk_pos();
        let k = key_of(&pos);
        proof {
            lemma_key_coords(pos@);
        }
        let ghost p = pos;
        let mut map = HashMap::new();
        core::mem::swap(&mut map, &mut self.map);
        let r = map.insert(k, chunk);
        self.map = map;
        proof {
            assert forall|q: ChunkPos| #![trigger self@.contains_key(q)] self@.contains_key(q) == old(self)@.insert(p, chunk).contains_key(q) by {
                if chunk_key(q@) == k {
                    lemma_key_injective(q, p);
                }
            }
            assert forall|q: ChunkPos| #![trigger self@[q]] self@.contains_key(q) implies self@[q] == old(self)@.insert(p, chunk)[q] by {
                if chunk_key(q@) == k {
                    lemma_key_injective(q, p);
                }
            }
            assert(self@ =~= old(self)@.insert(p, chunk));
        }
        r
    }

    /// Evicts the chunk at `pos`; returns it, if it was resident.
    pub fn remove_chunk(&mut self, pos: &ChunkPos) -> (r: Option<Chunk>)
        ensures
            final(self)@ == old(self)@.remove(*pos),
            match r {
                Some(c) => old(self)@.contains_key(*pos) && c == old(self)@[*pos] && c.spec_chunk_pos()
                    == *pos,
                None => !old(self)@.contains_key(*pos),
            },
    {
        proof {
            use_type_invariant(&*self);
        }
        let k = key_of(pos);
        proof {
            lemma_key_coords(pos@);
        }
        let mut map = HashMap::new();
        core::mem::swap(&mut map, &mut self.map);
        let r = map.remove(&k);
        self.map = map;
        proof {
            assert forall|q: ChunkPos| #![trigger self@.contains_key(q)] self@.contains_key(q) == old(self)@.remove(*pos).contains_key(q) by {
                if chunk_key(q@) == k {
                    lemma_key_injective(q, *pos);
                }
            }
            assert(self@ =~= old(self)@.remove(*pos));
        }
        r
    }

    /// Whether a chunk is resident at `pos`.
    pub fn contains_chunk(&self, pos: &ChunkPos) -> (r: bool)
        ensures
            r == self@.contains_key(*pos),
    {
        let k = key_of(pos);
        self.map.contains_key(&k)
    }

    /// The number of resident chunks.
    pub fn num_chunks(&self) -> (r: usize)
        ensures
            r == self@.dom().len(),
    {
        proof {
            use_type_invariant(self);
            self.lemma_view_dom();
        }
        self.map.len()
    }

    /// Whether no chunk is resident.
    pub fn is_empty(&self) -> (r: bool)
        ensures
            r == (self@.dom().len() == 0),
    {
        proof {
            use_type_invariant(self);
            self.lemma_view_dom();
        }
        self.map.is_empty()
    }
}


/// A chunk inserted under its position is what a lookup there gives back,
/// a removed position holds no chunk, and every other position keeps what it
/// held.
pub proof fn lemma_insert_remove(m: Map<ChunkPos, Chunk>, c: Chunk, p: ChunkPos, q: ChunkPos)
    ensures
        m.insert(c.spec_chunk_pos(), c).contains_key(c.spec_chunk_pos()),
        m.insert(c.spec_chunk_pos(), c)[c.spec_chunk_pos()] == c,
        !m.remove(p).contains_key(p),
        q != c.spec_chunk_pos() ==> m.insert(c.spec_chunk_pos(), c).contains_key(q) == m.contains_key(q)
            && m.insert(c.spec_chunk_pos(), c)[q] == m[q],
        q != p ==> m.remove(p).contains_key(q) == m.contains_key(q) && m.remove(p)[q] == m[q],
{
}

} // verus!
