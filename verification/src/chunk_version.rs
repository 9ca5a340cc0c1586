//! Version numbers of chunk contents.

use vstd::prelude::*;

verus! {

/// Versioning for chunks. Used in resolving conflicts and ensuring consistency.
///
/// When a Chunk receives an update, the `ChunkVersion` number increments by 1.
///
/// A `ChunkReference` may be given version 3 upon being put on queue for processing (meshing, for example).
/// Upon completion of the mesh job, the World will check if the Chunk still has the same `ChunkVersion` number.
#[derive(Clone, Copy, Debug, PartialEq, Eq, Structural, PartialOrd, Ord, Hash)]
pub struct ChunkVersion(u64);

impl ChunkVersion {
    /// The version number.
    pub closed spec fn value(self) -> u64 {
        self.0
    }

    /// Two versions are equal exactly when their numbers are.
    pub broadcast proof fn lemma_value_eq(a: Self, b: Self)
        ensures
            #![trigger a.value(), b.value()]
            a.value() == b.value() <==> a == b,
    {
    }

    /// Creates a new `ChunkVersion` with the given version number.
    pub fn new(version: u64) -> (r: Self)
        ensures
            r.value() == version,
    {
        Self(version)
    }

    /// Returns the `ChunkVersion` number as an u64.
    pub fn as_u64(&self) -> (r: u64)
        ensures
            r == self.value(),
    {
        self.0
    }

    /// Returns the next `ChunkVersion` number.
    pub fn next(&self) -> (r: Self)
        requires
            self.value() < u64::MAX,
        ensures
            r.value() == self.value() + 1,
    {
        Self(self.0 + 1)
    }

    /// Increments the `ChunkVersion` number by 1.
    pub fn increment(&mut self)
        requires
            old(self).value() < u64::MAX,
        ensures
            final(self).value() == old(self).value() + 1,
    {
        self.0 += 1;
    }
}

impl Default for ChunkVersion {
    /// The zero value.
    fn default() -> (r: Self)
        ensures
            r.value() == 0,
    {
        Self(0)
    }
}

} // verus!
