//! Identifiers of block types.

use vstd::prelude::*;

verus! {

/// Represents the unique identifier of a Block. This is used to identify a Block's type in the `BlockRegistry`.
///
/// Internally stores an u16. This makes the maximum number of Block types 65,536. `BlockId` 0 is reserved for "Air".
#[derive(Clone, Copy, Debug, PartialEq, Eq, Structural, PartialOrd, Ord, Hash)]
pub struct BlockId(pub(crate) u16);

impl BlockId {
    /// Two ids are equal exactly when their values are.
    pub broadcast proof fn lemma_value_eq(a: BlockId, b: BlockId)
        ensures
            #![trigger a.value(), b.value()]
            a.value() == b.value() <==> a == b,
    {
    }

    /// The numeric value of the id.
    pub closed spec fn value(self) -> u16 {
        self.0
    }

    /// The id with the given value.
    pub closed spec fn new_spec(id: u16) -> Self {
        BlockId(id)
    }

    /// The id made from a value holds that value.
    pub broadcast proof fn lemma_new_spec(id: u16)
        ensures
            #[trigger] Self::new_spec(id).value() == id,
    {
    }

    /// Whether the id is the reserved "Air" id.
    pub open spec fn spec_is_air(self) -> bool {
        self.value() == 0
    }

    /// Creates a new `BlockId` with the given id.
    pub fn new(id: u16) -> (r: Self)
        ensures
            r.value() == id,
            r == Self::new_spec(id),
    {
        Self(id)
    }

    /// Returns the id of the `BlockId`.
    pub fn id(&self) -> (r: u16)
        ensures
            r == self.value(),
    {
        self.0
    }

    /// Returns true if the `BlockId` is "Air".
    pub fn is_air(&self) -> (r: bool)
        ensures
            r == self.spec_is_air(),
            r <==> self.value() == crate::constants::AIR_ID,
    {
        self.0 == 0
    }

    /// Returns true if both ids name the same block type.
    pub fn is_equal(&self, other: &Self) -> (r: bool)
        ensures
            r <==> *self == *other,
    {
        self.0 == other.0
    }

    /// The reserved "Air" id.
    pub fn air() -> (r: Self)
        ensures
            r.value() == crate::constants::AIR_ID,
    {
        Self(crate::constants::AIR_ID)
    }
}

impl Default for BlockId {
    /// The zero value.
    fn default() -> (r: Self)
        ensures
            r.value() == 0,
    {
        Self(0)
    }
}

} // verus!
