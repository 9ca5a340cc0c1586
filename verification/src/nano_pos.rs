//! The position of an entity inside a voxel, in steps of 1/255th of a voxel.

use vstd::prelude::*;

verus! {

/// Represents the position of any entity/object (e.g. a Player, a Particle) in the Voxel Grid.
///
/// The `NanoPos` is a 3D coordinate system where each coordinate is an u8.
/// It is used to represent the position of entities with high granularity.
/// The `NanoPos` value is interpreted as increasing in steps of 1/255th of a Voxel.
#[derive(Clone, Copy, Debug, Default, PartialEq, Eq, Structural, Hash)]
pub struct NanoPos {
    x: u8,
    y: u8,
    z: u8,
}

impl View for NanoPos {
    type V = (u8, u8, u8);

    /// The coordinates.
    closed spec fn view(&self) -> (u8, u8, u8) {
        (self.x, self.y, self.z)
    }
}

impl NanoPos {
    /// Two positions are equal exactly when their coordinates are.
    pub broadcast proof fn lemma_view_eq(a: Self, b: Self)
        ensures
            #![trigger a@, b@]
            a@ == b@ <==> a == b,
    {
    }

    /// Creates a new `NanoPos` with the given coordinates.
    pub fn new(x: u8, y: u8, z: u8) -> (r: Self)
        ensures
            r@ == (x, y, z),
    {
        Self { x, y, z }
    }

    /// Returns the coordinates of the `NanoPos` as a tuple of u8's.
    pub fn coord(&self) -> (r: (u8, u8, u8))
        ensures
            r == self@,
    {
        (self.x, self.y, self.z)
    }

    /// Returns the x-coordinate of the `NanoPos`.
    pub fn x(&self) -> (r: u8)
        ensures
            r == self@.0,
    {
        self.x
    }

    /// Returns the y-coordinate of the `NanoPos`.
    pub fn y(&self) -> (r: u8)
        ensures
            r == self@.1,
    {
        self.y
    }

    /// Returns the z-coordinate of the `NanoPos`.
    pub fn z(&self) -> (r: u8)
        ensures
            r == self@.2,
    {
        self.z
    }

    /// Creates a new `NanoPos` from a tuple of three u8's.
    pub fn from_u8_tuple(tuple: (u8, u8, u8)) -> (r: Self)
        ensures
            r@ == tuple,
    {
        Self { x: tuple.0, y: tuple.1, z: tuple.2 }
    }

    /// Creates a new `NanoPos` from an array of three u8's.
    pub fn from_u8_array(array: [u8; 3]) -> (r: Self)
        ensures
            r@ == (array@[0], array@[1], array@[2]),
    {
        Self { x: array[0], y: array[1], z: array[2] }
    }
}

} // verus!
