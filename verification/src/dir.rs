//! The six axis-aligned directions of 3D space.

use vstd::prelude::*;

verus! {

/// Direction in 3D space.
#[derive(Debug, Clone, Copy, PartialEq, Eq, Structural, Hash)]
pub enum Dir {
    /// Positive Y-axis direction.
    Up,
    /// Negative Y-axis direction.
    Down,
    /// Negative X-axis direction.
    Left,
    /// Positive X-axis direction.
    Right,
    /// Positive Z-axis direction. +1.0 FAR.
    Front,
    /// Negative Z-axis direction. -1.0 NEAR.
    Back,
}

/// The unit offset `(x, y, z)` that a direction points along.
pub open spec fn dir_offset(d: Dir) -> (i8, i8, i8) {
    match d {
        Dir::Up => (0i8, 1i8, 0i8),
        Dir::Down => (0i8, -1i8, 0i8),
        Dir::Left => (-1i8, 0i8, 0i8),
        Dir::Right => (1i8, 0i8, 0i8),
        Dir::Front => (0i8, 0i8, 1i8),
        Dir::Back => (0i8, 0i8, -1i8),
    }
}

/// The direction whose unit offset is `t`, if `t` is one of the six unit offsets.
pub open spec fn dir_from_offset(t: (i8, i8, i8)) -> Option<Dir> {
    if t == (0i8, 1i8, 0i8) {
        Some(Dir::Up)
    } else if t == (0i8, -1i8, 0i8) {
        Some(Dir::Down)
    } else if t == (-1i8, 0i8, 0i8) {
        Some(Dir::Left)
    } else if t == (1i8, 0i8, 0i8) {
        Some(Dir::Right)
    } else if t == (0i8, 0i8, 1i8) {
        Some(Dir::Front)
    } else if t == (0i8, 0i8, -1i8) {
        Some(Dir::Back)
    } else {
        None
    }
}

/// The opposite direction.
pub open spec fn dir_inv(d: Dir) -> Dir {
    match d {
        Dir::Up => Dir::Down,
        Dir::Down => Dir::Up,
        Dir::Left => Dir::Right,
        Dir::Right => Dir::Left,
        Dir::Front => Dir::Back,
        Dir::Back => Dir::Front,
    }
}

/// All six directions, in the order Up, Down, Left, Right, Front, Back.
pub open spec fn dir_list() -> Seq<Dir> {
    seq![Dir::Up, Dir::Down, Dir::Left, Dir::Right, Dir::Front, Dir::Back]
}

impl Dir {
    /// Returns the inverse direction.
    pub fn inv(&self) -> (r: Self)
        ensures
            r == dir_inv(*self),
    {
        match self {
            Self::Up => Self::Down,
            Self::Down => Self::Up,
            Self::Left => Self::Right,
            Self::Right => Self::Left,
            Self::Front => Self::Back,
            Self::Back => Self::Front,
        }
    }

    /// Returns true if the direction is along the X-axis.
    pub fn is_x(&self) -> (r: bool)
        ensures
            r <==> dir_offset(*self).0 != 0,
    {
        matches!(self, Self::Left | Self::Right)
    }

    /// Returns true if the direction is along the Y-axis.
    pub fn is_y(&self) -> (r: bool)
        ensures
            r <==> dir_offset(*self).1 != 0,
    {
        matches!(self, Self::Up | Self::Down)
    }

    /// Returns true if the direction is along the Z-axis.
    pub fn is_z(&self) -> (r: bool)
        ensures
            r <==> dir_offset(*self).2 != 0,
    {
        matches!(self, Self::Front | Self::Back)
    }

    /// Returns true if the direction is positive.
    pub fn is_plus(&self) -> (r: bool)
        ensures
            r <==> dir_offset(*self).0 + dir_offset(*self).1 + dir_offset(*self).2 == 1,
    {
        matches!(self, Self::Up | Self::Right | Self::Front)
    }

    /// Returns true if the direction is negative.
    pub fn is_minus(&self) -> (r: bool)
        ensures
            r <==> dir_offset(*self).0 + dir_offset(*self).1 + dir_offset(*self).2 == -1,
    {
        matches!(self, Self::Down | Self::Left | Self::Back)
    }

    /// Returns all directions in the order that follows:
    ///
    /// Up, Down, Left, Right, Front, Back.
    pub fn iter() -> (r: [Self; 6])
        ensures
            r@ == dir_list(),
    {
        let r = [Dir::Up, Dir::Down, Dir::Left, Dir::Right, Dir::Front, Dir::Back];
        assert(r@ =~= dir_list());
        r
    }

    /// Receives a tuple of the direction's x, y, and z unitary components.
    ///
    /// Returns the corresponding direction if the tuple is a valid unit.
    pub fn from_off_tuple(t: (i8, i8, i8)) -> (r: Option<Self>)
        ensures
            r == dir_from_offset(t),
    {
        let (x, y, z) = t;
        match (x, y, z) {
            (0, 1, 0) => Some(Self::Up),
            (0, -1, 0) => Some(Self::Down),
            (-1, 0, 0) => Some(Self::Left),
            (1, 0, 0) => Some(Self::Right),
            (0, 0, 1) => Some(Self::Front),
            (0, 0, -1) => Some(Self::Back),
            _ => None,
        }
    }

    /// Returns the direction's x, y, and z unitary components as a tuple of i8.
    pub fn as_off_tuple(&self) -> (r: (i8, i8, i8))
        ensures
            r == dir_offset(*self),
    {
        match self {
            Self::Up => (0, 1, 0),
            Self::Down => (0, -1, 0),
            Self::Left => (-1, 0, 0),
            Self::Right => (1, 0, 0),
            Self::Front => (0, 0, 1),
            Self::Back => (0, 0, -1),
        }
    }

    /// Receives an array of the direction's x, y, and z unitary components.
    ///
    /// Returns the corresponding direction if the array is a valid unit.
    pub fn from_off_array(a: [i8; 3]) -> (r: Option<Self>)
        ensures
            r == dir_from_offset((a@[0], a@[1], a@[2])),
    {
        let x = a[0];
        let y = a[1];
        let z = a[2];
        match (x, y, z) {
            (0, 1, 0) => Some(Self::Up),
            (0, -1, 0) => Some(Self::Down),
            (-1, 0, 0) => Some(Self::Left),
            (1, 0, 0) => Some(Self::Right),
            (0, 0, 1) => Some(Self::Front),
            (0, 0, -1) => Some(Self::Back),
            _ => None,
        }
    }

    /// Returns the direction's x, y, and z unitary components as an array of i8.
    pub fn as_off_array(&self) -> (r: [i8; 3])
        ensures
            (r@[0], r@[1], r@[2]) == dir_offset(*self),
            r@.len() == 3,
    {
        match self {
            Self::Up => [0, 1, 0],
            Self::Down => [0, -1, 0],
            Self::Left => [-1, 0, 0],
            Self::Right => [1, 0, 0],
            Self::Front => [0, 0, 1],
            Self::Back => [0, 0, -1],
        }
    }

    /// The name of the direction with the axis and sign it points along, as
    /// the direction is displayed: "Up (+Y)", "Down (-Y)", "Left (-X)",
    /// "Right (+X)", "Front (+Z)" or "Back (-Z)".
    pub fn label(&self) -> (r: &'static str)
        ensures
            match *self {
                Dir::Up => r@ == "Up (+Y)"@,
                Dir::Down => r@ == "Down (-Y)"@,
                Dir::Left => r@ == "Left (-X)"@,
                Dir::Right => r@ == "Right (+X)"@,
                Dir::Front => r@ == "Front (+Z)"@,
                Dir::Back => r@ == "Back (-Z)"@,
            },
    {
        match self {
            Self::Up => "Up (+Y)",
            Self::Down => "Down (-Y)",
            Self::Left => "Left (-X)",
            Self::Right => "Right (+X)",
            Self::Front => "Front (+Z)",
            Self::Back => "Back (-Z)",
        }
    }
}

/// The inverse of the inverse is the direction itself, and the inverse points
/// the opposite way.
pub proof fn lemma_inv_involution(d: Dir)
    ensures
        dir_inv(dir_inv(d)) == d,
        dir_inv(d) != d,
        dir_offset(dir_inv(d)).0 == -dir_offset(d).0,
        dir_offset(dir_inv(d)).1 == -dir_offset(d).1,
        dir_offset(dir_inv(d)).2 == -dir_offset(d).2,
{
}

/// A direction's offset converts back into the same direction, and only the
/// six unit offsets name a direction.
pub proof fn lemma_offset_roundtrip(d: Dir, t: (i8, i8, i8))
    ensures
        dir_from_offset(dir_offset(d)) == Some(d),
        dir_from_offset(t) matches Some(e) ==> dir_offset(e) == t,
{
}

/// Every direction lies on exactly one axis and is either positive or negative.
pub proof fn lemma_axis_and_sign(d: Dir)
    ensures
        (dir_offset(d).0 != 0) as int + (dir_offset(d).1 != 0) as int + (dir_offset(d).2 != 0) as int
            == 1,
        dir_offset(d).0 + dir_offset(d).1 + dir_offset(d).2 == 1 || dir_offset(d).0 + dir_offset(
            d,
        ).1 + dir_offset(d).2 == -1,
        dir_list().contains(d),
{
    assert(dir_list()[0] == Dir::Up);
    assert(dir_list()[1] == Dir::Down);
    assert(dir_list()[2] == Dir::Left);
    assert(dir_list()[3] == Dir::Right);
    assert(dir_list()[4] == Dir::Front);
    assert(dir_list()[5] == Dir::Back);
}

} // verus!
