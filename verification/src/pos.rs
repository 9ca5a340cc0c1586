//! What the three kinds of grid positions share: the coordinate types and the
//! checked conversions that bring a widened coordinate back into them.

use vstd::prelude::*;

verus! {

/// A type that a position's coordinates may have.
pub trait Coord {

}

impl Coord for u8 {

}

impl Coord for i16 {

}

impl Coord for i32 {

}

/// `num_traits::FromPrimitive::from_i64` for `u8`: `Some` of the value exactly
/// when it fits in a `u8`, else `None`.
#[verifier::external_body]
pub(crate) fn u8_from_i64(v: i64) -> (r: Option<u8>)
    ensures
        r == (if 0 <= v <= u8::MAX {
            Some(v as u8)
        } else {
            None
        }),
{
    <u8 as num_traits::FromPrimitive>::from_i64(v)
}

/// `num_traits::FromPrimitive::from_i64` for `i16`: `Some` of the value exactly
/// when it fits in an `i16`, else `None`.
#[verifier::external_body]
pub(crate) fn i16_from_i64(v: i64) -> (r: Option<i16>)
    ensures
        r == (if i16::MIN <= v <= i16::MAX {
            Some(v as i16)
        } else {
            None
        }),
{
    <i16 as num_traits::FromPrimitive>::from_i64(v)
}

/// `num_traits::FromPrimitive::from_i64` for `i32`: `Some` of the value exactly
/// when it fits in an `i32`, else `None`.
#[verifier::external_body]
pub(crate) fn i32_from_i64(v: i64) -> (r: Option<i32>)
    ensures
        r == (if i32::MIN <= v <= i32::MAX {
            Some(v as i32)
        } else {
            None
        }),
{
    <i32 as num_traits::FromPrimitive>::from_i64(v)
}

/// The absolute value of an integer.
pub open spec fn abs(v: int) -> int {
    if v < 0 {
        -v
    } else {
        v
    }
}

} // verus!
