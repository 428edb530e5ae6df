//! Integer points and sizes on the game screen.

use vstd::prelude::*;

verus! {

/// A pair of 32-bit integer coordinates: a position or a size.
#[derive(Clone, Copy, Debug, PartialEq, Eq, Structural)]
pub struct IVec2 {
    pub x: i32,
    pub y: i32,
}

impl IVec2 {
    /// The point with the given coordinates, in specifications.
    pub open spec fn new_spec(x: i32, y: i32) -> Self {
        IVec2 { x, y }
    }

    /// The origin, in specifications.
    pub open spec fn zero_spec() -> Self {
        IVec2 { x: 0, y: 0 }
    }

    /// The point with the given coordinates.
    pub fn new(x: i32, y: i32) -> (v: Self)
        ensures
            v.x == x,
            v.y == y,
    {
        IVec2 { x, y }
    }

    /// The origin.
    pub fn zero() -> (v: Self)
        ensures
            v.x == 0,
            v.y == 0,
    {
        IVec2 { x: 0, y: 0 }
    }
}

impl Default for IVec2 {
    fn default() -> (v: Self)
        ensures
            v.x == 0,
            v.y == 0,
    {
        IVec2::zero()
    }
}

} // verus!
