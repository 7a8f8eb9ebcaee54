//! A 2-D vector with fixed-point integer coordinates.

use vstd::prelude::*;

verus! {

/// A 2-D vector; coordinates are in fixed-point units (`FP_SCALE` units per
/// world unit).
#[derive(Clone, Copy, PartialEq, Eq, Structural, Debug)]
pub struct Vec2F {
    pub x: i64,
    pub y: i64,
}

impl Vec2F {
    /// The zero vector.
    pub fn zero() -> (r: Vec2F)
        ensures
            r.x == 0,
            r.y == 0,
    {
        Vec2F { x: 0, y: 0 }
    }

    /// Both coordinates lie in `[-m, m]`.
    pub open spec fn bounded(self, m: int) -> bool {
        &&& -m <= self.x <= m
        &&& -m <= self.y <= m
    }
}

} // verus!
