//! Plane vectors with integer components.

use vstd::prelude::*;

verus! {

/// A vector of the plane. The unit of its components is the caller's:
/// millionths for a direction, thousandths of an arena unit for a place,
/// thousandths of an arena unit per second for a velocity.
#[derive(Clone, Copy, Debug, PartialEq, Eq, Structural)]
pub struct Vector {
    pub x: i64,
    pub y: i64,
}

impl Vector {
    /// The squared length, as a mathematical integer.
    pub open spec fn norm_squared(self) -> int {
        self.x * self.x + self.y * self.y
    }

    pub open spec fn is_zero(self) -> bool {
        self.x == 0 && self.y == 0
    }

    /// The vector with both components zero.
    pub fn zero() -> (v: Vector)
        ensures
            v == (Vector { x: 0, y: 0 }),
    {
        Vector { x: 0, y: 0 }
    }
}

} // verus!
