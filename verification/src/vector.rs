//! Two-dimensional vectors: the mathematical model over unbounded integers
//! and the machine representation.

use vstd::prelude::*;

verus! {

/// A vector of the integer plane.
pub struct Vector {
    pub x: int,
    pub y: int,
}

impl Vector {
    pub open spec fn plus(self, other: Vector) -> Vector {
        Vector { x: self.x + other.x, y: self.y + other.y }
    }

    pub open spec fn minus(self, other: Vector) -> Vector {
        Vector { x: self.x - other.x, y: self.y - other.y }
    }

    pub open spec fn dot(self, other: Vector) -> int {
        self.x * other.x + self.y * other.y
    }

    pub open spec fn norm_squared(self) -> int {
        self.x * self.x + self.y * self.y
    }

    /// The vector turned a quarter turn from the x-axis toward the y-axis.
    pub open spec fn perp(self) -> Vector {
        Vector { x: -self.y, y: self.x }
    }

    /// Whether both components lie in `[-bound, bound]`.
    pub open spec fn within(self, bound: int) -> bool {
        &&& -bound <= self.x <= bound
        &&& -bound <= self.y <= bound
    }
}

/// A vector with machine-integer components.
#[derive(Clone, Copy, Debug, PartialEq, Eq, Structural)]
pub struct Vec2 {
    pub x: i64,
    pub y: i64,
}

impl View for Vec2 {
    type V = Vector;

    open spec fn view(&self) -> Vector {
        Vector { x: self.x as int, y: self.y as int }
    }
}

impl Vec2 {
    pub fn new(x: i64, y: i64) -> (v: Vec2)
        ensures
            v@ == (Vector { x: x as int, y: y as int }),
            v.x == x,
            v.y == y,
    {
        Vec2 { x, y }
    }
}

} // verus!
