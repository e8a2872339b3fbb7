//! Three-component fixed-point vectors and their mathematical model.

use vstd::prelude::*;

use crate::fixed::{clamp, saturate, COORD_LIMIT};

verus! {

/// A mathematical 3-vector.
pub type Triple = (int, int, int);

pub open spec fn add3(a: Triple, b: Triple) -> Triple {
    (a.0 + b.0, a.1 + b.1, a.2 + b.2)
}

pub open spec fn sub3(a: Triple, b: Triple) -> Triple {
    (a.0 - b.0, a.1 - b.1, a.2 - b.2)
}

pub open spec fn neg3(a: Triple) -> Triple {
    (-a.0, -a.1, -a.2)
}

pub open spec fn zero3() -> Triple {
    (0, 0, 0)
}

pub open spec fn norm_sq(a: Triple) -> int {
    a.0 * a.0 + a.1 * a.1 + a.2 * a.2
}

pub open spec fn clamp3(a: Triple) -> Triple {
    (clamp(a.0), clamp(a.1), clamp(a.2))
}

/// A position or velocity, each component in fixed-point units.
#[derive(Clone, Copy, Debug, PartialEq, Eq, Structural)]
pub struct Vector {
    pub x: i64,
    pub y: i64,
    pub z: i64,
}

impl View for Vector {
    type V = Triple;

    open spec fn view(&self) -> Triple {
        (self.x as int, self.y as int, self.z as int)
    }
}

/// Every component lies within `[-COORD_LIMIT, COORD_LIMIT]`.
pub open spec fn in_range(a: Triple) -> bool {
    -COORD_LIMIT <= a.0 <= COORD_LIMIT && -COORD_LIMIT <= a.1 <= COORD_LIMIT && -COORD_LIMIT
        <= a.2 <= COORD_LIMIT
}

/// The vector of a triple whose components fit in `i64`.
pub open spec fn vector_of(a: Triple) -> Vector {
    Vector { x: a.0 as i64, y: a.1 as i64, z: a.2 as i64 }
}

impl Vector {
    pub open spec fn wf(&self) -> bool {
        in_range(self@)
    }

    pub fn new(x: i64, y: i64, z: i64) -> (r: Vector)
        ensures
            r@ == (x as int, y as int, z as int),
    {
        Vector { x, y, z }
    }

    pub fn zero() -> (r: Vector)
        ensures
            r@ == zero3(),
    {
        Vector { x: 0, y: 0, z: 0 }
    }

    /// The component-wise sum, each component saturated at `COORD_LIMIT`.
    pub fn saturating_add(self, o: Vector) -> (r: Vector)
        ensures
            r@ == clamp3(add3(self@, o@)),
            r.wf(),
    {
        Vector {
            x: saturate(self.x as i128 + o.x as i128),
            y: saturate(self.y as i128 + o.y as i128),
            z: saturate(self.z as i128 + o.z as i128),
        }
    }

    /// Whether some component has reached the saturation limit.
    pub fn is_saturated(&self) -> (r: bool)
        ensures
            r == !(-COORD_LIMIT < self.x < COORD_LIMIT && -COORD_LIMIT < self.y < COORD_LIMIT
                && -COORD_LIMIT < self.z < COORD_LIMIT),
    {
        !(-COORD_LIMIT < self.x && self.x < COORD_LIMIT && -COORD_LIMIT < self.y && self.y
            < COORD_LIMIT && -COORD_LIMIT < self.z && self.z < COORD_LIMIT)
    }
}

} // verus!
