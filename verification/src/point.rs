//! Positions in space.

use crate::scalar::is_equal;
use crate::scalar::Scalar;
use crate::vector::Vector;
use vstd::prelude::*;

verus! {

/// A position: a tuple whose fourth component is one.
#[derive(Debug, Copy, Clone)]
pub struct Point {
    pub x: Scalar,
    pub y: Scalar,
    pub z: Scalar,
}

impl Point {
    /// The point reached from this one along `rhs`.
    pub open spec fn moved(self, rhs: Vector) -> Point {
        Point { x: self.x.plus(rhs.x), y: self.y.plus(rhs.y), z: self.z.plus(rhs.z) }
    }

    /// The point reached from this one against `rhs`.
    pub open spec fn moved_back(self, rhs: Vector) -> Point {
        Point { x: self.x.minus(rhs.x), y: self.y.minus(rhs.y), z: self.z.minus(rhs.z) }
    }

    /// The direction that leads from `rhs` to this point.
    pub open spec fn from(self, rhs: Point) -> Vector {
        Vector { x: self.x.minus(rhs.x), y: self.y.minus(rhs.y), z: self.z.minus(rhs.z) }
    }

    /// Whether every component differs from its counterpart by less than
    /// the tolerance.
    pub open spec fn approx(self, other: Point) -> bool {
        is_equal(self.x, other.x) && is_equal(self.y, other.y) && is_equal(self.z, other.z)
    }

    pub open spec fn new_spec(x: Scalar, y: Scalar, z: Scalar) -> Point {
        Point { x, y, z }
    }

    /// The point at the three coordinates.
    #[verifier::when_used_as_spec(new_spec)]
    pub fn new(x: Scalar, y: Scalar, z: Scalar) -> (p: Point)
        ensures
            p == Point::new_spec(x, y, z),
    {
        Point { x, y, z }
    }

    pub open spec fn zero_spec() -> Point {
        Point { x: Scalar::zero(), y: Scalar::zero(), z: Scalar::zero() }
    }

    /// The origin.
    #[verifier::when_used_as_spec(zero_spec)]
    pub fn zero() -> (p: Point)
        ensures
            p == Point::zero_spec(),
    {
        Point { x: Scalar::zero(), y: Scalar::zero(), z: Scalar::zero() }
    }
}

impl PartialEq for Point {
    fn eq(&self, other: &Point) -> (r: bool) {
        is_equal(self.x, other.x) && is_equal(self.y, other.y) && is_equal(self.z, other.z)
    }
}

impl vstd::std_specs::cmp::PartialEqSpecImpl for Point {
    open spec fn obeys_eq_spec() -> bool {
        true
    }

    open spec fn eq_spec(&self, other: &Point) -> bool {
        self.approx(*other)
    }
}

impl core::ops::Add<Vector> for Point {
    type Output = Point;

    fn add(self, rhs: Vector) -> (r: Point) {
        Point { x: self.x + rhs.x, y: self.y + rhs.y, z: self.z + rhs.z }
    }
}

impl vstd::std_specs::ops::AddSpecImpl<Vector> for Point {
    open spec fn obeys_add_spec() -> bool {
        true
    }

    open spec fn add_req(self, rhs: Vector) -> bool {
        true
    }

    open spec fn add_spec(self, rhs: Vector) -> Point {
        self.moved(rhs)
    }
}

impl core::ops::Sub for Point {
    type Output = Vector;

    fn sub(self, rhs: Point) -> (r: Vector) {
        Vector { x: self.x - rhs.x, y: self.y - rhs.y, z: self.z - rhs.z }
    }
}

impl vstd::std_specs::ops::SubSpecImpl for Point {
    open spec fn obeys_sub_spec() -> bool {
        true
    }

    open spec fn sub_req(self, rhs: Point) -> bool {
        true
    }

    open spec fn sub_spec(self, rhs: Point) -> Vector {
        self.from(rhs)
    }
}

impl core::ops::Sub<Vector> for Point {
    type Output = Point;

    fn sub(self, rhs: Vector) -> (r: Point) {
        Point { x: self.x - rhs.x, y: self.y - rhs.y, z: self.z - rhs.z }
    }
}

impl vstd::std_specs::ops::SubSpecImpl<Vector> for Point {
    open spec fn obeys_sub_spec() -> bool {
        true
    }

    open spec fn sub_req(self, rhs: Vector) -> bool {
        true
    }

    open spec fn sub_spec(self, rhs: Vector) -> Point {
        self.moved_back(rhs)
    }
}

} // verus!
