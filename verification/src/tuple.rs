//! Four-component tuples.

use crate::point::Point;
use crate::scalar::Scalar;
use crate::vector::Vector;
use vstd::prelude::*;

verus! {

/// Four numbers; the fourth is one for a point and zero for a direction.
#[derive(Debug, PartialEq, Eq, Structural, Copy, Clone)]
pub struct Tuple {
    pub x: Scalar,
    pub y: Scalar,
    pub z: Scalar,
    pub w: Scalar,
}

impl Tuple {
    pub open spec fn new_spec(x: Scalar, y: Scalar, z: Scalar, w: Scalar) -> Tuple {
        Tuple { x, y, z, w }
    }

    /// The tuple of the four components.
    #[verifier::when_used_as_spec(new_spec)]
    pub fn new(x: Scalar, y: Scalar, z: Scalar, w: Scalar) -> (t: Tuple)
        ensures
            t == Tuple::new_spec(x, y, z, w),
    {
        Tuple { x, y, z, w }
    }

    pub open spec fn zero_spec() -> Tuple {
        Tuple { x: Scalar::zero(), y: Scalar::zero(), z: Scalar::zero(), w: Scalar::zero() }
    }

    /// The tuple whose components are all zero.
    #[verifier::when_used_as_spec(zero_spec)]
    pub fn zero() -> (t: Tuple)
        ensures
            t == Tuple::zero_spec(),
    {
        Tuple { x: Scalar::zero(), y: Scalar::zero(), z: Scalar::zero(), w: Scalar::zero() }
    }

    /// The tuple of a point: its fourth component is one.
    pub open spec fn of_point(point: Point) -> Tuple {
        Tuple { x: point.x, y: point.y, z: point.z, w: Scalar::one() }
    }

    /// The tuple of a direction: its fourth component is zero.
    pub open spec fn of_vector(vector: Vector) -> Tuple {
        Tuple { x: vector.x, y: vector.y, z: vector.z, w: Scalar::zero() }
    }
}

impl From<Point> for Tuple {
    fn from(point: Point) -> (t: Tuple) {
        Tuple { x: point.x, y: point.y, z: point.z, w: Scalar::one() }
    }
}

impl vstd::std_specs::convert::FromSpecImpl<Point> for Tuple {
    open spec fn obeys_from_spec() -> bool {
        true
    }

    open spec fn from_spec(point: Point) -> Tuple {
        Tuple::of_point(point)
    }
}

impl From<Vector> for Tuple {
    fn from(vector: Vector) -> (t: Tuple) {
        Tuple { x: vector.x, y: vector.y, z: vector.z, w: Scalar::zero() }
    }
}

impl vstd::std_specs::convert::FromSpecImpl<Vector> for Tuple {
    open spec fn obeys_from_spec() -> bool {
        true
    }

    open spec fn from_spec(vector: Vector) -> Tuple {
        Tuple::of_vector(vector)
    }
}

} // verus!
