//! Rays: a starting point and a direction.

use crate::mat4::point_image;
use crate::mat4::vector_image;
use crate::mat4::Mat4;
use crate::point::Point;
use crate::scalar::Scalar;
use crate::vector::Vector;
use vstd::prelude::*;

verus! {

/// The half line that starts at `origin` and runs along `direction`.
#[derive(Debug, Copy, Clone)]
pub struct Ray {
    pub origin: Point,
    pub direction: Vector,
}

impl Ray {
    pub open spec fn position_spec(&self, t: Scalar) -> Point {
        self.origin.moved(self.direction.scaled(t))
    }

    /// The point reached after the distance `t` along the ray.
    #[verifier::when_used_as_spec(position_spec)]
    pub fn position(&self, t: Scalar) -> (p: Point)
        ensures
            p == self.position_spec(t),
    {
        self.origin + self.direction * t
    }

    /// The ray whose origin and direction are the images of this ray's
    /// under the matrix whose cells are `m`.
    pub open spec fn transformed(&self, m: Seq<Scalar>) -> Ray {
        Ray { origin: point_image(m, self.origin), direction: vector_image(m, self.direction) }
    }

    /// This ray as `transform` maps it; the ray itself stays as it is.
    pub fn transform(&self, transform: Mat4) -> (r: Ray)
        ensures
            r == self.transformed(transform@),
    {
        Ray { origin: transform * self.origin, direction: transform * self.direction }
    }
}

} // verus!
