//! The mean of two patterns.

use crate::color::Color;
use crate::mat4::identity4;
use crate::mat4::Mat4;
use crate::pattern::Pattern;
use crate::point::Point;
use crate::scalar::Scalar;
use vstd::prelude::*;

verus! {

/// One half.
pub open spec fn half() -> Scalar {
    Scalar { raw: 500_000_000 }
}

/// Two patterns laid over each other in equal parts.
pub struct Blended {
    pub a: Box<Pattern>,
    pub b: Box<Pattern>,
    pub transform: Mat4,
}

impl Blended {
    /// The blend of the patterns `a` and `b`, untransformed.
    pub fn new(a: Pattern, b: Pattern) -> (p: Blended)
        ensures
            *p.a == a,
            *p.b == b,
            p.transform@ == identity4(),
    {
        Blended { a: Box::new(a), b: Box::new(b), transform: Mat4::identity() }
    }

    /// This pattern with `transform` in place of its own.
    pub fn set_transform(self, transform: Mat4) -> (p: Blended)
        ensures
            p.a == self.a,
            p.b == self.b,
            p.transform == transform,
    {
        Blended { a: self.a, b: self.b, transform }
    }

    pub open spec fn at_spec(&self, point: Point) -> Color
        decreases self,
    {
        self.a.at_spec(point).plus(self.b.at_spec(point)).scaled(half())
    }

    /// Half the sum of what the two patterns give at the point.
    #[verifier::when_used_as_spec(at_spec)]
    pub fn at(&self, point: Point) -> (c: Color)
        ensures
            c == self.at_spec(point),
        decreases self,
    {
        let color_a = self.a.at(point);
        let color_b = self.b.at(point);
        (color_a + color_b) * Scalar::from_raw(500_000_000)
    }
}

} // verus!
