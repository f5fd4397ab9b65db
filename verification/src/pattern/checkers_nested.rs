//! Checkers of patterns.

use crate::color::Color;
use crate::mat4::identity4;
use crate::mat4::Mat4;
use crate::pattern::checkers::first_cube;
use crate::pattern::checkers::in_first_cube;
use crate::pattern::Pattern;
use crate::point::Point;
use vstd::prelude::*;

verus! {

/// Cubes of two patterns that alternate along every axis.
pub struct CheckersNested {
    pub a: Box<Pattern>,
    pub b: Box<Pattern>,
    pub transform: Mat4,
}

impl CheckersNested {
    /// The pattern of the patterns `a` and `b`, untransformed.
    pub fn new(a: Pattern, b: Pattern) -> (p: CheckersNested)
        ensures
            *p.a == a,
            *p.b == b,
            p.transform@ == identity4(),
    {
        CheckersNested { a: Box::new(a), b: Box::new(b), transform: Mat4::identity() }
    }

    /// This pattern with `transform` in place of its own.
    pub fn set_transform(self, transform: Mat4) -> (p: CheckersNested)
        ensures
            p.a == self.a,
            p.b == self.b,
            p.transform == transform,
    {
        CheckersNested { a: self.a, b: self.b, transform }
    }

    pub open spec fn at_spec(&self, point: Point) -> Color
        decreases self,
    {
        if in_first_cube(point) {
            self.a.at_spec(point)
        } else {
            self.b.at_spec(point)
        }
    }

    /// The first pattern where the whole parts of the coordinates sum to an
    /// even number, the second where the sum is odd.
    #[verifier::when_used_as_spec(at_spec)]
    pub fn at(&self, point: Point) -> (c: Color)
        ensures
            c == self.at_spec(point),
        decreases self,
    {
        if first_cube(point) {
            self.a.at(point)
        } else {
            self.b.at(point)
        }
    }
}

} // verus!
