//! One colour everywhere.

use crate::color::Color;
use crate::mat4::identity4;
use crate::mat4::Mat4;
use crate::point::Point;
use vstd::prelude::*;

verus! {

/// The same colour at every point.
pub struct Solid {
    pub a: Color,
    pub transform: Mat4,
}

impl Solid {
    pub open spec fn new_spec(a: Color) -> Solid {
        Solid { a, transform: crate::mat4::of_cells(identity4()) }
    }

    /// The pattern of the colour `a`, untransformed.
    #[verifier::when_used_as_spec(new_spec)]
    pub fn new(a: Color) -> (p: Solid)
        ensures
            p == Solid::new_spec(a),
            p.a == a,
            p.transform@ == identity4(),
    {
        let p = Solid { a, transform: Mat4::identity() };
        assert(p.transform.elements =~= crate::mat4::of_cells(identity4()).elements);
        p
    }

    /// This pattern with `transform` in place of its own.
    pub fn set_transform(self, transform: Mat4) -> (p: Solid)
        ensures
            p.a == self.a,
            p.transform == transform,
    {
        Solid { a: self.a, transform }
    }

    pub open spec fn at_spec(&self, point: Point) -> Color {
        self.a
    }

    /// The colour, whatever the point.
    #[verifier::when_used_as_spec(at_spec)]
    pub fn at(&self, point: Point) -> (c: Color)
        ensures
            c == self.at_spec(point),
    {
        self.a
    }
}

impl Default for Solid {
    /// White, untransformed.
    fn default() -> (p: Solid)
        ensures
            p.a == Color::white(),
            p.transform@ == identity4(),
    {
        Solid { a: Color::white(), transform: Mat4::identity() }
    }
}

} // verus!
