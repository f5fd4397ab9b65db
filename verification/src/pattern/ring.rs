//! Rings.

use crate::color::Color;
use crate::mat4::identity4;
use crate::mat4::Mat4;
use crate::point::Point;
use crate::pattern::is_even;
use crate::pattern::solid::Solid;
use crate::pattern::Pattern;
use crate::scalar::Scalar;
use vstd::prelude::*;

verus! {

/// The distance of `point` from the y axis.
pub open spec fn radius(point: Point) -> Scalar {
    point.x.times(point.x).plus(point.z.times(point.z)).sqrt()
}

/// Whether `point` lies in a ring of the first colour: the largest whole
/// number not above its distance from the y axis is even.
pub open spec fn in_first_ring(point: Point) -> bool {
    radius(point).floor_int() % 2 == 0
}

/// The distance of `point` from the y axis.
pub fn radius_of(point: Point) -> (r: Scalar)
    ensures
        r == radius(point),
{
    (point.x * point.x + point.z * point.z).sqrt()
}

/// Rings of two colours around the y axis.
pub struct Ring {
    pub a: Color,
    pub b: Color,
    pub transform: Mat4,
}

impl Ring {
    /// The pattern of the colours `a` and `b`, untransformed.
    pub fn new(a: Color, b: Color) -> (p: Ring)
        ensures
            p.a == a,
            p.b == b,
            p.transform@ == identity4(),
    {
        Ring { a, b, transform: Mat4::identity() }
    }

    /// This pattern with `transform` in place of its own.
    pub fn set_transform(self, transform: Mat4) -> (p: Ring)
        ensures
            p.a == self.a,
            p.b == self.b,
            p.transform == transform,
    {
        Ring { a: self.a, b: self.b, transform }
    }

    pub open spec fn at_spec(&self, point: Point) -> Color {
        if in_first_ring(point) {
            self.a
        } else {
            self.b
        }
    }

    /// The first colour where the whole part of the distance from the y axis
    /// is even, the second where it is odd.
    #[verifier::when_used_as_spec(at_spec)]
    pub fn at(&self, point: Point) -> (c: Color)
        ensures
            c == self.at_spec(point),
    {
        if is_even(radius_of(point).floor_int()) {
            self.a
        } else {
            self.b
        }
    }
}

impl Default for Ring {
    /// White and black, untransformed.
    fn default() -> (p: Ring)
        ensures
            p.a == Color::white(),
            p.b == Color::black(),
            p.transform@ == identity4(),
    {
        Ring { a: Color::white(), b: Color::black(), transform: Mat4::identity() }
    }
}

/// Rings of two patterns around the y axis.
pub struct RingNested {
    pub a: Box<Pattern>,
    pub b: Box<Pattern>,
    pub transform: Mat4,
}

impl RingNested {
    /// The pattern of the patterns `a` and `b`, untransformed.
    pub fn new(a: Pattern, b: Pattern) -> (p: RingNested)
        ensures
            *p.a == a,
            *p.b == b,
            p.transform@ == identity4(),
    {
        RingNested { a: Box::new(a), b: Box::new(b), transform: Mat4::identity() }
    }

    /// This pattern with `transform` in place of its own.
    pub fn set_transform(self, transform: Mat4) -> (p: RingNested)
        ensures
            p.a == self.a,
            p.b == self.b,
            p.transform == transform,
    {
        RingNested { a: self.a, b: self.b, transform }
    }

    pub open spec fn at_spec(&self, point: Point) -> Color
        decreases self,
    {
        if in_first_ring(point) {
            self.a.at_spec(point)
        } else {
            self.b.at_spec(point)
        }
    }

    /// The first pattern where the whole part of the distance from the y axis
    /// is even, the second where it is odd.
    #[verifier::when_used_as_spec(at_spec)]
    pub fn at(&self, point: Point) -> (c: Color)
        ensures
            c == self.at_spec(point),
        decreases self,
    {
        if is_even(radius_of(point).floor_int()) {
            self.a.at(point)
        } else {
            self.b.at(point)
        }
    }
}

impl Default for RingNested {
    /// Plain white and plain black, untransformed.
    fn default() -> (p: RingNested)
        ensures
            *p.a == Pattern::Solid(Solid::new_spec(Color::white())),
            *p.b == Pattern::Solid(Solid::new_spec(Color::black())),
            p.transform@ == identity4(),
    {
        RingNested {
            a: Box::new(Pattern::Solid(Solid::new(Color::white()))),
            b: Box::new(Pattern::Solid(Solid::new(Color::black()))),
            transform: Mat4::identity(),
        }
    }
}

} // verus!
