//! Radial gradients.

use crate::color::Color;
use crate::mat4::identity4;
use crate::mat4::Mat4;
use crate::point::Point;
use crate::pattern::gradient::fraction;
use crate::pattern::gradient::fraction_of;
use crate::pattern::ring::radius;
use crate::pattern::ring::radius_of;
use crate::pattern::solid::Solid;
use crate::pattern::Pattern;
use vstd::prelude::*;

verus! {

/// A blend from one colour to another away from the y axis, repeated in every
/// unit.
pub struct RadialGradient {
    pub a: Color,
    pub b: Color,
    pub transform: Mat4,
}

impl RadialGradient {
    /// The pattern of the colours `a` and `b`, untransformed.
    pub fn new(a: Color, b: Color) -> (p: RadialGradient)
        ensures
            p.a == a,
            p.b == b,
            p.transform@ == identity4(),
    {
        RadialGradient { a, b, transform: Mat4::identity() }
    }

    /// This pattern with `transform` in place of its own.
    pub fn set_transform(self, transform: Mat4) -> (p: RadialGradient)
        ensures
            p.a == self.a,
            p.b == self.b,
            p.transform == transform,
    {
        RadialGradient { a: self.a, b: self.b, transform }
    }

    pub open spec fn at_spec(&self, point: Point) -> Color {
        self.a.plus(self.b.minus(self.a).scaled(fraction(radius(point))))
    }

    /// The first colour, moved towards the second by the fractional part of
    /// the distance from the y axis.
    #[verifier::when_used_as_spec(at_spec)]
    pub fn at(&self, point: Point) -> (c: Color)
        ensures
            c == self.at_spec(point),
    {
        let distance = self.b - self.a;
        let fraction = fraction_of(radius_of(point));
        self.a + distance * fraction
    }
}

impl Default for RadialGradient {
    /// White and black, untransformed.
    fn default() -> (p: RadialGradient)
        ensures
            p.a == Color::white(),
            p.b == Color::black(),
            p.transform@ == identity4(),
    {
        RadialGradient { a: Color::white(), b: Color::black(), transform: Mat4::identity() }
    }
}

/// A blend from one pattern to another away from the y axis, repeated in
/// every unit.
pub struct RadialGradientNested {
    pub a: Box<Pattern>,
    pub b: Box<Pattern>,
    pub transform: Mat4,
}

impl RadialGradientNested {
    /// The pattern of the patterns `a` and `b`, untransformed.
    pub fn new(a: Pattern, b: Pattern) -> (p: RadialGradientNested)
        ensures
            *p.a == a,
            *p.b == b,
            p.transform@ == identity4(),
    {
        RadialGradientNested { a: Box::new(a), b: Box::new(b), transform: Mat4::identity() }
    }

    /// This pattern with `transform` in place of its own.
    pub fn set_transform(self, transform: Mat4) -> (p: RadialGradientNested)
        ensures
            p.a == self.a,
            p.b == self.b,
            p.transform == transform,
    {
        RadialGradientNested { a: self.a, b: self.b, transform }
    }

    pub open spec fn at_spec(&self, point: Point) -> Color
        decreases self,
    {
        self.a.at_spec(point).plus(
            self.b.at_spec(point).minus(self.a.at_spec(point)).scaled(fraction(radius(point))),
        )
    }

    /// The first pattern, moved towards the second by the fractional part of
    /// the distance from the y axis.
    #[verifier::when_used_as_spec(at_spec)]
    pub fn at(&self, point: Point) -> (c: Color)
        ensures
            c == self.at_spec(point),
        decreases self,
    {
        let distance = self.b.at(point) - self.a.at(point);
        let fraction = fraction_of(radius_of(point));
        self.a.at(point) + distance * fraction
    }
}

impl Default for RadialGradientNested {
    /// Plain white and plain black, untransformed.
    fn default() -> (p: RadialGradientNested)
        ensures
            *p.a == Pattern::Solid(Solid::new_spec(Color::white())),
            *p.b == Pattern::Solid(Solid::new_spec(Color::black())),
            p.transform@ == identity4(),
    {
        RadialGradientNested {
            a: Box::new(Pattern::Solid(Solid::new(Color::white()))),
            b: Box::new(Pattern::Solid(Solid::new(Color::black()))),
            transform: Mat4::identity(),
        }
    }
}

} // verus!
