//! Linear gradients.

use crate::color::Color;
use crate::mat4::identity4;
use crate::mat4::Mat4;
use crate::point::Point;
use crate::pattern::solid::Solid;
use crate::pattern::Pattern;
use crate::scalar::Scalar;
use vstd::prelude::*;

verus! {

/// How far `value` lies above the largest whole number not above it.
pub open spec fn fraction(value: Scalar) -> Scalar {
    value.minus(value.floor())
}

/// How far `value` lies above the largest whole number not above it.
pub fn fraction_of(value: Scalar) -> (f: Scalar)
    ensures
        f == fraction(value),
{
    value - value.floor()
}

/// A blend from one colour to another along x, repeated in every unit.
pub struct Gradient {
    pub a: Color,
    pub b: Color,
    pub transform: Mat4,
}

impl Gradient {
    /// The pattern of the colours `a` and `b`, untransformed.
    pub fn new(a: Color, b: Color) -> (p: Gradient)
        ensures
            p.a == a,
            p.b == b,
            p.transform@ == identity4(),
    {
        Gradient { a, b, transform: Mat4::identity() }
    }

    /// This pattern with `transform` in place of its own.
    pub fn set_transform(self, transform: Mat4) -> (p: Gradient)
        ensures
            p.a == self.a,
            p.b == self.b,
            p.transform == transform,
    {
        Gradient { a: self.a, b: self.b, transform }
    }

    pub open spec fn at_spec(&self, point: Point) -> Color {
        self.a.plus(self.b.minus(self.a).scaled(fraction(point.x)))
    }

    /// The first colour, moved towards the second by the fractional part of x.
    #[verifier::when_used_as_spec(at_spec)]
    pub fn at(&self, point: Point) -> (c: Color)
        ensures
            c == self.at_spec(point),
    {
        let distance = self.b - self.a;
        let fraction = fraction_of(point.x);
        self.a + distance * fraction
    }
}

impl Default for Gradient {
    /// White and black, untransformed.
    fn default() -> (p: Gradient)
        ensures
            p.a == Color::white(),
            p.b == Color::black(),
            p.transform@ == identity4(),
    {
        Gradient { a: Color::white(), b: Color::black(), transform: Mat4::identity() }
    }
}

/// A blend from one pattern to another along x, repeated in every unit.
pub struct GradientNested {
    pub a: Box<Pattern>,
    pub b: Box<Pattern>,
    pub transform: Mat4,
}

impl GradientNested {
    /// The pattern of the patterns `a` and `b`, untransformed.
    pub fn new(a: Pattern, b: Pattern) -> (p: GradientNested)
        ensures
            *p.a == a,
            *p.b == b,
            p.transform@ == identity4(),
    {
        GradientNested { a: Box::new(a), b: Box::new(b), transform: Mat4::identity() }
    }

    /// This pattern with `transform` in place of its own.
    pub fn set_transform(self, transform: Mat4) -> (p: GradientNested)
        ensures
            p.a == self.a,
            p.b == self.b,
            p.transform == transform,
    {
        GradientNested { a: self.a, b: self.b, transform }
    }

    pub open spec fn at_spec(&self, point: Point) -> Color
        decreases self,
    {
        self.a.at_spec(point).plus(
            self.b.at_spec(point).minus(self.a.at_spec(point)).scaled(fraction(point.x)),
        )
    }

    /// The first pattern, moved towards the second by the fractional part of x.
    #[verifier::when_used_as_spec(at_spec)]
    pub fn at(&self, point: Point) -> (c: Color)
        ensures
            c == self.at_spec(point),
        decreases self,
    {
        let distance = self.b.at(point) - self.a.at(point);
        let fraction = fraction_of(point.x);
        self.a.at(point) + distance * fraction
    }
}

impl Default for GradientNested {
    /// Plain white and plain black, untransformed.
    fn default() -> (p: GradientNested)
        ensures
            *p.a == Pattern::Solid(Solid::new_spec(Color::white())),
            *p.b == Pattern::Solid(Solid::new_spec(Color::black())),
            p.transform@ == identity4(),
    {
        GradientNested {
            a: Box::new(Pattern::Solid(Solid::new(Color::white()))),
            b: Box::new(Pattern::Solid(Solid::new(Color::black()))),
            transform: Mat4::identity(),
        }
    }
}

} // verus!
