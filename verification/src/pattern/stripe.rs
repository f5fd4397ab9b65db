//! Stripes.

use crate::color::Color;
use crate::mat4::identity4;
use crate::mat4::Mat4;
use crate::point::Point;
use crate::pattern::is_even;
use crate::pattern::solid::Solid;
use crate::pattern::Pattern;
use vstd::prelude::*;

verus! {

/// Whether `point` lies in a band of the first colour: the largest whole
/// number not above its x is even.
pub open spec fn in_first_band(point: Point) -> bool {
    point.x.floor_int() % 2 == 0
}

/// Bands of two colours that alternate along x.
pub struct Stripe {
    pub a: Color,
    pub b: Color,
    pub transform: Mat4,
}

impl Stripe {
    /// The pattern of the colours `a` and `b`, untransformed.
    pub fn new(a: Color, b: Color) -> (p: Stripe)
        ensures
            p.a == a,
            p.b == b,
            p.transform@ == identity4(),
    {
        Stripe { a, b, transform: Mat4::identity() }
    }

    /// This pattern with `transform` in place of its own.
    pub fn set_transform(self, transform: Mat4) -> (p: Stripe)
        ensures
            p.a == self.a,
            p.b == self.b,
            p.transform == transform,
    {
        Stripe { a: self.a, b: self.b, transform }
    }

    pub open spec fn at_spec(&self, point: Point) -> Color {
        if in_first_band(point) {
            self.a
        } else {
            self.b
        }
    }

    /// The first colour where the whole part of x is even, the second where
    /// it is odd.
    #[verifier::when_used_as_spec(at_spec)]
    pub fn at(&self, point: Point) -> (c: Color)
        ensures
            c == self.at_spec(point),
    {
        if is_even(point.x.floor_int()) {
            self.a
        } else {
            self.b
        }
    }
}

impl Default for Stripe {
    /// White and black, untransformed.
    fn default() -> (p: Stripe)
        ensures
            p.a == Color::white(),
            p.b == Color::black(),
            p.transform@ == identity4(),
    {
        Stripe { a: Color::white(), b: Color::black(), transform: Mat4::identity() }
    }
}

/// A stripe pattern does not depend on y or z: two points with the same x
/// get the same colour.
pub proof fn law_stripe_ignores_y_and_z(pattern: Stripe, p: Point, q: Point)
    requires
        p.x == q.x,
    ensures
        pattern.at(p) == pattern.at(q),
{
}

/// A stripe pattern changes at the whole numbers of x and nowhere else:
/// two points between the same two whole numbers get the same colour, and
/// from one unit to the next the two colours change places.
pub proof fn law_stripe_flips_at_whole_x(pattern: Stripe, p: Point, q: Point)
    ensures
        p.x.floor_int() == q.x.floor_int() ==> pattern.at(p) == pattern.at(q),
        q.x.floor_int() == p.x.floor_int() + 1 ==> (pattern.at(p) == pattern.a && pattern.at(q)
            == pattern.b) || (pattern.at(p) == pattern.b && pattern.at(q) == pattern.a),
{
}

/// Bands of two patterns that alternate along x.
pub struct StripeNested {
    pub a: Box<Pattern>,
    pub b: Box<Pattern>,
    pub transform: Mat4,
}

impl StripeNested {
    /// The pattern of the patterns `a` and `b`, untransformed.
    pub fn new(a: Pattern, b: Pattern) -> (p: StripeNested)
        ensures
            *p.a == a,
            *p.b == b,
            p.transform@ == identity4(),
    {
        StripeNested { a: Box::new(a), b: Box::new(b), transform: Mat4::identity() }
    }

    /// This pattern with `transform` in place of its own.
    pub fn set_transform(self, transform: Mat4) -> (p: StripeNested)
        ensures
            p.a == self.a,
            p.b == self.b,
            p.transform == transform,
    {
        StripeNested { a: self.a, b: self.b, transform }
    }

    pub open spec fn at_spec(&self, point: Point) -> Color
        decreases self,
    {
        if in_first_band(point) {
            self.a.at_spec(point)
        } else {
            self.b.at_spec(point)
        }
    }

    /// The first pattern where the whole part of x is even, the second where
    /// it is odd.
    #[verifier::when_used_as_spec(at_spec)]
    pub fn at(&self, point: Point) -> (c: Color)
        ensures
            c == self.at_spec(point),
        decreases self,
    {
        if is_even(point.x.floor_int()) {
            self.a.at(point)
        } else {
            self.b.at(point)
        }
    }
}

impl Default for StripeNested {
    /// Plain white and plain black, untransformed.
    fn default() -> (p: StripeNested)
        ensures
            *p.a == Pattern::Solid(Solid::new_spec(Color::white())),
            *p.b == Pattern::Solid(Solid::new_spec(Color::black())),
            p.transform@ == identity4(),
    {
        StripeNested {
            a: Box::new(Pattern::Solid(Solid::new(Color::white()))),
            b: Box::new(Pattern::Solid(Solid::new(Color::black()))),
            transform: Mat4::identity(),
        }
    }
}

} // verus!
