//! Patterns: colour as a function of the point in space.

use crate::color::Color;
use crate::error::MatrixError;
use crate::mat4::inverse4;
use crate::mat4::inverse_error;
use crate::mat4::invertible;
use crate::mat4::point_image;
use crate::mat4::Mat4;
use crate::pattern::blended::Blended;
use crate::pattern::checkers::Checkers;
use crate::pattern::checkers_nested::CheckersNested;
use crate::pattern::gradient::Gradient;
use crate::pattern::gradient::GradientNested;
use crate::pattern::perturb::Perturb;
use crate::pattern::radial_gradient::RadialGradient;
use crate::pattern::radial_gradient::RadialGradientNested;
use crate::pattern::ring::Ring;
use crate::pattern::ring::RingNested;
use crate::pattern::solid::Solid;
use crate::pattern::stripe::Stripe;
use crate::pattern::stripe::StripeNested;
use crate::point::Point;
use crate::scalar::Scalar;
use crate::shape::Shape;
use vstd::prelude::*;

pub mod blended;
pub mod checkers;
pub mod checkers_nested;
pub mod gradient;
pub mod perturb;
pub mod radial_gradient;
pub mod ring;
pub mod solid;
pub mod stripe;

verus! {

/// Whether the whole number `n` is even.
pub fn is_even(n: i64) -> (b: bool)
    ensures
        b == (n % 2 == 0),
{
    if n >= 0 {
        (n as u64) % 2 == 0
    } else {
        let m: u64 = (-(n as i128)) as u64;
        m % 2 == 0
    }
}

/// A pattern that gives each point its own coordinates as its colour.
pub struct TestPattern {
    pub transform: Mat4,
}

impl TestPattern {
    pub open spec fn at_spec(&self, point: Point) -> Color {
        Color { red: point.x, green: point.y, blue: point.z }
    }

    /// The colour whose channels are the coordinates of `point`.
    #[verifier::when_used_as_spec(at_spec)]
    pub fn at(&self, point: Point) -> (c: Color)
        ensures
            c == self.at_spec(point),
    {
        Color { red: point.x, green: point.y, blue: point.z }
    }
}

/// Any of the patterns of this library.
pub enum Pattern {
    Solid(Solid),
    Stripe(Stripe),
    StripeNested(StripeNested),
    Ring(Ring),
    RingNested(RingNested),
    Checkers(Checkers),
    CheckersNested(CheckersNested),
    Gradient(Gradient),
    GradientNested(GradientNested),
    RadialGradient(RadialGradient),
    RadialGradientNested(RadialGradientNested),
    Blended(Blended),
    Perturb(Perturb),
    Test(TestPattern),
}

impl Pattern {
    pub open spec fn at_spec(&self, point: Point) -> Color
        decreases self,
    {
        match self {
            Pattern::Solid(p) => p.at_spec(point),
            Pattern::Stripe(p) => p.at_spec(point),
            Pattern::StripeNested(p) => p.at_spec(point),
            Pattern::Ring(p) => p.at_spec(point),
            Pattern::RingNested(p) => p.at_spec(point),
            Pattern::Checkers(p) => p.at_spec(point),
            Pattern::CheckersNested(p) => p.at_spec(point),
            Pattern::Gradient(p) => p.at_spec(point),
            Pattern::GradientNested(p) => p.at_spec(point),
            Pattern::RadialGradient(p) => p.at_spec(point),
            Pattern::RadialGradientNested(p) => p.at_spec(point),
            Pattern::Blended(p) => p.at_spec(point),
            Pattern::Perturb(p) => p.at_spec(point),
            Pattern::Test(p) => p.at_spec(point),
        }
    }

    /// The colour at `point`, a point in the pattern's own space.
    #[verifier::when_used_as_spec(at_spec)]
    pub fn at(&self, point: Point) -> (c: Color)
        ensures
            c == self.at_spec(point),
        decreases self,
    {
        match self {
            Pattern::Solid(p) => p.at(point),
            Pattern::Stripe(p) => p.at(point),
            Pattern::StripeNested(p) => p.at(point),
            Pattern::Ring(p) => p.at(point),
            Pattern::RingNested(p) => p.at(point),
            Pattern::Checkers(p) => p.at(point),
            Pattern::CheckersNested(p) => p.at(point),
            Pattern::Gradient(p) => p.at(point),
            Pattern::GradientNested(p) => p.at(point),
            Pattern::RadialGradient(p) => p.at(point),
            Pattern::RadialGradientNested(p) => p.at(point),
            Pattern::Blended(p) => p.at(point),
            Pattern::Perturb(p) => p.at(point),
            Pattern::Test(p) => p.at(point),
        }
    }

    pub open spec fn transform_spec(&self) -> &Mat4 {
        match self {
            Pattern::Solid(p) => &p.transform,
            Pattern::Stripe(p) => &p.transform,
            Pattern::StripeNested(p) => &p.transform,
            Pattern::Ring(p) => &p.transform,
            Pattern::RingNested(p) => &p.transform,
            Pattern::Checkers(p) => &p.transform,
            Pattern::CheckersNested(p) => &p.transform,
            Pattern::Gradient(p) => &p.transform,
            Pattern::GradientNested(p) => &p.transform,
            Pattern::RadialGradient(p) => &p.transform,
            Pattern::RadialGradientNested(p) => &p.transform,
            Pattern::Blended(p) => &p.transform,
            Pattern::Perturb(p) => &p.transform,
            Pattern::Test(p) => &p.transform,
        }
    }

    /// The transform from the pattern's own space to the space of the shape
    /// that wears it.
    #[verifier::when_used_as_spec(transform_spec)]
    pub fn transform(&self) -> (m: &Mat4)
        ensures
            m == self.transform_spec(),
    {
        match self {
            Pattern::Solid(p) => &p.transform,
            Pattern::Stripe(p) => &p.transform,
            Pattern::StripeNested(p) => &p.transform,
            Pattern::Ring(p) => &p.transform,
            Pattern::RingNested(p) => &p.transform,
            Pattern::Checkers(p) => &p.transform,
            Pattern::CheckersNested(p) => &p.transform,
            Pattern::Gradient(p) => &p.transform,
            Pattern::GradientNested(p) => &p.transform,
            Pattern::RadialGradient(p) => &p.transform,
            Pattern::RadialGradientNested(p) => &p.transform,
            Pattern::Blended(p) => &p.transform,
            Pattern::Perturb(p) => &p.transform,
            Pattern::Test(p) => &p.transform,
        }
    }

    /// The colour at the world point `world_point` of a pattern worn by a
    /// shape whose transform has the cells `object`: the point is taken
    /// into the shape's space, then into the pattern's. There is none where
    /// either transform has no inverse.
    pub open spec fn at_object_spec(&self, object: Seq<Scalar>, world_point: Point) -> Result<
        Color,
        MatrixError,
    > {
        if !invertible(object) {
            Err(inverse_error(object))
        } else if !invertible(self.transform()@) {
            Err(inverse_error(self.transform()@))
        } else {
            Ok(
                self.at_spec(
                    point_image(
                        inverse4(self.transform()@),
                        point_image(inverse4(object), world_point),
                    ),
                ),
            )
        }
    }

    /// The colour at the world point `world_point` of this pattern as
    /// `object` wears it.
    pub fn at_object(&self, object: &Shape, world_point: Point) -> (r: Result<Color, MatrixError>)
        ensures
            r == self.at_object_spec(object.transform()@, world_point),
    {
        let object_inverse = match object.transform().inverse() {
            Ok(m) => m,
            Err(e) => {
                return Err(e);
            },
        };
        let object_point = object_inverse * world_point;
        let pattern_inverse = match self.transform().inverse() {
            Ok(m) => m,
            Err(e) => {
                return Err(e);
            },
        };
        let pattern_point = pattern_inverse * object_point;
        Ok(self.at(pattern_point))
    }
}

} // verus!
