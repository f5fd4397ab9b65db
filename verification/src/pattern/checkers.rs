//! Checkers.

use crate::color::Color;
use crate::mat4::identity4;
use crate::mat4::Mat4;
use crate::point::Point;
use crate::pattern::is_even;
use vstd::prelude::*;

verus! {

/// Whether `point` lies in a cube of the first colour: the whole parts of
/// its three coordinates sum to an even number.
pub open spec fn in_first_cube(point: Point) -> bool {
    (point.x.floor_int() + point.y.floor_int() + point.z.floor_int()) % 2 == 0
}

/// Whether `point` lies in a cube of the first colour.
pub fn first_cube(point: Point) -> (b: bool)
    ensures
        b == in_first_cube(point),
{
    let x: i64 = point.x.floor_int();
    let y: i64 = point.y.floor_int();
    let z: i64 = point.z.floor_int();
    is_even(x + y + z)
}

/// Cubes of two colours that alternate along every axis.
pub struct Checkers {
    pub a: Color,
    pub b: Color,
    pub transform: Mat4,
}

impl Checkers {
    /// The pattern of the colours `a` and `b`, untransformed.
    pub fn new(a: Color, b: Color) -> (p: Checkers)
        ensures
            p.a == a,
            p.b == b,
            p.transform@ == identity4(),
    {
        Checkers { a, b, transform: Mat4::identity() }
    }

    /// This pattern with `transform` in place of its own.
    pub fn set_transform(self, transform: Mat4) -> (p: Checkers)
        ensures
            p.a == self.a,
            p.b == self.b,
            p.transform == transform,
    {
        Checkers { a: self.a, b: self.b, transform }
    }

    pub open spec fn at_spec(&self, point: Point) -> Color {
        if in_first_cube(point) {
            self.a
        } else {
            self.b
        }
    }

    /// The first colour where the whole parts of the coordinates sum to an
    /// even number, the second where the sum is odd.
    #[verifier::when_used_as_spec(at_spec)]
    pub fn at(&self, point: Point) -> (c: Color)
        ensures
            c == self.at_spec(point),
    {
        if first_cube(point) {
            self.a
        } else {
            self.b
        }
    }
}

impl Default for Checkers {
    /// White and black, untransformed.
    fn default() -> (p: Checkers)
        ensures
            p.a == Color::white(),
            p.b == Color::black(),
            p.transform@ == identity4(),
    {
        Checkers { a: Color::white(), b: Color::black(), transform: Mat4::identity() }
    }
}

/// A checkers pattern changes where a coordinate passes a whole number and
/// nowhere else: two points whose coordinates have the same whole parts get
/// the same colour, and where one whole part differs by one and the others
/// agree, the two colours change places.
pub proof fn law_checkers_flip_at_whole_numbers(pattern: Checkers, p: Point, q: Point)
    ensures
        p.x.floor_int() == q.x.floor_int() && p.y.floor_int() == q.y.floor_int()
            && p.z.floor_int() == q.z.floor_int() ==> pattern.at(p) == pattern.at(q),
        (p.x.floor_int() + p.y.floor_int() + p.z.floor_int()) + 1 == q.x.floor_int()
            + q.y.floor_int() + q.z.floor_int() ==> (pattern.at(p) == pattern.a && pattern.at(q)
            == pattern.b) || (pattern.at(p) == pattern.b && pattern.at(q) == pattern.a),
{
}

} // verus!
