//! Colours as three channels of light.

use crate::scalar::is_equal;
use crate::scalar::Scalar;
use vstd::prelude::*;

verus! {

/// An amount of red, green and blue light; one is full intensity.
#[derive(Debug, Copy, Clone)]
pub struct Color {
    pub red: Scalar,
    pub green: Scalar,
    pub blue: Scalar,
}

impl Color {
    pub open spec fn black_spec() -> Color {
        Color { red: Scalar::zero(), green: Scalar::zero(), blue: Scalar::zero() }
    }

    /// No light at all.
    #[verifier::when_used_as_spec(black_spec)]
    pub fn black() -> (c: Color)
        ensures
            c == Color::black_spec(),
    {
        Color { red: Scalar::zero(), green: Scalar::zero(), blue: Scalar::zero() }
    }

    pub open spec fn white_spec() -> Color {
        Color { red: Scalar::one(), green: Scalar::one(), blue: Scalar::one() }
    }

    /// Every channel at full intensity.
    #[verifier::when_used_as_spec(white_spec)]
    pub fn white() -> (c: Color)
        ensures
            c == Color::white_spec(),
    {
        Color { red: Scalar::one(), green: Scalar::one(), blue: Scalar::one() }
    }

    /// The channel-wise sum.
    pub open spec fn plus(self, rhs: Color) -> Color {
        Color {
            red: self.red.plus(rhs.red),
            green: self.green.plus(rhs.green),
            blue: self.blue.plus(rhs.blue),
        }
    }

    /// The channel-wise difference.
    pub open spec fn minus(self, rhs: Color) -> Color {
        Color {
            red: self.red.minus(rhs.red),
            green: self.green.minus(rhs.green),
            blue: self.blue.minus(rhs.blue),
        }
    }

    /// The channel-wise product.
    pub open spec fn blended(self, rhs: Color) -> Color {
        Color {
            red: self.red.times(rhs.red),
            green: self.green.times(rhs.green),
            blue: self.blue.times(rhs.blue),
        }
    }

    /// Every channel multiplied by `scalar`.
    pub open spec fn scaled(self, scalar: Scalar) -> Color {
        Color {
            red: self.red.times(scalar),
            green: self.green.times(scalar),
            blue: self.blue.times(scalar),
        }
    }

    /// Whether every channel differs from its counterpart by less than the
    /// tolerance.
    pub open spec fn approx(self, other: Color) -> bool {
        is_equal(self.red, other.red) && is_equal(self.green, other.green) && is_equal(
            self.blue,
            other.blue,
        )
    }

    pub open spec fn new_spec(red: Scalar, green: Scalar, blue: Scalar) -> Color {
        Color { red, green, blue }
    }

    /// The colour of the three amounts of light.
    #[verifier::when_used_as_spec(new_spec)]
    pub fn new(red: Scalar, green: Scalar, blue: Scalar) -> (c: Color)
        ensures
            c == Color::new_spec(red, green, blue),
    {
        Color { red, green, blue }
    }
}

impl PartialEq for Color {
    fn eq(&self, other: &Color) -> (r: bool) {
        is_equal(self.red, other.red) && is_equal(self.green, other.green) && is_equal(
            self.blue,
            other.blue,
        )
    }
}

impl vstd::std_specs::cmp::PartialEqSpecImpl for Color {
    open spec fn obeys_eq_spec() -> bool {
        true
    }

    open spec fn eq_spec(&self, other: &Color) -> bool {
        self.approx(*other)
    }
}

impl core::ops::Add for Color {
    type Output = Color;

    fn add(self, rhs: Color) -> (r: Color) {
        Color {
            red: self.red + rhs.red,
            green: self.green + rhs.green,
            blue: self.blue + rhs.blue,
        }
    }
}

impl vstd::std_specs::ops::AddSpecImpl for Color {
    open spec fn obeys_add_spec() -> bool {
        true
    }

    open spec fn add_req(self, rhs: Color) -> bool {
        true
    }

    open spec fn add_spec(self, rhs: Color) -> Color {
        self.plus(rhs)
    }
}

impl core::ops::Sub for Color {
    type Output = Color;

    fn sub(self, rhs: Color) -> (r: Color) {
        Color {
            red: self.red - rhs.red,
            green: self.green - rhs.green,
            blue: self.blue - rhs.blue,
        }
    }
}

impl vstd::std_specs::ops::SubSpecImpl for Color {
    open spec fn obeys_sub_spec() -> bool {
        true
    }

    open spec fn sub_req(self, rhs: Color) -> bool {
        true
    }

    open spec fn sub_spec(self, rhs: Color) -> Color {
        self.minus(rhs)
    }
}

impl core::ops::Mul for Color {
    type Output = Color;

    fn mul(self, rhs: Color) -> (r: Color) {
        Color {
            red: self.red * rhs.red,
            green: self.green * rhs.green,
            blue: self.blue * rhs.blue,
        }
    }
}

impl vstd::std_specs::ops::MulSpecImpl for Color {
    open spec fn obeys_mul_spec() -> bool {
        true
    }

    open spec fn mul_req(self, rhs: Color) -> bool {
        true
    }

    open spec fn mul_spec(self, rhs: Color) -> Color {
        self.blended(rhs)
    }
}

impl core::ops::Mul<Scalar> for Color {
    type Output = Color;

    fn mul(self, scalar: Scalar) -> (r: Color) {
        Color { red: self.red * scalar, green: self.green * scalar, blue: self.blue * scalar }
    }
}

impl vstd::std_specs::ops::MulSpecImpl<Scalar> for Color {
    open spec fn obeys_mul_spec() -> bool {
        true
    }

    open spec fn mul_req(self, scalar: Scalar) -> bool {
        true
    }

    open spec fn mul_spec(self, scalar: Scalar) -> Color {
        self.scaled(scalar)
    }
}

} // verus!
