//! The light of a scene.

use crate::color::Color;
use crate::point::Point;
use vstd::prelude::*;

verus! {

/// A light without size that shines from `position` in every direction.
#[derive(Copy, Clone, Debug, PartialEq)]
pub struct Light {
    pub position: Point,
    pub intensity: Color,
}

} // verus!
