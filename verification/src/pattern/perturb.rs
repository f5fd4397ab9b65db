//! A pattern read at points that noise has moved.

use crate::color::Color;
use crate::mat4::identity4;
use crate::mat4::Mat4;
use crate::pattern::Pattern;
use crate::point::Point;
use crate::scalar::Scalar;
use crate::scalar::SCALE;
use vstd::prelude::*;

verus! {

/// A source of smooth noise: one number between minus one and one for every
/// point of space, the same number each time the point is asked for. What
/// is proved of a perturbed pattern holds of sources that keep to this.
pub trait Noise {
    /// The noise at the point `x`, `y`, `z`.
    spec fn value(&self, x: Scalar, y: Scalar, z: Scalar) -> Scalar;

    /// Computes the noise at the point `x`, `y`, `z`.
    fn noise3(&self, x: Scalar, y: Scalar, z: Scalar) -> (n: Scalar)
        ensures
            n == self.value(x, y, z),
            -SCALE <= n@ <= SCALE,
    ;
}

/// The number between minus one and one that is nearest to `level`.
pub open spec fn leveled(level: Scalar) -> Scalar {
    if level@ > SCALE {
        Scalar::one()
    } else if level@ < -SCALE {
        Scalar { raw: (-SCALE) as i64 }
    } else {
        level
    }
}

/// Noise that is the same number everywhere: `level`, or the nearest of
/// minus one and one where `level` lies beyond them.
pub struct Flat {
    pub level: Scalar,
}

impl Noise for Flat {
    open spec fn value(&self, x: Scalar, y: Scalar, z: Scalar) -> Scalar {
        leveled(self.level)
    }

    fn noise3(&self, x: Scalar, y: Scalar, z: Scalar) -> (n: Scalar) {
        if self.level.raw > SCALE {
            Scalar::one()
        } else if self.level.raw < -SCALE {
            Scalar::from_raw(-SCALE)
        } else {
            self.level
        }
    }
}

/// The share of the noise by which a point is moved: two tenths.
pub open spec fn reach() -> Scalar {
    Scalar { raw: 200_000_000 }
}

/// The point `point` moved along every axis by `noise` times `reach()`.
pub open spec fn displaced(point: Point, noise: Scalar) -> Point {
    Point {
        x: point.x.plus(noise.times(reach())),
        y: point.y.plus(noise.times(reach())),
        z: point.z.plus(noise.times(reach())),
    }
}

/// The point `point` moved along every axis by two tenths of `noise`.
pub fn displace(point: Point, noise: Scalar) -> (p: Point)
    ensures
        p == displaced(point, noise),
{
    let reach = Scalar::from_raw(200_000_000);
    Point { x: point.x + noise * reach, y: point.y + noise * reach, z: point.z + noise * reach }
}

/// The noise that a pattern reads its points through.
pub struct NoiseSource {
    pub noise: Box<dyn Noise>,
}

/// A pattern whose points are moved by noise before it is read.
pub struct Perturb {
    pub pattern: Box<Pattern>,
    pub transform: Mat4,
    pub source: NoiseSource,
}

impl Perturb {
    /// `pattern` read through the noise of `source`, untransformed.
    pub fn new(pattern: Pattern, source: NoiseSource) -> (p: Perturb)
        ensures
            *p.pattern == pattern,
            p.source == source,
            p.transform@ == identity4(),
    {
        Perturb { pattern: Box::new(pattern), transform: Mat4::identity(), source }
    }

    /// This pattern with `transform` in place of its own.
    pub fn set_transform(self, transform: Mat4) -> (p: Perturb)
        ensures
            p.pattern == self.pattern,
            p.source == self.source,
            p.transform == transform,
    {
        Perturb { pattern: self.pattern, transform, source: self.source }
    }

    pub open spec fn at_spec(&self, point: Point) -> Color
        decreases self,
    {
        self.pattern.at_spec(displaced(point, self.source.noise.value(point.x, point.y, point.z)))
    }

    /// What the wrapped pattern gives at the point that the noise moves
    /// `point` to.
    #[verifier::when_used_as_spec(at_spec)]
    pub fn at(&self, point: Point) -> (c: Color)
        ensures
            c == self.at_spec(point),
        decreases self,
    {
        let noise = self.source.noise.noise3(point.x, point.y, point.z);
        self.pattern.at(displace(point, noise))
    }
}

} // verus!
