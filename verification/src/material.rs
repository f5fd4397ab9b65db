//! Materials and the light they send back.

use crate::color::Color;
use crate::error::MatrixError;
use crate::light::Light;
use crate::pattern::Pattern;
use crate::point::Point;
use crate::scalar::is_equal;
use crate::scalar::power;
use crate::scalar::Scalar;
use crate::shape::Shape;
use crate::vector::Vector;
use core::ops::Neg;
use vstd::prelude::*;

verus! {

/// How a surface answers light.
pub struct Material {
    /// The pattern that colours the surface, if any; `color` otherwise.
    pub pattern: Option<Pattern>,
    pub color: Color,
    pub ambient: Scalar,
    pub diffuse: Scalar,
    pub specular: Scalar,
    /// The power to which the highlight is raised.
    pub shininess: u32,
}

/// The light that a surface sends to the eye, given the colour `base` of
/// the surface at the point: the ambient share, and, unless the point lies
/// in shadow or the light stands behind the surface, the diffuse share and
/// the highlight.
#[verifier::opaque]
pub open spec fn lit(
    base: Color,
    material: &Material,
    light: Light,
    point: Point,
    eye: Vector,
    normal: Vector,
    in_shadow: bool,
) -> Color {
    let effective = base.blended(light.intensity);
    let light_vector = light.position.from(point).normalize();
    let ambient = effective.scaled(material.ambient);
    let light_dot_normal = light_vector.dot(normal);
    if light_dot_normal@ < 0 || in_shadow {
        ambient
    } else {
        let diffuse = effective.scaled(material.diffuse).scaled(light_dot_normal);
        let reflect_dot_eye = light_vector.negated().reflect(normal).dot(eye);
        if reflect_dot_eye@ < 0 || is_equal(reflect_dot_eye, Scalar::zero()) {
            ambient.plus(diffuse)
        } else {
            let factor = power(reflect_dot_eye, material.shininess as nat);
            ambient.plus(diffuse).plus(light.intensity.scaled(material.specular).scaled(factor))
        }
    }
}

impl Material {
    pub open spec fn new_spec() -> Material {
        Material {
            pattern: None,
            color: Color::white(),
            ambient: Scalar { raw: 100_000_000 },
            diffuse: Scalar { raw: 900_000_000 },
            specular: Scalar { raw: 900_000_000 },
            shininess: 200,
        }
    }

    /// This material with `pattern` on the surface.
    pub open spec fn with_pattern(self, pattern: Pattern) -> Material {
        Material {
            pattern: Some(pattern),
            color: self.color,
            ambient: self.ambient,
            diffuse: self.diffuse,
            specular: self.specular,
            shininess: self.shininess,
        }
    }

    /// A white surface without pattern: ambient 0.1, diffuse 0.9, specular
    /// 0.9, shininess 200.
    #[verifier::when_used_as_spec(new_spec)]
    pub fn new() -> (m: Material)
        ensures
            m == Material::new_spec(),
    {
        Material {
            pattern: None,
            color: Color::white(),
            ambient: Scalar::from_raw(100_000_000),
            diffuse: Scalar::from_raw(900_000_000),
            specular: Scalar::from_raw(900_000_000),
            shininess: 200,
        }
    }

    /// The colour of the surface at `point` before any light: what the
    /// pattern gives there, or the plain colour where there is no pattern.
    pub open spec fn base_spec(&self, object: Seq<Scalar>, point: Point) -> Result<
        Color,
        MatrixError,
    > {
        match self.pattern {
            Some(pattern) => pattern.at_object_spec(object, point),
            None => Ok(self.color),
        }
    }

    pub open spec fn lighting_spec(
        &self,
        object: Seq<Scalar>,
        light: Light,
        point: Point,
        eye: Vector,
        normal: Vector,
        in_shadow: bool,
    ) -> Result<Color, MatrixError> {
        match self.base_spec(object, point) {
            Ok(base) => Ok(lit(base, self, light, point, eye, normal, in_shadow)),
            Err(e) => Err(e),
        }
    }

    /// The light that the surface of `object` sends from `point` to the eye.
    /// There is none where the pattern cannot be read because a transform
    /// has no inverse.
    pub fn lighting(
        &self,
        object: &Shape,
        light: Light,
        point: Point,
        eye: Vector,
        normal: Vector,
        in_shadow: bool,
    ) -> (r: Result<Color, MatrixError>)
        ensures
            r == self.lighting_spec(object.transform()@, light, point, eye, normal, in_shadow),
    {
        let base = match &self.pattern {
            Some(pattern) => match pattern.at_object(object, point) {
                Ok(c) => c,
                Err(e) => {
                    return Err(e);
                },
            },
            None => self.color,
        };
        reveal(lit);
        let effective_color = base * light.intensity;
        let light_vector = (light.position - point).normalize();
        let ambient = effective_color * self.ambient;
        let light_dot_normal = light_vector.dot(normal);
        let diffuse: Color;
        let specular: Color;
        if light_dot_normal.lt(Scalar::zero()) || in_shadow {
            diffuse = Color::black();
            specular = Color::black();
        } else {
            diffuse = effective_color * self.diffuse * light_dot_normal;
            let reflect_vector = light_vector.neg().reflect(normal);
            let reflect_dot_eye = reflect_vector.dot(eye);
            if reflect_dot_eye.lt(Scalar::zero()) || is_equal(reflect_dot_eye, Scalar::zero()) {
                specular = Color::black();
            } else {
                let factor = reflect_dot_eye.powi(self.shininess);
                specular = light.intensity * self.specular * factor;
            }
        }
        Ok(ambient + diffuse + specular)
    }
}

impl Default for Material {
    fn default() -> (m: Material)
        ensures
            m == Material::new_spec(),
    {
        Material::new()
    }
}

impl PartialEq for Material {
    fn eq(&self, rhs: &Material) -> (r: bool) {
        self.color == rhs.color && is_equal(self.ambient, rhs.ambient) && is_equal(
            self.diffuse,
            rhs.diffuse,
        ) && is_equal(self.specular, rhs.specular) && self.shininess == rhs.shininess
    }
}

impl vstd::std_specs::cmp::PartialEqSpecImpl for Material {
    open spec fn obeys_eq_spec() -> bool {
        true
    }

    /// Two materials count as equal where their colours and their shares of
    /// light agree within the tolerance and their shininess is the same;
    /// the patterns play no part.
    open spec fn eq_spec(&self, rhs: &Material) -> bool {
        self.color.approx(rhs.color) && is_equal(self.ambient, rhs.ambient) && is_equal(
            self.diffuse,
            rhs.diffuse,
        ) && is_equal(self.specular, rhs.specular) && self.shininess == rhs.shininess
    }
}

} // verus!
