//! The plane through the origin that x and z span.

use crate::error::checked_quotient;
use crate::error::div_checked;
use crate::error::MatrixError;
use crate::mat4::identity4;
use crate::mat4::Mat4;
use crate::material::Material;
use crate::pattern::Pattern;
use crate::point::Point;
use crate::ray::Ray;
use crate::scalar::Scalar;
use crate::shape::IdSource;
use crate::vector::Vector;
use vstd::prelude::*;

verus! {

/// A flat surface without end; in its own space it holds the points
/// whose y is zero.
pub struct Plane {
    pub id: usize,
    pub transform: Mat4,
    pub material: Material,
}

/// The distances along `ray` at which it meets the plane: none where the
/// ray runs along the plane, its y direction within the tolerance of zero;
/// one otherwise. There is no answer where the distance cannot be
/// represented.
#[verifier::opaque]
pub open spec fn plane_hits(ray: Ray) -> Result<Seq<Scalar>, MatrixError> {
    if ray.direction.y.abs()@ < Scalar::epsilon()@ {
        Ok(Seq::empty())
    } else {
        match div_checked(ray.origin.y.negated_checked(), Some(ray.direction.y)) {
            Some(t) => Ok(seq![t]),
            None => Err(MatrixError::OutOfRange),
        }
    }
}

impl Plane {
    /// A plane with the next identity of `ids`, the identity transform and
    /// the default material.
    pub fn new(ids: &mut IdSource) -> (s: Plane)
        requires
            old(ids).next < usize::MAX,
        ensures
            s.id == old(ids).next,
            final(ids).next == old(ids).next + 1,
            s.transform@ == identity4(),
            s.material == Material::new_spec(),
    {
        Plane { id: ids.fresh(), transform: Mat4::identity(), material: Material::new() }
    }

    /// This plane with `transform` in place of its own.
    pub fn set_transform(self, transform: Mat4) -> (s: Plane)
        ensures
            s.id == self.id,
            s.transform == transform,
            s.material == self.material,
    {
        Plane { id: self.id, transform, material: self.material }
    }

    /// This plane with `pattern` on its surface.
    pub fn set_pattern(self, pattern: Pattern) -> (s: Plane)
        ensures
            s.id == self.id,
            s.transform == self.transform,
            s.material == self.material.with_pattern(pattern),
    {
        let Plane { id, transform, material } = self;
        let Material { pattern: _, color, ambient, diffuse, specular, shininess } = material;
        Plane {
            id,
            transform,
            material: Material {
                pattern: Some(pattern),
                color,
                ambient,
                diffuse,
                specular,
                shininess,
            },
        }
    }

    pub open spec fn local_normal_spec(&self, local_point: Point) -> Vector {
        Vector { x: Scalar::zero(), y: Scalar::one(), z: Scalar::zero() }
    }

    /// The direction that points away from the plane: straight up, at every
    /// point.
    #[verifier::when_used_as_spec(local_normal_spec)]
    pub fn local_normal_at(&self, local_point: Point) -> (n: Vector)
        ensures
            n == self.local_normal_spec(local_point),
    {
        Vector { x: Scalar::zero(), y: Scalar::one(), z: Scalar::zero() }
    }

    /// The distances along `local_ray`, a ray in the plane's own space, at
    /// which it meets the plane. It fails where the distance cannot be
    /// represented.
    pub fn local_intersect(&self, local_ray: Ray) -> (r: Result<Vec<Scalar>, MatrixError>)
        ensures
            match r {
                Ok(ts) => plane_hits(local_ray) == Ok::<Seq<Scalar>, MatrixError>(ts@),
                Err(e) => plane_hits(local_ray) == Err::<Seq<Scalar>, MatrixError>(e),
            },
    {
        reveal(plane_hits);
        let mut ts: Vec<Scalar> = Vec::new();
        if local_ray.direction.y.abs().lt(Scalar::epsilon()) {
            assert(ts@ =~= Seq::empty());
            return Ok(ts);
        }
        match checked_quotient(local_ray.origin.y.checked_neg(), Some(local_ray.direction.y)) {
            Some(t) => {
                ts.push(t);
                assert(ts@ =~= seq![t]);
                Ok(ts)
            },
            None => Err(MatrixError::OutOfRange),
        }
    }
}

} // verus!
