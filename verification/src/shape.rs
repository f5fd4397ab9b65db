//! Shapes: what a ray can meet.

use crate::error::MatrixError;
use crate::intersection::Intersection;
use crate::mat4::inverse4;
use crate::mat4::inverse_error;
use crate::mat4::invertible;
use crate::mat4::point_image;
use crate::mat4::transposed;
use crate::mat4::vector_image;
use crate::mat4::Mat4;
use crate::material::Material;
use crate::plane::plane_hits;
use crate::plane::Plane;
use crate::point::Point;
use crate::ray::Ray;
use crate::scalar::Scalar;
use crate::sphere::sphere_hits;
use crate::sphere::Sphere;
use crate::vector::Vector;
use vstd::prelude::*;

verus! {

/// Hands out the identities of shapes: each one larger than the one before.
pub struct IdSource {
    /// The identity that `fresh` gives next; every smaller one is taken.
    pub next: usize,
}

impl IdSource {
    /// A source that has given no identity yet.
    pub fn new() -> (ids: IdSource)
        ensures
            ids.next == 0,
    {
        IdSource { next: 0 }
    }

    /// An identity that this source has not given before.
    pub fn fresh(&mut self) -> (id: usize)
        requires
            old(self).next < usize::MAX,
        ensures
            id == old(self).next,
            final(self).next == old(self).next + 1,
    {
        let id = self.next;
        self.next = self.next + 1;
        id
    }
}

/// Any of the shapes of this library.
pub enum Shape {
    Sphere(Sphere),
    Plane(Plane),
}

/// The intersections at the distances `ts`, all with `object`.
pub open spec fn hits_with<'a>(ts: Seq<Scalar>, object: &'a Shape) -> Seq<Intersection<'a>> {
    Seq::new(ts.len(), |i: int| Intersection { t: ts[i], object })
}

impl Shape {
    pub open spec fn id_spec(&self) -> usize {
        match self {
            Shape::Sphere(s) => s.id,
            Shape::Plane(s) => s.id,
        }
    }

    /// The identity that tells this shape from every other.
    #[verifier::when_used_as_spec(id_spec)]
    pub fn id(&self) -> (id: usize)
        ensures
            id == self.id_spec(),
    {
        match self {
            Shape::Sphere(s) => s.id,
            Shape::Plane(s) => s.id,
        }
    }

    pub open spec fn transform_spec(&self) -> &Mat4 {
        match self {
            Shape::Sphere(s) => &s.transform,
            Shape::Plane(s) => &s.transform,
        }
    }

    /// The transform from the shape's own space to the world.
    #[verifier::when_used_as_spec(transform_spec)]
    pub fn transform(&self) -> (m: &Mat4)
        ensures
            m == self.transform_spec(),
    {
        match self {
            Shape::Sphere(s) => &s.transform,
            Shape::Plane(s) => &s.transform,
        }
    }

    pub open spec fn material_spec(&self) -> &Material {
        match self {
            Shape::Sphere(s) => &s.material,
            Shape::Plane(s) => &s.material,
        }
    }

    /// The material of the surface.
    #[verifier::when_used_as_spec(material_spec)]
    pub fn material(&self) -> (m: &Material)
        ensures
            m == self.material_spec(),
    {
        match self {
            Shape::Sphere(s) => &s.material,
            Shape::Plane(s) => &s.material,
        }
    }

    /// The material of the surface, to be changed in place; nothing else of
    /// the shape changes.
    pub fn material_mut(&mut self) -> (m: &mut Material)
        ensures
            *m == *old(self).material(),
            *final(m) == *final(self).material(),
            final(self).id() == old(self).id(),
            final(self).transform() == old(self).transform(),
            (*final(self) is Sphere) == (*old(self) is Sphere),
    {
        match self {
            Shape::Sphere(s) => &mut s.material,
            Shape::Plane(s) => &mut s.material,
        }
    }

    /// The distances along `local_ray`, a ray in the shape's own space, at
    /// which it meets the shape.
    pub open spec fn local_ts(&self, local_ray: Ray) -> Result<Seq<Scalar>, MatrixError> {
        match self {
            Shape::Sphere(_) => sphere_hits(local_ray),
            Shape::Plane(_) => plane_hits(local_ray),
        }
    }

    /// The distances along `ray`, a ray in the world, at which it meets the
    /// shape; the failure where the shape's transform has no inverse or a
    /// number met on the way cannot be represented.
    pub open spec fn ts(&self, ray: Ray) -> Result<Seq<Scalar>, MatrixError> {
        if invertible(self.transform()@) {
            self.local_ts(ray.transformed(inverse4(self.transform()@)))
        } else {
            Err(inverse_error(self.transform()@))
        }
    }

    /// Where `local_ray`, a ray in the shape's own space, meets the shape.
    pub fn local_intersect(&self, local_ray: Ray) -> (r: Result<Vec<Intersection<'_>>, MatrixError>)
        ensures
            match r {
                Ok(xs) => self.local_ts(local_ray) is Ok && xs@ == hits_with(
                    self.local_ts(local_ray)->Ok_0,
                    self,
                ),
                Err(e) => self.local_ts(local_ray) == Err::<Seq<Scalar>, MatrixError>(e),
            },
    {
        let found = match self {
            Shape::Sphere(s) => s.local_intersect(local_ray),
            Shape::Plane(s) => s.local_intersect(local_ray),
        };
        let ts = match found {
            Ok(ts) => ts,
            Err(e) => {
                return Err(e);
            },
        };
        let mut xs: Vec<Intersection<'_>> = Vec::new();
        let mut i: usize = 0;
        while i < ts.len()
            invariant
                i <= ts@.len(),
                xs@.len() == i,
                forall|k: int| 0 <= k < i ==> xs@[k] == (Intersection { t: ts@[k], object: self }),
            decreases ts@.len() - i,
        {
            xs.push(Intersection { t: ts[i], object: self });
            i = i + 1;
        }
        assert(xs@ =~= hits_with(ts@, self));
        Ok(xs)
    }

    /// Where `ray`, a ray in the world, meets the shape: the ray is taken
    /// into the shape's own space by the inverse of its transform. A shape
    /// whose transform has no inverse cannot be met, and the failure is given
    /// where a number met on the way cannot be represented.
    pub fn intersect(&self, ray: Ray) -> (r: Result<Vec<Intersection<'_>>, MatrixError>)
        ensures
            match r {
                Ok(xs) => self.ts(ray) is Ok && xs@ == hits_with(self.ts(ray)->Ok_0, self),
                Err(e) => self.ts(ray) == Err::<Seq<Scalar>, MatrixError>(e),
            },
    {
        match self.transform().inverse() {
            Ok(inverse) => self.local_intersect(ray.transform(inverse)),
            Err(e) => Err(e),
        }
    }

    pub open spec fn local_normal_spec(&self, local_point: Point) -> Vector {
        match self {
            Shape::Sphere(s) => s.local_normal_at(local_point),
            Shape::Plane(s) => s.local_normal_at(local_point),
        }
    }

    /// The direction that points away from the surface at `local_point`, a
    /// point in the shape's own space.
    #[verifier::when_used_as_spec(local_normal_spec)]
    pub fn local_normal_at(&self, local_point: Point) -> (n: Vector)
        ensures
            n == self.local_normal_spec(local_point),
    {
        match self {
            Shape::Sphere(s) => s.local_normal_at(local_point),
            Shape::Plane(s) => s.local_normal_at(local_point),
        }
    }

    /// The direction of length one that points away from the surface at the
    /// world point `point`: the point is taken into the shape's own space,
    /// and the normal found there is brought back by the transposed inverse
    /// of the transform. There is none where the transform has no inverse.
    pub open spec fn normal_spec(&self, point: Point) -> Result<Vector, MatrixError> {
        if invertible(self.transform()@) {
            let inverse = inverse4(self.transform()@);
            Ok(
                vector_image(
                    transposed(inverse),
                    self.local_normal_at(point_image(inverse, point)),
                ).normalize(),
            )
        } else {
            Err(inverse_error(self.transform()@))
        }
    }

    /// The direction of length one that points away from the surface at the
    /// world point `point`.
    pub fn normal_at(&self, point: Point) -> (r: Result<Vector, MatrixError>)
        ensures
            r == self.normal_spec(point),
    {
        let inverse = match self.transform().inverse() {
            Ok(m) => m,
            Err(e) => {
                return Err(e);
            },
        };
        let local_point = inverse * point;
        let local_normal = self.local_normal_at(local_point);
        let world_normal = inverse.transpose() * local_normal;
        Ok(world_normal.normalize())
    }
}

impl PartialEq for Shape {
    fn eq(&self, rhs: &Shape) -> (r: bool) {
        self.id() == rhs.id()
    }
}

impl vstd::std_specs::cmp::PartialEqSpecImpl for Shape {
    open spec fn obeys_eq_spec() -> bool {
        true
    }

    open spec fn eq_spec(&self, rhs: &Shape) -> bool {
        self.id() == rhs.id()
    }
}

} // verus!
