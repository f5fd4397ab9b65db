//! The unit sphere.

use crate::error::add_checked;
use crate::error::checked_difference;
use crate::error::checked_product;
use crate::error::checked_quotient;
use crate::error::checked_sign;
use crate::error::checked_sum;
use crate::error::checked_term;
use crate::error::div_checked;
use crate::error::mul_checked;
use crate::error::signed;
use crate::error::sub_checked;
use crate::error::term;
use crate::error::MatrixError;
use crate::mat4::identity4;
use crate::mat4::Mat4;
use crate::material::Material;
use crate::pattern::Pattern;
use crate::point::Point;
use crate::ray::Ray;
use crate::scalar::is_equal;
use crate::scalar::Scalar;
use crate::shape::IdSource;
use crate::vector::Vector;
use vstd::prelude::*;

verus! {

/// A sphere of radius one about the origin of its own space.
pub struct Sphere {
    pub id: usize,
    pub transform: Mat4,
    pub material: Material,
}

/// The coefficients `a`, `b` and `c` of the equation `a t^2 + b t + c = 0`
/// whose roots are the distances at which `ray` meets the unit sphere; each
/// is missing where it cannot be represented.
pub open spec fn quadratic(ray: Ray) -> (Option<Scalar>, Option<Scalar>, Option<Scalar>) {
    let sphere_to_ray = ray.origin.from(Point::zero());
    (
        ray.direction.dot_checked(ray.direction),
        term(Scalar::from_int(2), ray.direction.dot_checked(sphere_to_ray)),
        sub_checked(sphere_to_ray.dot_checked(sphere_to_ray), Some(Scalar::one())),
    )
}

/// The discriminant `b^2 - 4 a c`, where it can be represented.
pub open spec fn discriminant(a: Option<Scalar>, b: Option<Scalar>, c: Option<Scalar>) -> Option<
    Scalar,
> {
    sub_checked(mul_checked(b, b), mul_checked(term(Scalar::from_int(4), a), c))
}

/// The nearer root `(-b - sqrt(d)) / (2 a)`, or the farther one, with the
/// root added, where `farther` is set; none where it cannot be represented.
pub open spec fn root(a: Option<Scalar>, b: Option<Scalar>, d: Scalar, farther: bool) -> Option<
    Scalar,
> {
    div_checked(
        if farther {
            add_checked(signed(b, true), Some(d.sqrt()))
        } else {
            sub_checked(signed(b, true), Some(d.sqrt()))
        },
        term(Scalar::from_int(2), a),
    )
}

/// The distances along `ray` at which it meets the unit sphere, nearest
/// first: none where the discriminant is negative, one where it is within
/// the tolerance of zero, two otherwise. There is no answer where a number
/// met on the way cannot be represented.
#[verifier::opaque]
pub open spec fn sphere_hits(ray: Ray) -> Result<Seq<Scalar>, MatrixError> {
    let (a, b, c) = quadratic(ray);
    match discriminant(a, b, c) {
        None => Err(MatrixError::OutOfRange),
        Some(d) => if d@ < 0 {
            Ok(Seq::empty())
        } else if is_equal(d, Scalar::zero()) {
            match root(a, b, d, false) {
                Some(t) => Ok(seq![t]),
                None => Err(MatrixError::OutOfRange),
            }
        } else {
            match (root(a, b, d, false), root(a, b, d, true)) {
                (Some(near), Some(far)) => Ok(seq![near, far]),
                _ => Err(MatrixError::OutOfRange),
            }
        },
    }
}

impl Sphere {
    /// A sphere with the next identity of `ids`, the identity transform and
    /// the default material.
    pub fn new(ids: &mut IdSource) -> (s: Sphere)
        requires
            old(ids).next < usize::MAX,
        ensures
            s.id == old(ids).next,
            final(ids).next == old(ids).next + 1,
            s.transform@ == identity4(),
            s.material == Material::new_spec(),
    {
        Sphere { id: ids.fresh(), transform: Mat4::identity(), material: Material::new() }
    }

    /// This sphere with `transform` in place of its own.
    pub fn set_transform(self, transform: Mat4) -> (s: Sphere)
        ensures
            s.id == self.id,
            s.transform == transform,
            s.material == self.material,
    {
        Sphere { id: self.id, transform, material: self.material }
    }

    /// This sphere with `pattern` on its surface.
    pub fn set_pattern(self, pattern: Pattern) -> (s: Sphere)
        ensures
            s.id == self.id,
            s.transform == self.transform,
            s.material == self.material.with_pattern(pattern),
    {
        let Sphere { id, transform, material } = self;
        let Material { pattern: _, color, ambient, diffuse, specular, shininess } = material;
        Sphere {
            id,
            transform,
            material: Material {
                pattern: Some(pattern),
                color,
                ambient,
                diffuse,
                specular,
                shininess,
            },
        }
    }

    /// The distances along `local_ray`, a ray in the sphere's own space, at
    /// which it meets the sphere. It fails where a number met on the way
    /// cannot be represented.
    pub fn local_intersect(&self, local_ray: Ray) -> (r: Result<Vec<Scalar>, MatrixError>)
        ensures
            match r {
                Ok(ts) => sphere_hits(local_ray) == Ok::<Seq<Scalar>, MatrixError>(ts@),
                Err(e) => sphere_hits(local_ray) == Err::<Seq<Scalar>, MatrixError>(e),
            },
    {
        reveal(sphere_hits);
        let sphere_to_ray = local_ray.origin - Point::zero();
        let a = local_ray.direction.checked_dot(local_ray.direction);
        let b = checked_term(Scalar::from_int(2), local_ray.direction.checked_dot(sphere_to_ray));
        let c = checked_difference(sphere_to_ray.checked_dot(sphere_to_ray), Some(Scalar::one()));
        let discriminant = match checked_difference(
            checked_product(b, b),
            checked_product(checked_term(Scalar::from_int(4), a), c),
        ) {
            Some(d) => d,
            None => {
                return Err(MatrixError::OutOfRange);
            },
        };
        let mut ts: Vec<Scalar> = Vec::new();
        if discriminant.lt(Scalar::zero()) {
            assert(ts@ =~= Seq::empty());
            return Ok(ts);
        }
        let opposite = checked_sign(b, true);
        let twice_a = checked_term(Scalar::from_int(2), a);
        let spread = Some(discriminant.sqrt());
        let near = match checked_quotient(checked_difference(opposite, spread), twice_a) {
            Some(t) => t,
            None => {
                return Err(MatrixError::OutOfRange);
            },
        };
        ts.push(near);
        if is_equal(discriminant, Scalar::zero()) {
            assert(ts@ =~= seq![near]);
            return Ok(ts);
        }
        let far = match checked_quotient(checked_sum(opposite, spread), twice_a) {
            Some(t) => t,
            None => {
                return Err(MatrixError::OutOfRange);
            },
        };
        ts.push(far);
        assert(ts@ =~= seq![near, far]);
        Ok(ts)
    }

    pub open spec fn local_normal_spec(&self, local_point: Point) -> Vector {
        local_point.from(Point::zero())
    }

    /// The direction that points away from the sphere at `local_point`, a
    /// point in the sphere's own space.
    #[verifier::when_used_as_spec(local_normal_spec)]
    pub fn local_normal_at(&self, local_point: Point) -> (n: Vector)
        ensures
            n == self.local_normal_spec(local_point),
    {
        local_point - Point::zero()
    }
}

} // verus!
