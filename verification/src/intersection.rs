//! Where a ray meets a shape, and what shading needs to know of it.

use crate::error::MatrixError;
use crate::point::Point;
use crate::ray::Ray;
use crate::scalar::is_equal;
use crate::scalar::Scalar;
use crate::shape::Shape;
use crate::vector::Vector;
use core::cmp::Ordering;
use core::ops::Neg;
use vstd::prelude::*;

verus! {

/// A ray meets `object` at the distance `t` along the ray.
#[derive(Clone, Copy)]
pub struct Intersection<'a> {
    pub t: Scalar,
    pub object: &'a Shape,
}

/// What shading needs at an intersection.
#[derive(Clone, Copy)]
pub struct Computation<'a> {
    pub t: Scalar,
    pub object: &'a Shape,
    /// Where the ray meets the surface.
    pub point: Point,
    /// `point`, lifted off the surface by the tolerance along the normal.
    pub over_point: Point,
    /// The direction towards the eye.
    pub eyev: Vector,
    /// The normal of the surface, on the side of the eye.
    pub normal: Vector,
    /// Whether the ray meets the surface from within the shape.
    pub inside: bool,
}

/// Whether an intersection at the distance `t` lies in front of the eye:
/// `t` is positive or within the tolerance of zero.
pub open spec fn visible(t: Scalar) -> bool {
    t@ > 0 || is_equal(t, Scalar::zero())
}

/// The index of the first of `xs` that lies in front of the eye, or the
/// length of `xs` where none does.
pub open spec fn first_visible(xs: Seq<Intersection>) -> int
    decreases xs.len(),
{
    if xs.len() == 0 {
        0
    } else if visible(xs[0].t) {
        0
    } else {
        1 + first_visible(xs.drop_first())
    }
}

/// Whether the distances of `xs` never fall from one to the next.
pub open spec fn ascending(xs: Seq<Intersection>) -> bool {
    forall|i: int, j: int| 0 <= i <= j < xs.len() ==> xs[i].t@ <= xs[j].t@
}

/// `first_visible` is a position of `xs` or its length; nothing before it
/// lies in front of the eye, and what stands there does.
pub proof fn lemma_first_visible(xs: Seq<Intersection>)
    ensures
        0 <= first_visible(xs) <= xs.len(),
        forall|i: int| 0 <= i < first_visible(xs) ==> !visible(#[trigger] xs[i].t),
        first_visible(xs) < xs.len() ==> visible(xs[first_visible(xs)].t),
    decreases xs.len(),
{
    if xs.len() != 0 && !visible(xs[0].t) {
        let rest = xs.drop_first();
        lemma_first_visible(rest);
        assert forall|i: int| 0 <= i < first_visible(xs) implies !visible(#[trigger] xs[i].t) by {
            if i > 0 {
                assert(xs[i] == rest[i - 1]);
            }
        }
        if first_visible(rest) < rest.len() {
            assert(xs[first_visible(xs)] == rest[first_visible(rest)]);
        }
    }
}

/// Of intersections in ascending order, the hit is the nearest one in
/// front of the eye; there is none exactly where none lies in front of the
/// eye.
pub proof fn law_hit_is_nearest(xs: Seq<Intersection>)
    requires
        ascending(xs),
    ensures
        match Intersection::hit_spec(xs) {
            Some(hit) => visible(hit.t) && xs.contains(hit) && forall|i: int|
                0 <= i < xs.len() && visible(#[trigger] xs[i].t) ==> hit.t@ <= xs[i].t@,
            None => forall|i: int| 0 <= i < xs.len() ==> !visible(#[trigger] xs[i].t),
        },
{
    lemma_first_visible(xs);
    let k = first_visible(xs);
    if k < xs.len() {
        assert(xs[k] == xs[k]);
        assert forall|i: int| 0 <= i < xs.len() && visible(#[trigger] xs[i].t) implies xs[k].t@
            <= xs[i].t@ by {
            if i < k {
                assert(!visible(xs[i].t));
            }
        }
    }
}

impl<'a> Intersection<'a> {
    /// The first of `intersections` that lies in front of the eye, if any
    /// does.
    pub open spec fn hit_spec(intersections: Seq<Intersection<'a>>) -> Option<Intersection<'a>> {
        if first_visible(intersections) < intersections.len() {
            Some(intersections[first_visible(intersections)])
        } else {
            None
        }
    }

    /// The first of `intersections` that lies in front of the eye. Where they
    /// are
    /// in ascending order it is the nearest one that can be seen.
    pub fn hit(intersections: &'a [Intersection<'a>]) -> (r: Option<&'a Intersection<'a>>)
        ensures
            match r {
                Some(x) => Intersection::hit_spec(intersections@) == Some(*x),
                None => Intersection::hit_spec(intersections@) is None,
            },
    {
        let mut i: usize = 0;
        proof {
            lemma_first_visible(intersections@);
        }
        while i < intersections.len()
            invariant
                i <= intersections@.len(),
                i <= first_visible(intersections@) <= intersections@.len(),
                forall|k: int|
                    0 <= k < first_visible(intersections@) ==> !visible(
                        #[trigger] intersections@[k].t,
                    ),
                first_visible(intersections@) < intersections@.len() ==> visible(
                    intersections@[first_visible(intersections@)].t,
                ),
            decreases intersections@.len() - i,
        {
            let x = &intersections[i];
            if x.t.gt(Scalar::zero()) || is_equal(x.t, Scalar::zero()) {
                return Some(x);
            }
            i = i + 1;
        }
        None
    }

    /// What shading needs at this intersection of `ray`: the point, the
    /// direction to the eye, the normal turned to the side of the eye, and the
    /// point lifted off the surface. There is nothing where the shape's
    /// transform has no inverse that can be represented.
    pub open spec fn prepare_spec(&self, ray: Ray) -> Result<Computation<'a>, MatrixError> {
        let point = ray.position(self.t);
        let eyev = ray.direction.negated();
        match self.object.normal_spec(point) {
            Ok(normal) => {
                let inside = normal.dot(eyev)@ < 0;
                let facing = if inside {
                    normal.negated()
                } else {
                    normal
                };
                Ok(
                    Computation {
                        t: self.t,
                        object: self.object,
                        point,
                        over_point: point.moved(facing.scaled(Scalar::epsilon())),
                        eyev,
                        normal: facing,
                        inside,
                    },
                )
            },
            Err(e) => Err(e),
        }
    }

    /// What shading needs at this intersection of `ray`.
    pub fn prepare(&self, ray: Ray) -> (r: Result<Computation<'a>, MatrixError>)
        ensures
            r == self.prepare_spec(ray),
    {
        let t = self.t;
        let object = self.object;
        let point = ray.position(t);
        let eyev = ray.direction.neg();
        let mut normal = match self.object.normal_at(point) {
            Ok(n) => n,
            Err(e) => {
                return Err(e);
            },
        };
        let mut inside = false;
        if normal.dot(eyev).lt(Scalar::zero()) {
            inside = true;
            normal = normal.neg();
        }
        let over_point = point + normal * Scalar::epsilon();
        Ok(Computation { t, object, point, over_point, eyev, normal, inside })
    }
}

impl<'a> PartialEq for Intersection<'a> {
    fn eq(&self, other: &Intersection<'a>) -> (r: bool) {
        is_equal(self.t, other.t)
    }
}

impl<'a> vstd::std_specs::cmp::PartialEqSpecImpl for Intersection<'a> {
    open spec fn obeys_eq_spec() -> bool {
        true
    }

    open spec fn eq_spec(&self, other: &Intersection<'a>) -> bool {
        is_equal(self.t, other.t)
    }
}

impl<'a> PartialOrd for Intersection<'a> {
    fn partial_cmp(&self, other: &Intersection<'a>) -> (r: Option<Ordering>) {
        if self.t.lt(other.t) {
            Some(Ordering::Less)
        } else if is_equal(self.t, other.t) {
            Some(Ordering::Equal)
        } else {
            Some(Ordering::Greater)
        }
    }
}

impl<'a> vstd::std_specs::cmp::PartialOrdSpecImpl for Intersection<'a> {
    open spec fn obeys_partial_cmp_spec() -> bool {
        true
    }

    /// Nearer comes first; at distances within the tolerance of each other,
    /// and the first not nearer, the two count as equal.
    open spec fn partial_cmp_spec(&self, other: &Intersection<'a>) -> Option<Ordering> {
        if self.t@ < other.t@ {
            Some(Ordering::Less)
        } else if is_equal(self.t, other.t) {
            Some(Ordering::Equal)
        } else {
            Some(Ordering::Greater)
        }
    }
}

} // verus!
