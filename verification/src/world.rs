//! The scene: shapes and the light that falls on them.

use crate::color::Color;
use crate::error::MatrixError;
use crate::intersection::ascending;
use crate::intersection::Computation;
use crate::intersection::Intersection;
use crate::light::Light;
use crate::mat4::identity4;
use crate::mat4::law_identity_is_neutral;
use crate::mat4::scaling;
use crate::mat4::Mat4;
use crate::material::Material;
use crate::point::Point;
use crate::ray::Ray;
use crate::scalar::Scalar;
use crate::shape::hits_with;
use crate::shape::IdSource;
use crate::shape::Shape;
use crate::sphere::Sphere;
use vstd::prelude::*;

verus! {

/// The shapes of a scene and its one light.
pub struct World {
    pub light: Light,
    pub objects: Vec<Shape>,
}

/// `xs`, which is in ascending order, with `x` put in behind every
/// intersection that is not farther than `x`.
pub open spec fn inserted<'a>(xs: Seq<Intersection<'a>>, x: Intersection<'a>) -> Seq<
    Intersection<'a>,
>
    decreases xs.len(),
{
    if xs.len() == 0 {
        seq![x]
    } else if xs.last().t@ <= x.t@ {
        xs.push(x)
    } else {
        inserted(xs.drop_last(), x).push(xs.last())
    }
}

/// `xs` in ascending order of distance; intersections at the same distance
/// keep the order they had.
pub open spec fn sorted_hits<'a>(xs: Seq<Intersection<'a>>) -> Seq<Intersection<'a>>
    decreases xs.len(),
{
    if xs.len() == 0 {
        xs
    } else {
        inserted(sorted_hits(xs.drop_last()), xs.last())
    }
}

/// Where `ray` meets the first `n` of `objects`, shape after shape; the
/// failure of the first shape that cannot be met where there is one.
pub open spec fn gathered<'a>(objects: &'a Seq<Shape>, ray: Ray, n: nat) -> Result<
    Seq<Intersection<'a>>,
    MatrixError,
>
    decreases n,
{
    if n == 0 {
        Ok(Seq::empty())
    } else {
        match gathered(objects, ray, (n - 1) as nat) {
            Ok(xs) => match objects[n - 1].ts(ray) {
                Ok(ts) => Ok(xs + hits_with(ts, &objects[n - 1])),
                Err(e) => Err(e),
            },
            Err(e) => Err(e),
        }
    }
}

/// A failure among the first shapes is the failure of all of them.
proof fn lemma_failure_stays<'a>(objects: &'a Seq<Shape>, ray: Ray, n: nat, more: nat)
    requires
        gathered(objects, ray, n) is Err,
        n <= more,
    ensures
        gathered(objects, ray, more) == gathered(objects, ray, n),
    decreases more,
{
    if more > n {
        lemma_failure_stays(objects, ray, n, (more - 1) as nat);
    }
}

/// Putting an intersection into an ascending sequence keeps it ascending
/// and adds nothing but that intersection.
pub proof fn lemma_inserted<'a>(xs: Seq<Intersection<'a>>, x: Intersection<'a>)
    requires
        ascending(xs),
    ensures
        ascending(inserted(xs, x)),
        inserted(xs, x).to_multiset() == xs.to_multiset().insert(x),
        inserted(xs, x).len() == xs.len() + 1,
    decreases xs.len(),
{
    broadcast use vstd::seq_lib::group_to_multiset_ensures;

    if xs.len() == 0 {
        assert(seq![x] =~= xs.push(x));
    } else if xs.last().t@ <= x.t@ {
    } else {
        let front = xs.drop_last();
        lemma_inserted(front, x);
        let mid = inserted(front, x);
        assert(xs =~= front.push(xs.last()));
        assert(mid.push(xs.last()).to_multiset() == mid.to_multiset().insert(xs.last()));
        assert(xs.to_multiset() == front.to_multiset().insert(xs.last()));
        assert(front.to_multiset().insert(x).insert(xs.last()) =~= front.to_multiset().insert(
            xs.last(),
        ).insert(x));
        assert forall|i: int| 0 <= i < mid.len() implies (#[trigger] mid[i]).t@
            <= xs.last().t@ by {
            assert(mid.to_multiset().count(mid[i]) > 0);
            if mid[i] != x {
                assert(front.to_multiset().count(mid[i]) > 0);
                let j = choose|j: int| 0 <= j < front.len() && front[j] == mid[i];
                assert(xs[j] == front[j]);
            }
        }
    }
}

/// Sorting gives an ascending sequence that holds what was handed in, each
/// intersection as often as before.
pub proof fn lemma_sorted_hits<'a>(xs: Seq<Intersection<'a>>)
    ensures
        ascending(sorted_hits(xs)),
        sorted_hits(xs).to_multiset() == xs.to_multiset(),
        sorted_hits(xs).len() == xs.len(),
    decreases xs.len(),
{
    broadcast use vstd::seq_lib::group_to_multiset_ensures;

    if xs.len() != 0 {
        lemma_sorted_hits(xs.drop_last());
        lemma_inserted(sorted_hits(xs.drop_last()), xs.last());
        assert(xs =~= xs.drop_last().push(xs.last()));
    }
}

/// Puts `x` into `xs` behind every intersection that is not farther.
fn insert_sorted<'a>(xs: &mut Vec<Intersection<'a>>, x: Intersection<'a>)
    ensures
        final(xs)@ == inserted(old(xs)@, x),
{
    let ghost full = xs@;
    let mut k: usize = xs.len();
    assert(full.take(k as int) =~= full);
    assert(inserted(full, x) =~= inserted(full.take(k as int), x) + full.skip(k as int));
    while k > 0 && xs[k - 1].t.gt(x.t)
        invariant
            k <= full.len(),
            xs@ == full,
            inserted(full, x) == inserted(full.take(k as int), x) + full.skip(k as int),
        decreases k,
    {
        proof {
            let head = full.take(k as int);
            assert(head.drop_last() =~= full.take(k - 1));
            assert(head.last() == full[k - 1]);
            assert(inserted(head, x) == inserted(full.take(k - 1), x).push(full[k - 1]));
            assert(inserted(full.take(k - 1), x).push(full[k - 1]) + full.skip(k as int)
                =~= inserted(full.take(k - 1), x) + full.skip(k - 1));
        }
        k = k - 1;
    }
    proof {
        let head = full.take(k as int);
        if k == 0 {
            assert(inserted(head, x) =~= seq![x]);
        } else {
            assert(head.last() == full[k - 1]);
            assert(inserted(head, x) == head.push(x));
        }
        assert(inserted(head, x) + full.skip(k as int) =~= full.insert(k as int, x));
    }
    xs.insert(k, x);
}

/// Puts every one of `xs` into `sorted`, which holds `before` in order.
fn insert_all<'a>(
    sorted: &mut Vec<Intersection<'a>>,
    xs: &Vec<Intersection<'a>>,
    Ghost(before): Ghost<Seq<Intersection<'a>>>,
)
    requires
        old(sorted)@ == sorted_hits(before),
    ensures
        final(sorted)@ == sorted_hits(before + xs@),
{
    let mut j: usize = 0;
    assert(before + xs@.take(0) =~= before);
    while j < xs.len()
        invariant
            j <= xs@.len(),
            sorted@ == sorted_hits(before + xs@.take(j as int)),
        decreases xs@.len() - j,
    {
        insert_sorted(sorted, xs[j]);
        proof {
            let grown = before + xs@.take(j + 1);
            assert(grown.drop_last() =~= before + xs@.take(j as int));
            assert(grown.last() == xs@[j as int]);
        }
        j = j + 1;
    }
    assert(xs@.take(xs@.len() as int) =~= xs@);
}

impl World {
    /// A world of two spheres about the origin, one inside the other, and a
    /// white light up and to the left of the eye.
    pub fn default(ids: &mut IdSource) -> (w: World)
        requires
            old(ids).next < usize::MAX - 1,
        ensures
            final(ids).next == old(ids).next + 2,
            w.light.position.x@ == -10_000_000_000,
            w.light.position.y@ == 10_000_000_000,
            w.light.position.z@ == -10_000_000_000,
            w.light.intensity == Color::white(),
            w.objects@.len() == 2,
            w.objects@[0] is Sphere,
            w.objects@[0].id() == old(ids).next,
            w.objects@[0].transform()@ == identity4(),
            *w.objects@[0].material() == (Material {
                pattern: None,
                color: Color {
                    red: Scalar { raw: 800_000_000 },
                    green: Scalar { raw: 1_000_000_000 },
                    blue: Scalar { raw: 600_000_000 },
                },
                ambient: Scalar { raw: 100_000_000 },
                diffuse: Scalar { raw: 700_000_000 },
                specular: Scalar { raw: 200_000_000 },
                shininess: 200,
            }),
            w.objects@[1] is Sphere,
            w.objects@[1].id() == old(ids).next + 1,
            w.objects@[1].transform()@ == scaling(
                Scalar { raw: 500_000_000 },
                Scalar { raw: 500_000_000 },
                Scalar { raw: 500_000_000 },
            ),
            *w.objects@[1].material() == Material::new(),
    {
        let light = Light {
            position: Point {
                x: Scalar::from_int(-10),
                y: Scalar::from_int(10),
                z: Scalar::from_int(-10),
            },
            intensity: Color::white(),
        };
        let mut sphere_outer = Sphere::new(ids);
        sphere_outer.material.color = Color {
            red: Scalar::from_raw(800_000_000),
            green: Scalar::from_raw(1_000_000_000),
            blue: Scalar::from_raw(600_000_000),
        };
        sphere_outer.material.diffuse = Scalar::from_raw(700_000_000);
        sphere_outer.material.specular = Scalar::from_raw(200_000_000);
        let mut sphere_inner = Sphere::new(ids);
        let half = Scalar::from_raw(500_000_000);
        sphere_inner.transform = Mat4::identity().scale(half, half, half);
        proof {
            law_identity_is_neutral(scaling(half, half, half));
        }
        let mut objects: Vec<Shape> = Vec::new();
        objects.push(Shape::Sphere(sphere_outer));
        objects.push(Shape::Sphere(sphere_inner));
        World { light, objects }
    }

    /// A world without shapes, lit by `light`.
    pub fn new(light: Light) -> (w: World)
        ensures
            w.light == light,
            w.objects@.len() == 0,
    {
        World { light, objects: Vec::new() }
    }

    /// Adds `object` behind the shapes that the world holds.
    pub fn push(&mut self, object: Shape)
        ensures
            final(self).light == old(self).light,
            final(self).objects@ == old(self).objects@.push(object),
    {
        self.objects.push(object);
    }

    /// Where `ray` meets the shapes of the world, in ascending order of
    /// distance; the failure of the first shape that cannot be met where
    /// there is one.
    pub open spec fn intersect_spec(&self, ray: Ray) -> Result<Seq<Intersection<'_>>, MatrixError> {
        match gathered(&self.objects@, ray, self.objects@.len()) {
            Ok(xs) => Ok(sorted_hits(xs)),
            Err(e) => Err(e),
        }
    }

    /// Where `ray` meets the shapes of the world, nearest first.
    #[verifier::rlimit(40)]
    pub fn intersect(&self, ray: Ray) -> (r: Result<Vec<Intersection<'_>>, MatrixError>)
        ensures
            match r {
                Ok(xs) => self.intersect_spec(ray) == Ok::<Seq<Intersection<'_>>, MatrixError>(xs@)
                    && ascending(xs@) && xs@.to_multiset() == gathered(
                    &self.objects@,
                    ray,
                    self.objects@.len(),
                )->Ok_0.to_multiset(),
                Err(e) => self.intersect_spec(ray) == Err::<Seq<Intersection<'_>>, MatrixError>(e),
            },
    {
        let mut intersections: Vec<Intersection<'_>> = Vec::new();
        let mut i: usize = 0;
        while i < self.objects.len()
            invariant
                i <= self.objects@.len(),
                gathered(&self.objects@, ray, i as nat) is Ok,
                intersections@ == sorted_hits(gathered(&self.objects@, ray, i as nat)->Ok_0),
            decreases self.objects@.len() - i,
        {
            let object = &self.objects[i];
            let ghost before = gathered(&self.objects@, ray, i as nat)->Ok_0;
            let xs = match object.intersect(ray) {
                Ok(xs) => xs,
                Err(e) => {
                    proof {
                        assert(gathered(&self.objects@, ray, (i + 1) as nat) == Err::<
                            Seq<Intersection<'_>>,
                            MatrixError,
                        >(e));
                        lemma_failure_stays(
                            &self.objects@,
                            ray,
                            (i + 1) as nat,
                            self.objects@.len(),
                        );
                    }
                    return Err(e);
                },
            };
            insert_all(&mut intersections, &xs, Ghost(before));
            assert(gathered(&self.objects@, ray, (i + 1) as nat) == Ok::<
                Seq<Intersection<'_>>,
                MatrixError,
            >(before + xs@));
            i = i + 1;
        }
        proof {
            lemma_sorted_hits(gathered(&self.objects@, ray, self.objects@.len())->Ok_0);
        }
        Ok(intersections)
    }

    /// Whether a shape stands between `point` and the light; the failure
    /// where a shape cannot be met.
    pub open spec fn is_shadowed_spec(&self, point: Point) -> Result<bool, MatrixError> {
        let point_to_light = self.light.position.from(point);
        let ray = Ray { origin: point, direction: point_to_light.normalize() };
        match self.intersect_spec(ray) {
            Ok(xs) => Ok(
                match Intersection::hit_spec(xs) {
                    Some(hit) => hit.t@ < point_to_light.magnitude()@,
                    None => false,
                },
            ),
            Err(e) => Err(e),
        }
    }

    /// Whether a shape stands between `point` and the light: a ray from the
    /// point towards the light meets one before it reaches the light.
    pub fn is_shadowed(&self, point: Point) -> (r: Result<bool, MatrixError>)
        ensures
            r == self.is_shadowed_spec(point),
    {
        let point_to_light = self.light.position - point;
        let distance = point_to_light.magnitude();
        let direction = point_to_light.normalize();
        let ray = Ray { origin: point, direction };
        let intersections = match self.intersect(ray) {
            Ok(xs) => xs,
            Err(e) => {
                return Err(e);
            },
        };
        let hit = Intersection::hit(intersections.as_slice());
        if let Some(hit) = hit {
            if hit.t.lt(distance) {
                return Ok(true);
            }
        }
        Ok(false)
    }

    /// The colour at a prepared intersection: what the material of the shape
    /// sends to the eye, in shadow or not as the lifted point is.
    pub open spec fn shade_hit_spec(&self, comps: Computation) -> Result<Color, MatrixError> {
        match self.is_shadowed_spec(comps.over_point) {
            Ok(shadowed) => comps.object.material().lighting_spec(
                comps.object.transform()@,
                self.light,
                comps.over_point,
                comps.eyev,
                comps.normal,
                shadowed,
            ),
            Err(e) => Err(e),
        }
    }

    /// The colour at a prepared intersection.
    pub fn shade_hit(&self, comps: Computation) -> (r: Result<Color, MatrixError>)
        ensures
            r == self.shade_hit_spec(comps),
    {
        let shadowed = match self.is_shadowed(comps.over_point) {
            Ok(b) => b,
            Err(e) => {
                return Err(e);
            },
        };
        comps.object.material().lighting(
            comps.object,
            self.light,
            comps.over_point,
            comps.eyev,
            comps.normal,
            shadowed,
        )
    }

    /// The colour that `ray` sees: black where it meets nothing in front of
    /// the eye, the shaded colour of the nearest intersection otherwise.
    pub open spec fn color_at_spec(&self, ray: Ray) -> Result<Color, MatrixError> {
        match self.intersect_spec(ray) {
            Ok(xs) => match Intersection::hit_spec(xs) {
                Some(hit) => match hit.prepare_spec(ray) {
                    Ok(comps) => self.shade_hit_spec(comps),
                    Err(e) => Err(e),
                },
                None => Ok(Color::black()),
            },
            Err(e) => Err(e),
        }
    }

    /// The colour that `ray` sees.
    pub fn color_at(&self, ray: Ray) -> (r: Result<Color, MatrixError>)
        ensures
            r == self.color_at_spec(ray),
    {
        let intersections = match self.intersect(ray) {
            Ok(xs) => xs,
            Err(e) => {
                return Err(e);
            },
        };
        let hit = Intersection::hit(intersections.as_slice());
        match hit {
            Some(hit) => {
                let comps = match hit.prepare(ray) {
                    Ok(c) => c,
                    Err(e) => {
                        return Err(e);
                    },
                };
                self.shade_hit(comps)
            },
            None => Ok(Color::black()),
        }
    }
}

} // verus!
