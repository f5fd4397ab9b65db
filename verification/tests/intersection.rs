use std::cmp::Ordering;
use trace::error::MatrixError;
use trace::intersection::Intersection;
use trace::mat4::Mat4;
use trace::point::Point;
use trace::ray::Ray;
use trace::scalar::is_equal;
use trace::scalar::Scalar;
use trace::shape::IdSource;
use trace::shape::Shape;
use trace::sphere::Sphere;
use trace::vector::Vector;

fn s(value: f64) -> Scalar {
    Scalar::from_raw((value * 1e9).round() as i64)
}

fn point(x: f64, y: f64, z: f64) -> Point {
    Point::new(s(x), s(y), s(z))
}

fn vector(x: f64, y: f64, z: f64) -> Vector {
    Vector::new(s(x), s(y), s(z))
}

fn sorted<'a>(ts: &[f64], shape: &'a Shape) -> Vec<Intersection<'a>> {
    let mut xs: Vec<Intersection<'a>> = ts
        .iter()
        .map(|t| Intersection {
            t: s(*t),
            object: shape,
        })
        .collect();
    xs.sort_by(|a, b| a.partial_cmp(b).unwrap());
    xs
}

#[test]
fn test_hit() {
    let mut ids = IdSource::new();
    // The hit, when all intersections have positive `t`
    let sphere = Shape::Sphere(Sphere::new(&mut ids));
    let intersections = sorted(&[1.0, 2.0], &sphere);
    assert!(
        Intersection::hit(&intersections)
            == Some(&Intersection {
                t: s(1.0),
                object: &sphere,
            })
    );

    // The hit, when some intersections have negative `t`
    let sphere = Shape::Sphere(Sphere::new(&mut ids));
    let intersections = sorted(&[-1.0, 1.0], &sphere);
    assert!(
        Intersection::hit(&intersections)
            == Some(&Intersection {
                t: s(1.0),
                object: &sphere,
            })
    );

    // The hit, when all intersections have negative `t`
    let sphere = Shape::Sphere(Sphere::new(&mut ids));
    let intersections = sorted(&[-2.0, -1.0], &sphere);
    assert!(Intersection::hit(&intersections) == None);

    // The hit is always the lowest nonnegative intersection
    let sphere = Shape::Sphere(Sphere::new(&mut ids));
    let intersections = sorted(&[5.0, 7.0, -3.0, -2.0], &sphere);
    assert!(
        Intersection::hit(&intersections)
            == Some(&Intersection {
                t: s(5.0),
                object: &sphere,
            })
    );
    assert_eq!(Intersection::hit(&intersections).unwrap().t.raw, 5_000_000_000);
}

#[test]
fn test_prepare() {
    let mut ids = IdSource::new();
    let ray = Ray {
        origin: point(0.0, 0.0, -5.0),
        direction: vector(0.0, 0.0, 1.0),
    };
    let shape = Shape::Sphere(Sphere::new(&mut ids));
    let intersection = Intersection {
        t: s(4.0),
        object: &shape,
    };
    let comps = intersection.prepare(ray).unwrap();
    assert!(is_equal(comps.t, intersection.t));
    assert_eq!(comps.point, point(0.0, 0.0, -1.0));
    assert_eq!(comps.eyev, vector(0.0, 0.0, -1.0));
    assert_eq!(comps.normal, vector(0.0, 0.0, -1.0));

    // The hit, when an intersection occurs on the outside
    let ray = Ray {
        origin: point(0.0, 0.0, -5.0),
        direction: vector(0.0, 0.0, 1.0),
    };
    let shape = Shape::Sphere(Sphere::new(&mut ids));
    let intersection = Intersection {
        t: s(4.0),
        object: &shape,
    };
    let comps = intersection.prepare(ray).unwrap();
    assert_eq!(comps.inside, false);

    // The hit, when an intersection occurs on the inside
    let ray = Ray {
        origin: point(0.0, 0.0, 0.0),
        direction: vector(0.0, 0.0, 1.0),
    };
    let shape = Shape::Sphere(Sphere::new(&mut ids));
    let intersection = Intersection {
        t: s(1.0),
        object: &shape,
    };
    let comps = intersection.prepare(ray).unwrap();
    assert_eq!(comps.point, point(0.0, 0.0, 1.0));
    assert_eq!(comps.eyev, vector(0.0, 0.0, -1.0));
    assert_eq!(comps.inside, true);
    // normal would have been (0, 0, 1), but is inverted!
    assert_eq!(comps.normal, vector(0.0, 0.0, -1.0));

    // The hit should offset the point
    let ray = Ray {
        origin: point(0.0, 0.0, -5.0),
        direction: vector(0.0, 0.0, 1.0),
    };
    let mut sphere = Sphere::new(&mut ids);
    sphere.transform = Mat4::identity().translate(s(0.0), s(0.0), s(1.0));
    let shape = Shape::Sphere(sphere);
    let intersection = Intersection {
        t: s(5.0),
        object: &shape,
    };
    let comps = intersection.prepare(ray).unwrap();
    assert!(comps.over_point.z.raw < -(Scalar::epsilon().raw / 2));
    assert!(comps.point.z.raw > comps.over_point.z.raw);
    assert_eq!(comps.over_point.z.raw, -10_000);
    assert_eq!(comps.object.id(), shape.id());
}

#[test]
fn hit_takes_the_first_that_can_be_seen() {
    let mut ids = IdSource::new();
    let sphere = Shape::Sphere(Sphere::new(&mut ids));
    // A distance within the tolerance of zero counts as in front of the eye.
    let xs = vec![
        Intersection {
            t: Scalar::from_raw(-10_000),
            object: &sphere,
        },
        Intersection {
            t: Scalar::from_raw(-9_999),
            object: &sphere,
        },
        Intersection {
            t: s(3.0),
            object: &sphere,
        },
    ];
    assert_eq!(Intersection::hit(&xs).unwrap().t.raw, -9_999);
    // Unsorted input: the first visible one in the order given.
    let xs = sorted(&[], &sphere);
    assert!(Intersection::hit(&xs).is_none());
    let xs = vec![
        Intersection {
            t: s(7.0),
            object: &sphere,
        },
        Intersection {
            t: s(5.0),
            object: &sphere,
        },
    ];
    assert_eq!(Intersection::hit(&xs).unwrap().t.raw, 7_000_000_000);
}

#[test]
fn intersections_are_ordered_by_distance() {
    let mut ids = IdSource::new();
    let sphere = Shape::Sphere(Sphere::new(&mut ids));
    let at = |t: f64| Intersection {
        t: s(t),
        object: &sphere,
    };
    assert_eq!(at(1.0).partial_cmp(&at(2.0)), Some(Ordering::Less));
    assert_eq!(at(2.0).partial_cmp(&at(1.0)), Some(Ordering::Greater));
    assert_eq!(at(2.0).partial_cmp(&at(2.0)), Some(Ordering::Equal));
    assert_eq!(at(2.000001).partial_cmp(&at(2.0)), Some(Ordering::Equal));
    assert_eq!(at(2.0).partial_cmp(&at(2.000001)), Some(Ordering::Less));
    assert!(at(2.000001) == at(2.0));
    assert!(at(2.1) != at(2.0));
}

#[test]
fn prepare_fails_without_an_inverse() {
    let mut ids = IdSource::new();
    let mut sphere = Sphere::new(&mut ids);
    sphere.transform = Mat4::zero();
    let shape = Shape::Sphere(sphere);
    let ray = Ray {
        origin: point(0.0, 0.0, -5.0),
        direction: vector(0.0, 0.0, 1.0),
    };
    let x = Intersection {
        t: s(4.0),
        object: &shape,
    };
    assert!(matches!(x.prepare(ray), Err(MatrixError::NonInvertible)));
}
