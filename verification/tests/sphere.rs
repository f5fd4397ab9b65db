use std::f64::consts::PI;
use std::f64::consts::SQRT_2;
use trace::error::MatrixError;
use trace::mat4::Mat4;
use trace::pattern::stripe::Stripe;
use trace::pattern::Pattern;
use trace::point::Point;
use trace::ray::Ray;
use trace::scalar::is_equal;
use trace::scalar::Scalar;
use trace::shape::IdSource;
use trace::shape::Shape;
use trace::sphere::Sphere;
use trace::vector::Vector;

fn s(value: f64) -> Scalar {
    Scalar::from_raw((value * 1e9).round() as i64)
}

fn point(x: f64, y: f64, z: f64) -> Point {
    Point::new(s(x), s(y), s(z))
}

fn vector(x: f64, y: f64, z: f64) -> Vector {
    Vector::new(s(x), s(y), s(z))
}

#[test]
fn sphere_test_local_intersect() {
    let mut ids = IdSource::new();
    // A ray intersects a sphere at two points
    let ray = Ray {
        origin: point(0.0, 0.0, -5.0),
        direction: vector(0.0, 0.0, 1.0),
    };
    let sphere = Shape::Sphere(Sphere::new(&mut ids));
    let intersections = sphere.intersect(ray).unwrap();
    assert_eq!(intersections.len(), 2);
    assert!(is_equal(intersections[0].t, s(4.0)));
    assert!(is_equal(intersections[1].t, s(6.0)));

    // A ray intersects a sphere at a tangent
    let ray = Ray {
        origin: point(0.0, 1.0, -5.0),
        direction: vector(0.0, 0.0, 1.0),
    };
    let sphere = Shape::Sphere(Sphere::new(&mut ids));
    let intersections = sphere.intersect(ray).unwrap();
    assert_eq!(intersections.len(), 1);
    assert!(is_equal(intersections[0].t, s(5.0)));

    // A ray misses a sphere
    let ray = Ray {
        origin: point(0.0, 2.0, -5.0),
        direction: vector(0.0, 0.0, 1.0),
    };
    let sphere = Shape::Sphere(Sphere::new(&mut ids));
    let intersections = sphere.intersect(ray).unwrap();
    assert_eq!(intersections.len(), 0);

    // A ray originates inside a sphere
    let ray = Ray {
        origin: point(0.0, 0.0, 0.0),
        direction: vector(0.0, 0.0, 1.0),
    };
    let sphere = Shape::Sphere(Sphere::new(&mut ids));
    let intersections = sphere.intersect(ray).unwrap();
    assert_eq!(intersections.len(), 2);
    assert!(is_equal(intersections[0].t, s(-1.0)));
    assert!(is_equal(intersections[1].t, s(1.0)));

    // A sphere is behind a ray
    let ray = Ray {
        origin: point(0.0, 0.0, 5.0),
        direction: vector(0.0, 0.0, 1.0),
    };
    let sphere = Shape::Sphere(Sphere::new(&mut ids));
    let intersections = sphere.intersect(ray).unwrap();
    assert_eq!(intersections.len(), 2);
    assert!(is_equal(intersections[0].t, s(-6.0)));
    assert!(is_equal(intersections[1].t, s(-4.0)));

    // Intersect sets the object on the intersection
    let ray = Ray {
        origin: point(0.0, 0.0, -5.0),
        direction: vector(0.0, 0.0, 1.0),
    };
    let sphere = Shape::Sphere(Sphere::new(&mut ids));
    let intersections = sphere.intersect(ray).unwrap();
    assert_eq!(intersections.len(), 2);
    assert_eq!(intersections[0].object.id(), sphere.id());
    assert_eq!(intersections[1].object.id(), sphere.id());

    // Intersecting a scaled sphere with a ray
    let ray = Ray {
        origin: point(0.0, 0.0, -5.0),
        direction: vector(0.0, 0.0, 1.0),
    };
    let mut sphere = Sphere::new(&mut ids);
    sphere.transform = Mat4::identity().scale(s(2.0), s(2.0), s(2.0));
    let sphere = Shape::Sphere(sphere);
    let intersections = sphere.intersect(ray).unwrap();
    assert_eq!(intersections.len(), 2);
    assert!(is_equal(intersections[0].t, s(3.0)));
    assert!(is_equal(intersections[1].t, s(7.0)));

    // Intersecting a translated sphere with a ray
    let ray = Ray {
        origin: point(0.0, 0.0, -5.0),
        direction: vector(0.0, 0.0, 1.0),
    };
    let mut sphere = Sphere::new(&mut ids);
    sphere.transform = Mat4::identity().translate(s(5.0), s(0.0), s(0.0));
    let sphere = Shape::Sphere(sphere);
    let intersections = sphere.intersect(ray).unwrap();
    assert_eq!(intersections.len(), 0);
}

#[test]
fn sphere_test_local_normal_at() {
    let mut ids = IdSource::new();
    // The normal on a sphere at a point on the x axis
    let sphere = Shape::Sphere(Sphere::new(&mut ids));
    assert_eq!(
        sphere.normal_at(point(1.0, 0.0, 0.0)).unwrap(),
        vector(1.0, 0.0, 0.0)
    );

    // The normal on a sphere at a point on the y axis
    let sphere = Shape::Sphere(Sphere::new(&mut ids));
    assert_eq!(
        sphere.normal_at(point(0.0, 1.0, 0.0)).unwrap(),
        vector(0.0, 1.0, 0.0)
    );

    // The normal on a sphere at a point on the z axis
    let sphere = Shape::Sphere(Sphere::new(&mut ids));
    assert_eq!(
        sphere.normal_at(point(0.0, 0.0, 1.0)).unwrap(),
        vector(0.0, 0.0, 1.0)
    );

    // The normal on a sphere at a nonaxial point
    let third = 3.0_f64.sqrt() / 3.0;
    let sphere = Shape::Sphere(Sphere::new(&mut ids));
    assert_eq!(
        sphere.normal_at(point(third, third, third)).unwrap(),
        vector(third, third, third)
    );

    // The normal is a normalized vector
    let sphere = Shape::Sphere(Sphere::new(&mut ids));
    let normal = sphere.normal_at(point(third, third, third)).unwrap();
    assert_eq!(normal.normalize(), normal);

    // Computing the normal on a translated sphere
    let mut sphere = Sphere::new(&mut ids);
    sphere.transform = Mat4::identity().translate(s(0.0), s(1.0), s(0.0));
    let sphere = Shape::Sphere(sphere);
    assert_eq!(
        sphere.normal_at(point(0.0, 1.70711, -0.70711)).unwrap(),
        vector(0.0, 0.70711, -0.70711)
    );

    // Computing the normal on a transformed sphere
    let angle = PI / 5.0;
    let mut sphere = Sphere::new(&mut ids);
    sphere.transform = Mat4::identity()
        .rotate_z(s(angle.sin()), s(angle.cos()))
        .scale(s(1.0), s(0.5), s(1.0));
    let sphere = Shape::Sphere(sphere);
    assert_eq!(
        sphere
            .normal_at(point(0.0, SQRT_2 / 2.0, -SQRT_2 / 2.0))
            .unwrap(),
        vector(0.0, 0.97014, -0.24254)
    );
}

#[test]
fn sphere_distances_are_exact_on_whole_numbers() {
    let mut ids = IdSource::new();
    let sphere = Sphere::new(&mut ids);
    let ts = sphere
        .local_intersect(Ray {
            origin: point(0.0, 0.0, -5.0),
            direction: vector(0.0, 0.0, 1.0),
        })
        .unwrap();
    assert_eq!(ts.len(), 2);
    assert_eq!(ts[0].raw, 4_000_000_000);
    assert_eq!(ts[1].raw, 6_000_000_000);
    let ts = sphere
        .local_intersect(Ray {
            origin: point(0.0, 1.0, -5.0),
            direction: vector(0.0, 0.0, 1.0),
        })
        .unwrap();
    assert_eq!(ts.len(), 1);
    assert_eq!(ts[0].raw, 5_000_000_000);
    assert_eq!(
        sphere.local_normal_at(point(0.5, -0.25, 2.0)),
        vector(0.5, -0.25, 2.0)
    );
}

#[test]
fn shapes_get_rising_identities() {
    let mut ids = IdSource::new();
    let a = Sphere::new(&mut ids);
    let b = Sphere::new(&mut ids);
    let c = Sphere::new(&mut ids);
    assert_eq!(a.id, 0);
    assert_eq!(b.id, 1);
    assert_eq!(c.id, 2);
    assert_eq!(ids.next, 3);
    assert_eq!(ids.fresh(), 3);
    let a = Shape::Sphere(a);
    let b = Shape::Sphere(b);
    assert!(a != b);
    assert!(a == a);
    // Two shapes are the same shape where their identities agree, whatever
    // else they hold.
    let mut again = IdSource::new();
    let twin = Shape::Sphere(
        Sphere::new(&mut again).set_transform(Mat4::identity().scale(s(2.0), s(2.0), s(2.0))),
    );
    assert!(a == twin);
}

#[test]
fn sphere_builders_keep_the_identity() {
    let mut ids = IdSource::new();
    let transform = Mat4::identity().translate(s(1.0), s(2.0), s(3.0));
    let sphere = Sphere::new(&mut ids)
        .set_transform(transform)
        .set_pattern(Pattern::Stripe(Stripe::default()));
    assert_eq!(sphere.id, 0);
    assert_eq!(sphere.transform, transform);
    assert!(sphere.material.pattern.is_some());
    assert_eq!(sphere.material.ambient.raw, 100_000_000);
    let mut shape = Shape::Sphere(sphere);
    assert_eq!(*shape.transform(), transform);
    shape.material_mut().ambient = s(1.0);
    assert_eq!(shape.material().ambient.raw, 1_000_000_000);
    assert_eq!(shape.id(), 0);
}

#[test]
fn a_shape_without_inverse_cannot_be_met() {
    let mut ids = IdSource::new();
    let shape = Shape::Sphere(Sphere::new(&mut ids).set_transform(Mat4::zero()));
    let ray = Ray {
        origin: point(0.0, 0.0, -5.0),
        direction: vector(0.0, 0.0, 1.0),
    };
    assert!(matches!(shape.intersect(ray), Err(MatrixError::NonInvertible)));
    assert_eq!(
        shape.normal_at(point(1.0, 0.0, 0.0)),
        Err(MatrixError::NonInvertible)
    );
}

#[test]
fn a_ray_from_too_far_is_reported() {
    let mut ids = IdSource::new();
    let sphere = Sphere::new(&mut ids);
    // The square of the distance is beyond the largest number.
    let far = sphere.local_intersect(Ray {
        origin: point(0.0, 0.0, -100_000.0),
        direction: vector(0.0, 0.0, 1.0),
    });
    assert_eq!(far, Err(MatrixError::OutOfRange));
    let shape = Shape::Sphere(sphere);
    assert!(matches!(
        shape.intersect(Ray {
            origin: point(0.0, 0.0, -100_000.0),
            direction: vector(0.0, 0.0, 1.0),
        }),
        Err(MatrixError::OutOfRange)
    ));
    // From forty thousand units the two distances are right.
    let near = shape
        .intersect(Ray {
            origin: point(0.0, 0.0, -40_000.0),
            direction: vector(0.0, 0.0, 1.0),
        })
        .unwrap();
    assert_eq!(near.len(), 2);
    assert_eq!(near[0].t.raw, 39_999_000_000_000);
    assert_eq!(near[1].t.raw, 40_001_000_000_000);
    // A ray without direction has no distances that could be represented.
    let still = shape.intersect(Ray {
        origin: point(0.0, 0.0, 0.0),
        direction: vector(0.0, 0.0, 0.0),
    });
    assert!(matches!(still, Err(MatrixError::OutOfRange)));
}
