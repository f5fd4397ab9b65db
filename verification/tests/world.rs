use trace::color::Color;
use trace::error::MatrixError;
use trace::intersection::Intersection;
use trace::light::Light;
use trace::mat4::Mat4;
use trace::plane::Plane;
use trace::point::Point;
use trace::ray::Ray;
use trace::scalar::is_equal;
use trace::scalar::Scalar;
use trace::shape::IdSource;
use trace::shape::Shape;
use trace::sphere::Sphere;
use trace::vector::Vector;
use trace::world::World;

fn s(value: f64) -> Scalar {
    Scalar::from_raw((value * 1e9).round() as i64)
}

fn point(x: f64, y: f64, z: f64) -> Point {
    Point::new(s(x), s(y), s(z))
}

fn vector(x: f64, y: f64, z: f64) -> Vector {
    Vector::new(s(x), s(y), s(z))
}

fn color(red: f64, green: f64, blue: f64) -> Color {
    Color::new(s(red), s(green), s(blue))
}

fn default_world() -> World {
    let mut ids = IdSource::new();
    World::default(&mut ids)
}

#[test]
fn test_intersect() {
    let world = default_world();
    let ray = Ray {
        origin: point(0.0, 0.0, -5.0),
        direction: vector(0.0, 0.0, 1.0),
    };
    let intersections = world.intersect(ray).unwrap();
    assert_eq!(intersections.len(), 4);
    assert!(is_equal(intersections[0].t, s(4.0)));
    assert!(is_equal(intersections[1].t, s(4.5)));
    assert!(is_equal(intersections[2].t, s(5.5)));
    assert!(is_equal(intersections[3].t, s(6.0)));
}

#[test]
fn test_is_shadowed() {
    // There is no shadow when nothing is collinear with point and light
    let world = default_world();
    let p = point(0.0, 10.0, 0.0);
    assert_eq!(world.is_shadowed(p), Ok(false));

    // The shadow when an object is between the point and the light
    let world = default_world();
    let p = point(10.0, -10.0, 10.0);
    assert_eq!(world.is_shadowed(p), Ok(true));

    // There is no shadow when an object is behind the light
    let world = default_world();
    let p = point(-20.0, 20.0, -20.0);
    assert_eq!(world.is_shadowed(p), Ok(false));

    // There is no shadow when an object is behind the point
    let world = default_world();
    let p = point(-2.0, 2.0, -2.0);
    assert_eq!(world.is_shadowed(p), Ok(false));
}

#[test]
fn test_color_at() {
    // The color when a ray misses
    let world = default_world();
    let ray = Ray {
        origin: point(0.0, 0.0, -5.0),
        direction: vector(0.0, 1.0, 0.0),
    };
    assert_eq!(world.color_at(ray).unwrap(), color(0.0, 0.0, 0.0));

    // The color when a ray hits
    let world = default_world();
    let ray = Ray {
        origin: point(0.0, 0.0, -5.0),
        direction: vector(0.0, 0.0, 1.0),
    };
    assert_eq!(
        world.color_at(ray).unwrap(),
        color(0.38066, 0.47583, 0.2855)
    );

    // The color with an intersection behind the ray
    let mut world = default_world();
    world.objects[0].material_mut().ambient = s(1.0);
    world.objects[1].material_mut().ambient = s(1.0);
    let inner = &world.objects[1];
    let ray = Ray {
        origin: point(0.0, 0.0, 0.75),
        direction: vector(0.0, 0.0, -1.0),
    };
    assert_eq!(world.color_at(ray).unwrap(), inner.material().color);
}

#[test]
fn test_shade_hit() {
    // Shading an intersection
    let world = default_world();
    let ray = Ray {
        origin: point(0.0, 0.0, -5.0),
        direction: vector(0.0, 0.0, 1.0),
    };
    let shape = &world.objects[0];
    let intersection = Intersection {
        t: s(4.0),
        object: shape,
    };
    let comps = intersection.prepare(ray).unwrap();
    assert_eq!(
        world.shade_hit(comps).unwrap(),
        color(0.38066, 0.47583, 0.2855)
    );

    // Shading an intersection from the inside
    let mut world = default_world();
    world.light = Light {
        position: point(0.0, 0.25, 0.0),
        intensity: color(1.0, 1.0, 1.0),
    };
    let ray = Ray {
        origin: point(0.0, 0.0, 0.0),
        direction: vector(0.0, 0.0, 1.0),
    };
    let intersection = Intersection {
        t: s(0.5),
        object: &world.objects[1],
    };
    let comps = intersection.prepare(ray).unwrap();
    assert_eq!(
        world.shade_hit(comps).unwrap(),
        color(0.90498, 0.90498, 0.90498)
    );

    // shade_hit() is given an intersection in shadow
    let mut ids = IdSource::new();
    let mut world = World::default(&mut ids);
    world.light = Light {
        position: point(0.0, 0.0, -10.0),
        intensity: color(1.0, 1.0, 1.0),
    };
    let sphere_one = Sphere::new(&mut ids);
    world.objects.push(Shape::Sphere(sphere_one));
    let mut sphere_two = Sphere::new(&mut ids);
    sphere_two.transform = Mat4::identity().translate(s(0.0), s(0.0), s(10.0));
    world.objects.push(Shape::Sphere(sphere_two));
    let ray = Ray {
        origin: point(0.0, 0.0, 5.0),
        direction: vector(0.0, 0.0, 1.0),
    };
    let intersection = Intersection {
        t: s(4.0),
        object: &world.objects[1],
    };
    let comps = intersection.prepare(ray).unwrap();
    assert_eq!(world.shade_hit(comps).unwrap(), color(0.1, 0.1, 0.1));
}

#[test]
fn default_world_is_as_described() {
    let mut ids = IdSource::new();
    ids.fresh();
    ids.fresh();
    let world = World::default(&mut ids);
    assert_eq!(ids.next, 4);
    assert_eq!(world.light.position, point(-10.0, 10.0, -10.0));
    assert_eq!(world.light.intensity, Color::white());
    assert_eq!(world.objects.len(), 2);
    assert_eq!(world.objects[0].id(), 2);
    assert_eq!(world.objects[1].id(), 3);
    assert_eq!(*world.objects[0].transform(), Mat4::identity());
    assert_eq!(
        *world.objects[1].transform(),
        Mat4::identity().scale(s(0.5), s(0.5), s(0.5))
    );
    let outer = world.objects[0].material();
    assert_eq!(outer.color, color(0.8, 1.0, 0.6));
    assert_eq!(outer.diffuse.raw, 700_000_000);
    assert_eq!(outer.specular.raw, 200_000_000);
    assert_eq!(outer.ambient.raw, 100_000_000);
    assert_eq!(outer.shininess, 200);
    let inner = world.objects[1].material();
    assert_eq!(inner.color, Color::white());
    assert_eq!(inner.diffuse.raw, 900_000_000);
}

#[test]
fn intersections_come_in_ascending_order() {
    let mut ids = IdSource::new();
    let mut world = World::new(Light {
        position: point(-10.0, 10.0, -10.0),
        intensity: Color::white(),
    });
    assert!(world.intersect(Ray {
        origin: point(0.0, 0.0, -5.0),
        direction: vector(0.0, 0.0, 1.0),
    })
    .unwrap()
    .is_empty());
    // Three spheres along z, pushed far one first, and a plane behind them.
    for z in [6.0, 0.0, 3.0] {
        world.push(Shape::Sphere(
            Sphere::new(&mut ids).set_transform(Mat4::identity().translate(s(0.0), s(0.0), s(z))),
        ));
    }
    let turn = std::f64::consts::FRAC_PI_2;
    world.push(Shape::Plane(Plane::new(&mut ids).set_transform(
        Mat4::identity()
            .rotate_x(s(turn.sin()), s(turn.cos()))
            .translate(s(0.0), s(0.0), s(20.0)),
    )));
    let xs = world
        .intersect(Ray {
            origin: point(0.0, 0.0, -5.0),
            direction: vector(0.0, 0.0, 1.0),
        })
        .unwrap();
    let ts: Vec<i64> = xs.iter().map(|x| x.t.raw).collect();
    assert_eq!(
        ts,
        vec![
            4_000_000_000,
            6_000_000_000,
            7_000_000_000,
            9_000_000_000,
            10_000_000_000,
            12_000_000_000,
            25_000_000_000
        ]
    );
    let owners: Vec<usize> = xs.iter().map(|x| x.object.id()).collect();
    assert_eq!(owners, vec![1, 1, 2, 2, 0, 0, 3]);
    assert_eq!(world.objects.len(), 4);
}

#[test]
fn equal_distances_keep_the_order_of_the_shapes() {
    let mut ids = IdSource::new();
    let mut world = World::new(Light {
        position: point(-10.0, 10.0, -10.0),
        intensity: Color::white(),
    });
    world.push(Shape::Sphere(Sphere::new(&mut ids)));
    world.push(Shape::Sphere(Sphere::new(&mut ids)));
    let xs = world
        .intersect(Ray {
            origin: point(0.0, 0.0, -5.0),
            direction: vector(0.0, 0.0, 1.0),
        })
        .unwrap();
    let owners: Vec<usize> = xs.iter().map(|x| x.object.id()).collect();
    assert_eq!(owners, vec![0, 1, 0, 1]);
}

#[test]
fn a_world_with_a_flat_shape_reports_it() {
    let mut ids = IdSource::new();
    let mut world = World::default(&mut ids);
    world.push(Shape::Sphere(Sphere::new(&mut ids).set_transform(Mat4::zero())));
    let ray = Ray {
        origin: point(0.0, 0.0, -5.0),
        direction: vector(0.0, 0.0, 1.0),
    };
    assert!(matches!(world.intersect(ray), Err(MatrixError::NonInvertible)));
    assert_eq!(world.color_at(ray), Err(MatrixError::NonInvertible));
    assert_eq!(
        world.is_shadowed(point(0.0, 10.0, 0.0)),
        Err(MatrixError::NonInvertible)
    );
}
