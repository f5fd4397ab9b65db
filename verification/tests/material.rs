use std::f64::consts::SQRT_2;
use trace::color::Color;
use trace::error::MatrixError;
use trace::light::Light;
use trace::mat4::Mat4;
use trace::material::Material;
use trace::pattern::stripe::Stripe;
use trace::pattern::Pattern;
use trace::point::Point;
use trace::scalar::Scalar;
use trace::shape::IdSource;
use trace::shape::Shape;
use trace::sphere::Sphere;
use trace::vector::Vector;

fn s(value: f64) -> Scalar {
    Scalar::from_raw((value * 1e9).round() as i64)
}

fn point(x: f64, y: f64, z: f64) -> Point {
    Point::new(s(x), s(y), s(z))
}

fn vector(x: f64, y: f64, z: f64) -> Vector {
    Vector::new(s(x), s(y), s(z))
}

fn color(red: f64, green: f64, blue: f64) -> Color {
    Color::new(s(red), s(green), s(blue))
}

fn unit_sphere() -> Shape {
    let mut ids = IdSource::new();
    Shape::Sphere(Sphere::new(&mut ids))
}

fn white_light(x: f64, y: f64, z: f64) -> Light {
    Light {
        position: point(x, y, z),
        intensity: color(1.0, 1.0, 1.0),
    }
}

#[test]
fn lighting_with_the_eye_between_light_and_surface() {
    let shape = unit_sphere();
    let material = Material::new();
    let result = material.lighting(
        &shape,
        white_light(0.0, 0.0, -10.0),
        Point::zero(),
        vector(0.0, 0.0, -1.0),
        vector(0.0, 0.0, -1.0),
        false,
    );
    assert_eq!(result.unwrap(), color(1.9, 1.9, 1.9));
}

#[test]
fn lighting_with_the_eye_offset_45_degrees() {
    let shape = unit_sphere();
    let material = Material::new();
    let result = material.lighting(
        &shape,
        white_light(0.0, 0.0, -10.0),
        Point::zero(),
        vector(0.0, SQRT_2 / 2.0, -SQRT_2 / 2.0),
        vector(0.0, 0.0, -1.0),
        false,
    );
    assert_eq!(result.unwrap(), color(1.0, 1.0, 1.0));
}

#[test]
fn lighting_with_the_light_offset_45_degrees() {
    let shape = unit_sphere();
    let material = Material::new();
    let result = material.lighting(
        &shape,
        white_light(0.0, 10.0, -10.0),
        Point::zero(),
        vector(0.0, 0.0, -1.0),
        vector(0.0, 0.0, -1.0),
        false,
    );
    assert_eq!(result.unwrap(), color(0.7364, 0.7364, 0.7364));
}

#[test]
fn lighting_with_the_eye_in_the_path_of_the_reflection() {
    let shape = unit_sphere();
    let material = Material::new();
    let result = material.lighting(
        &shape,
        white_light(0.0, 10.0, -10.0),
        Point::zero(),
        vector(0.0, -SQRT_2 / 2.0, -SQRT_2 / 2.0),
        vector(0.0, 0.0, -1.0),
        false,
    );
    assert_eq!(result.unwrap(), color(1.6364, 1.6364, 1.6364));
}

#[test]
fn lighting_with_the_light_behind_the_surface() {
    let shape = unit_sphere();
    let material = Material::new();
    let result = material.lighting(
        &shape,
        white_light(0.0, 0.0, 10.0),
        Point::zero(),
        vector(0.0, 0.0, -1.0),
        vector(0.0, 0.0, -1.0),
        false,
    );
    assert_eq!(result.unwrap(), color(0.1, 0.1, 0.1));
}

#[test]
fn lighting_with_the_surface_in_shadow() {
    let shape = unit_sphere();
    let material = Material::new();
    let result = material.lighting(
        &shape,
        white_light(0.0, 0.0, -10.0),
        Point::zero(),
        vector(0.0, 0.0, -1.0),
        vector(0.0, 0.0, -1.0),
        true,
    );
    assert_eq!(result.unwrap(), color(0.1, 0.1, 0.1));
    let exact = material
        .lighting(
            &shape,
            white_light(0.0, 0.0, -10.0),
            Point::zero(),
            vector(0.0, 0.0, -1.0),
            vector(0.0, 0.0, -1.0),
            true,
        )
        .unwrap();
    assert_eq!(exact.red.raw, 100_000_000);
}

#[test]
fn lighting_with_a_pattern() {
    let shape = unit_sphere();
    let mut material = Material::new();
    material.pattern = Some(Pattern::Stripe(Stripe::new(
        color(1.0, 1.0, 1.0),
        color(0.0, 0.0, 0.0),
    )));
    material.ambient = s(1.0);
    material.diffuse = s(0.0);
    material.specular = s(0.0);
    let eye = vector(0.0, 0.0, -1.0);
    let normal = vector(0.0, 0.0, -1.0);
    let light = white_light(0.0, 0.0, -10.0);
    let c1 = material.lighting(&shape, light, point(0.9, 0.0, 0.0), eye, normal, false);
    let c2 = material.lighting(&shape, light, point(1.1, 0.0, 0.0), eye, normal, false);
    assert_eq!(c1.unwrap(), color(1.0, 1.0, 1.0));
    assert_eq!(c2.unwrap(), color(0.0, 0.0, 0.0));
}

#[test]
fn lighting_fails_where_the_pattern_cannot_be_read() {
    let mut ids = IdSource::new();
    let shape = Shape::Sphere(Sphere::new(&mut ids).set_transform(Mat4::zero()));
    let mut material = Material::new();
    let eye = vector(0.0, 0.0, -1.0);
    let normal = vector(0.0, 0.0, -1.0);
    let light = white_light(0.0, 0.0, -10.0);
    // Without a pattern no transform is needed.
    assert!(material
        .lighting(&shape, light, Point::zero(), eye, normal, false)
        .is_ok());
    material.pattern = Some(Pattern::Stripe(Stripe::default()));
    assert_eq!(
        material.lighting(&shape, light, Point::zero(), eye, normal, false),
        Err(MatrixError::NonInvertible)
    );
}

#[test]
fn default_material() {
    let material = Material::default();
    assert!(material.pattern.is_none());
    assert_eq!(material.color, Color::white());
    assert_eq!(material.ambient.raw, 100_000_000);
    assert_eq!(material.diffuse.raw, 900_000_000);
    assert_eq!(material.specular.raw, 900_000_000);
    assert_eq!(material.shininess, 200);
}

#[test]
fn materials_are_compared_within_tolerance() {
    let a = Material::new();
    let mut b = Material::new();
    assert!(a == b);
    b.ambient = s(0.100001);
    assert!(a == b);
    b.ambient = s(0.2);
    assert!(a != b);
    let mut c = Material::new();
    c.shininess = 10;
    assert!(a != c);
    let mut d = Material::new();
    d.pattern = Some(Pattern::Stripe(Stripe::default()));
    assert!(a == d);
}
