use trace::color::Color;
use trace::error::MatrixError;
use trace::mat4::Mat4;
use trace::pattern::blended::Blended;
use trace::pattern::checkers::Checkers;
use trace::pattern::checkers_nested::CheckersNested;
use trace::pattern::gradient::Gradient;
use trace::pattern::gradient::GradientNested;
use trace::pattern::perturb::displace;
use trace::pattern::perturb::Flat;
use trace::pattern::perturb::Noise;
use trace::pattern::perturb::NoiseSource;
use trace::pattern::perturb::Perturb;
use trace::pattern::radial_gradient::RadialGradient;
use trace::pattern::radial_gradient::RadialGradientNested;
use trace::pattern::ring::Ring;
use trace::pattern::ring::RingNested;
use trace::pattern::solid::Solid;
use trace::pattern::stripe::Stripe;
use trace::pattern::stripe::StripeNested;
use trace::pattern::Pattern;
use trace::pattern::TestPattern;
use trace::point::Point;
use trace::scalar::Scalar;
use trace::shape::IdSource;
use trace::shape::Shape;
use trace::sphere::Sphere;

fn s(value: f64) -> Scalar {
    Scalar::from_raw((value * 1e9).round() as i64)
}

fn point(x: f64, y: f64, z: f64) -> Point {
    Point::new(s(x), s(y), s(z))
}

fn color(red: f64, green: f64, blue: f64) -> Color {
    Color::new(s(red), s(green), s(blue))
}

fn solid(red: f64, green: f64, blue: f64) -> Pattern {
    Pattern::Solid(Solid::new(color(red, green, blue)))
}

#[test]
fn test_at_object() {
    let mut ids = IdSource::new();
    // A pattern with an object transformation
    let mut shape = Sphere::new(&mut ids);
    shape.transform = Mat4::identity().scale(s(2.0), s(2.0), s(2.0));
    let shape = Shape::Sphere(shape);
    let pattern = Pattern::Test(TestPattern {
        transform: Mat4::identity(),
    });
    println!("pattern.transform() is {:?}", pattern.transform());
    assert_eq!(
        pattern.at_object(&shape, point(2.0, 3.0, 4.0)).unwrap(),
        color(1.0, 1.5, 2.0)
    );

    // A pattern with a pattern transformation
    let shape = Shape::Sphere(Sphere::new(&mut ids));
    let mut pattern = TestPattern {
        transform: Mat4::identity(),
    };
    pattern.transform = Mat4::identity().scale(s(2.0), s(2.0), s(2.0));
    let pattern = Pattern::Test(pattern);
    assert_eq!(
        pattern.at_object(&shape, point(2.0, 3.0, 4.0)).unwrap(),
        color(1.0, 1.5, 2.0)
    );

    // A pattern with both an object and a pattern transformation
    let mut shape = Sphere::new(&mut ids);
    shape.transform = Mat4::identity().scale(s(2.0), s(2.0), s(2.0));
    let shape = Shape::Sphere(shape);
    let mut pattern = TestPattern {
        transform: Mat4::identity(),
    };
    pattern.transform = Mat4::identity().translate(s(0.5), s(1.0), s(1.5));
    let pattern = Pattern::Test(pattern);
    assert_eq!(
        pattern.at_object(&shape, point(2.5, 3.0, 3.5)).unwrap(),
        color(0.75, 0.5, 0.25)
    );
}

#[test]
fn checkers_test_at() {
    // Checkers should repeat in x
    let pattern = Checkers::default();
    assert_eq!(pattern.at(point(0.0, 0.0, 0.0)), Color::white());
    assert_eq!(pattern.at(point(0.99, 0.0, 0.0)), Color::white());
    assert_eq!(pattern.at(point(1.01, 0.0, 0.0)), Color::black());

    // Checkers should repeat in y
    let pattern = Checkers::default();
    assert_eq!(pattern.at(point(0.0, 0.0, 0.0)), Color::white());
    assert_eq!(pattern.at(point(0.0, 0.99, 0.0)), Color::white());
    assert_eq!(pattern.at(point(0.0, 1.01, 0.0)), Color::black());

    // Checkers should repeat in z
    let pattern = Checkers::default();
    assert_eq!(pattern.at(point(0.0, 0.0, 0.0)), Color::white());
    assert_eq!(pattern.at(point(0.0, 0.0, 0.99)), Color::white());
    assert_eq!(pattern.at(point(0.0, 0.0, 1.01)), Color::black());
}

#[test]
fn gradient_test_at() {
    // A gradient linearly interpolates between colors
    let pattern = Gradient::default();
    assert_eq!(pattern.at(point(0.0, 0.0, 0.0)), Color::white());
    assert_eq!(pattern.at(point(0.25, 0.0, 0.0)), color(0.75, 0.75, 0.75));
    assert_eq!(pattern.at(point(0.5, 0.0, 0.0)), color(0.5, 0.5, 0.5));
    assert_eq!(pattern.at(point(0.75, 0.0, 0.0)), color(0.25, 0.25, 0.25));
}

#[test]
fn ring_test_at() {
    let pattern = Ring::default();
    assert_eq!(pattern.at(point(0.0, 0.0, 0.0)), Color::white());
    assert_eq!(pattern.at(point(1.0, 0.0, 0.0)), Color::black());
    assert_eq!(pattern.at(point(0.0, 0.0, 1.0)), Color::black());
    assert_eq!(pattern.at(point(0.708, 0.0, 0.708)), Color::black());
}

#[test]
fn stripe_test_at() {
    // A stripe pattern is constant in y
    let pattern = Stripe::default();
    assert_eq!(pattern.at(point(0.0, 0.0, 0.0)), Color::white());
    assert_eq!(pattern.at(point(0.0, 1.0, 0.0)), Color::white());
    assert_eq!(pattern.at(point(0.0, 2.0, 0.0)), Color::white());

    // A stripe pattern is constant in z
    let pattern = Stripe::default();
    assert_eq!(pattern.at(point(0.0, 0.0, 0.0)), Color::white());
    assert_eq!(pattern.at(point(0.0, 0.0, 1.0)), Color::white());
    assert_eq!(pattern.at(point(0.0, 0.0, 2.0)), Color::white());

    // A stripe pattern alternates in x
    let pattern = Stripe::default();
    assert_eq!(pattern.at(point(0.0, 0.0, 0.0)), Color::white());
    assert_eq!(pattern.at(point(0.9, 0.0, 0.0)), Color::white());
    assert_eq!(pattern.at(point(1.0, 0.0, 0.0)), Color::black());
    assert_eq!(pattern.at(point(-0.1, 0.0, 0.0)), Color::black());
    assert_eq!(pattern.at(point(-1.0, 0.0, 0.0)), Color::black());
    assert_eq!(pattern.at(point(-1.1, 0.0, 0.0)), Color::white());
}

#[test]
fn stripe_flips_at_every_whole_x() {
    let pattern = Stripe::new(color(1.0, 0.0, 0.0), color(0.0, 0.0, 1.0));
    for n in -6..6 {
        let left = pattern.at(Point::new(
            Scalar::from_raw(n * 1_000_000_000 - 1),
            s(3.25),
            s(-7.5),
        ));
        let right = pattern.at(Point::new(Scalar::from_raw(n * 1_000_000_000), s(-40.0), s(0.125)));
        assert_ne!(left, right);
        let expected = if n % 2 == 0 { pattern.a } else { pattern.b };
        assert_eq!(right, expected);
    }
}

#[test]
fn solid_is_the_same_everywhere() {
    let pattern = Solid::new(color(0.2, 0.4, 0.6));
    assert_eq!(pattern.at(point(0.0, 0.0, 0.0)), color(0.2, 0.4, 0.6));
    assert_eq!(pattern.at(point(-9.5, 100.0, 3.0)), color(0.2, 0.4, 0.6));
    assert_eq!(Solid::default().at(point(1.0, 2.0, 3.0)), Color::white());
    assert_eq!(pattern.transform, Mat4::identity());
}

#[test]
fn radial_gradient_blends_away_from_the_axis() {
    let pattern = RadialGradient::default();
    assert_eq!(pattern.at(point(0.0, 0.0, 0.0)), Color::white());
    assert_eq!(pattern.at(point(0.25, 5.0, 0.0)), color(0.75, 0.75, 0.75));
    assert_eq!(pattern.at(point(0.0, 0.0, 0.5)), color(0.5, 0.5, 0.5));
    assert_eq!(pattern.at(point(0.3, 0.0, 0.4)), color(0.5, 0.5, 0.5));
    assert_eq!(pattern.at(point(0.0, 0.0, 1.25)), color(0.75, 0.75, 0.75));
}

#[test]
fn nested_patterns_read_their_children() {
    let red = || solid(1.0, 0.0, 0.0);
    let blue = || solid(0.0, 0.0, 1.0);
    let stripes = StripeNested::new(red(), blue());
    assert_eq!(stripes.at(point(0.5, 0.0, 0.0)), color(1.0, 0.0, 0.0));
    assert_eq!(stripes.at(point(1.5, 0.0, 0.0)), color(0.0, 0.0, 1.0));
    let rings = RingNested::new(red(), blue());
    assert_eq!(rings.at(point(0.5, 0.0, 0.0)), color(1.0, 0.0, 0.0));
    assert_eq!(rings.at(point(0.0, 0.0, 1.5)), color(0.0, 0.0, 1.0));
    let checks = CheckersNested::new(red(), blue());
    assert_eq!(checks.at(point(0.5, 0.5, 0.5)), color(1.0, 0.0, 0.0));
    assert_eq!(checks.at(point(0.5, 1.5, 0.5)), color(0.0, 0.0, 1.0));
    assert_eq!(checks.at(point(1.5, 1.5, 0.5)), color(1.0, 0.0, 0.0));
    let gradient = GradientNested::new(red(), blue());
    assert_eq!(gradient.at(point(0.25, 0.0, 0.0)), color(0.75, 0.0, 0.25));
    let radial = RadialGradientNested::new(red(), blue());
    assert_eq!(radial.at(point(0.0, 0.0, 0.75)), color(0.25, 0.0, 0.75));
    let blended = Blended::new(red(), blue());
    assert_eq!(blended.at(point(3.0, 4.0, 5.0)), color(0.5, 0.0, 0.5));
    // A tree three levels deep.
    let tree = Pattern::Blended(Blended::new(
        Pattern::StripeNested(StripeNested::new(
            Pattern::Checkers(Checkers::new(color(1.0, 1.0, 1.0), color(0.0, 0.0, 0.0))),
            blue(),
        )),
        Pattern::Gradient(Gradient::new(color(0.0, 0.0, 0.0), color(0.0, 1.0, 0.0))),
    ));
    assert_eq!(tree.at(point(0.5, 0.5, 0.5)), color(0.5, 0.75, 0.5));
    assert_eq!(tree.at(point(0.5, 1.5, 0.5)), color(0.0, 0.25, 0.0));
    assert_eq!(tree.at(point(1.5, 0.0, 0.0)), color(0.0, 0.25, 0.5));
}

#[test]
fn nested_defaults_are_white_and_black() {
    assert_eq!(StripeNested::default().at(point(0.5, 0.0, 0.0)), Color::white());
    assert_eq!(StripeNested::default().at(point(1.5, 0.0, 0.0)), Color::black());
    assert_eq!(RingNested::default().at(point(1.5, 0.0, 0.0)), Color::black());
    assert_eq!(
        GradientNested::default().at(point(0.5, 0.0, 0.0)),
        color(0.5, 0.5, 0.5)
    );
    assert_eq!(
        RadialGradientNested::default().at(point(0.5, 0.0, 0.0)),
        color(0.5, 0.5, 0.5)
    );
    assert_eq!(Ring::default().at(point(2.5, 0.0, 0.0)), Color::white());
}

struct Ramp;

impl Noise for Ramp {
    fn value(&self, x: Scalar, _y: Scalar, _z: Scalar) -> Scalar {
        x
    }

    fn noise3(&self, x: Scalar, _y: Scalar, _z: Scalar) -> Scalar {
        x
    }
}

#[test]
fn perturb_moves_the_point_by_two_tenths_of_the_noise() {
    let moved = displace(point(1.0, 2.0, 3.0), s(0.5));
    assert_eq!(moved.x.raw, 1_100_000_000);
    assert_eq!(moved.y.raw, 2_100_000_000);
    assert_eq!(moved.z.raw, 3_100_000_000);
    // Flat noise is kept between minus one and one.
    assert_eq!(Flat { level: s(7.0) }.noise3(s(0.0), s(0.0), s(0.0)).raw, 1_000_000_000);
    assert_eq!(Flat { level: s(-7.0) }.noise3(s(0.0), s(0.0), s(0.0)).raw, -1_000_000_000);
    assert_eq!(Flat { level: s(0.25) }.noise3(s(1.0), s(2.0), s(3.0)).raw, 250_000_000);
    let still = displace(point(1.0, 2.0, 3.0), s(0.0));
    assert_eq!(still.x.raw, 1_000_000_000);

    let flat = Perturb::new(
        Pattern::Test(TestPattern {
            transform: Mat4::identity(),
        }),
        NoiseSource {
            noise: Box::new(Flat { level: s(-1.0) }),
        },
    );
    assert_eq!(flat.at(point(1.0, 2.0, 3.0)), color(0.8, 1.8, 2.8));

    // Noise that grows with x moves the stripe boundary: 0.9 + 0.2 * 0.9 = 1.08.
    let ramp = Perturb::new(
        Pattern::Stripe(Stripe::default()),
        NoiseSource {
            noise: Box::new(Ramp),
        },
    );
    assert_eq!(ramp.at(point(0.9, 0.0, 0.0)), Color::black());
    assert_eq!(ramp.at(point(0.8, 0.0, 0.0)), Color::white());
    let nested = Pattern::Blended(Blended::new(
        Pattern::Perturb(ramp),
        solid(1.0, 1.0, 1.0),
    ));
    assert_eq!(nested.at(point(0.9, 0.0, 0.0)), color(0.5, 0.5, 0.5));
}

#[test]
fn set_transform_replaces_the_transform_only() {
    let transform = Mat4::identity().scale(s(2.0), s(3.0), s(4.0));
    let stripe = Stripe::new(color(1.0, 0.0, 0.0), color(0.0, 1.0, 0.0)).set_transform(transform);
    assert_eq!(stripe.transform, transform);
    assert_eq!(stripe.a, color(1.0, 0.0, 0.0));
    assert_eq!(stripe.b, color(0.0, 1.0, 0.0));
    let pattern = Pattern::Stripe(stripe);
    assert_eq!(*pattern.transform(), transform);
    let mut ids = IdSource::new();
    let shape = Shape::Sphere(Sphere::new(&mut ids));
    // x = 3 in the world is x = 1.5 in the pattern's space.
    assert_eq!(
        pattern.at_object(&shape, point(3.0, 0.0, 0.0)).unwrap(),
        color(0.0, 1.0, 0.0)
    );
    assert_eq!(
        pattern.at_object(&shape, point(1.0, 0.0, 0.0)).unwrap(),
        color(1.0, 0.0, 0.0)
    );
}

#[test]
fn at_object_fails_without_an_inverse() {
    let mut ids = IdSource::new();
    let shape = Shape::Sphere(Sphere::new(&mut ids));
    let pattern = Pattern::Solid(Solid::new(color(1.0, 1.0, 1.0)).set_transform(Mat4::zero()));
    assert_eq!(
        pattern.at_object(&shape, point(0.0, 0.0, 0.0)),
        Err(MatrixError::NonInvertible)
    );
    let flat = Shape::Sphere(Sphere::new(&mut ids).set_transform(Mat4::zero()));
    let pattern = Pattern::Solid(Solid::new(color(1.0, 1.0, 1.0)));
    assert_eq!(
        pattern.at_object(&flat, point(0.0, 0.0, 0.0)),
        Err(MatrixError::NonInvertible)
    );
}
