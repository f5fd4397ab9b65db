//! The names that most scenes need, in one place.

pub use crate::camera::Camera;
pub use crate::canvas::Canvas;
pub use crate::color::Color;
pub use crate::error::MatrixError;
pub use crate::intersection::Computation;
pub use crate::intersection::Intersection;
pub use crate::light::Light;
pub use crate::mat4::Mat4;
pub use crate::material::Material;
pub use crate::pattern::blended::Blended;
pub use crate::pattern::checkers::Checkers;
pub use crate::pattern::checkers_nested::CheckersNested;
pub use crate::pattern::gradient::Gradient;
pub use crate::pattern::gradient::GradientNested;
pub use crate::pattern::perturb::Noise;
pub use crate::pattern::perturb::NoiseSource;
pub use crate::pattern::perturb::Perturb;
pub use crate::pattern::radial_gradient::RadialGradient;
pub use crate::pattern::radial_gradient::RadialGradientNested;
pub use crate::pattern::ring::Ring;
pub use crate::pattern::ring::RingNested;
pub use crate::pattern::solid::Solid;
pub use crate::pattern::stripe::Stripe;
pub use crate::pattern::stripe::StripeNested;
pub use crate::pattern::Pattern;
pub use crate::plane::Plane;
pub use crate::point::Point;
pub use crate::ray::Ray;
pub use crate::scalar::is_equal;
pub use crate::scalar::Scalar;
pub use crate::shape::IdSource;
pub use crate::shape::Shape;
pub use crate::sphere::Sphere;
pub use crate::tuple::Tuple;
pub use crate::vector::Vector;
pub use crate::world::World;
