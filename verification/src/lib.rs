//! A small ray tracer: transform algebra, ray and surface queries, colour
//! patterns, Phong lighting, and a camera that turns a scene into a grid of
//! colours.
//!
//! Every number is a fixed-point number with nine decimal places
//! (`scalar::Scalar`). Sums, products and quotients are rounded to the
//! nearest such number; comparisons "within the tolerance" allow a
//! difference below 0.00001. The operators keep a result that cannot be
//! represented at the nearest number that can. Where such a number would
//! decide the answer (determinants, inverses, the distances at which a ray
//! meets a shape) the operation fails with `MatrixError::OutOfRange`; the
//! length of a vector is taken from the exact sum of its squares. Angles
//! enter as their sine and cosine, and noise as a value that the caller's
//! noise source gives.

pub mod algebra;
pub mod camera;
pub mod canvas;
pub mod color;
pub mod error;
pub mod intersection;
pub mod light;
pub mod mat2;
pub mod mat3;
pub mod mat4;
pub mod material;
pub mod pattern;
pub mod plane;
pub mod point;
pub mod prelude;
pub mod ray;
pub mod scalar;
pub mod shape;
pub mod sphere;
pub mod tuple;
pub mod vector;
pub mod world;
