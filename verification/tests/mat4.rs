use std::f64::consts::PI;
use std::f64::consts::SQRT_2;
use trace::error::MatrixError;
use trace::mat3::Mat3;
use trace::mat4::Mat4;
use trace::point::Point;
use trace::scalar::is_equal;
use trace::scalar::Scalar;
use trace::tuple::Tuple;
use trace::vector::Vector;

fn s(value: f64) -> Scalar {
    Scalar::from_raw((value * 1e9).round() as i64)
}

fn point(x: f64, y: f64, z: f64) -> Point {
    Point::new(s(x), s(y), s(z))
}

fn vector(x: f64, y: f64, z: f64) -> Vector {
    Vector::new(s(x), s(y), s(z))
}

fn mat3(cells: [f64; 9]) -> Mat3 {
    let cells: Vec<Scalar> = cells.iter().map(|v| s(*v)).collect();
    Mat3::from_slice(&cells).unwrap()
}

fn mat4(cells: [f64; 16]) -> Mat4 {
    let cells: Vec<Scalar> = cells.iter().map(|v| s(*v)).collect();
    Mat4::from_slice(&cells).unwrap()
}

fn tuple(x: f64, y: f64, z: f64, w: f64) -> Tuple {
    Tuple::new(s(x), s(y), s(z), s(w))
}

fn close(a: Tuple, b: Tuple) -> bool {
    is_equal(a.x, b.x) && is_equal(a.y, b.y) && is_equal(a.z, b.z) && is_equal(a.w, b.w)
}

#[test]
fn mat4_test_identity_inverse() {
    let identity = Mat4::identity();
    assert_eq!(identity.inverse().unwrap(), identity);
}

#[test]
fn mat4_test_mul_by_inverse() {
    let mat = mat4([
        8.0, 2.0, 2.0, 2.0, //
        3.0, -1.0, 7.0, 0.0, //
        7.0, 0.0, 5.0, 4.0, //
        6.0, -2.0, 0.0, 5.0,
    ]);
    assert_eq!(mat * mat.inverse().unwrap(), Mat4::identity());
}

#[test]
fn mat4_test_inverse_transpose() {
    let mat = mat4([
        8.0, 2.0, 2.0, 2.0, //
        3.0, -1.0, 7.0, 0.0, //
        7.0, 0.0, 5.0, 4.0, //
        6.0, -2.0, 0.0, 5.0,
    ]);
    // Inverse of the transpose of a matrix, is equal to
    // the transpose of the inverse of the same matrix.
    assert_eq!(
        mat.transpose().inverse().unwrap(),
        mat.inverse().unwrap().transpose()
    );
}

#[test]
fn mat4_test_chain_transform() {
    let angle = PI / 2.0;
    assert_eq!(
        Mat4::identity()
            .rotate_x(s(angle.sin()), s(angle.cos()))
            .scale(s(5.0), s(5.0), s(5.0))
            .translate(s(10.0), s(5.0), s(7.0))
            * Tuple::from(point(1.0, 0.0, 1.0)),
        Tuple::from(point(15.0, 0.0, 7.0))
    );
}

#[test]
fn test_transpose() {
    assert_eq!(
        mat4([
            0.0, 9.0, 3.0, 0.0, //
            9.0, 8.0, 0.0, 8.0, //
            1.0, 8.0, 5.0, 3.0, //
            0.0, 0.0, 5.0, 8.0,
        ])
        .transpose(),
        mat4([
            0.0, 9.0, 1.0, 0.0, //
            9.0, 8.0, 8.0, 0.0, //
            3.0, 0.0, 5.0, 5.0, //
            0.0, 8.0, 3.0, 8.0,
        ])
    );

    // Transposing the identity matrix
    assert_eq!(Mat4::identity().transpose(), Mat4::identity());
}

#[test]
fn mat4_test_submatrix() {
    assert_eq!(
        mat4([
            -6.0, 1.0, 1.0, 6.0, //
            -8.0, 5.0, 8.0, 6.0, //
            -1.0, 0.0, 8.0, 2.0, //
            -7.0, 1.0, -1.0, 1.0,
        ])
        .submatrix(2, 1),
        mat3([-6.0, 1.0, 6.0, -8.0, 8.0, 6.0, -7.0, -1.0, 1.0])
    );
}

#[test]
fn mat4_test_minor() {
    assert!(is_equal(
        mat4([
            -6.0, 1.0, 1.0, 6.0, //
            -8.0, 1.0, 2.0, 6.0, //
            -1.0, -5.0, 8.0, -4.0, //
            -7.0, 2.0, 6.0, 4.0,
        ])
        .minor(0, 0)
        .unwrap(),
        s(-196.0)
    ));
}

#[test]
fn mat4_test_cofactor() {
    assert!(is_equal(
        mat4([
            -6.0, 1.0, 1.0, 6.0, //
            1.0, -8.0, 2.0, 6.0, //
            -5.0, -1.0, 8.0, -4.0, //
            2.0, -7.0, 6.0, 4.0,
        ])
        .cofactor(0, 1)
        .unwrap(),
        s(196.0)
    ));
}

#[test]
fn mat4_test_determinant() {
    assert!(is_equal(
        mat4([
            -2.0, -8.0, 3.0, 5.0, //
            -3.0, 1.0, 7.0, 3.0, //
            1.0, 2.0, -9.0, 6.0, //
            -6.0, 7.0, 7.0, -9.0,
        ])
        .determinant()
        .unwrap(),
        s(-4071.0)
    ));
    // Noninvertible matrix
    assert!(is_equal(
        mat4([
            -4.0, 2.0, -2.0, -3.0, //
            9.0, 6.0, 2.0, 6.0, //
            0.0, -5.0, 1.0, -5.0, //
            0.0, 0.0, 0.0, 0.0,
        ])
        .determinant()
        .unwrap(),
        s(0.0)
    ));
}

#[test]
fn test_inverse() {
    assert_eq!(
        mat4([
            -5.0, 2.0, 6.0, -8.0, //
            1.0, -5.0, 1.0, 8.0, //
            7.0, 7.0, -6.0, -7.0, //
            1.0, -3.0, 7.0, 4.0,
        ])
        .inverse()
        .unwrap(),
        mat4([
            0.21805, 0.45113, 0.24060, -0.04511, //
            -0.80827, -1.45677, -0.44361, 0.52068, //
            -0.07895, -0.22368, -0.05263, 0.19737, //
            -0.52256, -0.81391, -0.30075, 0.30639,
        ])
    );
    assert_eq!(
        mat4([
            8.0, -5.0, 9.0, 2.0, //
            7.0, 5.0, 6.0, 1.0, //
            -6.0, 0.0, 9.0, 6.0, //
            -3.0, 0.0, -9.0, -4.0,
        ])
        .inverse()
        .unwrap(),
        mat4([
            -0.15385, -0.15385, -0.28205, -0.53846, //
            -0.07692, 0.12308, 0.02564, 0.03077, //
            0.35897, 0.35897, 0.43590, 0.92308, //
            -0.69231, -0.69231, -0.76923, -1.92308,
        ])
    );
    assert_eq!(
        mat4([
            9.0, 3.0, 0.0, 9.0, //
            -5.0, -2.0, -6.0, -3.0, //
            -4.0, 9.0, 6.0, 4.0, //
            -7.0, 6.0, 6.0, 2.0,
        ])
        .inverse()
        .unwrap(),
        mat4([
            -0.04074, -0.07778, 0.14444, -0.22222, //
            -0.07778, 0.03333, 0.36667, -0.33333, //
            -0.02901, -0.14630, -0.10926, 0.12963, //
            0.17778, 0.06667, -0.26667, 0.33333,
        ])
    );
}

#[test]
fn mat4_test_index() {
    let mat = mat4([
        1.0, 2.0, 3.0, 4.0, //
        5.5, 6.5, 7.5, 8.5, //
        9.0, 10.0, 11.0, 12.0, //
        13.5, 14.5, 15.5, 16.5,
    ]);
    assert!(is_equal(mat.get(0, 0), s(1.0)));
    assert!(is_equal(mat.get(1, 2), s(7.5)));
    assert!(is_equal(mat.get(2, 2), s(11.0)));
    assert!(is_equal(mat.get(3, 2), s(15.5)));
}

#[test]
fn mat4_test_mul() {
    let mat_a = mat4([
        1.0, 2.0, 3.0, 4.0, //
        5.0, 6.0, 7.0, 8.0, //
        9.0, 8.0, 7.0, 6.0, //
        5.0, 4.0, 3.0, 2.0,
    ]);
    let mat_b = mat4([
        -2.0, 1.0, 2.0, 3.0, //
        3.0, 2.0, 1.0, -1.0, //
        4.0, 3.0, 6.0, 5.0, //
        1.0, 2.0, 7.0, 8.0,
    ]);
    assert_eq!(
        mat_a * mat_b,
        mat4([
            20.0, 22.0, 50.0, 48.0, //
            44.0, 54.0, 114.0, 108.0, //
            40.0, 58.0, 110.0, 102.0, //
            16.0, 26.0, 46.0, 42.0,
        ])
    );
    // Multiplying a product by its inverse
    let mat_a = mat4([
        3.0, -9.0, 7.0, 3.0, //
        3.0, -8.0, 2.0, -9.0, //
        -4.0, 4.0, 4.0, 1.0, //
        -6.0, 5.0, -1.0, 1.0,
    ]);
    let mat_b = mat4([
        8.0, 2.0, 2.0, 2.0, //
        3.0, -1.0, 7.0, 0.0, //
        7.0, 0.0, 5.0, 4.0, //
        6.0, -2.0, 0.0, 5.0,
    ]);
    let mat_c = mat_a * mat_b;
    assert_eq!(mat_c * mat_b.inverse().unwrap(), mat_a);
}

#[test]
fn test_mul_tuple() {
    let mat = mat4([
        1.0, 2.0, 3.0, 4.0, //
        2.0, 4.0, 4.0, 2.0, //
        8.0, 6.0, 4.0, 1.0, //
        0.0, 0.0, 0.0, 1.0,
    ]);
    let t = Tuple::from(point(1.0, 2.0, 3.0));
    assert_eq!(mat * t, tuple(18.0, 24.0, 33.0, 1.0));
}

#[test]
fn test_mul_point() {
    let mat = mat4([
        1.0, 2.0, 3.0, 4.0, //
        2.0, 4.0, 4.0, 2.0, //
        8.0, 6.0, 4.0, 1.0, //
        0.0, 0.0, 0.0, 1.0,
    ]);
    let p = point(1.0, 2.0, 3.0);
    assert_eq!(mat * p, point(18.0, 24.0, 33.0));
}

#[test]
fn test_mul_vector() {
    let mat = mat4([
        1.0, 2.0, 3.0, 4.0, //
        2.0, 4.0, 4.0, 2.0, //
        8.0, 6.0, 4.0, 1.0, //
        0.0, 0.0, 0.0, 1.0,
    ]);
    let v = vector(1.0, 2.0, 3.0);
    assert_eq!(mat * v, vector(14.0, 22.0, 32.0));
}

#[test]
fn identity_leaves_a_tuple_as_it_is() {
    let t = tuple(1.0, 2.0, 3.0, 4.0);
    assert_eq!(Mat4::identity() * t, t);
    let odd = Tuple::new(
        Scalar::from_raw(i64::MAX),
        Scalar::from_raw(i64::MIN),
        Scalar::from_raw(-1),
        Scalar::from_raw(7),
    );
    assert_eq!(Mat4::identity() * odd, odd);
    let mat = mat4([
        0.0, 1.0, 2.0, 4.0, //
        1.0, 2.0, 4.0, 8.0, //
        2.0, 4.0, 8.0, 16.0, //
        4.0, 8.0, 16.0, 32.0,
    ]);
    assert_eq!(mat * Mat4::identity(), mat);
}

#[test]
fn a_matrix_without_inverse_is_reported() {
    let flat = mat4([
        -4.0, 2.0, -2.0, -3.0, //
        9.0, 6.0, 2.0, 6.0, //
        0.0, -5.0, 1.0, -5.0, //
        0.0, 0.0, 0.0, 0.0,
    ]);
    assert!(!flat.is_invertible());
    assert_eq!(flat.inverse(), Err(MatrixError::NonInvertible));
    assert_eq!(Mat4::zero().inverse(), Err(MatrixError::NonInvertible));
    assert!(Mat4::identity().is_invertible());
}

#[test]
fn mat4_needs_sixteen_cells() {
    let nine = [s(0.0); 9];
    assert_eq!(Mat4::from_slice(&nine), Err(MatrixError::DimensionMismatch));
    let seventeen = [s(0.0); 17];
    assert_eq!(
        Mat4::from_slice(&seventeen),
        Err(MatrixError::DimensionMismatch)
    );
}

#[test]
fn mat4_equality_is_within_tolerance() {
    let a = mat4([
        1.0, 2.0, 3.0, 4.0, //
        5.0, 6.0, 7.0, 8.0, //
        9.0, 8.0, 7.0, 6.0, //
        5.0, 4.0, 3.0, 2.0,
    ]);
    let b = mat4([
        2.0, 3.0, 4.0, 5.0, //
        6.0, 7.0, 8.0, 9.0, //
        8.0, 7.0, 6.0, 5.0, //
        4.0, 3.0, 2.0, 1.0,
    ]);
    assert_eq!(a, a);
    assert_ne!(a, b);
}

#[test]
fn mat4_set_changes_one_cell() {
    let mut mat = Mat4::zero();
    mat.set(2, 3, s(4.5));
    assert_eq!(mat.get(2, 3).raw, 4_500_000_000);
    assert_eq!(mat.elements[11].raw, 4_500_000_000);
    assert_eq!(mat.get(3, 2).raw, 0);
}

#[test]
fn translation_moves_points_and_leaves_vectors() {
    let transform = Mat4::identity().translate(s(5.0), s(-3.0), s(2.0));
    assert_eq!(
        transform * Tuple::from(point(-3.0, 4.0, 5.0)),
        Tuple::from(point(2.0, 1.0, 7.0))
    );
    assert_eq!(
        transform.inverse().unwrap() * Tuple::from(point(-3.0, 4.0, 5.0)),
        Tuple::from(point(-8.0, 7.0, 3.0))
    );
    assert_eq!(
        transform * Tuple::from(vector(-3.0, 4.0, 5.0)),
        Tuple::from(vector(-3.0, 4.0, 5.0))
    );
}

#[test]
fn scaling_stretches_points_and_vectors() {
    let transform = Mat4::identity().scale(s(2.0), s(3.0), s(4.0));
    assert_eq!(
        transform * Tuple::from(point(-4.0, 6.0, 8.0)),
        Tuple::from(point(-8.0, 18.0, 32.0))
    );
    assert_eq!(
        transform * Tuple::from(vector(-4.0, 6.0, 8.0)),
        Tuple::from(vector(-8.0, 18.0, 32.0))
    );
    assert!(close(
        transform.inverse().unwrap() * Tuple::from(vector(-4.0, 6.0, 8.0)),
        Tuple::from(vector(-2.0, 2.0, 2.0))
    ));
    assert_eq!(
        Mat4::identity().scale(s(-1.0), s(1.0), s(1.0)) * Tuple::from(point(2.0, 3.0, 4.0)),
        Tuple::from(point(-2.0, 3.0, 4.0))
    );
}

#[test]
fn rotations_turn_points_about_the_axes() {
    let full = PI / 2.0;
    let half = PI / 4.0;
    let r = SQRT_2 / 2.0;
    assert!(close(
        Mat4::identity().rotate_x(s(half.sin()), s(half.cos())) * Tuple::from(point(0.0, 1.0, 0.0)),
        Tuple::from(point(0.0, r, r))
    ));
    assert!(close(
        Mat4::identity().rotate_x(s(full.sin()), s(full.cos())) * Tuple::from(point(0.0, 1.0, 0.0)),
        Tuple::from(point(0.0, 0.0, 1.0))
    ));
    assert!(close(
        Mat4::identity()
            .rotate_x(s(half.sin()), s(half.cos()))
            .inverse()
            .unwrap()
            * Tuple::from(point(0.0, 1.0, 0.0)),
        Tuple::from(point(0.0, r, -r))
    ));
    assert!(close(
        Mat4::identity().rotate_y(s(half.sin()), s(half.cos())) * Tuple::from(point(0.0, 0.0, 1.0)),
        Tuple::from(point(r, 0.0, r))
    ));
    assert!(close(
        Mat4::identity().rotate_y(s(full.sin()), s(full.cos())) * Tuple::from(point(0.0, 0.0, 1.0)),
        Tuple::from(point(1.0, 0.0, 0.0))
    ));
    assert!(close(
        Mat4::identity().rotate_z(s(half.sin()), s(half.cos())) * Tuple::from(point(0.0, 1.0, 0.0)),
        Tuple::from(point(-r, r, 0.0))
    ));
    assert!(close(
        Mat4::identity().rotate_z(s(full.sin()), s(full.cos())) * Tuple::from(point(0.0, 1.0, 0.0)),
        Tuple::from(point(-1.0, 0.0, 0.0))
    ));
}

#[test]
fn shearing_moves_each_coordinate_by_another() {
    let p = Tuple::from(point(2.0, 3.0, 4.0));
    let z = s(0.0);
    let o = s(1.0);
    assert_eq!(
        Mat4::identity().shear(o, z, z, z, z, z) * p,
        Tuple::from(point(5.0, 3.0, 4.0))
    );
    assert_eq!(
        Mat4::identity().shear(z, o, z, z, z, z) * p,
        Tuple::from(point(6.0, 3.0, 4.0))
    );
    assert_eq!(
        Mat4::identity().shear(z, z, o, z, z, z) * p,
        Tuple::from(point(2.0, 5.0, 4.0))
    );
    assert_eq!(
        Mat4::identity().shear(z, z, z, o, z, z) * p,
        Tuple::from(point(2.0, 7.0, 4.0))
    );
    assert_eq!(
        Mat4::identity().shear(z, z, z, z, o, z) * p,
        Tuple::from(point(2.0, 3.0, 6.0))
    );
    assert_eq!(
        Mat4::identity().shear(z, z, z, z, z, o) * p,
        Tuple::from(point(2.0, 3.0, 7.0))
    );
}

#[test]
fn view_transform_turns_the_world() {
    // Looking along the negative z axis from the origin changes nothing.
    let same = Mat4::identity().view_transform(
        point(0.0, 0.0, 0.0),
        point(0.0, 0.0, -1.0),
        vector(0.0, 1.0, 0.0),
    );
    assert_eq!(same, Mat4::identity());
    // Looking along the positive z axis mirrors x and z.
    let back = Mat4::identity().view_transform(
        point(0.0, 0.0, 0.0),
        point(0.0, 0.0, 1.0),
        vector(0.0, 1.0, 0.0),
    );
    assert_eq!(back, Mat4::identity().scale(s(-1.0), s(1.0), s(-1.0)));
    // The view transform moves the world, not the eye.
    let moved = Mat4::identity().view_transform(
        point(0.0, 0.0, 8.0),
        point(0.0, 0.0, 0.0),
        vector(0.0, 1.0, 0.0),
    );
    assert_eq!(moved, Mat4::identity().translate(s(0.0), s(0.0), s(-8.0)));
    let any = Mat4::identity().view_transform(
        point(1.0, 3.0, 2.0),
        point(4.0, -2.0, 8.0),
        vector(1.0, 1.0, 0.0),
    );
    assert_eq!(
        any,
        mat4([
            -0.50709, 0.50709, 0.67612, -2.36643, //
            0.76772, 0.60609, 0.12122, -2.82843, //
            -0.35857, 0.59761, -0.71714, 0.00000, //
            0.00000, 0.00000, 0.00000, 1.00000,
        ])
    );
}

#[test]
fn a_transform_and_its_inverse_give_the_point_again() {
    let turn = PI / 3.0;
    let transforms = [
        Mat4::identity().translate(s(5.0), s(-3.0), s(2.0)),
        Mat4::identity().scale(s(2.0), s(0.25), s(-4.0)),
        Mat4::identity().rotate_x(s(turn.sin()), s(turn.cos())),
        Mat4::identity().rotate_y(s(turn.sin()), s(turn.cos())),
        Mat4::identity().rotate_z(s(turn.sin()), s(turn.cos())),
        Mat4::identity()
            .rotate_z(s(turn.sin()), s(turn.cos()))
            .scale(s(3.0), s(3.0), s(0.5))
            .translate(s(-1.0), s(7.0), s(0.125)),
    ];
    let p = point(-3.0, 4.0, 5.0);
    for transform in transforms {
        let there = transform * p;
        let back = transform.inverse().unwrap() * there;
        assert_eq!(back, p);
    }
    // For a translation the way back is exact.
    let moved = transforms[0].inverse().unwrap() * (transforms[0] * p);
    assert_eq!(moved.x.raw, p.x.raw);
    assert_eq!(moved.y.raw, p.y.raw);
    assert_eq!(moved.z.raw, p.z.raw);
    assert_eq!(
        transforms[0].inverse().unwrap().elements,
        Mat4::identity().translate(s(-5.0), s(3.0), s(-2.0)).elements
    );
}

#[test]
fn a_stretch_beyond_the_numbers_has_no_inverse() {
    // The determinant of these stretches is beyond the largest number: the
    // failure is reported, no matrix is given.
    let big = Mat4::identity().scale(s(100_000.0), s(100_000.0), s(100_000.0));
    assert!(!big.is_invertible());
    assert_eq!(big.inverse(), Err(MatrixError::OutOfRange));
    assert_eq!(big.determinant(), Err(MatrixError::OutOfRange));
    let stretch = Mat4::identity().scale(s(3000.0), s(3000.0), s(3000.0));
    assert_eq!(stretch.determinant(), Err(MatrixError::OutOfRange));
    assert_eq!(stretch.inverse(), Err(MatrixError::OutOfRange));
    // A stretch by 2000 has the determinant 8e9, which can be represented.
    let fits = Mat4::identity().scale(s(2000.0), s(2000.0), s(2000.0));
    assert_eq!(fits.determinant().unwrap().raw, 8_000_000_000_000_000_000);
    let back = fits.inverse().unwrap() * (fits * point(1.0, 1.0, 1.0));
    assert_eq!(back, point(1.0, 1.0, 1.0));
    assert_eq!(fits * fits.inverse().unwrap(), Mat4::identity());
}

#[test]
fn a_far_point_does_not_come_back_from_a_stretch() {
    // One third is rounded at the ninth place; a million times that is more
    // than the tolerance.
    let stretch = Mat4::identity().scale(s(3.0), s(3.0), s(3.0));
    let p = point(1_000_000.0, 0.0, 0.0);
    let back = stretch.inverse().unwrap() * (stretch * p);
    assert_ne!(back, p);
    assert_eq!(back.x.raw, 999_999_999_000_000);
}

#[test]
fn a_point_comes_back_from_a_stretch() {
    let stretch = Mat4::identity().scale(s(2.0), s(3.0), s(4.0));
    let inverse = stretch.inverse().unwrap();
    // The factors of the inverse are the cofactors over the determinant 24.
    assert_eq!(inverse.get(0, 0).raw, 500_000_000);
    assert_eq!(inverse.get(1, 1).raw, 333_333_333);
    assert_eq!(inverse.get(2, 2).raw, 250_000_000);
    assert_eq!(inverse.get(3, 3).raw, 1_000_000_000);
    assert_eq!(inverse.get(0, 1).raw, 0);
    for p in [
        point(1.0, 1.0, 1.0),
        point(-3.0, 4.0, 5.0),
        point(1000.0, -2000.0, 1500.0),
        point(0.000_01, 0.123_456_789, -0.5),
    ] {
        let there = stretch * p;
        assert_eq!(there.x.raw, (s(2.0) * p.x).raw);
        assert_eq!(there.y.raw, (s(3.0) * p.y).raw);
        assert_eq!(there.z.raw, (s(4.0) * p.z).raw);
        assert_eq!(inverse * there, p);
    }
}

#[test]
fn rotations_keep_their_axis() {
    let turn = 1.234_f64;
    let p = point(0.3, -7.5, 2.25);
    let x = Mat4::identity().rotate_x(s(turn.sin()), s(turn.cos())) * p;
    assert_eq!(x.x.raw, p.x.raw);
    let y = Mat4::identity().rotate_y(s(turn.sin()), s(turn.cos())) * p;
    assert_eq!(y.y.raw, p.y.raw);
    let z = Mat4::identity().rotate_z(s(turn.sin()), s(turn.cos())) * p;
    assert_eq!(z.z.raw, p.z.raw);
}
