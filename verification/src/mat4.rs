//! Four-by-four matrices: the transforms of points, directions and rays.

use crate::error::add_checked;
use crate::error::checked_sign;
use crate::error::checked_sum;
use crate::error::checked_term;
use crate::error::in_range;
use crate::error::ranged;
use crate::error::signed;
use crate::error::term;
use crate::error::MatrixError;
use crate::mat2::approx_cells;
use crate::mat3::det3;
use crate::mat3::skip;
use crate::mat3::Mat3;
use crate::point::Point;
use crate::scalar::is_equal;
use crate::scalar::lemma_plus_zero;
use crate::scalar::lemma_times_one;
use crate::scalar::lemma_times_zero;
use crate::scalar::Scalar;
use crate::tuple::Tuple;
use crate::vector::Vector;
use core::ops::Neg;
use vstd::prelude::*;

verus! {

/// A matrix of four rows and four columns, stored row by row.
#[derive(Debug, Clone, Copy)]
pub struct Mat4 {
    pub elements: [Scalar; 16],
}

impl View for Mat4 {
    type V = Seq<Scalar>;

    open spec fn view(&self) -> Seq<Scalar> {
        self.elements@
    }
}

/// The cells of the matrix that leaves every tuple as it is.
pub open spec fn identity4() -> Seq<Scalar> {
    Seq::new(
        16,
        |i: int|
            if i % 5 == 0 {
                Scalar::one()
            } else {
                Scalar::zero()
            },
    )
}

/// The cells of `m` with rows and columns exchanged.
pub open spec fn transposed(m: Seq<Scalar>) -> Seq<Scalar> {
    Seq::new(16, |i: int| m[(i % 4) * 4 + i / 4])
}

/// The cells of a four-by-four matrix `m` without row `row` and column `col`.
pub open spec fn sub4(m: Seq<Scalar>, row: int, col: int) -> Seq<Scalar> {
    Seq::new(9, |i: int| m[skip(i / 3, row) * 4 + skip(i % 3, col)])
}

/// The determinant of what is left of `m` without row `row` and column `col`.
pub open spec fn minor4(m: Seq<Scalar>, row: int, col: int) -> Option<Scalar> {
    det3(sub4(m, row, col))
}

/// The minor, with its sign changed where `row + col` is odd.
pub open spec fn cofactor4(m: Seq<Scalar>, row: int, col: int) -> Option<Scalar> {
    signed(minor4(m, row, col), (row + col) % 2 != 0)
}

/// The determinant of the four-by-four matrix whose cells are `m`: the cells
/// of its first row, each times its cofactor, summed from the left; none
/// where a number met on the way cannot be represented.
#[verifier::opaque]
pub open spec fn det4(m: Seq<Scalar>) -> Option<Scalar> {
    add_checked(
        add_checked(
            add_checked(term(m[0], cofactor4(m, 0, 0)), term(m[1], cofactor4(m, 0, 1))),
            term(m[2], cofactor4(m, 0, 2)),
        ),
        term(m[3], cofactor4(m, 0, 3)),
    )
}

/// Cell `i` of the inverse of `m`: the cofactor of the cell that lies
/// across the diagonal, divided by the determinant `d`.
pub open spec fn inverse_cell(m: Seq<Scalar>, d: Scalar, i: int) -> Option<Scalar> {
    match cofactor4(m, i % 4, i / 4) {
        Some(c) => c.over_checked(d),
        None => None,
    }
}

/// The cells of the inverse of `m`: the transposed matrix of cofactors, each
/// divided by the determinant. There is none where a number met on the way
/// cannot be represented, and none where the determinant is within the
/// tolerance of zero.
#[verifier::opaque]
pub open spec fn inverse_of(m: Seq<Scalar>) -> Result<Seq<Scalar>, MatrixError> {
    match det4(m) {
        None => Err(MatrixError::OutOfRange),
        Some(d) => if is_equal(d, Scalar::zero()) {
            Err(MatrixError::NonInvertible)
        } else if forall|i: int| 0 <= i < 16 ==> (#[trigger] inverse_cell(m, d, i)) is Some {
            Ok(Seq::new(16, |i: int| inverse_cell(m, d, i)->Some_0))
        } else {
            Err(MatrixError::OutOfRange)
        },
    }
}

/// What a matrix with an inverse has: a determinant that is not within the
/// tolerance of zero, and in every cell of the inverse a cofactor divided by
/// it.
pub proof fn lemma_inverse_cells(m: Seq<Scalar>)
    requires
        inverse_of(m) is Ok,
    ensures
        det4(m) is Some,
        !is_equal(det4(m)->Some_0, Scalar::zero()),
        inverse_of(m)->Ok_0.len() == 16,
        forall|i: int|
            0 <= i < 16 ==> #[trigger] inverse_cell(m, det4(m)->Some_0, i) == Some(
                inverse_of(m)->Ok_0[i],
            ),
{
    reveal(inverse_of);
}

/// A matrix whose determinant is not within the tolerance of zero and
/// whose cofactors, divided by it, are the cells `cells` has the inverse
/// `cells`.
pub proof fn lemma_inverse_from_cells(m: Seq<Scalar>, d: Scalar, cells: Seq<Scalar>)
    requires
        det4(m) == Some(d),
        !is_equal(d, Scalar::zero()),
        cells.len() == 16,
        forall|i: int| 0 <= i < 16 ==> #[trigger] inverse_cell(m, d, i) == Some(cells[i]),
    ensures
        inverse_of(m) == Ok::<Seq<Scalar>, MatrixError>(cells),
{
    reveal(inverse_of);
    assert(Seq::new(16, |i: int| inverse_cell(m, d, i)->Some_0) =~= cells);
}

/// Whether `m` has an inverse.
pub open spec fn invertible(m: Seq<Scalar>) -> bool {
    inverse_of(m) is Ok
}

/// The cells of the inverse of `m`, where it has one.
pub open spec fn inverse4(m: Seq<Scalar>) -> Seq<Scalar> {
    inverse_of(m)->Ok_0
}

/// Why `m` has no inverse, where it has none.
pub open spec fn inverse_error(m: Seq<Scalar>) -> MatrixError {
    inverse_of(m)->Err_0
}

/// The cell in row `row` and column `col` of the product of `a` and `b`.
pub open spec fn cell(a: Seq<Scalar>, b: Seq<Scalar>, row: int, col: int) -> Scalar {
    a[row * 4].times(b[col]).plus(a[row * 4 + 1].times(b[4 + col])).plus(
        a[row * 4 + 2].times(b[8 + col]),
    ).plus(a[row * 4 + 3].times(b[12 + col]))
}

/// The cells of the matrix product of `a` and `b`.
pub open spec fn product4(a: Seq<Scalar>, b: Seq<Scalar>) -> Seq<Scalar> {
    Seq::new(16, |i: int| cell(a, b, i / 4, i % 4))
}

/// Row `row` of `m` times the tuple `t`.
pub open spec fn row_image(m: Seq<Scalar>, row: int, t: Tuple) -> Scalar {
    m[row * 4].times(t.x).plus(m[row * 4 + 1].times(t.y)).plus(m[row * 4 + 2].times(t.z)).plus(
        m[row * 4 + 3].times(t.w),
    )
}

/// The tuple that `m` maps `t` to.
pub open spec fn tuple_image(m: Seq<Scalar>, t: Tuple) -> Tuple {
    Tuple {
        x: row_image(m, 0, t),
        y: row_image(m, 1, t),
        z: row_image(m, 2, t),
        w: row_image(m, 3, t),
    }
}

/// The point that `m` maps `p` to.
pub open spec fn point_image(m: Seq<Scalar>, p: Point) -> Point {
    Point {
        x: row_image(m, 0, Tuple::of_point(p)),
        y: row_image(m, 1, Tuple::of_point(p)),
        z: row_image(m, 2, Tuple::of_point(p)),
    }
}

/// The direction that `m` maps `v` to.
pub open spec fn vector_image(m: Seq<Scalar>, v: Vector) -> Vector {
    Vector {
        x: row_image(m, 0, Tuple::of_vector(v)),
        y: row_image(m, 1, Tuple::of_vector(v)),
        z: row_image(m, 2, Tuple::of_vector(v)),
    }
}

/// The cells of the matrix that moves a point by `x`, `y` and `z`.
pub open spec fn translation(x: Scalar, y: Scalar, z: Scalar) -> Seq<Scalar> {
    identity4().update(3, x).update(7, y).update(11, z)
}

/// The cells of the matrix that stretches the axes by `x`, `y` and `z`.
pub open spec fn scaling(x: Scalar, y: Scalar, z: Scalar) -> Seq<Scalar> {
    identity4().update(0, x).update(5, y).update(10, z)
}

/// The cells of the rotation about the x axis by the angle whose sine and
/// cosine are `sin` and `cos`.
pub open spec fn rotation_x(sin: Scalar, cos: Scalar) -> Seq<Scalar> {
    identity4().update(5, cos).update(6, sin.negated()).update(9, sin).update(10, cos)
}

/// The cells of the rotation about the y axis by the angle whose sine and
/// cosine are `sin` and `cos`.
pub open spec fn rotation_y(sin: Scalar, cos: Scalar) -> Seq<Scalar> {
    identity4().update(0, cos).update(2, sin).update(8, sin.negated()).update(10, cos)
}

/// The cells of the rotation about the z axis by the angle whose sine and
/// cosine are `sin` and `cos`.
pub open spec fn rotation_z(sin: Scalar, cos: Scalar) -> Seq<Scalar> {
    identity4().update(0, cos).update(1, sin.negated()).update(4, sin).update(5, cos)
}

/// The cells of the matrix that moves each coordinate in proportion to the
/// two others.
pub open spec fn shearing(
    x_y: Scalar,
    x_z: Scalar,
    y_x: Scalar,
    y_z: Scalar,
    z_x: Scalar,
    z_y: Scalar,
) -> Seq<Scalar> {
    identity4().update(1, x_y).update(2, x_z).update(4, y_x).update(6, y_z).update(8, z_x).update(
        9,
        z_y,
    )
}

/// The cells of the matrix whose first three rows are `left`, `true_up` and
/// the opposite of `forward`.
pub open spec fn orientation(forward: Vector, left: Vector, true_up: Vector) -> Seq<Scalar> {
    identity4().update(0, left.x).update(1, left.y).update(2, left.z).update(4, true_up.x).update(
        5,
        true_up.y,
    ).update(6, true_up.z).update(8, forward.x.negated()).update(9, forward.y.negated()).update(
        10,
        forward.z.negated(),
    )
}

/// The cells of the view transform for an eye at `from` that looks at `to`,
/// with `up` upwards: the world is moved so that the eye stands at the
/// origin, then turned so that the eye looks along the negative z axis.
pub open spec fn view4(from: Point, to: Point, up: Vector) -> Seq<Scalar> {
    let forward = to.from(from).normalize();
    let left = forward.cross(up.normalize());
    let true_up = left.cross(forward);
    product4(
        orientation(forward, left, true_up),
        translation(from.x.negated(), from.y.negated(), from.z.negated()),
    )
}

/// A row of the identity matrix times a tuple is the component of the tuple
/// that the row stands for.
proof fn lemma_identity_row(x: Scalar, y: Scalar, z: Scalar, w: Scalar)
    ensures
        Scalar::one().times(x).plus(Scalar::zero().times(y)).plus(Scalar::zero().times(z)).plus(
            Scalar::zero().times(w),
        ) == x,
        Scalar::zero().times(x).plus(Scalar::one().times(y)).plus(Scalar::zero().times(z)).plus(
            Scalar::zero().times(w),
        ) == y,
        Scalar::zero().times(x).plus(Scalar::zero().times(y)).plus(Scalar::one().times(z)).plus(
            Scalar::zero().times(w),
        ) == z,
        Scalar::zero().times(x).plus(Scalar::zero().times(y)).plus(Scalar::zero().times(z)).plus(
            Scalar::one().times(w),
        ) == w,
{
    lemma_times_one(x);
    lemma_times_one(y);
    lemma_times_one(z);
    lemma_times_one(w);
    lemma_times_zero(x);
    lemma_times_zero(y);
    lemma_times_zero(z);
    lemma_times_zero(w);
    lemma_plus_zero(x);
    lemma_plus_zero(y);
    lemma_plus_zero(z);
    lemma_plus_zero(w);
}

/// The identity matrix maps every tuple to itself, exactly.
pub proof fn law_identity_keeps_tuple(t: Tuple)
    ensures
        tuple_image(identity4(), t) == t,
{
    lemma_identity_row(t.x, t.y, t.z, t.w);
}

/// The identity matrix maps every point and every direction to itself,
/// exactly.
pub proof fn law_identity_keeps_point_and_vector(p: Point, v: Vector)
    ensures
        point_image(identity4(), p) == p,
        vector_image(identity4(), v) == v,
{
    lemma_identity_row(p.x, p.y, p.z, Scalar::one());
    lemma_identity_row(v.x, v.y, v.z, Scalar::zero());
}

/// The product of the identity matrix and a matrix, in either order, is
/// that matrix, exactly.
pub proof fn law_identity_is_neutral(m: Seq<Scalar>)
    requires
        m.len() == 16,
    ensures
        product4(identity4(), m) == m,
        product4(m, identity4()) == m,
{
    lemma_identity_on_the_left(m);
    lemma_identity_on_the_right(m);
}

proof fn lemma_identity_on_the_left(m: Seq<Scalar>)
    requires
        m.len() == 16,
    ensures
        product4(identity4(), m) == m,
{
    let p = product4(identity4(), m);
    assert forall|i: int| 0 <= i < 16 implies p[i] == m[i] by {
        let row = i / 4;
        let col = i % 4;
        assert(i == row * 4 + col);
        assert(p[i] == cell(identity4(), m, row, col));
        lemma_identity_times_cell(m, row, col);
    }
    assert(p =~= m);
}

proof fn lemma_identity_on_the_right(m: Seq<Scalar>)
    requires
        m.len() == 16,
    ensures
        product4(m, identity4()) == m,
{
    let p = product4(m, identity4());
    assert forall|i: int| 0 <= i < 16 implies p[i] == m[i] by {
        let row = i / 4;
        let col = i % 4;
        assert(i == row * 4 + col);
        assert(p[i] == cell(m, identity4(), row, col));
        lemma_cell_times_identity(m, row, col);
    }
    assert(p =~= m);
}

/// The cells of the identity matrix, one by one.
proof fn lemma_identity_cells()
    ensures
        identity4().len() == 16,
        forall|i: int|
            0 <= i < 16 ==> #[trigger] identity4()[i] == if i == 0 || i == 5 || i == 10 || i == 15 {
                Scalar::one()
            } else {
                Scalar::zero()
            },
{
}

proof fn lemma_identity_times_cell(m: Seq<Scalar>, row: int, col: int)
    requires
        m.len() == 16,
        0 <= row < 4,
        0 <= col < 4,
    ensures
        cell(identity4(), m, row, col) == m[row * 4 + col],
{
    lemma_identity_cells();
    lemma_identity_row(m[col], m[4 + col], m[8 + col], m[12 + col]);
    let i = identity4();
    if row == 0 {
        assert(i[0] == Scalar::one() && i[1] == Scalar::zero() && i[2] == Scalar::zero() && i[3]
            == Scalar::zero());
    } else if row == 1 {
        assert(i[4] == Scalar::zero() && i[5] == Scalar::one() && i[6] == Scalar::zero() && i[7]
            == Scalar::zero());
    } else if row == 2 {
        assert(i[8] == Scalar::zero() && i[9] == Scalar::zero() && i[10] == Scalar::one() && i[11]
            == Scalar::zero());
    } else {
        assert(i[12] == Scalar::zero() && i[13] == Scalar::zero() && i[14] == Scalar::zero()
            && i[15] == Scalar::one());
    }
}

proof fn lemma_cell_times_identity(m: Seq<Scalar>, row: int, col: int)
    requires
        m.len() == 16,
        0 <= row < 4,
        0 <= col < 4,
    ensures
        cell(m, identity4(), row, col) == m[row * 4 + col],
{
    lemma_identity_cells();
    let a = m[row * 4];
    let b = m[row * 4 + 1];
    let c = m[row * 4 + 2];
    let d = m[row * 4 + 3];
    lemma_times_one(a);
    lemma_times_one(b);
    lemma_times_one(c);
    lemma_times_one(d);
    lemma_times_zero(a);
    lemma_times_zero(b);
    lemma_times_zero(c);
    lemma_times_zero(d);
    lemma_plus_zero(a);
    lemma_plus_zero(b);
    lemma_plus_zero(c);
    lemma_plus_zero(d);
    let i = identity4();
    if col == 0 {
        assert(i[0] == Scalar::one() && i[4] == Scalar::zero() && i[8] == Scalar::zero() && i[12]
            == Scalar::zero());
    } else if col == 1 {
        assert(i[1] == Scalar::zero() && i[5] == Scalar::one() && i[9] == Scalar::zero() && i[13]
            == Scalar::zero());
    } else if col == 2 {
        assert(i[2] == Scalar::zero() && i[6] == Scalar::zero() && i[10] == Scalar::one() && i[14]
            == Scalar::zero());
    } else {
        assert(i[3] == Scalar::zero() && i[7] == Scalar::zero() && i[11] == Scalar::zero()
            && i[15] == Scalar::one());
    }
}

impl Mat4 {
    /// The matrix whose cells are all zero.
    pub fn zero() -> (m: Mat4)
        ensures
            m@ == Seq::new(16, |i: int| Scalar::zero()),
    {
        let m = Mat4 { elements: [Scalar::zero();16] };
        assert(m@ =~= Seq::new(16, |i: int| Scalar::zero()));
        m
    }

    /// The matrix that leaves every tuple as it is.
    pub fn identity() -> (m: Mat4)
        ensures
            m@ == identity4(),
    {
        let one = Scalar::one();
        let zero = Scalar::zero();
        let m = Mat4 {
            elements: [
                one,
                zero,
                zero,
                zero,
                zero,
                one,
                zero,
                zero,
                zero,
                zero,
                one,
                zero,
                zero,
                zero,
                zero,
                one,
            ],
        };
        assert forall|i: int| 0 <= i < 16 implies m@[i] == identity4()[i] by {
            if i == 0 || i == 5 || i == 10 || i == 15 {
            }
        }
        assert(m@ =~= identity4());
        m
    }

    /// The matrix whose cells are `elements`, row by row.
    pub fn from_slice(elements: &[Scalar]) -> (r: Result<Mat4, MatrixError>)
        ensures
            elements@.len() == 16 ==> r is Ok && r->Ok_0@ == elements@,
            elements@.len() != 16 ==> r == Err::<Mat4, MatrixError>(
                MatrixError::DimensionMismatch,
            ),
    {
        if elements.len() != 16 {
            return Err(MatrixError::DimensionMismatch);
        }
        let mut cells: [Scalar; 16] = [Scalar::zero();16];
        let mut i: usize = 0;
        while i < 16
            invariant
                i <= 16,
                elements@.len() == 16,
                forall|k: int| 0 <= k < i ==> cells@[k] == elements@[k],
            decreases 16 - i,
        {
            cells[i] = elements[i];
            i = i + 1;
        }
        let m = Mat4 { elements: cells };
        assert(m@ =~= elements@);
        Ok(m)
    }

    /// The cell in row `row` and column `col`.
    pub fn get(&self, row: usize, col: usize) -> (v: Scalar)
        requires
            row < 4,
            col < 4,
        ensures
            v == self@[row * 4 + col],
    {
        self.elements[row * 4 + col]
    }

    /// Sets the cell in row `row` and column `col`.
    pub fn set(&mut self, row: usize, col: usize, value: Scalar)
        requires
            row < 4,
            col < 4,
        ensures
            final(self)@ == old(self)@.update(row * 4 + col, value),
    {
        self.elements[row * 4 + col] = value;
    }

    /// The matrix with rows and columns exchanged.
    pub fn transpose(&self) -> (m: Mat4)
        ensures
            m@ == transposed(self@),
    {
        let mut cells: [Scalar; 16] = [Scalar::zero();16];
        let mut i: usize = 0;
        while i < 16
            invariant
                i <= 16,
                forall|k: int| 0 <= k < i ==> cells@[k] == self@[(k % 4) * 4 + k / 4],
            decreases 16 - i,
        {
            cells[i] = self.elements[(i % 4) * 4 + i / 4];
            i = i + 1;
        }
        let m = Mat4 { elements: cells };
        assert(m@ =~= transposed(self@));
        m
    }

    /// The matrix without row `row` and column `col`.
    pub fn submatrix(&self, row: usize, col: usize) -> (m: Mat3)
        requires
            row < 4,
            col < 4,
        ensures
            m@ == sub4(self@, row as int, col as int),
    {
        let mut cells: [Scalar; 9] = [Scalar::zero();9];
        let mut i: usize = 0;
        while i < 9
            invariant
                i <= 9,
                row < 4,
                col < 4,
                forall|k: int|
                    0 <= k < i ==> cells@[k] == self@[skip(k / 3, row as int) * 4 + skip(
                        k % 3,
                        col as int,
                    )],
            decreases 9 - i,
        {
            let r: usize = if i / 3 < row {
                i / 3
            } else {
                i / 3 + 1
            };
            let c: usize = if i % 3 < col {
                i % 3
            } else {
                i % 3 + 1
            };
            cells[i] = self.elements[r * 4 + c];
            i = i + 1;
        }
        let m = Mat3 { elements: cells };
        assert(m@ =~= sub4(self@, row as int, col as int));
        m
    }

    /// The determinant of the matrix without row `row` and column `col`, or
    /// nothing.
    fn checked_minor(&self, row: usize, col: usize) -> (d: Option<Scalar>)
        requires
            row < 4,
            col < 4,
        ensures
            d == minor4(self@, row as int, col as int),
    {
        self.submatrix(row, col).checked_determinant()
    }

    /// The cofactor, or nothing.
    fn checked_cofactor(&self, row: usize, col: usize) -> (d: Option<Scalar>)
        requires
            row < 4,
            col < 4,
        ensures
            d == cofactor4(self@, row as int, col as int),
    {
        checked_sign(self.checked_minor(row, col), (row + col) % 2 != 0)
    }

    /// The determinant, or nothing.
    fn checked_determinant(&self) -> (d: Option<Scalar>)
        ensures
            d == det4(self@),
    {
        reveal(det4);
        let a = checked_term(self.elements[0], self.checked_cofactor(0, 0));
        let b = checked_term(self.elements[1], self.checked_cofactor(0, 1));
        let c = checked_term(self.elements[2], self.checked_cofactor(0, 2));
        let d = checked_term(self.elements[3], self.checked_cofactor(0, 3));
        checked_sum(checked_sum(checked_sum(a, b), c), d)
    }

    /// The determinant of the matrix without row `row` and column `col`. It
    /// fails where a number met on the way cannot be represented.
    pub fn minor(&self, row: usize, col: usize) -> (d: Result<Scalar, MatrixError>)
        requires
            row < 4,
            col < 4,
        ensures
            d == ranged(minor4(self@, row as int, col as int)),
    {
        in_range(self.checked_minor(row, col))
    }

    /// The minor, with its sign changed where `row + col` is odd. It fails
    /// where a number met on the way cannot be represented.
    pub fn cofactor(&self, row: usize, col: usize) -> (d: Result<Scalar, MatrixError>)
        requires
            row < 4,
            col < 4,
        ensures
            d == ranged(cofactor4(self@, row as int, col as int)),
    {
        in_range(self.checked_cofactor(row, col))
    }

    /// The determinant, expanded along the first row. It fails where a
    /// number met on the way cannot be represented.
    pub fn determinant(&self) -> (d: Result<Scalar, MatrixError>)
        ensures
            d == ranged(det4(self@)),
    {
        in_range(self.checked_determinant())
    }

    /// Whether the matrix has an inverse.
    pub fn is_invertible(&self) -> (b: bool)
        ensures
            b == invertible(self@),
    {
        self.inverse().is_ok()
    }

    /// The inverse: the transposed matrix of cofactors, each divided by the
    /// determinant. A matrix whose determinant is within the tolerance of
    /// zero has none; and the inverse is not given where a number met on
    /// the way cannot be represented.
    pub fn inverse(&self) -> (r: Result<Mat4, MatrixError>)
        ensures
            match r {
                Ok(inverse) => inverse_of(self@) == Ok::<Seq<Scalar>, MatrixError>(inverse@),
                Err(e) => inverse_of(self@) == Err::<Seq<Scalar>, MatrixError>(e),
            },
    {
        reveal(inverse_of);
        let det = match self.checked_determinant() {
            Some(d) => d,
            None => {
                return Err(MatrixError::OutOfRange);
            },
        };
        if is_equal(det, Scalar::zero()) {
            return Err(MatrixError::NonInvertible);
        }
        let mut cells: [Scalar; 16] = [Scalar::zero();16];
        let mut i: usize = 0;
        while i < 16
            invariant
                i <= 16,
                det4(self@) == Some(det),
                !is_equal(det, Scalar::zero()),
                forall|k: int| 0 <= k < i ==> inverse_cell(self@, det, k) == Some(cells@[k]),
            decreases 16 - i,
        {
            reveal(inverse_of);
            let cell = match self.checked_cofactor(i % 4, i / 4) {
                Some(c) => c.checked_div(det),
                None => None,
            };
            match cell {
                Some(c) => {
                    cells[i] = c;
                },
                None => {
                    assert(inverse_cell(self@, det, i as int) is None);
                    return Err(MatrixError::OutOfRange);
                },
            }
            i = i + 1;
        }
        let m = Mat4 { elements: cells };
        assert(m@ =~= Seq::new(16, |i: int| inverse_cell(self@, det, i)->Some_0));
        Ok(m)
    }

    /// This transform followed by a move by `x`, `y` and `z`.
    pub fn translate(self, x: Scalar, y: Scalar, z: Scalar) -> (m: Mat4)
        ensures
            m@ == product4(translation(x, y, z), self@),
    {
        let mut transform = Mat4::identity();
        transform.elements[3] = x;
        transform.elements[7] = y;
        transform.elements[11] = z;
        transform * self
    }

    /// This transform followed by a stretch of the axes by `x`, `y` and `z`.
    pub fn scale(self, x: Scalar, y: Scalar, z: Scalar) -> (m: Mat4)
        ensures
            m@ == product4(scaling(x, y, z), self@),
    {
        let mut transform = Mat4::identity();
        transform.elements[0] = x;
        transform.elements[5] = y;
        transform.elements[10] = z;
        transform * self
    }

    /// This transform followed by a rotation about the x axis by the angle
    /// whose sine and cosine are `sin` and `cos`.
    pub fn rotate_x(self, sin: Scalar, cos: Scalar) -> (m: Mat4)
        ensures
            m@ == product4(rotation_x(sin, cos), self@),
    {
        let mut transform = Mat4::identity();
        transform.elements[5] = cos;
        transform.elements[6] = sin.neg();
        transform.elements[9] = sin;
        transform.elements[10] = cos;
        transform * self
    }

    /// This transform followed by a rotation about the y axis by the angle
    /// whose sine and cosine are `sin` and `cos`.
    pub fn rotate_y(self, sin: Scalar, cos: Scalar) -> (m: Mat4)
        ensures
            m@ == product4(rotation_y(sin, cos), self@),
    {
        let mut transform = Mat4::identity();
        transform.elements[0] = cos;
        transform.elements[2] = sin;
        transform.elements[8] = sin.neg();
        transform.elements[10] = cos;
        transform * self
    }

    /// This transform followed by a rotation about the z axis by the angle
    /// whose sine and cosine are `sin` and `cos`.
    pub fn rotate_z(self, sin: Scalar, cos: Scalar) -> (m: Mat4)
        ensures
            m@ == product4(rotation_z(sin, cos), self@),
    {
        let mut transform = Mat4::identity();
        transform.elements[0] = cos;
        transform.elements[1] = sin.neg();
        transform.elements[4] = sin;
        transform.elements[5] = cos;
        transform * self
    }

    /// This transform followed by a shear: `x_y` moves x in proportion to y,
    /// and so on.
    pub fn shear(
        self,
        x_y: Scalar,
        x_z: Scalar,
        y_x: Scalar,
        y_z: Scalar,
        z_x: Scalar,
        z_y: Scalar,
    ) -> (m: Mat4)
        ensures
            m@ == product4(shearing(x_y, x_z, y_x, y_z, z_x, z_y), self@),
    {
        let mut transform = Mat4::identity();
        transform.elements[1] = x_y;
        transform.elements[2] = x_z;
        transform.elements[4] = y_x;
        transform.elements[6] = y_z;
        transform.elements[8] = z_x;
        transform.elements[9] = z_y;
        transform * self
    }

    /// The transform that turns the world so that an eye at `from` looks at
    /// `to`, with `up` upwards; what `self` holds plays no part.
    #[verifier::rlimit(40)]
    pub fn view_transform(self, from: Point, to: Point, up: Vector) -> (m: Mat4)
        ensures
            m@ == view4(from, to, up),
    {
        let forward = (to - from).normalize();
        let up_normalized = up.normalize();
        let left = forward.cross(up_normalized);
        let true_up = left.cross(forward);
        let turn = Mat4::oriented(forward, left, true_up);
        let shift = Mat4::identity().translate(from.x.neg(), from.y.neg(), from.z.neg());
        let m = turn * shift;
        proof {
            law_identity_is_neutral(
                translation(from.x.negated(), from.y.negated(), from.z.negated()),
            );
            lemma_of_cells(product4(turn@, shift@));
        }
        m
    }

    /// The matrix whose rows are `left`, `true_up` and the opposite of
    /// `forward`.
    fn oriented(forward: Vector, left: Vector, true_up: Vector) -> (m: Mat4)
        ensures
            m@ == orientation(forward, left, true_up),
    {
        let one = Scalar::one();
        let zero = Scalar::zero();
        let m = Mat4 {
            elements: [
                left.x,
                left.y,
                left.z,
                zero,
                true_up.x,
                true_up.y,
                true_up.z,
                zero,
                forward.x.neg(),
                forward.y.neg(),
                forward.z.neg(),
                zero,
                zero,
                zero,
                zero,
                one,
            ],
        };
        assert(m@ =~= orientation(forward, left, true_up));
        m
    }
}

impl PartialEq for Mat4 {
    fn eq(&self, rhs: &Mat4) -> (r: bool) {
        let mut i: usize = 0;
        while i < 16
            invariant
                i <= 16,
                forall|k: int| 0 <= k < i ==> is_equal(#[trigger] self@[k], rhs@[k]),
            decreases 16 - i,
        {
            if !is_equal(self.elements[i], rhs.elements[i]) {
                return false;
            }
            i = i + 1;
        }
        true
    }
}

impl vstd::std_specs::cmp::PartialEqSpecImpl for Mat4 {
    open spec fn obeys_eq_spec() -> bool {
        true
    }

    open spec fn eq_spec(&self, rhs: &Mat4) -> bool {
        approx_cells(self@, rhs@)
    }
}

impl core::ops::Mul for Mat4 {
    type Output = Mat4;

    fn mul(self, rhs: Mat4) -> (r: Mat4) {
        let mut cells: [Scalar; 16] = [Scalar::zero();16];
        let mut i: usize = 0;
        while i < 16
            invariant
                i <= 16,
                forall|k: int| 0 <= k < i ==> cells@[k] == cell(self@, rhs@, k / 4, k % 4),
            decreases 16 - i,
        {
            let row: usize = i / 4;
            let col: usize = i % 4;
            cells[i] = self.elements[row * 4] * rhs.elements[col] + self.elements[row * 4 + 1]
                * rhs.elements[4 + col] + self.elements[row * 4 + 2] * rhs.elements[8 + col]
                + self.elements[row * 4 + 3] * rhs.elements[12 + col];
            i = i + 1;
        }
        let m = Mat4 { elements: cells };
        assert(m@ =~= product4(self@, rhs@));
        assert(m.elements =~= of_cells(product4(self@, rhs@)).elements);
        m
    }
}

impl vstd::std_specs::ops::MulSpecImpl for Mat4 {
    open spec fn obeys_mul_spec() -> bool {
        true
    }

    open spec fn mul_req(self, rhs: Mat4) -> bool {
        true
    }

    open spec fn mul_spec(self, rhs: Mat4) -> Mat4 {
        of_cells(product4(self@, rhs@))
    }
}

impl core::ops::Mul<Tuple> for Mat4 {
    type Output = Tuple;

    fn mul(self, rhs: Tuple) -> (r: Tuple) {
        let m = &self.elements;
        Tuple {
            x: m[0] * rhs.x + m[1] * rhs.y + m[2] * rhs.z + m[3] * rhs.w,
            y: m[4] * rhs.x + m[5] * rhs.y + m[6] * rhs.z + m[7] * rhs.w,
            z: m[8] * rhs.x + m[9] * rhs.y + m[10] * rhs.z + m[11] * rhs.w,
            w: m[12] * rhs.x + m[13] * rhs.y + m[14] * rhs.z + m[15] * rhs.w,
        }
    }
}

impl vstd::std_specs::ops::MulSpecImpl<Tuple> for Mat4 {
    open spec fn obeys_mul_spec() -> bool {
        true
    }

    open spec fn mul_req(self, rhs: Tuple) -> bool {
        true
    }

    open spec fn mul_spec(self, rhs: Tuple) -> Tuple {
        tuple_image(self@, rhs)
    }
}

impl core::ops::Mul<Point> for Mat4 {
    type Output = Point;

    fn mul(self, rhs: Point) -> (r: Point) {
        let m = &self.elements;
        let rhs = Tuple { x: rhs.x, y: rhs.y, z: rhs.z, w: Scalar::one() };
        Point {
            x: m[0] * rhs.x + m[1] * rhs.y + m[2] * rhs.z + m[3] * rhs.w,
            y: m[4] * rhs.x + m[5] * rhs.y + m[6] * rhs.z + m[7] * rhs.w,
            z: m[8] * rhs.x + m[9] * rhs.y + m[10] * rhs.z + m[11] * rhs.w,
        }
    }
}

impl vstd::std_specs::ops::MulSpecImpl<Point> for Mat4 {
    open spec fn obeys_mul_spec() -> bool {
        true
    }

    open spec fn mul_req(self, rhs: Point) -> bool {
        true
    }

    open spec fn mul_spec(self, rhs: Point) -> Point {
        point_image(self@, rhs)
    }
}

impl core::ops::Mul<Vector> for Mat4 {
    type Output = Vector;

    fn mul(self, rhs: Vector) -> (r: Vector) {
        let m = &self.elements;
        let rhs = Tuple { x: rhs.x, y: rhs.y, z: rhs.z, w: Scalar::zero() };
        Vector {
            x: m[0] * rhs.x + m[1] * rhs.y + m[2] * rhs.z + m[3] * rhs.w,
            y: m[4] * rhs.x + m[5] * rhs.y + m[6] * rhs.z + m[7] * rhs.w,
            z: m[8] * rhs.x + m[9] * rhs.y + m[10] * rhs.z + m[11] * rhs.w,
        }
    }
}

impl vstd::std_specs::ops::MulSpecImpl<Vector> for Mat4 {
    open spec fn obeys_mul_spec() -> bool {
        true
    }

    open spec fn mul_req(self, rhs: Vector) -> bool {
        true
    }

    open spec fn mul_spec(self, rhs: Vector) -> Vector {
        vector_image(self@, rhs)
    }
}

/// The matrix whose cells are the first sixteen of `s`.
pub open spec fn of_cells(s: Seq<Scalar>) -> Mat4 {
    Mat4 {
        elements: [
            s[0],
            s[1],
            s[2],
            s[3],
            s[4],
            s[5],
            s[6],
            s[7],
            s[8],
            s[9],
            s[10],
            s[11],
            s[12],
            s[13],
            s[14],
            s[15],
        ],
    }
}

/// A matrix is the matrix of its cells.
pub proof fn lemma_of_cells(s: Seq<Scalar>)
    requires
        s.len() == 16,
    ensures
        of_cells(s)@ == s,
{
    assert(of_cells(s)@ =~= s);
}

} // verus!
