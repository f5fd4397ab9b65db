//! Three-by-three matrices.

use crate::error::add_checked;
use crate::error::checked_sign;
use crate::error::checked_sum;
use crate::error::checked_term;
use crate::error::in_range;
use crate::error::ranged;
use crate::error::signed;
use crate::error::term;
use crate::error::MatrixError;
use crate::mat2::approx_cells;
use crate::mat2::det2;
use crate::mat2::Mat2;
use crate::scalar::is_equal;
use crate::scalar::Scalar;
use vstd::prelude::*;

verus! {

/// A matrix of three rows and three columns, stored row by row.
#[derive(Debug, Clone, Copy)]
pub struct Mat3 {
    pub elements: [Scalar; 9],
}

impl View for Mat3 {
    type V = Seq<Scalar>;

    open spec fn view(&self) -> Seq<Scalar> {
        self.elements@
    }
}

/// The index that cell `i` of a matrix with one line removed has in the
/// matrix it was taken from, where `gone` is the line removed.
pub open spec fn skip(i: int, gone: int) -> int {
    if i < gone {
        i
    } else {
        i + 1
    }
}

/// The cells of a three-by-three matrix `m` without row `row` and column
/// `col`.
pub open spec fn sub3(m: Seq<Scalar>, row: int, col: int) -> Seq<Scalar> {
    Seq::new(4, |i: int| m[skip(i / 2, row) * 3 + skip(i % 2, col)])
}

/// The determinant of what is left of `m` without row `row` and column `col`.
pub open spec fn minor3(m: Seq<Scalar>, row: int, col: int) -> Option<Scalar> {
    det2(sub3(m, row, col))
}

/// The minor, with its sign changed where `row + col` is odd.
pub open spec fn cofactor3(m: Seq<Scalar>, row: int, col: int) -> Option<Scalar> {
    signed(minor3(m, row, col), (row + col) % 2 != 0)
}

/// The determinant of the three-by-three matrix whose cells are `m`: the
/// cells of its first row, each times its cofactor, summed from the left;
/// none where a number met on the way cannot be represented.
pub open spec fn det3(m: Seq<Scalar>) -> Option<Scalar> {
    add_checked(
        add_checked(term(m[0], cofactor3(m, 0, 0)), term(m[1], cofactor3(m, 0, 1))),
        term(m[2], cofactor3(m, 0, 2)),
    )
}

impl Mat3 {
    /// The matrix whose cells are all zero.
    pub fn zero() -> (m: Mat3)
        ensures
            m@ == Seq::new(9, |i: int| Scalar::zero()),
    {
        let m = Mat3 { elements: [Scalar::zero();9] };
        assert(m@ =~= Seq::new(9, |i: int| Scalar::zero()));
        m
    }

    /// The matrix whose cells are `elements`, row by row.
    pub fn from_slice(elements: &[Scalar]) -> (r: Result<Mat3, MatrixError>)
        ensures
            elements@.len() == 9 ==> r is Ok && r->Ok_0@ == elements@,
            elements@.len() != 9 ==> r == Err::<Mat3, MatrixError>(MatrixError::DimensionMismatch),
    {
        if elements.len() != 9 {
            return Err(MatrixError::DimensionMismatch);
        }
        let mut cells: [Scalar; 9] = [Scalar::zero();9];
        let mut i: usize = 0;
        while i < 9
            invariant
                i <= 9,
                elements@.len() == 9,
                forall|k: int| 0 <= k < i ==> cells@[k] == elements@[k],
            decreases 9 - i,
        {
            cells[i] = elements[i];
            i = i + 1;
        }
        let m = Mat3 { elements: cells };
        assert(m@ =~= elements@);
        Ok(m)
    }

    /// The cell in row `row` and column `col`.
    pub fn get(&self, row: usize, col: usize) -> (v: Scalar)
        requires
            row < 3,
            col < 3,
        ensures
            v == self@[row * 3 + col],
    {
        self.elements[row * 3 + col]
    }

    /// Sets the cell in row `row` and column `col`.
    pub fn set(&mut self, row: usize, col: usize, value: Scalar)
        requires
            row < 3,
            col < 3,
        ensures
            final(self)@ == old(self)@.update(row * 3 + col, value),
    {
        self.elements[row * 3 + col] = value;
    }

    /// The matrix without row `row` and column `col`.
    pub fn submatrix(&self, row: usize, col: usize) -> (m: Mat2)
        requires
            row < 3,
            col < 3,
        ensures
            m@ == sub3(self@, row as int, col as int),
    {
        let mut cells: [Scalar; 4] = [Scalar::zero();4];
        let mut i: usize = 0;
        while i < 4
            invariant
                i <= 4,
                row < 3,
                col < 3,
                forall|k: int|
                    0 <= k < i ==> cells@[k] == self@[skip(k / 2, row as int) * 3 + skip(
                        k % 2,
                        col as int,
                    )],
            decreases 4 - i,
        {
            let r: usize = if i / 2 < row {
                i / 2
            } else {
                i / 2 + 1
            };
            let c: usize = if i % 2 < col {
                i % 2
            } else {
                i % 2 + 1
            };
            cells[i] = self.elements[r * 3 + c];
            i = i + 1;
        }
        let m = Mat2 { elements: cells };
        assert(m@ =~= sub3(self@, row as int, col as int));
        m
    }

    /// The determinant of the matrix without row `row` and column `col`, or
    /// nothing.
    pub(crate) fn checked_minor(&self, row: usize, col: usize) -> (d: Option<Scalar>)
        requires
            row < 3,
            col < 3,
        ensures
            d == minor3(self@, row as int, col as int),
    {
        self.submatrix(row, col).checked_determinant()
    }

    /// The cofactor, or nothing.
    pub(crate) fn checked_cofactor(&self, row: usize, col: usize) -> (d: Option<Scalar>)
        requires
            row < 3,
            col < 3,
        ensures
            d == cofactor3(self@, row as int, col as int),
    {
        checked_sign(self.checked_minor(row, col), (row + col) % 2 != 0)
    }

    /// The determinant, or nothing.
    pub(crate) fn checked_determinant(&self) -> (d: Option<Scalar>)
        ensures
            d == det3(self@),
    {
        let a = checked_term(self.elements[0], self.checked_cofactor(0, 0));
        let b = checked_term(self.elements[1], self.checked_cofactor(0, 1));
        let c = checked_term(self.elements[2], self.checked_cofactor(0, 2));
        checked_sum(checked_sum(a, b), c)
    }

    /// The determinant of the matrix without row `row` and column `col`. It
    /// fails where a number met on the way cannot be represented.
    pub fn minor(&self, row: usize, col: usize) -> (d: Result<Scalar, MatrixError>)
        requires
            row < 3,
            col < 3,
        ensures
            d == ranged(minor3(self@, row as int, col as int)),
    {
        in_range(self.checked_minor(row, col))
    }

    /// The minor, with its sign changed where `row + col` is odd. It fails
    /// where a number met on the way cannot be represented.
    pub fn cofactor(&self, row: usize, col: usize) -> (d: Result<Scalar, MatrixError>)
        requires
            row < 3,
            col < 3,
        ensures
            d == ranged(cofactor3(self@, row as int, col as int)),
    {
        in_range(self.checked_cofactor(row, col))
    }

    /// The determinant, expanded along the first row. It fails where a
    /// number met on the way cannot be represented.
    pub fn determinant(&self) -> (d: Result<Scalar, MatrixError>)
        ensures
            d == ranged(det3(self@)),
    {
        in_range(self.checked_determinant())
    }
}

impl PartialEq for Mat3 {
    fn eq(&self, rhs: &Mat3) -> (r: bool) {
        let mut i: usize = 0;
        while i < 9
            invariant
                i <= 9,
                forall|k: int| 0 <= k < i ==> is_equal(#[trigger] self@[k], rhs@[k]),
            decreases 9 - i,
        {
            if !is_equal(self.elements[i], rhs.elements[i]) {
                return false;
            }
            i = i + 1;
        }
        true
    }
}

impl vstd::std_specs::cmp::PartialEqSpecImpl for Mat3 {
    open spec fn obeys_eq_spec() -> bool {
        true
    }

    open spec fn eq_spec(&self, rhs: &Mat3) -> bool {
        approx_cells(self@, rhs@)
    }
}

} // verus!
