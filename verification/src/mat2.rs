//! Two-by-two matrices.

use crate::error::in_range;
use crate::error::ranged;
use crate::error::MatrixError;
use crate::scalar::is_equal;
use crate::scalar::Scalar;
use vstd::prelude::*;

verus! {

/// A matrix of two rows and two columns, stored row by row.
#[derive(Debug, Clone, Copy)]
pub struct Mat2 {
    pub elements: [Scalar; 4],
}

impl View for Mat2 {
    type V = Seq<Scalar>;

    open spec fn view(&self) -> Seq<Scalar> {
        self.elements@
    }
}

/// The determinant of the two-by-two matrix whose cells are `m`; none where
/// a product or their difference cannot be represented.
pub open spec fn det2(m: Seq<Scalar>) -> Option<Scalar> {
    match (m[0].times_checked(m[3]), m[1].times_checked(m[2])) {
        (Some(a), Some(b)) => a.minus_checked(b),
        _ => None,
    }
}

/// Whether matching cells of two matrices differ by less than the tolerance.
pub open spec fn approx_cells(a: Seq<Scalar>, b: Seq<Scalar>) -> bool {
    forall|i: int| 0 <= i < a.len() ==> is_equal(#[trigger] a[i], b[i])
}

impl Mat2 {
    /// The matrix whose cells are all zero.
    pub fn zero() -> (m: Mat2)
        ensures
            m@ == Seq::new(4, |i: int| Scalar::zero()),
    {
        let m = Mat2 { elements: [Scalar::zero();4] };
        assert(m@ =~= Seq::new(4, |i: int| Scalar::zero()));
        m
    }

    /// The matrix whose cells are `elements`, row by row.
    pub fn from_slice(elements: &[Scalar]) -> (r: Result<Mat2, MatrixError>)
        ensures
            elements@.len() == 4 ==> r is Ok && r->Ok_0@ == elements@,
            elements@.len() != 4 ==> r == Err::<Mat2, MatrixError>(MatrixError::DimensionMismatch),
    {
        if elements.len() != 4 {
            return Err(MatrixError::DimensionMismatch);
        }
        let m = Mat2 { elements: [elements[0], elements[1], elements[2], elements[3]] };
        assert(m@ =~= elements@);
        Ok(m)
    }

    /// The cell in row `row` and column `col`.
    pub fn get(&self, row: usize, col: usize) -> (v: Scalar)
        requires
            row < 2,
            col < 2,
        ensures
            v == self@[row * 2 + col],
    {
        self.elements[row * 2 + col]
    }

    /// Sets the cell in row `row` and column `col`.
    pub fn set(&mut self, row: usize, col: usize, value: Scalar)
        requires
            row < 2,
            col < 2,
        ensures
            final(self)@ == old(self)@.update(row * 2 + col, value),
    {
        self.elements[row * 2 + col] = value;
    }

    /// The determinant, or nothing where a number met on the way cannot be
    /// represented.
    pub(crate) fn checked_determinant(&self) -> (d: Option<Scalar>)
        ensures
            d == det2(self@),
    {
        match (
            self.elements[0].checked_mul(self.elements[3]),
            self.elements[1].checked_mul(self.elements[2]),
        ) {
            (Some(a), Some(b)) => a.checked_sub(b),
            _ => None,
        }
    }

    /// The determinant. It fails where a number met on the way cannot be
    /// represented.
    pub fn determinant(&self) -> (d: Result<Scalar, MatrixError>)
        ensures
            d == ranged(det2(self@)),
    {
        in_range(self.checked_determinant())
    }
}

impl PartialEq for Mat2 {
    fn eq(&self, rhs: &Mat2) -> (r: bool) {
        let mut i: usize = 0;
        while i < 4
            invariant
                i <= 4,
                forall|k: int| 0 <= k < i ==> is_equal(#[trigger] self@[k], rhs@[k]),
            decreases 4 - i,
        {
            if !is_equal(self.elements[i], rhs.elements[i]) {
                return false;
            }
            i = i + 1;
        }
        true
    }
}

impl vstd::std_specs::cmp::PartialEqSpecImpl for Mat2 {
    open spec fn obeys_eq_spec() -> bool {
        true
    }

    open spec fn eq_spec(&self, rhs: &Mat2) -> bool {
        approx_cells(self@, rhs@)
    }
}

} // verus!
