//! The failures that operations report.

use crate::scalar::Scalar;
use vstd::prelude::*;

verus! {

/// Why an operation has no result.
#[derive(Debug, Clone, Copy, PartialEq, Eq, Structural)]
pub enum MatrixError {
    /// The data handed over does not hold one number for each cell.
    DimensionMismatch,
    /// The determinant is within the tolerance of zero.
    NonInvertible,
    /// A number met on the way cannot be represented.
    OutOfRange,
}

/// The number where there is one, the failure `OutOfRange` where there is
/// none.
pub open spec fn ranged(value: Option<Scalar>) -> Result<Scalar, MatrixError> {
    match value {
        Some(v) => Ok(v),
        None => Err(MatrixError::OutOfRange),
    }
}

/// The product of `a` and `c`, where both are there and it can be
/// represented.
pub open spec fn term(a: Scalar, c: Option<Scalar>) -> Option<Scalar> {
    match c {
        Some(c) => a.times_checked(c),
        None => None,
    }
}

/// The sum of `a` and `b`, where both are there and it can be represented.
pub open spec fn add_checked(a: Option<Scalar>, b: Option<Scalar>) -> Option<Scalar> {
    match (a, b) {
        (Some(a), Some(b)) => a.plus_checked(b),
        _ => None,
    }
}

/// The difference of `a` and `b`, where both are there and it can be
/// represented.
pub open spec fn sub_checked(a: Option<Scalar>, b: Option<Scalar>) -> Option<Scalar> {
    match (a, b) {
        (Some(a), Some(b)) => a.minus_checked(b),
        _ => None,
    }
}

/// The product of `a` and `b`, where both are there and it can be
/// represented.
pub open spec fn mul_checked(a: Option<Scalar>, b: Option<Scalar>) -> Option<Scalar> {
    match (a, b) {
        (Some(a), Some(b)) => a.times_checked(b),
        _ => None,
    }
}

/// The quotient of `a` by `b`, where both are there, `b` is not zero and
/// the quotient can be represented.
pub open spec fn div_checked(a: Option<Scalar>, b: Option<Scalar>) -> Option<Scalar> {
    match (a, b) {
        (Some(a), Some(b)) => a.over_checked(b),
        _ => None,
    }
}

/// The number `d`, with its sign changed where `odd` is set and the
/// opposite can be represented.
pub open spec fn signed(d: Option<Scalar>, odd: bool) -> Option<Scalar> {
    match d {
        Some(d) => if odd {
            d.negated_checked()
        } else {
            Some(d)
        },
        None => None,
    }
}

/// The product of `a` and `c`, or nothing.
pub fn checked_term(a: Scalar, c: Option<Scalar>) -> (r: Option<Scalar>)
    ensures
        r == term(a, c),
{
    match c {
        Some(c) => a.checked_mul(c),
        None => None,
    }
}

/// The sum of `a` and `b`, or nothing.
pub fn checked_sum(a: Option<Scalar>, b: Option<Scalar>) -> (r: Option<Scalar>)
    ensures
        r == add_checked(a, b),
{
    match (a, b) {
        (Some(a), Some(b)) => a.checked_add(b),
        _ => None,
    }
}

/// The difference of `a` and `b`, or nothing.
pub fn checked_difference(a: Option<Scalar>, b: Option<Scalar>) -> (r: Option<Scalar>)
    ensures
        r == sub_checked(a, b),
{
    match (a, b) {
        (Some(a), Some(b)) => a.checked_sub(b),
        _ => None,
    }
}

/// The product of `a` and `b`, or nothing.
pub fn checked_product(a: Option<Scalar>, b: Option<Scalar>) -> (r: Option<Scalar>)
    ensures
        r == mul_checked(a, b),
{
    match (a, b) {
        (Some(a), Some(b)) => a.checked_mul(b),
        _ => None,
    }
}

/// The quotient of `a` by `b`, or nothing.
pub fn checked_quotient(a: Option<Scalar>, b: Option<Scalar>) -> (r: Option<Scalar>)
    ensures
        r == div_checked(a, b),
{
    match (a, b) {
        (Some(a), Some(b)) => a.checked_div(b),
        _ => None,
    }
}

/// The number `d` with its sign changed where `odd` is set, or nothing.
pub fn checked_sign(d: Option<Scalar>, odd: bool) -> (r: Option<Scalar>)
    ensures
        r == signed(d, odd),
{
    match d {
        Some(d) => if odd {
            d.checked_neg()
        } else {
            Some(d)
        },
        None => None,
    }
}

/// The number, or the failure `OutOfRange`.
pub fn in_range(value: Option<Scalar>) -> (r: Result<Scalar, MatrixError>)
    ensures
        r == ranged(value),
{
    match value {
        Some(v) => Ok(v),
        None => Err(MatrixError::OutOfRange),
    }
}

} // verus!
