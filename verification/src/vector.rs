//! Directions in space.

use crate::error::add_checked;
use crate::error::checked_sum;
use crate::scalar::clamp;
use crate::scalar::int_root;
use crate::scalar::int_sqrt;
use crate::scalar::is_equal;
use crate::scalar::lemma_int_sqrt;
use crate::scalar::magnitude;
use crate::scalar::nearest;
use crate::scalar::nearest_wide;
use crate::scalar::Scalar;
use crate::scalar::SCALE;
use core::ops::Neg;
use vstd::prelude::*;

verus! {

/// The sum of squared raw components below which a vector is magnified
/// before its length is taken: ten to the power twenty-six.
pub const FINE_BELOW: u128 = 100_000_000_000_000_000_000_000_000;

/// The distance of `c` from zero, in raw units.
fn wide_magnitude(c: Scalar) -> (m: u128)
    ensures
        m == magnitude(c@),
        m <= 0x8000_0000_0000_0000,
{
    if c.raw < 0 {
        (-(c.raw as i128)) as u128
    } else {
        c.raw as u128
    }
}

/// Where the squares of three numbers sum to less than ten to the power
/// twenty-six, each of them lies below ten to the power thirteen.
proof fn lemma_small_component(x: int, y: int, z: int)
    requires
        x * x + y * y + z * z < FINE_BELOW,
    ensures
        -10_000_000_000_000 < x < 10_000_000_000_000,
        -10_000_000_000_000 < y < 10_000_000_000_000,
        -10_000_000_000_000 < z < 10_000_000_000_000,
{
    assert(-10_000_000_000_000 < x < 10_000_000_000_000 && -10_000_000_000_000 < y
        < 10_000_000_000_000 && -10_000_000_000_000 < z < 10_000_000_000_000)
        by (nonlinear_arith)
        requires
            x * x + y * y + z * z < 100_000_000_000_000_000_000_000_000,
    ;
}

/// The component `c` times `SCALE`, magnified a million times where `fine`
/// is set, and divided by `root`.
fn unit_component(c: Scalar, fine: bool, root: u64) -> (r: Scalar)
    requires
        root >= 1,
        fine ==> -10_000_000_000_000 < c@ < 10_000_000_000_000,
    ensures
        r@ == clamp(
            nearest(
                c@ * SCALE * (if fine {
                    1_000_000nat
                } else {
                    1nat
                }),
                root as int,
            ),
        ),
{
    let k: i128 = if fine {
        1_000_000
    } else {
        1
    };
    let a: i128 = c.raw as i128;
    assert(-0x4000_0000_0000_0000_0000_0000_0000_0000 <= a * 1_000_000_000
        <= 0x4000_0000_0000_0000_0000_0000_0000_0000 && -0x4000_0000_0000_0000_0000_0000_0000_0000
        <= a * 1_000_000_000 * k <= 0x4000_0000_0000_0000_0000_0000_0000_0000)
        by (nonlinear_arith)
        requires
            (k == 1 && -0x8000_0000_0000_0000 <= a <= 0x8000_0000_0000_0000) || (k == 1_000_000
                && -10_000_000_000_000 < a < 10_000_000_000_000),
    ;
    let q: i128 = nearest_wide(a * (SCALE as i128) * k, root as i128);
    if q > i64::MAX as i128 {
        Scalar { raw: i64::MAX }
    } else if q < i64::MIN as i128 {
        Scalar { raw: i64::MIN }
    } else {
        Scalar { raw: q as i64 }
    }
}

/// A direction: a tuple whose fourth component is zero.
#[derive(Debug, Copy, Clone)]
pub struct Vector {
    pub x: Scalar,
    pub y: Scalar,
    pub z: Scalar,
}

impl Vector {
    /// The component-wise sum.
    pub open spec fn plus(self, rhs: Vector) -> Vector {
        Vector { x: self.x.plus(rhs.x), y: self.y.plus(rhs.y), z: self.z.plus(rhs.z) }
    }

    /// The component-wise difference.
    pub open spec fn minus(self, rhs: Vector) -> Vector {
        Vector { x: self.x.minus(rhs.x), y: self.y.minus(rhs.y), z: self.z.minus(rhs.z) }
    }

    /// The opposite direction.
    pub open spec fn negated(self) -> Vector {
        Vector { x: self.x.negated(), y: self.y.negated(), z: self.z.negated() }
    }

    /// Every component multiplied by `scalar`.
    pub open spec fn scaled(self, scalar: Scalar) -> Vector {
        Vector { x: self.x.times(scalar), y: self.y.times(scalar), z: self.z.times(scalar) }
    }

    /// Every component divided by `scalar`.
    pub open spec fn shrunk(self, scalar: Scalar) -> Vector {
        Vector { x: self.x.over(scalar), y: self.y.over(scalar), z: self.z.over(scalar) }
    }

    /// Whether every component differs from its counterpart by less than
    /// the tolerance.
    pub open spec fn approx(self, other: Vector) -> bool {
        is_equal(self.x, other.x) && is_equal(self.y, other.y) && is_equal(self.z, other.z)
    }

    pub open spec fn new_spec(x: Scalar, y: Scalar, z: Scalar) -> Vector {
        Vector { x, y, z }
    }

    /// The direction of the three components.
    #[verifier::when_used_as_spec(new_spec)]
    pub fn new(x: Scalar, y: Scalar, z: Scalar) -> (v: Vector)
        ensures
            v == Vector::new_spec(x, y, z),
    {
        Vector { x, y, z }
    }

    pub open spec fn zero_spec() -> Vector {
        Vector { x: Scalar::zero(), y: Scalar::zero(), z: Scalar::zero() }
    }

    /// The direction without length.
    #[verifier::when_used_as_spec(zero_spec)]
    pub fn zero() -> (v: Vector)
        ensures
            v == Vector::zero_spec(),
    {
        Vector { x: Scalar::zero(), y: Scalar::zero(), z: Scalar::zero() }
    }

    /// The sum of the squares of the raw components, exactly.
    pub open spec fn sum_of_squares(&self) -> nat {
        (self.x@ * self.x@ + self.y@ * self.y@ + self.z@ * self.z@) as nat
    }

    pub open spec fn magnitude_spec(&self) -> Scalar {
        Scalar { raw: clamp(int_sqrt(self.sum_of_squares()) as int) as i64 }
    }

    /// The sum of the squares of the raw components.
    fn squares(&self) -> (sum: u128)
        ensures
            sum == self.sum_of_squares(),
            sum <= 3 * 0x4000_0000_0000_0000_0000_0000_0000_0000,
    {
        let x: u128 = wide_magnitude(self.x);
        let y: u128 = wide_magnitude(self.y);
        let z: u128 = wide_magnitude(self.z);
        assert(x * x <= 0x4000_0000_0000_0000_0000_0000_0000_0000 && x * x == self.x@ * self.x@)
            by (nonlinear_arith)
            requires
                x == magnitude(self.x@),
                x <= 0x8000_0000_0000_0000,
        ;
        assert(y * y <= 0x4000_0000_0000_0000_0000_0000_0000_0000 && y * y == self.y@ * self.y@)
            by (nonlinear_arith)
            requires
                y == magnitude(self.y@),
                y <= 0x8000_0000_0000_0000,
        ;
        assert(z * z <= 0x4000_0000_0000_0000_0000_0000_0000_0000 && z * z == self.z@ * self.z@)
            by (nonlinear_arith)
            requires
                z == magnitude(self.z@),
                z <= 0x8000_0000_0000_0000,
        ;
        x * x + y * y + z * z
    }

    /// The length: the square root of the sum of the squared components,
    /// taken exactly and rounded down once; the largest number where the
    /// length is beyond it.
    #[verifier::when_used_as_spec(magnitude_spec)]
    pub fn magnitude(&self) -> (m: Scalar)
        ensures
            m == self.magnitude_spec(),
    {
        let root: u64 = int_root(self.squares());
        if root > i64::MAX as u64 {
            Scalar { raw: i64::MAX }
        } else {
            Scalar { raw: root as i64 }
        }
    }

    /// By how much the components are magnified before the length is taken
    /// that they are divided by: a million for all but very long vectors, so
    /// that the length of a short vector is known to more places.
    pub open spec fn refinement(&self) -> nat {
        if self.sum_of_squares() < FINE_BELOW {
            1_000_000
        } else {
            1
        }
    }

    /// The length of the vector magnified by `refinement()`, in raw units,
    /// rounded down.
    pub open spec fn fine_magnitude(&self) -> nat {
        int_sqrt(self.sum_of_squares() * self.refinement() * self.refinement())
    }

    /// The component `c` of this vector, divided by the length.
    pub open spec fn unit_part(&self, c: Scalar) -> Scalar {
        Scalar {
            raw: clamp(nearest(c@ * SCALE * self.refinement(), self.fine_magnitude() as int))
                as i64,
        }
    }

    pub open spec fn normalize_spec(&self) -> Vector {
        if is_equal(self.magnitude(), Scalar::zero()) {
            *self
        } else {
            Vector {
                x: self.unit_part(self.x),
                y: self.unit_part(self.y),
                z: self.unit_part(self.z),
            }
        }
    }

    /// The vector of length one in the same direction. A vector whose length
    /// is within the tolerance of zero has no direction and is returned as
    /// it is.
    #[verifier::when_used_as_spec(normalize_spec)]
    pub fn normalize(&self) -> (v: Vector)
        ensures
            v == self.normalize_spec(),
    {
        let sum: u128 = self.squares();
        let whole: u64 = int_root(sum);
        let magnitude = if whole > i64::MAX as u64 {
            Scalar { raw: i64::MAX }
        } else {
            Scalar { raw: whole as i64 }
        };
        if is_equal(magnitude, Scalar::zero()) {
            return *self;
        }
        assert(sum >= 1) by (nonlinear_arith)
            requires
                whole >= 1,
                whole * whole <= sum,
        ;
        let fine: bool = sum < FINE_BELOW;
        let k: u128 = if fine {
            1_000_000
        } else {
            1
        };
        assert(sum * k * k <= 0xffff_ffff_ffff_ffff_ffff_ffff_ffff_ffff && sum * k >= 0 && sum * k
            * k >= 1) by (nonlinear_arith)
            requires
                sum >= 1,
                (k == 1 && sum <= 3 * 0x4000_0000_0000_0000_0000_0000_0000_0000) || (k
                    == 1_000_000 && sum < 100_000_000_000_000_000_000_000_000),
        ;
        let root: u64 = int_root(sum * k * k);
        assert(root >= 1) by (nonlinear_arith)
            requires
                sum * k * k >= 1,
                sum * k * k < (root + 1) * (root + 1),
        ;
        proof {
            if fine {
                lemma_small_component(self.x@, self.y@, self.z@);
            }
        }
        Vector {
            x: unit_component(self.x, fine, root),
            y: unit_component(self.y, fine, root),
            z: unit_component(self.z, fine, root),
        }
    }

    /// The sum of the products of matching components, where every product
    /// and every sum can be represented.
    pub open spec fn dot_checked(&self, rhs: Vector) -> Option<Scalar> {
        add_checked(
            add_checked(self.x.times_checked(rhs.x), self.y.times_checked(rhs.y)),
            self.z.times_checked(rhs.z),
        )
    }

    /// The sum of the products of matching components, or nothing where a
    /// product or a sum cannot be represented.
    pub fn checked_dot(&self, rhs: Vector) -> (d: Option<Scalar>)
        ensures
            d == self.dot_checked(rhs),
    {
        checked_sum(
            checked_sum(self.x.checked_mul(rhs.x), self.y.checked_mul(rhs.y)),
            self.z.checked_mul(rhs.z),
        )
    }

    pub open spec fn dot_spec(&self, rhs: Vector) -> Scalar {
        self.x.times(rhs.x).plus(self.y.times(rhs.y)).plus(self.z.times(rhs.z))
    }

    /// The sum of the products of matching components.
    #[verifier::when_used_as_spec(dot_spec)]
    pub fn dot(&self, rhs: Vector) -> (d: Scalar)
        ensures
            d == self.dot_spec(rhs),
    {
        self.x * rhs.x + self.y * rhs.y + self.z * rhs.z
    }

    pub open spec fn cross_spec(&self, rhs: Vector) -> Vector {
        Vector {
            x: self.y.times(rhs.z).minus(self.z.times(rhs.y)),
            y: self.z.times(rhs.x).minus(self.x.times(rhs.z)),
            z: self.x.times(rhs.y).minus(self.y.times(rhs.x)),
        }
    }

    /// The vector at right angles to both.
    #[verifier::when_used_as_spec(cross_spec)]
    pub fn cross(&self, rhs: Vector) -> (v: Vector)
        ensures
            v == self.cross_spec(rhs),
    {
        Vector {
            x: self.y * rhs.z - self.z * rhs.y,
            y: self.z * rhs.x - self.x * rhs.z,
            z: self.x * rhs.y - self.y * rhs.x,
        }
    }

    pub open spec fn reflect_spec(self, rhs: Vector) -> Vector {
        self.minus(rhs.scaled(Scalar::from_int(2)).scaled(self.dot(rhs)))
    }

    /// This vector mirrored at the surface whose normal is `rhs`.
    #[verifier::when_used_as_spec(reflect_spec)]
    pub fn reflect(self, rhs: Vector) -> (v: Vector)
        ensures
            v == self.reflect_spec(rhs),
    {
        self - rhs * Scalar::from_int(2) * self.dot(rhs)
    }
}

impl PartialEq for Vector {
    fn eq(&self, other: &Vector) -> (r: bool) {
        is_equal(self.x, other.x) && is_equal(self.y, other.y) && is_equal(self.z, other.z)
    }
}

impl vstd::std_specs::cmp::PartialEqSpecImpl for Vector {
    open spec fn obeys_eq_spec() -> bool {
        true
    }

    open spec fn eq_spec(&self, other: &Vector) -> bool {
        self.approx(*other)
    }
}

impl core::ops::Add for Vector {
    type Output = Vector;

    fn add(self, rhs: Vector) -> (r: Vector) {
        Vector { x: self.x + rhs.x, y: self.y + rhs.y, z: self.z + rhs.z }
    }
}

impl vstd::std_specs::ops::AddSpecImpl for Vector {
    open spec fn obeys_add_spec() -> bool {
        true
    }

    open spec fn add_req(self, rhs: Vector) -> bool {
        true
    }

    open spec fn add_spec(self, rhs: Vector) -> Vector {
        self.plus(rhs)
    }
}

impl core::ops::Sub for Vector {
    type Output = Vector;

    fn sub(self, rhs: Vector) -> (r: Vector) {
        Vector { x: self.x - rhs.x, y: self.y - rhs.y, z: self.z - rhs.z }
    }
}

impl vstd::std_specs::ops::SubSpecImpl for Vector {
    open spec fn obeys_sub_spec() -> bool {
        true
    }

    open spec fn sub_req(self, rhs: Vector) -> bool {
        true
    }

    open spec fn sub_spec(self, rhs: Vector) -> Vector {
        self.minus(rhs)
    }
}

impl core::ops::Neg for Vector {
    type Output = Vector;

    fn neg(self) -> (r: Vector) {
        Vector { x: self.x.neg(), y: self.y.neg(), z: self.z.neg() }
    }
}

impl vstd::std_specs::ops::NegSpecImpl for Vector {
    open spec fn obeys_neg_spec() -> bool {
        true
    }

    open spec fn neg_req(self) -> bool {
        true
    }

    open spec fn neg_spec(self) -> Vector {
        self.negated()
    }
}

impl core::ops::Mul<Scalar> for Vector {
    type Output = Vector;

    fn mul(self, scalar: Scalar) -> (r: Vector) {
        Vector { x: self.x * scalar, y: self.y * scalar, z: self.z * scalar }
    }
}

impl vstd::std_specs::ops::MulSpecImpl<Scalar> for Vector {
    open spec fn obeys_mul_spec() -> bool {
        true
    }

    open spec fn mul_req(self, scalar: Scalar) -> bool {
        true
    }

    open spec fn mul_spec(self, scalar: Scalar) -> Vector {
        self.scaled(scalar)
    }
}

impl core::ops::Div<Scalar> for Vector {
    type Output = Vector;

    fn div(self, scalar: Scalar) -> (r: Vector) {
        Vector { x: self.x / scalar, y: self.y / scalar, z: self.z / scalar }
    }
}

impl vstd::std_specs::ops::DivSpecImpl<Scalar> for Vector {
    open spec fn obeys_div_spec() -> bool {
        true
    }

    open spec fn div_req(self, scalar: Scalar) -> bool {
        true
    }

    open spec fn div_spec(self, scalar: Scalar) -> Vector {
        self.shrunk(scalar)
    }
}

/// A rounded quotient times the divisor differs from the dividend by at
/// most half the divisor.
proof fn lemma_nearest_close(n: int, m: int)
    requires
        m > 0,
    ensures
        2 * (nearest(n, m) * m - n) <= m,
        2 * (n - nearest(n, m) * m) <= m,
{
    let a = magnitude(n);
    let q = (2 * a + m) / (2 * m);
    let rem = (2 * a + m) % (2 * m);
    vstd::arithmetic::div_mod::lemma_fundamental_div_mod(2 * a + m, 2 * m);
    vstd::arithmetic::div_mod::lemma_mod_pos_bound(2 * a + m, 2 * m);
    assert(2 * a + m == 2 * (q * m) + rem) by (nonlinear_arith)
        requires
            2 * a + m == (2 * m) * q + rem,
    ;
    if n < 0 {
        assert(nearest(n, m) == -q);
        assert((-q) * m == -(q * m)) by (nonlinear_arith);
    } else {
        assert(nearest(n, m) == q);
    }
}

/// The square of a product that is near `n` is near the square of `n`.
proof fn lemma_square_near(p: int, n: int, m: int, bound: int)
    requires
        m > 0,
        2 * (p - n) <= m,
        2 * (n - p) <= m,
        -bound <= n <= bound,
    ensures
        n * n - bound * m <= p * p <= n * n + bound * m + m * m,
{
    let d = p - n;
    assert(p * p == n * n + 2 * (n * d) + d * d) by (nonlinear_arith)
        requires
            d == p - n,
    ;
    assert(d * d <= m * m) by (nonlinear_arith)
        requires
            -m <= 2 * d <= m,
            m > 0,
    ;
    assert(0 <= d * d) by (nonlinear_arith);
    assert(-(bound * m) <= 2 * (n * d) <= bound * m) by (nonlinear_arith)
        requires
            -m <= 2 * d <= m,
            -bound <= n <= bound,
            m > 0,
    ;
}

/// A number whose square is below the square of a bound lies within the
/// bound.
proof fn lemma_within(n: int, total: int, bound: int)
    requires
        0 <= n * n <= total,
        total < bound * bound,
        bound > 0,
    ensures
        -bound <= n <= bound,
{
    if n > bound {
        assert(n * n >= bound * bound) by (nonlinear_arith)
            requires
                n > bound,
                bound > 0,
        ;
    } else if n < -bound {
        assert(n * n >= bound * bound) by (nonlinear_arith)
            requires
                n < -bound,
                bound > 0,
        ;
    }
}

/// The last step: the sum of the squared parts lies between the squares of
/// one less the tolerance and one more the tolerance.
proof fn lemma_unit_bounds(total: int, big: int, m: int, sum: int)
    requires
        m >= 10_000_000_000,
        1_000_000_000_000_000_000 * (m * m) <= big,
        big < 1_000_000_000_000_000_000 * ((m + 1) * (m + 1)),
        big - 3 * (1_000_000_000 * (m + 1) * m) <= total,
        total <= big + 3 * (1_000_000_000 * (m + 1) * m) + 3 * (m * m),
        total == sum * (m * m),
    ensures
        999_990_001 * 999_990_001 <= sum < 1_000_010_000 * 1_000_010_000,
{
    let mm = m * m;
    assert(mm >= 100_000_000_000_000_000_000) by (nonlinear_arith)
        requires
            mm == m * m,
            m >= 10_000_000_000,
    ;
    assert((m + 1) * m <= 2 * mm && (m + 1) * (m + 1) == mm + 2 * m + 1 && 10_000_000_000 * m
        <= mm) by (nonlinear_arith)
        requires
            mm == m * m,
            m >= 10_000_000_000,
    ;
    assert(1_000_000_000 * (m + 1) * m <= 2_000_000_000 * mm) by (nonlinear_arith)
        requires
            (m + 1) * m <= 2 * mm,
    ;
    // total >= (10^18 - 6 * 10^9) * mm and total < (10^18 + 10^9) * mm.
    assert(sum * mm >= 999_999_994_000_000_000 * mm);
    assert(1_000_000_000_000_000_000 * (2 * m + 1) <= 300_000_000 * mm) by (nonlinear_arith)
        requires
            10_000_000_000 * m <= mm,
            m >= 10_000_000_000,
    ;
    assert(sum * mm < 1_000_000_006_400_000_000 * mm) by (nonlinear_arith)
        requires
            sum * mm <= big + 3 * (1_000_000_000 * (m + 1) * m) + 3 * mm,
            big < 1_000_000_000_000_000_000 * ((m + 1) * (m + 1)),
            (m + 1) * (m + 1) == mm + 2 * m + 1,
            1_000_000_000_000_000_000 * (2 * m + 1) <= 300_000_000 * mm,
            1_000_000_000 * (m + 1) * m <= 2_000_000_000 * mm,
            mm > 0,
    ;
    assert(sum >= 999_999_994_000_000_000) by (nonlinear_arith)
        requires
            sum * mm >= 999_999_994_000_000_000 * mm,
            mm > 0,
    ;
    assert(sum < 1_000_000_006_400_000_000) by (nonlinear_arith)
        requires
            sum * mm < 1_000_000_006_400_000_000 * mm,
            mm > 0,
    ;
}

/// Normalizing gives a vector of length one: where the length of a vector
/// is not within the tolerance of zero, the length of the normalized vector
/// is within the tolerance of one.
pub proof fn law_normalize_gives_unit_length(v: Vector)
    requires
        !is_equal(v.magnitude(), Scalar::zero()),
    ensures
        is_equal(v.normalize().magnitude(), Scalar::one()),
{
    let s = v.sum_of_squares() as int;
    let k = v.refinement() as int;
    let m = v.fine_magnitude() as int;
    let unit: int = 1_000_000_000;
    lemma_int_sqrt(s as nat);
    lemma_int_sqrt((s * k * k) as nat);
    let whole = int_sqrt(s as nat) as int;
    assert(whole >= 10_000);
    assert(s >= 100_000_000) by (nonlinear_arith)
        requires
            whole >= 10_000,
            whole * whole <= s,
    ;
    assert(m >= 10_000_000_000 && s * k * k == s * (k * k)) by (nonlinear_arith)
        requires
            (k == 1_000_000 && s >= 100_000_000) || (k == 1 && s
                >= 100_000_000_000_000_000_000_000_000),
            s * k * k < (m + 1) * (m + 1),
            m >= 0,
    ;
    let nx = v.x@ * unit * k;
    let ny = v.y@ * unit * k;
    let nz = v.z@ * unit * k;
    let big = nx * nx + ny * ny + nz * nz;
    let c = unit * k;
    assert(v.x@ * v.x@ >= 0 && v.y@ * v.y@ >= 0 && v.z@ * v.z@ >= 0) by (nonlinear_arith);
    assert(s == v.x@ * v.x@ + v.y@ * v.y@ + v.z@ * v.z@);
    lemma_scaled_square(v.x@, unit, k, c);
    lemma_scaled_square(v.y@, unit, k, c);
    lemma_scaled_square(v.z@, unit, k, c);
    assert(c * c == 1_000_000_000_000_000_000 * (k * k)) by (nonlinear_arith)
        requires
            c == unit * k,
            unit == 1_000_000_000,
    ;
    assert(big == 1_000_000_000_000_000_000 * (s * k * k)) by (nonlinear_arith)
        requires
            big == (v.x@ * v.x@) * (c * c) + (v.y@ * v.y@) * (c * c) + (v.z@ * v.z@) * (c * c),
            s == v.x@ * v.x@ + v.y@ * v.y@ + v.z@ * v.z@,
            c * c == 1_000_000_000_000_000_000 * (k * k),
    ;
    let bound = unit * (m + 1);
    assert(1_000_000_000_000_000_000 * (m * m) <= big && big < 1_000_000_000_000_000_000 * ((m
        + 1) * (m + 1)) && big < bound * bound) by (nonlinear_arith)
        requires
            big == 1_000_000_000_000_000_000 * (s * k * k),
            m * m <= s * k * k,
            s * k * k < (m + 1) * (m + 1),
            bound == unit * (m + 1),
            unit == 1_000_000_000,
    ;
    lemma_within(nx, big, bound);
    lemma_within(ny, big, bound);
    lemma_within(nz, big, bound);
    let ux = nearest(nx, m);
    let uy = nearest(ny, m);
    let uz = nearest(nz, m);
    lemma_nearest_close(nx, m);
    lemma_nearest_close(ny, m);
    lemma_nearest_close(nz, m);
    lemma_square_near(ux * m, nx, m, bound);
    lemma_square_near(uy * m, ny, m, bound);
    lemma_square_near(uz * m, nz, m, bound);
    lemma_part_fits(ux, nx, m);
    lemma_part_fits(uy, ny, m);
    lemma_part_fits(uz, nz, m);
    let sum = ux * ux + uy * uy + uz * uz;
    let total = (ux * m) * (ux * m) + (uy * m) * (uy * m) + (uz * m) * (uz * m);
    assert(total == sum * (m * m) && sum >= 0) by (nonlinear_arith)
        requires
            total == (ux * m) * (ux * m) + (uy * m) * (uy * m) + (uz * m) * (uz * m),
            sum == ux * ux + uy * uy + uz * uz,
    ;
    assert(bound * m == 1_000_000_000 * (m + 1) * m) by (nonlinear_arith)
        requires
            bound == unit * (m + 1),
            unit == 1_000_000_000,
    ;
    lemma_unit_bounds(total, big, m, sum);
    let unit_vector = v.normalize();
    assert(unit_vector.x@ == ux && unit_vector.y@ == uy && unit_vector.z@ == uz);
    assert(unit_vector.sum_of_squares() == sum);
    lemma_int_sqrt(sum as nat);
    let r = int_sqrt(sum as nat) as int;
    assert(999_990_001 <= r < 1_000_010_000) by (nonlinear_arith)
        requires
            r >= 0,
            r * r <= sum,
            sum < (r + 1) * (r + 1),
            999_990_001 * 999_990_001 <= sum,
            sum < 1_000_010_000 * 1_000_010_000,
    ;
}

/// The square of a component magnified by `unit * k`.
proof fn lemma_scaled_square(x: int, unit: int, k: int, c: int)
    requires
        c == unit * k,
    ensures
        (x * unit * k) * (x * unit * k) == (x * x) * (c * c),
        (x * unit * k) * (x * unit * k) >= 0,
{
    assert(x * unit * k == x * c) by (nonlinear_arith)
        requires
            c == unit * k,
    ;
    assert((x * c) * (x * c) == (x * x) * (c * c)) by (nonlinear_arith);
    assert((x * c) * (x * c) >= 0) by (nonlinear_arith);
}

/// A rounded quotient of a dividend within `unit * (m + 1)` by `m` lies
/// within two of the unit.
proof fn lemma_part_fits(u: int, n: int, m: int)
    requires
        m >= 10_000_000_000,
        2 * (u * m - n) <= m,
        2 * (n - u * m) <= m,
        -(1_000_000_000 * (m + 1)) <= n <= 1_000_000_000 * (m + 1),
    ensures
        -1_000_000_002 <= u <= 1_000_000_002,
{
    if u > 1_000_000_002 {
        assert(u * m >= 1_000_000_003 * m) by (nonlinear_arith)
            requires
                u >= 1_000_000_003,
                m > 0,
        ;
    } else if u < -1_000_000_002 {
        assert(u * m <= -1_000_000_003 * m) by (nonlinear_arith)
            requires
                u <= -1_000_000_003,
                m > 0,
        ;
    }
}

} // verus!
