//! Fixed-point numbers with nine decimal places, and the arithmetic that the
//! rest of the library is built on. Every operation is total. The operators
//! clamp a result that does not fit to the nearest representable number;
//! the `checked_` operations give nothing in its place.

use vstd::prelude::*;

verus! {

/// Raw units in the number one.
pub const SCALE: i64 = 1_000_000_000;

/// Raw units below which two numbers count as equal: 0.00001.
pub const EPSILON_RAW: i64 = 10_000;

/// A number `raw / SCALE`.
#[derive(Clone, Copy, Debug, PartialEq, Eq, Structural)]
pub struct Scalar {
    pub raw: i64,
}

impl View for Scalar {
    type V = int;

    open spec fn view(&self) -> int {
        self.raw as int
    }
}

/// The distance of `v` from zero.
pub open spec fn magnitude(v: int) -> int {
    if v < 0 {
        -v
    } else {
        v
    }
}

/// The representable raw value nearest to `v`.
pub open spec fn clamp(v: int) -> int {
    if v > i64::MAX {
        i64::MAX as int
    } else if v < i64::MIN {
        i64::MIN as int
    } else {
        v
    }
}

/// Whether the raw value `v` can be represented.
pub open spec fn fits(v: int) -> bool {
    i64::MIN <= v <= i64::MAX
}

/// The quotient `n / d` rounded to the nearest integer, halves away from zero.
pub open spec fn nearest(n: int, d: int) -> int
    recommends
        d != 0,
{
    let q = (2 * magnitude(n) + magnitude(d)) / (2 * magnitude(d));
    if (n < 0) != (d < 0) {
        -q
    } else {
        q
    }
}

/// Whether `r` is the integer square root of `n`.
pub open spec fn is_root(n: nat, r: nat) -> bool {
    r * r <= n && n < (r + 1) * (r + 1)
}

/// The largest integer whose square is at most `n`.
pub open spec fn int_sqrt(n: nat) -> nat {
    choose|r: nat| is_root(n, r)
}

/// At most one integer is the integer square root of `n`.
pub proof fn lemma_root_unique(n: nat, r: nat, s: nat)
    requires
        is_root(n, r),
        is_root(n, s),
    ensures
        r == s,
{
    if r < s {
        assert((r + 1) * (r + 1) <= s * s) by (nonlinear_arith)
            requires
                r + 1 <= s,
        ;
    } else if s < r {
        assert((s + 1) * (s + 1) <= r * r) by (nonlinear_arith)
            requires
                s + 1 <= r,
        ;
    }
}

/// Every number has an integer square root, and `int_sqrt` is it.
pub proof fn lemma_int_sqrt(n: nat)
    ensures
        is_root(n, int_sqrt(n)),
    decreases n,
{
    if n == 0 {
        assert((0nat + 1) * (0nat + 1) == 1) by (nonlinear_arith);
        assert(0nat * 0nat == 0) by (nonlinear_arith);
        assert(is_root(0, 0));
    } else {
        lemma_int_sqrt((n - 1) as nat);
        let r = int_sqrt((n - 1) as nat);
        if (r + 1) * (r + 1) <= n {
            assert((r + 2) * (r + 2) > n) by (nonlinear_arith)
                requires
                    n - 1 < (r + 1) * (r + 1),
            ;
            assert(is_root(n, r + 1));
        } else {
            assert(is_root(n, r));
        }
    }
}

/// A value known to be the integer square root of `n` is `int_sqrt(n)`.
pub proof fn lemma_root_is_int_sqrt(n: nat, r: nat)
    requires
        is_root(n, r),
    ensures
        int_sqrt(n) == r,
{
    lemma_root_unique(n, r, int_sqrt(n));
}

/// `base` raised to the power `n`: one, multiplied `n` times by `base`, each
/// product rounded.
pub open spec fn power(base: Scalar, n: nat) -> Scalar
    decreases n,
{
    if n == 0 {
        Scalar { raw: SCALE }
    } else {
        power(base, (n - 1) as nat).times(base)
    }
}

/// The representable raw value nearest to `v`.
fn clamp_raw(v: i128) -> (r: i64)
    ensures
        r == clamp(v as int),
{
    if v > i64::MAX as i128 {
        i64::MAX
    } else if v < i64::MIN as i128 {
        i64::MIN
    } else {
        v as i64
    }
}

/// The quotient `n / d`, rounded to the nearest integer.
pub(crate) fn nearest_wide(n: i128, d: i128) -> (r: i128)
    requires
        d != 0,
        -0x4000_0000_0000_0000_0000_0000_0000_0000 <= n <= 0x4000_0000_0000_0000_0000_0000_0000_0000,
        -0x1_0000_0000_0000_0000 <= d <= 0x1_0000_0000_0000_0000,
    ensures
        r == nearest(n as int, d as int),
{
    let mn: u128 = if n < 0 {
        (-n) as u128
    } else {
        n as u128
    };
    let md: u128 = if d < 0 {
        (-d) as u128
    } else {
        d as u128
    };
    let q: u128 = (2 * mn + md) / (2 * md);
    assert(q <= mn + 1) by (nonlinear_arith)
        requires
            q == (2 * mn + md) / (2 * md),
            md > 0,
    ;
    if (n < 0) != (d < 0) {
        -(q as i128)
    } else {
        q as i128
    }
}

/// The quotient `n / d`, rounded to the nearest integer and clamped.
fn nearest_raw(n: i128, d: i128) -> (r: i64)
    requires
        d != 0,
        -0x4000_0000_0000_0000_0000_0000_0000_0000 <= n <= 0x4000_0000_0000_0000_0000_0000_0000_0000,
        -0x8000_0000_0000_0000 <= d <= 0x8000_0000_0000_0000,
    ensures
        r == clamp(nearest(n as int, d as int)),
{
    clamp_raw(nearest_wide(n, d))
}

/// The quotient `n / d`, rounded to the nearest integer, where it can be
/// represented.
fn nearest_checked(n: i128, d: i128) -> (r: Option<i64>)
    requires
        d != 0,
        -0x4000_0000_0000_0000_0000_0000_0000_0000 <= n <= 0x4000_0000_0000_0000_0000_0000_0000_0000,
        -0x8000_0000_0000_0000 <= d <= 0x8000_0000_0000_0000,
    ensures
        r == if fits(nearest(n as int, d as int)) {
            Some(nearest(n as int, d as int) as i64)
        } else {
            None
        },
{
    let q: i128 = nearest_wide(n, d);
    if q > i64::MAX as i128 || q < i64::MIN as i128 {
        None
    } else {
        Some(q as i64)
    }
}

/// The largest whole number whose square is at most `n`.
pub fn int_root(n: u128) -> (r: u64)
    ensures
        is_root(n as nat, r as nat),
        r == int_sqrt(n as nat),
{
    let mut lo: u128 = 0;
    let mut hi: u128 = 0x1_0000_0000_0000_0000;
    assert(n < hi * hi) by (nonlinear_arith)
        requires
            n <= 0xffff_ffff_ffff_ffff_ffff_ffff_ffff_ffff,
            hi == 0x1_0000_0000_0000_0000,
    ;
    while hi - lo > 1
        invariant
            lo < hi <= 0x1_0000_0000_0000_0000,
            lo * lo <= n < hi * hi,
        decreases hi - lo,
    {
        let mid: u128 = lo + (hi - lo) / 2;
        assert(mid * mid <= 0xffff_ffff_ffff_ffff * 0xffff_ffff_ffff_ffff) by (nonlinear_arith)
            requires
                mid <= 0xffff_ffff_ffff_ffff,
        ;
        if mid * mid <= n {
            lo = mid;
        } else {
            hi = mid;
        }
    }
    proof {
        assert(hi == lo + 1);
        assert(is_root(n as nat, lo as nat));
        lemma_root_is_int_sqrt(n as nat, lo as nat);
    }
    lo as u64
}

impl Scalar {
    /// The sum, clamped.
    pub open spec fn plus(self, rhs: Scalar) -> Scalar {
        Scalar { raw: clamp(self@ + rhs@) as i64 }
    }

    /// The difference, clamped.
    pub open spec fn minus(self, rhs: Scalar) -> Scalar {
        Scalar { raw: clamp(self@ - rhs@) as i64 }
    }

    /// The number of opposite sign, clamped.
    pub open spec fn negated(self) -> Scalar {
        Scalar { raw: clamp(-self@) as i64 }
    }

    /// The product, rounded to the nearest representable number and clamped.
    #[verifier::opaque]
    pub open spec fn times(self, rhs: Scalar) -> Scalar {
        Scalar { raw: clamp(nearest(self@ * rhs@, SCALE as int)) as i64 }
    }

    /// The quotient, rounded to the nearest representable number and
    /// clamped. A quotient by zero is the largest number of the dividend's
    /// sign, and zero where the dividend is zero.
    #[verifier::opaque]
    pub open spec fn over(self, rhs: Scalar) -> Scalar {
        if rhs@ == 0 {
            if self@ > 0 {
                Scalar { raw: i64::MAX }
            } else if self@ < 0 {
                Scalar { raw: i64::MIN }
            } else {
                Scalar { raw: 0 }
            }
        } else {
            Scalar { raw: clamp(nearest(self@ * SCALE, rhs@)) as i64 }
        }
    }

    /// The sum, where it can be represented.
    pub open spec fn plus_checked(self, rhs: Scalar) -> Option<Scalar> {
        if fits(self@ + rhs@) {
            Some(self.plus(rhs))
        } else {
            None
        }
    }

    /// The difference, where it can be represented.
    pub open spec fn minus_checked(self, rhs: Scalar) -> Option<Scalar> {
        if fits(self@ - rhs@) {
            Some(self.minus(rhs))
        } else {
            None
        }
    }

    /// The number of opposite sign, where it can be represented.
    pub open spec fn negated_checked(self) -> Option<Scalar> {
        if fits(-self@) {
            Some(self.negated())
        } else {
            None
        }
    }

    /// The rounded product, where it can be represented.
    pub open spec fn times_checked(self, rhs: Scalar) -> Option<Scalar> {
        if fits(nearest(self@ * rhs@, SCALE as int)) {
            Some(self.times(rhs))
        } else {
            None
        }
    }

    /// The rounded quotient, where the divisor is not zero and the quotient
    /// can be represented.
    pub open spec fn over_checked(self, rhs: Scalar) -> Option<Scalar> {
        if rhs@ != 0 && fits(nearest(self@ * SCALE, rhs@)) {
            Some(self.over(rhs))
        } else {
            None
        }
    }

    /// The sum, or nothing where it cannot be represented.
    pub fn checked_add(self, rhs: Scalar) -> (r: Option<Scalar>)
        ensures
            r == self.plus_checked(rhs),
    {
        let wide: i128 = self.raw as i128 + rhs.raw as i128;
        if wide > i64::MAX as i128 || wide < i64::MIN as i128 {
            None
        } else {
            Some(Scalar { raw: wide as i64 })
        }
    }

    /// The difference, or nothing where it cannot be represented.
    pub fn checked_sub(self, rhs: Scalar) -> (r: Option<Scalar>)
        ensures
            r == self.minus_checked(rhs),
    {
        let wide: i128 = self.raw as i128 - rhs.raw as i128;
        if wide > i64::MAX as i128 || wide < i64::MIN as i128 {
            None
        } else {
            Some(Scalar { raw: wide as i64 })
        }
    }

    /// The number of opposite sign, or nothing where it cannot be
    /// represented.
    pub fn checked_neg(self) -> (r: Option<Scalar>)
        ensures
            r == self.negated_checked(),
    {
        if self.raw == i64::MIN {
            None
        } else {
            Some(Scalar { raw: -self.raw })
        }
    }

    /// The rounded product, or nothing where it cannot be represented.
    pub fn checked_mul(self, rhs: Scalar) -> (r: Option<Scalar>)
        ensures
            r == self.times_checked(rhs),
    {
        let a: i128 = self.raw as i128;
        let b: i128 = rhs.raw as i128;
        assert(-0x4000_0000_0000_0000_0000_0000_0000_0000 <= a * b
            <= 0x4000_0000_0000_0000_0000_0000_0000_0000) by (nonlinear_arith)
            requires
                -0x8000_0000_0000_0000 <= a <= 0x8000_0000_0000_0000,
                -0x8000_0000_0000_0000 <= b <= 0x8000_0000_0000_0000,
        ;
        proof {
            reveal(Scalar::times);
        }
        match nearest_checked(a * b, SCALE as i128) {
            Some(raw) => Some(Scalar { raw }),
            None => None,
        }
    }

    /// The rounded quotient, or nothing where the divisor is zero or the
    /// quotient cannot be represented.
    pub fn checked_div(self, rhs: Scalar) -> (r: Option<Scalar>)
        ensures
            r == self.over_checked(rhs),
    {
        if rhs.raw == 0 {
            return None;
        }
        let a: i128 = self.raw as i128;
        assert(-0x4000_0000_0000_0000_0000_0000_0000_0000 <= a * 1_000_000_000
            <= 0x4000_0000_0000_0000_0000_0000_0000_0000) by (nonlinear_arith)
            requires
                -0x8000_0000_0000_0000 <= a <= 0x8000_0000_0000_0000,
        ;
        proof {
            reveal(Scalar::over);
        }
        match nearest_checked(a * (SCALE as i128), rhs.raw as i128) {
            Some(raw) => Some(Scalar { raw }),
            None => None,
        }
    }

    pub open spec fn zero_spec() -> Scalar {
        Scalar { raw: 0 }
    }

    /// The number zero.
    #[verifier::when_used_as_spec(zero_spec)]
    pub fn zero() -> (r: Scalar)
        ensures
            r == Scalar::zero_spec(),
    {
        Scalar { raw: 0 }
    }

    pub open spec fn one_spec() -> Scalar {
        Scalar { raw: SCALE }
    }

    /// The number one.
    #[verifier::when_used_as_spec(one_spec)]
    pub fn one() -> (r: Scalar)
        ensures
            r == Scalar::one_spec(),
    {
        Scalar { raw: SCALE }
    }

    pub open spec fn epsilon_spec() -> Scalar {
        Scalar { raw: EPSILON_RAW }
    }

    /// The tolerance of every approximate comparison.
    #[verifier::when_used_as_spec(epsilon_spec)]
    pub fn epsilon() -> (r: Scalar)
        ensures
            r == Scalar::epsilon_spec(),
    {
        Scalar { raw: EPSILON_RAW }
    }

    pub open spec fn from_raw_spec(raw: i64) -> Scalar {
        Scalar { raw }
    }

    /// The number `raw / SCALE`.
    #[verifier::when_used_as_spec(from_raw_spec)]
    pub fn from_raw(raw: i64) -> (r: Scalar)
        ensures
            r == Scalar::from_raw_spec(raw),
    {
        Scalar { raw }
    }

    pub open spec fn from_int_spec(n: i32) -> Scalar {
        Scalar { raw: (n * SCALE) as i64 }
    }

    /// The whole number `n`.
    #[verifier::when_used_as_spec(from_int_spec)]
    pub fn from_int(n: i32) -> (r: Scalar)
        ensures
            r == Scalar::from_int_spec(n),
    {
        let wide: i64 = n as i64;
        assert(-0x8000_0000 * 1_000_000_000 <= wide * 1_000_000_000 <= 0x8000_0000 * 1_000_000_000)
            by (nonlinear_arith)
            requires
                -0x8000_0000 <= wide <= 0x8000_0000,
        ;
        Scalar { raw: wide * SCALE }
    }

    pub open spec fn from_count_spec(n: usize) -> Scalar {
        Scalar { raw: clamp(n * SCALE) as i64 }
    }

    /// The whole number `n`, or the largest number where `n` is beyond it.
    #[verifier::when_used_as_spec(from_count_spec)]
    pub fn from_count(n: usize) -> (r: Scalar)
        ensures
            r == Scalar::from_count_spec(n),
    {
        let wide: i128 = n as i128;
        assert(0 <= wide * 1_000_000_000 <= 0x1_0000_0000_0000_0000 * 1_000_000_000)
            by (nonlinear_arith)
            requires
                0 <= wide <= 0x1_0000_0000_0000_0000,
        ;
        Scalar { raw: clamp_raw(wide * (SCALE as i128)) }
    }

    pub open spec fn abs_spec(self) -> Scalar {
        Scalar { raw: clamp(magnitude(self@)) as i64 }
    }

    /// The distance from zero.
    #[verifier::when_used_as_spec(abs_spec)]
    pub fn abs(self) -> (r: Scalar)
        ensures
            r == self.abs_spec(),
    {
        if self.raw < 0 {
            Scalar { raw: clamp_raw(-(self.raw as i128)) }
        } else {
            self
        }
    }

    pub open spec fn sqrt_spec(self) -> Scalar {
        if self@ <= 0 {
            Scalar { raw: 0 }
        } else {
            Scalar { raw: int_sqrt((self@ * SCALE) as nat) as i64 }
        }
    }

    /// The square root, rounded down; zero for a negative number.
    #[verifier::when_used_as_spec(sqrt_spec)]
    pub fn sqrt(self) -> (r: Scalar)
        ensures
            r == self.sqrt_spec(),
            self@ <= 0 ==> r@ == 0,
            self@ > 0 ==> r@ >= 0 && is_root((self@ * SCALE) as nat, r@ as nat),
    {
        if self.raw <= 0 {
            return Scalar { raw: 0 };
        }
        let n: u128 = (self.raw as u128) * (SCALE as u128);
        let mut lo: u128 = 0;
        let mut hi: u128 = 0x8000_0000_0000;
        assert(n < hi * hi) by (nonlinear_arith)
            requires
                n <= 0x7fff_ffff_ffff_ffff * 1_000_000_000,
                hi == 0x8000_0000_0000,
        ;
        while hi - lo > 1
            invariant
                lo < hi <= 0x8000_0000_0000,
                lo * lo <= n < hi * hi,
            decreases hi - lo,
        {
            let mid: u128 = lo + (hi - lo) / 2;
            assert(mid * mid <= 0x8000_0000_0000 * 0x8000_0000_0000) by (nonlinear_arith)
                requires
                    mid <= 0x8000_0000_0000,
            ;
            if mid * mid <= n {
                lo = mid;
            } else {
                hi = mid;
            }
        }
        proof {
            assert(hi == lo + 1);
            assert(is_root(n as nat, lo as nat));
            lemma_root_is_int_sqrt(n as nat, lo as nat);
        }
        Scalar { raw: lo as i64 }
    }

    pub open spec fn floor_int_spec(self) -> i64 {
        (self@ / (SCALE as int)) as i64
    }

    /// The largest whole number that is not above this one.
    #[verifier::when_used_as_spec(floor_int_spec)]
    pub fn floor_int(self) -> (r: i64)
        ensures
            r == self.floor_int_spec(),
            r * SCALE <= self@ < (r + 1) * SCALE,
    {
        if self.raw >= 0 {
            let q: u64 = (self.raw as u64) / (SCALE as u64);
            q as i64
        } else {
            let m: u64 = (-(self.raw as i128)) as u64;
            let q: u64 = (m + (SCALE as u64 - 1)) / (SCALE as u64);
            assert(-(q as int) == self@ / (SCALE as int)) by (nonlinear_arith)
                requires
                    m == -self@,
                    m > 0,
                    q == (m + 999_999_999) / 1_000_000_000,
                    SCALE == 1_000_000_000,
            ;
            -(q as i64)
        }
    }

    pub open spec fn floor_spec(self) -> Scalar {
        Scalar { raw: clamp(self.floor_int_spec() * SCALE) as i64 }
    }

    /// `floor_int` as a number of this type.
    #[verifier::when_used_as_spec(floor_spec)]
    pub fn floor(self) -> (r: Scalar)
        ensures
            r == self.floor_spec(),
    {
        let whole: i64 = self.floor_int();
        Scalar { raw: clamp_raw((whole as i128) * (SCALE as i128)) }
    }

    pub open spec fn ceil_int_spec(self) -> i64 {
        (-((-self@) / (SCALE as int))) as i64
    }

    /// The smallest whole number that is not below this one.
    #[verifier::when_used_as_spec(ceil_int_spec)]
    pub fn ceil_int(self) -> (r: i64)
        ensures
            r == self.ceil_int_spec(),
            (r - 1) * SCALE < self@ <= r * SCALE,
    {
        let below: i64 = self.floor_int();
        if (below as i128) * (SCALE as i128) == self.raw as i128 {
            assert(below == -((-self@) / (SCALE as int))) by (nonlinear_arith)
                requires
                    below * 1_000_000_000 == self@,
                    SCALE == 1_000_000_000,
            ;
            below
        } else {
            assert(below + 1 == -((-self@) / (SCALE as int))) by (nonlinear_arith)
                requires
                    below * 1_000_000_000 < self@ < (below + 1) * 1_000_000_000,
                    SCALE == 1_000_000_000,
            ;
            below + 1
        }
    }

    /// This number raised to the power `n`, by `n` rounded products.
    pub fn powi(self, n: u32) -> (r: Scalar)
        ensures
            r == power(self, n as nat),
    {
        let mut acc: Scalar = Scalar { raw: SCALE };
        let mut i: u32 = 0;
        while i < n
            invariant
                i <= n,
                acc == power(self, i as nat),
            decreases n - i,
        {
            acc = acc * self;
            i = i + 1;
        }
        acc
    }

    pub open spec fn lt_spec(self, rhs: Scalar) -> bool {
        self@ < rhs@
    }

    /// Whether this number is below `rhs`.
    #[verifier::when_used_as_spec(lt_spec)]
    pub fn lt(self, rhs: Scalar) -> (b: bool)
        ensures
            b == (self@ < rhs@),
    {
        self.raw < rhs.raw
    }

    pub open spec fn le_spec(self, rhs: Scalar) -> bool {
        self@ <= rhs@
    }

    /// Whether this number is not above `rhs`.
    #[verifier::when_used_as_spec(le_spec)]
    pub fn le(self, rhs: Scalar) -> (b: bool)
        ensures
            b == (self@ <= rhs@),
    {
        self.raw <= rhs.raw
    }

    pub open spec fn gt_spec(self, rhs: Scalar) -> bool {
        self@ > rhs@
    }

    /// Whether this number is above `rhs`.
    #[verifier::when_used_as_spec(gt_spec)]
    pub fn gt(self, rhs: Scalar) -> (b: bool)
        ensures
            b == (self@ > rhs@),
    {
        self.raw > rhs.raw
    }

    pub open spec fn ge_spec(self, rhs: Scalar) -> bool {
        self@ >= rhs@
    }

    /// Whether this number is not below `rhs`.
    #[verifier::when_used_as_spec(ge_spec)]
    pub fn ge(self, rhs: Scalar) -> (b: bool)
        ensures
            b == (self@ >= rhs@),
    {
        self.raw >= rhs.raw
    }
}

impl core::ops::Add for Scalar {
    type Output = Scalar;

    fn add(self, rhs: Scalar) -> (r: Scalar) {
        Scalar { raw: clamp_raw(self.raw as i128 + rhs.raw as i128) }
    }
}

impl vstd::std_specs::ops::AddSpecImpl for Scalar {
    open spec fn obeys_add_spec() -> bool {
        true
    }

    open spec fn add_req(self, rhs: Scalar) -> bool {
        true
    }

    open spec fn add_spec(self, rhs: Scalar) -> Scalar {
        self.plus(rhs)
    }
}

impl core::ops::Sub for Scalar {
    type Output = Scalar;

    fn sub(self, rhs: Scalar) -> (r: Scalar) {
        Scalar { raw: clamp_raw(self.raw as i128 - rhs.raw as i128) }
    }
}

impl vstd::std_specs::ops::SubSpecImpl for Scalar {
    open spec fn obeys_sub_spec() -> bool {
        true
    }

    open spec fn sub_req(self, rhs: Scalar) -> bool {
        true
    }

    open spec fn sub_spec(self, rhs: Scalar) -> Scalar {
        self.minus(rhs)
    }
}

impl core::ops::Neg for Scalar {
    type Output = Scalar;

    fn neg(self) -> (r: Scalar) {
        Scalar { raw: clamp_raw(-(self.raw as i128)) }
    }
}

impl vstd::std_specs::ops::NegSpecImpl for Scalar {
    open spec fn obeys_neg_spec() -> bool {
        true
    }

    open spec fn neg_req(self) -> bool {
        true
    }

    open spec fn neg_spec(self) -> Scalar {
        self.negated()
    }
}

impl core::ops::Mul for Scalar {
    type Output = Scalar;

    fn mul(self, rhs: Scalar) -> (r: Scalar) {
        let a: i128 = self.raw as i128;
        let b: i128 = rhs.raw as i128;
        assert(-0x4000_0000_0000_0000_0000_0000_0000_0000 <= a * b
            <= 0x4000_0000_0000_0000_0000_0000_0000_0000) by (nonlinear_arith)
            requires
                -0x8000_0000_0000_0000 <= a <= 0x8000_0000_0000_0000,
                -0x8000_0000_0000_0000 <= b <= 0x8000_0000_0000_0000,
        ;
        proof {
            reveal(Scalar::times);
        }
        Scalar { raw: nearest_raw(a * b, SCALE as i128) }
    }
}

impl vstd::std_specs::ops::MulSpecImpl for Scalar {
    open spec fn obeys_mul_spec() -> bool {
        true
    }

    open spec fn mul_req(self, rhs: Scalar) -> bool {
        true
    }

    open spec fn mul_spec(self, rhs: Scalar) -> Scalar {
        self.times(rhs)
    }
}

impl core::ops::Div for Scalar {
    type Output = Scalar;

    fn div(self, rhs: Scalar) -> (r: Scalar) {
        proof {
            reveal(Scalar::over);
        }
        if rhs.raw == 0 {
            if self.raw > 0 {
                Scalar { raw: i64::MAX }
            } else if self.raw < 0 {
                Scalar { raw: i64::MIN }
            } else {
                Scalar { raw: 0 }
            }
        } else {
            let a: i128 = self.raw as i128;
            assert(-0x4000_0000_0000_0000_0000_0000_0000_0000 <= a * 1_000_000_000
                <= 0x4000_0000_0000_0000_0000_0000_0000_0000) by (nonlinear_arith)
                requires
                    -0x8000_0000_0000_0000 <= a <= 0x8000_0000_0000_0000,
            ;
            Scalar { raw: nearest_raw(a * (SCALE as i128), rhs.raw as i128) }
        }
    }
}

impl vstd::std_specs::ops::DivSpecImpl for Scalar {
    open spec fn obeys_div_spec() -> bool {
        true
    }

    open spec fn div_req(self, rhs: Scalar) -> bool {
        true
    }

    open spec fn div_spec(self, rhs: Scalar) -> Scalar {
        self.over(rhs)
    }
}

/// One is neutral for the product: no rounding and no clamping takes place.
pub proof fn lemma_times_one(x: Scalar)
    ensures
        Scalar::one().times(x) == x,
        x.times(Scalar::one()) == x,
{
    reveal(Scalar::times);
    let m = magnitude(x@);
    assert(magnitude(x@ * SCALE) == m * 1_000_000_000 && magnitude(SCALE * x@) == m * 1_000_000_000
        && ((x@ * SCALE < 0) <==> (x@ < 0)) && ((SCALE * x@ < 0) <==> (x@ < 0)))
        by (nonlinear_arith)
        requires
            m == magnitude(x@),
            SCALE == 1_000_000_000,
    ;
    assert((2 * (m * 1_000_000_000) + 1_000_000_000) / (2 * 1_000_000_000int) == m)
        by (nonlinear_arith)
        requires
            m >= 0,
    ;
}

/// A quotient by one is the dividend: no rounding and no clamping takes
/// place.
pub proof fn lemma_over_one(a: Scalar)
    ensures
        a.over(Scalar::one()) == a,
{
    reveal(Scalar::over);
    let m = magnitude(a@);
    assert(magnitude(a@ * SCALE) == m * 1_000_000_000 && ((a@
        * SCALE < 0) <==> (a@ < 0))) by (nonlinear_arith)
        requires
            m == magnitude(a@),
            SCALE == 1_000_000_000,
    ;
    assert((2 * (m * 1_000_000_000) + 1_000_000_000) / (2 * 1_000_000_000int) == m)
        by (nonlinear_arith)
        requires
            m >= 0,
    ;
}

/// A rounded quotient times the divisor differs from the dividend by at
/// most half the divisor.
pub proof fn lemma_nearest_error(n: int, d: int)
    requires
        d != 0,
    ensures
        2 * (nearest(n, d) * d - n) <= magnitude(d),
        2 * (n - nearest(n, d) * d) <= magnitude(d),
{
    let a = magnitude(n);
    let m = magnitude(d);
    let q = (2 * a + m) / (2 * m);
    let rem = (2 * a + m) % (2 * m);
    vstd::arithmetic::div_mod::lemma_fundamental_div_mod(2 * a + m, 2 * m);
    vstd::arithmetic::div_mod::lemma_mod_pos_bound(2 * a + m, 2 * m);
    assert(2 * a + m == 2 * (q * m) + rem) by (nonlinear_arith)
        requires
            2 * a + m == (2 * m) * q + rem,
    ;
    assert((-q) * d == -(q * d) && q * (-d) == -(q * d) && (-q) * (-d) == q * d)
        by (nonlinear_arith);
}

/// What is left of a number after it is multiplied, divided and multiplied
/// back in rounded steps. With `d` a number that is `x` times `w` but for
/// an error of at most half of `slack` raw units, `i` the rounded quotient
/// of `w` by `d`, `q` the rounded product of `x` and `p`, and `back` the
/// rounded product of `i` and `q`: `back` differs from `p` by less than the
/// tolerance where `d` is not too small against `p` and `w`, and `q` is not
/// too large.
pub proof fn lemma_there_and_back(
    x: int,
    w: int,
    d: int,
    i: int,
    q: int,
    back: int,
    p: int,
    slack: int,
)
    requires
        d != 0,
        -slack <= 2 * (x * w - d * SCALE) <= slack,
        i == nearest(w * SCALE, d),
        q == nearest(x * p, SCALE as int),
        back == nearest(i * q, SCALE as int),
        magnitude(p) * slack + magnitude(w) * SCALE <= 9000 * (magnitude(d) * SCALE),
        magnitude(q) <= 9000 * SCALE,
    ensures
        magnitude(back - p) <= 9001,
{
    let s: int = 1_000_000_000;
    let m = magnitude(d);
    lemma_nearest_error(w * s, d);
    lemma_nearest_error(x * p, s);
    lemma_nearest_error(i * q, s);
    let e5 = back * s - i * q;
    let e3 = i * d - w * s;
    let e4 = s * q - x * p;
    let e2 = x * w - d * s;
    assert(e5 * d == (back * s) * d - (i * q) * d) by (nonlinear_arith)
        requires
            e5 == back * s - i * q,
    ;
    assert(e3 * q == (i * d) * q - (w * s) * q) by (nonlinear_arith)
        requires
            e3 == i * d - w * s,
    ;
    assert(w * e4 == w * (s * q) - w * (x * p)) by (nonlinear_arith)
        requires
            e4 == s * q - x * p,
    ;
    assert(p * e2 == p * (x * w) - p * (d * s)) by (nonlinear_arith)
        requires
            e2 == x * w - d * s,
    ;
    assert((i * q) * d == (i * d) * q) by (nonlinear_arith);
    assert((w * s) * q == w * (s * q)) by (nonlinear_arith);
    assert(w * (x * p) == p * (x * w)) by (nonlinear_arith);
    assert((back * s) * d == back * (d * s)) by (nonlinear_arith);
    assert((back - p) * (d * s) == back * (d * s) - p * (d * s)) by (nonlinear_arith);
    assert((back - p) * (d * s) == e5 * d + e3 * q + w * e4 + p * e2);
    lemma_product_within(e5, d, s, m);
    lemma_product_within(e3, q, m, 9000 * s);
    lemma_product_within(e4, w, s, magnitude(w));
    lemma_product_within(e2, p, slack, magnitude(p));
    assert(w * e4 == e4 * w && p * e2 == e2 * p) by (nonlinear_arith);
    let total = (back - p) * (d * s);
    assert(-(18_001 * (s * m)) <= 2 * total <= 18_001 * (s * m)) by (nonlinear_arith)
        requires
            total == e5 * d + e3 * q + e4 * w + e2 * p,
            -(s * m) <= 2 * (e5 * d) <= s * m,
            -(m * (9000 * s)) <= 2 * (e3 * q) <= m * (9000 * s),
            -(s * magnitude(w)) <= 2 * (e4 * w) <= s * magnitude(w),
            -(slack * magnitude(p)) <= 2 * (e2 * p) <= slack * magnitude(p),
            magnitude(p) * slack + magnitude(w) * s <= 9000 * (m * s),
            s > 0,
            m > 0,
    ;
    let gap = back - p;
    assert(magnitude(gap) <= 9001) by (nonlinear_arith)
        requires
            -(18_001 * (s * m)) <= 2 * (gap * (d * s)) <= 18_001 * (s * m),
            m == magnitude(d),
            d != 0,
            s == 1_000_000_000,
    ;
}

/// The rounded product of three numbers, taken in two groupings: with `w1`
/// the rounded product of `y` and `z`, `d` the rounded product of `x` and
/// `w1`, and `w2` the rounded product of `x` and `z`, `y` times `w2` is `d`
/// but for an error of at most half of `SCALE` and the magnitudes of `x`
/// and `y`.
pub proof fn lemma_regrouped(x: int, y: int, z: int, w1: int, d: int, w2: int)
    requires
        w1 == nearest(y * z, SCALE as int),
        d == nearest(x * w1, SCALE as int),
        w2 == nearest(x * z, SCALE as int),
    ensures
        -(SCALE + magnitude(x) + magnitude(y)) <= 2 * (y * w2 - d * SCALE) <= SCALE + magnitude(x)
            + magnitude(y),
{
    let s: int = 1_000_000_000;
    lemma_nearest_error(y * z, s);
    lemma_nearest_error(x * w1, s);
    lemma_nearest_error(x * z, s);
    let a = w2 * s - x * z;
    let b = w1 * s - y * z;
    lemma_product_within(a, y, s, magnitude(y));
    lemma_product_within(b, x, s, magnitude(x));
    assert(s * (y * w2 - x * w1) == a * y - b * x) by {
        assert(a * y == (w2 * s) * y - (x * z) * y) by (nonlinear_arith)
            requires
                a == w2 * s - x * z,
        ;
        assert(b * x == (w1 * s) * x - (y * z) * x) by (nonlinear_arith)
            requires
                b == w1 * s - y * z,
        ;
        assert((x * z) * y == (y * z) * x) by (nonlinear_arith);
        assert((w2 * s) * y == s * (y * w2) && (w1 * s) * x == s * (x * w1))
            by (nonlinear_arith);
        assert(s * (y * w2 - x * w1) == s * (y * w2) - s * (x * w1)) by (nonlinear_arith);
    }
    let g = y * w2 - x * w1;
    assert(-(magnitude(x) + magnitude(y)) <= 2 * g <= magnitude(x) + magnitude(y))
        by (nonlinear_arith)
        requires
            s * g == a * y - b * x,
            -(s * magnitude(y)) <= 2 * (a * y) <= s * magnitude(y),
            -(s * magnitude(x)) <= 2 * (b * x) <= s * magnitude(x),
            s == 1_000_000_000,
    ;
}

/// A number that is not zero, divided by itself, is one; and zero divided
/// by it is zero.
pub proof fn lemma_over_self(d: Scalar)
    requires
        d@ != 0,
    ensures
        d.over_checked(d) == Some(Scalar::one()),
        Scalar::zero().over_checked(d) == Some(Scalar::zero()),
{
    reveal(Scalar::over);
    let m = magnitude(d@);
    assert(magnitude(d@ * SCALE) == m * 1_000_000_000 && ((d@ * SCALE < 0) <==> (d@ < 0)))
        by (nonlinear_arith)
        requires
            m == magnitude(d@),
            SCALE == 1_000_000_000,
    ;
    assert((2 * (m * 1_000_000_000) + m) / (2 * m) == 1_000_000_000) by (nonlinear_arith)
        requires
            m > 0,
    ;
    assert(0 * SCALE == 0);
    assert((2 * 0 + m) / (2 * m) == 0) by (nonlinear_arith)
        requires
            m > 0,
    ;
}

/// A product of two numbers within bounds lies within the product of the
/// bounds: here with the first number bounded by half of `half`.
proof fn lemma_product_within(e: int, v: int, half: int, bound: int)
    requires
        -half <= 2 * e <= half,
        -bound <= v <= bound,
    ensures
        -(half * bound) <= 2 * (e * v) <= half * bound,
{
    assert(-(half * bound) <= 2 * (e * v) <= half * bound) by (nonlinear_arith)
        requires
            -half <= 2 * e <= half,
            -bound <= v <= bound,
    ;
}

/// Products with zero and one, and quotients by one, can be represented.
pub proof fn lemma_checked_units(a: Scalar)
    ensures
        Scalar::zero().times_checked(a) == Some(Scalar::zero()),
        a.times_checked(Scalar::zero()) == Some(Scalar::zero()),
        Scalar::one().times_checked(a) == Some(a),
        a.times_checked(Scalar::one()) == Some(a),
        a.over_checked(Scalar::one()) == Some(a),
{
    lemma_times_zero(a);
    lemma_times_one(a);
    lemma_over_one(a);
    reveal(Scalar::times);
    reveal(Scalar::over);
    let m = magnitude(a@);
    assert(magnitude(a@ * SCALE) == m * 1_000_000_000 && magnitude(SCALE * a@) == m * 1_000_000_000
        && ((a@ * SCALE < 0) <==> (a@ < 0)) && ((SCALE * a@ < 0) <==> (a@ < 0)))
        by (nonlinear_arith)
        requires
            m == magnitude(a@),
            SCALE == 1_000_000_000,
    ;
    assert((2 * (m * 1_000_000_000) + 1_000_000_000) / (2 * 1_000_000_000int) == m)
        by (nonlinear_arith)
        requires
            m >= 0,
    ;
    assert(a@ * 0 == 0 && 0 * a@ == 0) by (nonlinear_arith);
    assert(1_000_000_000int / 2_000_000_000int == 0);
    assert(nearest(0, SCALE as int) == 0);
}

/// The rounded product does not depend on the order of its factors.
pub proof fn lemma_times_commutes(a: Scalar, b: Scalar)
    ensures
        a.times(b) == b.times(a),
{
    reveal(Scalar::times);
    assert(a@ * b@ == b@ * a@) by (nonlinear_arith);
}

/// A product with zero is zero.
pub proof fn lemma_times_zero(x: Scalar)
    ensures
        Scalar::zero().times(x) == Scalar::zero(),
        x.times(Scalar::zero()) == Scalar::zero(),
{
    reveal(Scalar::times);
    assert(x@ * 0 == 0 && 0 * x@ == 0) by (nonlinear_arith);
    assert(1_000_000_000int / 2_000_000_000int == 0);
    assert(nearest(0, SCALE as int) == 0);
}

/// Zero is neutral for the sum.
pub proof fn lemma_plus_zero(x: Scalar)
    ensures
        Scalar::zero().plus(x) == x,
        x.plus(Scalar::zero()) == x,
{
}

/// Whether two numbers differ by less than the tolerance; the difference is
/// taken exactly.
pub open spec fn is_equal_spec(lhs: Scalar, rhs: Scalar) -> bool {
    magnitude(lhs@ - rhs@) < EPSILON_RAW
}

/// Whether two numbers differ by less than the tolerance.
#[verifier::when_used_as_spec(is_equal_spec)]
pub fn is_equal(lhs: Scalar, rhs: Scalar) -> (b: bool)
    ensures
        b == is_equal_spec(lhs, rhs),
{
    let d: i128 = lhs.raw as i128 - rhs.raw as i128;
    if d < 0 {
        -d < EPSILON_RAW as i128
    } else {
        d < EPSILON_RAW as i128
    }
}

} // verus!
