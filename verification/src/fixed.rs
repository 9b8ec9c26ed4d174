//! Fixed-point scalars.
//!
//! Every coordinate, scale factor and percentage of the layout engine is a [`Fixed`]: a signed
//! 64-bit integer read as a multiple of 2^-32. The arithmetic never wraps and never fails:
//! a result that does not fit is replaced by the nearest representable value, and a quotient
//! or product that falls between two representable values is rounded towards zero.
//!
//! Animation progress is counted in [`Wide`] values, which keep the same 32 fractional bits
//! but have 95 integer bits, so that the number of cycles elapsed since a distant time origin
//! keeps its full fractional precision.
use vstd::prelude::*;

verus! {

/// Bit pattern of the value one: 2^32.
pub const ONE_BITS: i64 = 0x1_0000_0000;

/// The nearest `i64` to `v`.
pub open spec fn saturate(v: int) -> i64 {
    if v > i64::MAX {
        i64::MAX
    } else if v < i64::MIN {
        i64::MIN
    } else {
        v as i64
    }
}

/// The nearest `i128` to `v`.
pub open spec fn saturate_wide(v: int) -> i128 {
    if v > i128::MAX {
        i128::MAX
    } else if v < i128::MIN {
        i128::MIN
    } else {
        v as i128
    }
}

/// Absolute value.
pub open spec fn magnitude(v: int) -> int {
    if v < 0 {
        -v
    } else {
        v
    }
}

/// Quotient of `n` by `d`, rounded towards zero.
pub open spec fn quotient(n: int, d: int) -> int
    recommends
        d != 0,
{
    let q = magnitude(n) / magnitude(d);
    if (n < 0) != (d < 0) {
        -q
    } else {
        q
    }
}

/// Remainder that goes with [`quotient`]: it has the sign of `n`.
pub open spec fn remainder(n: int, d: int) -> int
    recommends
        d != 0,
{
    let r = magnitude(n) % magnitude(d);
    if n < 0 {
        -r
    } else {
        r
    }
}

/// A fixed-point number with 32 fractional bits: the value is `bits / 2^32`.
#[derive(Clone, Copy, Debug, PartialEq, Eq, Structural, PartialOrd, Ord, Hash)]
pub struct Fixed {
    pub bits: i64,
}

fn narrow(v: i128) -> (r: i64)
    ensures
        r == saturate(v as int),
{
    if v > i64::MAX as i128 {
        i64::MAX
    } else if v < i64::MIN as i128 {
        i64::MIN
    } else {
        v as i64
    }
}

fn unsigned(v: i64) -> (r: u128)
    ensures
        r == magnitude(v as int),
{
    if v < 0 {
        (-(v as i128)) as u128
    } else {
        v as u128
    }
}

impl Fixed {
    pub open spec fn spec_zero() -> Fixed {
        Fixed { bits: 0 }
    }

    /// The value 0.
    #[verifier::when_used_as_spec(spec_zero)]
    pub fn zero() -> (r: Fixed)
        ensures
            r == Fixed::spec_zero(),
    {
        Fixed { bits: 0 }
    }

    pub open spec fn spec_one() -> Fixed {
        Fixed { bits: ONE_BITS }
    }

    /// The value 1.
    #[verifier::when_used_as_spec(spec_one)]
    pub fn one() -> (r: Fixed)
        ensures
            r == Fixed::spec_one(),
    {
        Fixed { bits: ONE_BITS }
    }

    pub open spec fn spec_half() -> Fixed {
        Fixed { bits: 0x8000_0000 }
    }

    /// The value one half.
    #[verifier::when_used_as_spec(spec_half)]
    pub fn half() -> (r: Fixed)
        ensures
            r == Fixed::spec_half(),
    {
        Fixed { bits: 0x8000_0000 }
    }

    pub open spec fn spec_from_int(n: i32) -> Fixed {
        Fixed { bits: (n * ONE_BITS) as i64 }
    }

    /// The whole number `n`, exactly.
    #[verifier::when_used_as_spec(spec_from_int)]
    pub fn from_int(n: i32) -> (r: Fixed)
        ensures
            r == Fixed::spec_from_int(n),
            r.bits == n * ONE_BITS,
    {
        Fixed { bits: (n as i64) * ONE_BITS }
    }

    pub open spec fn spec_from_bits(bits: i64) -> Fixed {
        Fixed { bits }
    }

    /// The value `bits / 2^32`.
    #[verifier::when_used_as_spec(spec_from_bits)]
    pub fn from_bits(bits: i64) -> (r: Fixed)
        ensures
            r == Fixed::spec_from_bits(bits),
    {
        Fixed { bits }
    }

    pub open spec fn spec_negated(self) -> Fixed {
        Fixed { bits: saturate(-self.bits) }
    }

    /// `-self`; the most negative value gives the most positive one.
    #[verifier::when_used_as_spec(spec_negated)]
    pub fn negated(self) -> (r: Fixed)
        ensures
            r == self.spec_negated(),
    {
        Fixed { bits: narrow(-(self.bits as i128)) }
    }

    pub open spec fn spec_plus(self, other: Fixed) -> Fixed {
        Fixed { bits: saturate(self.bits + other.bits) }
    }

    /// `self + other`, saturating.
    #[verifier::when_used_as_spec(spec_plus)]
    pub fn plus(self, other: Fixed) -> (r: Fixed)
        ensures
            r == self.spec_plus(other),
    {
        Fixed { bits: narrow(self.bits as i128 + other.bits as i128) }
    }

    pub open spec fn spec_minus(self, other: Fixed) -> Fixed {
        Fixed { bits: saturate(self.bits - other.bits) }
    }

    /// `self - other`, saturating.
    #[verifier::when_used_as_spec(spec_minus)]
    pub fn minus(self, other: Fixed) -> (r: Fixed)
        ensures
            r == self.spec_minus(other),
    {
        Fixed { bits: narrow(self.bits as i128 - other.bits as i128) }
    }

    pub open spec fn spec_times(self, other: Fixed) -> Fixed {
        Fixed { bits: saturate(quotient(self.bits * other.bits, ONE_BITS as int)) }
    }

    /// `self * other`, rounded towards zero and saturating.
    #[verifier::when_used_as_spec(spec_times)]
    pub fn times(self, other: Fixed) -> (r: Fixed)
        ensures
            r == self.spec_times(other),
    {
        assert(-0x4000_0000_0000_0000_0000_0000_0000_0000 <= self.bits * other.bits
            <= 0x4000_0000_0000_0000_0000_0000_0000_0000) by (nonlinear_arith);
        let wide: i128 = (self.bits as i128) * (other.bits as i128);
        Fixed { bits: narrow(wide / (ONE_BITS as i128)) }
    }

    pub open spec fn spec_over(self, other: Fixed) -> Fixed {
        if other.bits == 0 {
            if self.bits > 0 {
                Fixed { bits: i64::MAX }
            } else if self.bits < 0 {
                Fixed { bits: i64::MIN }
            } else {
                Fixed { bits: 0 }
            }
        } else {
            Fixed { bits: saturate(quotient(self.bits * ONE_BITS, other.bits as int)) }
        }
    }

    /// `self / other`, rounded towards zero and saturating.
    ///
    /// A division by zero gives the largest value for a positive dividend, the smallest for a
    /// negative one, and zero for zero.
    #[verifier::when_used_as_spec(spec_over)]
    pub fn over(self, other: Fixed) -> (r: Fixed)
        ensures
            r == self.spec_over(other),
    {
        if other.bits == 0 {
            if self.bits > 0 {
                Fixed { bits: i64::MAX }
            } else if self.bits < 0 {
                Fixed { bits: i64::MIN }
            } else {
                Fixed { bits: 0 }
            }
        } else {
            let n: u128 = unsigned(self.bits);
            let d: u128 = unsigned(other.bits);
            let q: u128 = (n * 0x1_0000_0000u128) / d;
            assert(q <= n * 0x1_0000_0000) by (nonlinear_arith)
                requires
                    d >= 1,
                    q == (n * 0x1_0000_0000) / (d as int),
            ;
            assert(magnitude(self.bits * ONE_BITS) == n * 0x1_0000_0000);
            if (self.bits < 0) != (other.bits < 0) {
                Fixed { bits: narrow(-(q as i128)) }
            } else {
                Fixed { bits: narrow(q as i128) }
            }
        }
    }
}

/// A multiple of the divisor divides exactly.
pub proof fn lemma_quotient_exact(v: int, d: int)
    requires
        d > 0,
    ensures
        quotient(v * d, d) == v,
        quotient(d * v, d) == v,
{
    let m = magnitude(v);
    assert((m * d) / d == m) by (nonlinear_arith)
        requires
            d > 0,
    ;
    assert(magnitude(v * d) == m * d && (v < 0 <==> v * d < 0) && d * v == v * d)
        by (nonlinear_arith)
        requires
            d > 0,
            m == magnitude(v),
    ;
}

/// The quotient grows with the dividend.
pub proof fn lemma_quotient_monotone(a: int, b: int, d: int)
    requires
        a <= b,
        d > 0,
    ensures
        quotient(a, d) <= quotient(b, d),
{
    let ma = magnitude(a);
    let mb = magnitude(b);
    assert(ma / d >= 0 && mb / d >= 0) by (nonlinear_arith)
        requires
            ma >= 0,
            mb >= 0,
            d > 0,
    ;
    if a >= 0 {
        assert(ma / d <= mb / d) by (nonlinear_arith)
            requires
                0 <= ma <= mb,
                d > 0,
        ;
    } else if b < 0 {
        assert(mb / d <= ma / d) by (nonlinear_arith)
            requires
                0 <= mb <= ma,
                d > 0,
        ;
    }
}

/// One is neutral for multiplication, on either side.
pub proof fn lemma_times_one(a: Fixed)
    ensures
        a.times(Fixed::one()) == a,
        Fixed::one().times(a) == a,
{
    lemma_quotient_exact(a.bits as int, ONE_BITS as int);
}

/// Zero absorbs in multiplication, on either side.
pub proof fn lemma_times_zero(a: Fixed)
    ensures
        a.times(Fixed::zero()) == Fixed::zero(),
        Fixed::zero().times(a) == Fixed::zero(),
{
    assert(a.bits * 0 == 0);
    assert(0 * a.bits == 0);
}

/// Zero is neutral for addition, on either side, and for subtraction on the right.
pub proof fn lemma_plus_zero(a: Fixed)
    ensures
        a.plus(Fixed::zero()) == a,
        Fixed::zero().plus(a) == a,
        a.minus(Fixed::zero()) == a,
{
}

/// Dividing by one changes nothing.
pub proof fn lemma_over_one(a: Fixed)
    ensures
        a.over(Fixed::one()) == a,
{
    lemma_quotient_exact(a.bits as int, ONE_BITS as int);
}

/// Multiplication is commutative.
pub proof fn lemma_times_commutes(a: Fixed, b: Fixed)
    ensures
        a.times(b) == b.times(a),
{
    assert(a.bits * b.bits == b.bits * a.bits) by (nonlinear_arith);
}

/// Multiplying by a whole number is exact, up to saturation.
pub proof fn lemma_times_int(a: Fixed, k: i32)
    ensures
        a.times(Fixed::from_int(k)).bits == saturate(a.bits * k),
        Fixed::from_int(k).times(a).bits == saturate(a.bits * k),
{
    let whole = Fixed::from_int(k);
    assert(a.bits * whole.bits == (a.bits * k) * ONE_BITS && whole.bits * a.bits == (a.bits * k)
        * ONE_BITS) by (nonlinear_arith)
        requires
            whole.bits == k * ONE_BITS,
    ;
    lemma_quotient_exact(a.bits * k, ONE_BITS as int);
}

/// The product of non-negative values grows with each factor.
pub proof fn lemma_times_monotone(a: Fixed, b: Fixed, c: Fixed, d: Fixed)
    requires
        0 <= a.bits <= b.bits,
        0 <= c.bits <= d.bits,
    ensures
        0 <= a.times(c).bits <= b.times(d).bits,
{
    assert(0 <= a.bits * c.bits <= b.bits * d.bits) by (nonlinear_arith)
        requires
            0 <= a.bits <= b.bits,
            0 <= c.bits <= d.bits,
    ;
    lemma_quotient_exact(0, ONE_BITS as int);
    lemma_quotient_monotone(0, a.bits * c.bits, ONE_BITS as int);
    lemma_quotient_monotone(a.bits * c.bits, b.bits * d.bits, ONE_BITS as int);
}

/// The product of two values that are both negative or zero is not negative.
pub proof fn lemma_times_of_negatives(a: Fixed, b: Fixed)
    requires
        a.bits <= 0,
        b.bits <= 0,
    ensures
        0 <= a.times(b).bits,
{
    assert(0 <= a.bits * b.bits) by (nonlinear_arith)
        requires
            a.bits <= 0,
            b.bits <= 0,
    ;
    lemma_quotient_exact(0, ONE_BITS as int);
    lemma_quotient_monotone(0, a.bits * b.bits, ONE_BITS as int);
}

/// Half of a non-negative value is the value halved, rounded down.
pub proof fn lemma_times_half(a: Fixed)
    requires
        0 <= a.bits,
    ensures
        a.times(Fixed::half()).bits == a.bits / 2,
{
    let p = a.bits * Fixed::half().bits;
    assert(p == a.bits * 0x8000_0000);
    assert(p / 0x1_0000_0000 == a.bits / 2);
}

/// Whether the magnitude of `a` is at most `m`.
pub open spec fn within(a: Fixed, m: int) -> bool {
    -m * ONE_BITS <= a.bits <= m * ONE_BITS
}

/// What rounding takes from a quotient is less than the divisor.
pub proof fn lemma_quotient_residue(n: int, d: int)
    requires
        d != 0,
    ensures
        -magnitude(d) < n - quotient(n, d) * d < magnitude(d),
        magnitude(quotient(n, d)) * magnitude(d) <= magnitude(n),
{
    let x = magnitude(n);
    let y = magnitude(d);
    let q = x / y;
    let qy = q * y;
    assert(x == qy + x % y && 0 <= x % y < y && 0 <= q && 0 <= qy) by (nonlinear_arith)
        requires
            y > 0,
            x >= 0,
            q == x / y,
            qy == q * y,
    ;
    if d > 0 {
        assert(q * d == qy && (-q) * d == -qy) by (nonlinear_arith)
            requires
                qy == q * y,
                y == d,
        ;
    } else {
        assert(q * d == -qy && (-q) * d == qy) by (nonlinear_arith)
            requires
                qy == q * y,
                y == -d,
        ;
    }
    assert(magnitude(quotient(n, d)) == q);
}

/// What rounding takes from a product is less than one unit of the last place, and the
/// product is at most the product of the bounds of its factors.
///
/// This holds of a factor of at most `m` in magnitude and one of at most `n`, where
/// `m * n` is at most two to the power of 30.
pub proof fn lemma_times_residue(a: Fixed, x: Fixed, m: int, n: int)
    requires
        0 <= m,
        0 <= n,
        m * n <= 0x4000_0000,
        within(a, m),
        within(x, n),
    ensures
        -ONE_BITS < a.bits * x.bits - ONE_BITS * a.times(x).bits < ONE_BITS,
        within(a.times(x), m * n),
{
    let s: int = 0x1_0000_0000;
    let product = a.bits * x.bits;
    let mn = m * n;
    assert(-(mn * s) * s <= product <= (mn * s) * s) by (nonlinear_arith)
        requires
            product == a.bits * x.bits,
            -m * s <= a.bits <= m * s,
            -n * s <= x.bits <= n * s,
            mn == m * n,
            0 <= m,
            0 <= n,
    ;
    lemma_quotient_exact(mn * s, s);
    lemma_quotient_exact(-(mn * s), s);
    lemma_quotient_monotone(-(mn * s) * s, product, s);
    lemma_quotient_monotone(product, (mn * s) * s, s);
    lemma_quotient_residue(product, s);
    assert(quotient(product, s) * s == s * quotient(product, s)) by (nonlinear_arith);
}

/// What rounding takes from a quotient is less than the divisor, and the quotient is at
/// most `m * k`.
///
/// This holds of a dividend of at most `m` in magnitude and a divisor of at least `1 / k`,
/// where `m * k` is at most two to the power of 30.
pub proof fn lemma_over_residue(x: Fixed, d: Fixed, m: int, k: int)
    requires
        0 <= m,
        1 <= k,
        m * k <= 0x4000_0000,
        within(x, m),
        k * magnitude(d.bits as int) >= ONE_BITS,
    ensures
        -magnitude(d.bits as int) < x.bits * ONE_BITS - x.over(d).bits * d.bits < magnitude(
            d.bits as int,
        ),
        within(x.over(d), m * k),
{
    let s: int = 0x1_0000_0000;
    let n = x.bits * ONE_BITS;
    let y = magnitude(d.bits as int);
    let q = quotient(n, d.bits as int);
    let mk = m * k;
    lemma_quotient_residue(n, d.bits as int);
    assert(magnitude(n) <= m * s * s);
    assert(magnitude(q) <= mk * s) by (nonlinear_arith)
        requires
            magnitude(q) * y <= magnitude(n),
            magnitude(n) <= m * s * s,
            k * y >= s,
            y > 0,
            mk == m * k,
            0 <= m,
            1 <= k,
            s > 0,
            0 <= magnitude(q),
    ;
}

/// A factor between zero and one never makes a non-negative value larger, nor negative.
pub proof fn lemma_times_shrinks(a: Fixed, s: Fixed)
    requires
        0 <= a.bits,
        0 <= s.bits <= ONE_BITS,
    ensures
        0 <= a.times(s).bits <= a.bits,
{
    let p = a.bits * s.bits;
    assert(0 <= p <= a.bits * ONE_BITS) by (nonlinear_arith)
        requires
            p == a.bits * s.bits,
            0 <= a.bits,
            0 <= s.bits <= ONE_BITS,
    ;
    lemma_quotient_monotone(0, p, ONE_BITS as int);
    lemma_quotient_monotone(p, a.bits * ONE_BITS, ONE_BITS as int);
    lemma_quotient_exact(a.bits as int, ONE_BITS as int);
    lemma_quotient_exact(0, ONE_BITS as int);
}

/// A factor of at least one never makes a non-negative value smaller.
pub proof fn lemma_times_grows(a: Fixed, s: Fixed)
    requires
        0 <= a.bits,
        ONE_BITS <= s.bits,
    ensures
        a.bits <= a.times(s).bits,
{
    let p = a.bits * s.bits;
    assert(a.bits * ONE_BITS <= p) by (nonlinear_arith)
        requires
            p == a.bits * s.bits,
            0 <= a.bits,
            ONE_BITS <= s.bits,
    ;
    lemma_quotient_monotone(a.bits * ONE_BITS, p, ONE_BITS as int);
    lemma_quotient_exact(a.bits as int, ONE_BITS as int);
}

/// The ratio of a non-negative value to a larger positive one lies between zero and one.
pub proof fn lemma_over_at_most_one(a: Fixed, b: Fixed)
    requires
        0 <= a.bits <= b.bits,
        0 < b.bits,
    ensures
        0 <= a.over(b).bits <= ONE_BITS,
{
    let n = a.bits * ONE_BITS;
    let d = b.bits as int;
    lemma_quotient_exact(ONE_BITS as int, d);
    lemma_quotient_exact(0, d);
    lemma_quotient_monotone(0, n, d);
    assert(n <= ONE_BITS * d) by (nonlinear_arith)
        requires
            n == a.bits * ONE_BITS,
            a.bits <= d,
            ONE_BITS > 0,
    ;
    lemma_quotient_monotone(n, ONE_BITS * d, d);
}

/// The ratio of a positive value to a smaller positive one is at least one.
pub proof fn lemma_over_at_least_one(a: Fixed, b: Fixed)
    requires
        0 < b.bits <= a.bits,
    ensures
        ONE_BITS <= a.over(b).bits,
{
    let n = a.bits * ONE_BITS;
    let d = b.bits as int;
    lemma_quotient_exact(ONE_BITS as int, d);
    assert(ONE_BITS * d <= n) by (nonlinear_arith)
        requires
            n == a.bits * ONE_BITS,
            d <= a.bits,
            ONE_BITS > 0,
    ;
    lemma_quotient_monotone(ONE_BITS * d, n, d);
}

/// A fixed-point number with 32 fractional bits and 95 integer bits: the value is
/// `bits / 2^32`.
#[derive(Clone, Copy, Debug, PartialEq, Eq, Structural, PartialOrd, Ord, Hash)]
pub struct Wide {
    pub bits: i128,
}

fn unsigned_wide(v: i128) -> (r: u128)
    ensures
        r == magnitude(v as int),
{
    if v == i128::MIN {
        0x8000_0000_0000_0000_0000_0000_0000_0000u128
    } else if v < 0 {
        (-v) as u128
    } else {
        v as u128
    }
}

impl Wide {
    pub open spec fn spec_zero() -> Wide {
        Wide { bits: 0 }
    }

    /// The value 0.
    #[verifier::when_used_as_spec(spec_zero)]
    pub fn zero() -> (r: Wide)
        ensures
            r == Wide::spec_zero(),
    {
        Wide { bits: 0 }
    }

    pub open spec fn spec_one() -> Wide {
        Wide { bits: ONE_BITS as i128 }
    }

    /// The value 1.
    #[verifier::when_used_as_spec(spec_one)]
    pub fn one() -> (r: Wide)
        ensures
            r == Wide::spec_one(),
    {
        Wide { bits: ONE_BITS as i128 }
    }

    pub open spec fn spec_from_int(n: i64) -> Wide {
        Wide { bits: (n * ONE_BITS) as i128 }
    }

    /// The whole number `n`, exactly.
    #[verifier::when_used_as_spec(spec_from_int)]
    pub fn from_int(n: i64) -> (r: Wide)
        ensures
            r == Wide::spec_from_int(n),
            r.bits == n * ONE_BITS,
    {
        Wide { bits: (n as i128) * (ONE_BITS as i128) }
    }

    pub open spec fn spec_from_fixed(value: Fixed) -> Wide {
        Wide { bits: value.bits as i128 }
    }

    /// The same value, exactly.
    #[verifier::when_used_as_spec(spec_from_fixed)]
    pub fn from_fixed(value: Fixed) -> (r: Wide)
        ensures
            r == Wide::spec_from_fixed(value),
    {
        Wide { bits: value.bits as i128 }
    }

    pub open spec fn spec_to_fixed(self) -> Fixed {
        Fixed { bits: saturate(self.bits as int) }
    }

    /// The nearest [`Fixed`] value.
    #[verifier::when_used_as_spec(spec_to_fixed)]
    pub fn to_fixed(self) -> (r: Fixed)
        ensures
            r == self.spec_to_fixed(),
    {
        Fixed { bits: narrow(self.bits) }
    }

    pub open spec fn spec_plus(self, other: Wide) -> Wide {
        Wide { bits: saturate_wide(self.bits + other.bits) }
    }

    /// `self + other`, saturating.
    #[verifier::when_used_as_spec(spec_plus)]
    pub fn plus(self, other: Wide) -> (r: Wide)
        ensures
            r == self.spec_plus(other),
    {
        match self.bits.checked_add(other.bits) {
            Some(bits) => Wide { bits },
            None => if self.bits < 0 {
                Wide { bits: i128::MIN }
            } else {
                Wide { bits: i128::MAX }
            },
        }
    }

    pub open spec fn spec_minus(self, other: Wide) -> Wide {
        Wide { bits: saturate_wide(self.bits - other.bits) }
    }

    /// `self - other`, saturating.
    #[verifier::when_used_as_spec(spec_minus)]
    pub fn minus(self, other: Wide) -> (r: Wide)
        ensures
            r == self.spec_minus(other),
    {
        match self.bits.checked_sub(other.bits) {
            Some(bits) => Wide { bits },
            None => if self.bits < 0 {
                Wide { bits: i128::MIN }
            } else {
                Wide { bits: i128::MAX }
            },
        }
    }

    pub open spec fn spec_abs(self) -> Wide {
        Wide { bits: saturate_wide(magnitude(self.bits as int)) }
    }

    /// The absolute value; the most negative value gives the most positive one.
    #[verifier::when_used_as_spec(spec_abs)]
    pub fn abs(self) -> (r: Wide)
        ensures
            r == self.spec_abs(),
    {
        if self.bits == i128::MIN {
            Wide { bits: i128::MAX }
        } else if self.bits < 0 {
            Wide { bits: -self.bits }
        } else {
            self
        }
    }

    pub open spec fn spec_rem(self, period: Wide) -> Wide {
        if period.bits == 0 {
            Wide { bits: 0 }
        } else {
            Wide { bits: remainder(self.bits as int, period.bits as int) as i128 }
        }
    }

    /// What is left of `self` after taking out as many whole periods as fit, counted
    /// towards zero: the result has the sign of `self` and is smaller in magnitude than
    /// `period`. A zero period gives zero.
    #[verifier::when_used_as_spec(spec_rem)]
    pub fn rem(self, period: Wide) -> (r: Wide)
        ensures
            r == self.spec_rem(period),
            magnitude(r.bits as int) <= magnitude(self.bits as int),
            period.bits != 0 ==> magnitude(r.bits as int) < magnitude(period.bits as int),
    {
        if period.bits == 0 {
            Wide { bits: 0 }
        } else {
            let n: u128 = unsigned_wide(self.bits);
            let d: u128 = unsigned_wide(period.bits);
            let m: u128 = n % d;
            assert(m <= n && m < d) by (nonlinear_arith)
                requires
                    d >= 1,
                    m == (n as int) % (d as int),
                    n >= 0,
            ;
            if self.bits < 0 {
                Wide { bits: -(m as i128) }
            } else {
                Wide { bits: m as i128 }
            }
        }
    }
}

} // verus!
