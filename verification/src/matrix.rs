//! Affine transforms of the plane.
use crate::fixed::lemma_over_one;
use crate::fixed::lemma_over_residue;
use crate::fixed::lemma_plus_zero;
use crate::fixed::lemma_quotient_exact;
use crate::fixed::lemma_quotient_monotone;
use crate::fixed::lemma_times_one;
use crate::fixed::lemma_times_residue;
use crate::fixed::lemma_times_zero;
use crate::fixed::magnitude;
use crate::fixed::quotient;
use crate::fixed::within;
use crate::fixed::Fixed;
use crate::fixed::ONE_BITS;
use vstd::prelude::*;

verus! {

/// A 2x3 matrix, stored by columns.
///
/// The matrix sends the point `(x, y)` to
/// `(m00 * x + m10 * y + m20, m01 * x + m11 * y + m21)`: `(m00, m01)` is the image of the
/// horizontal unit vector, `(m10, m11)` the image of the vertical one, and `(m20, m21)` the
/// translation.
#[derive(Clone, Copy, Debug, PartialEq, Eq, Structural)]
pub struct Matrix {
    pub m00: Fixed,
    pub m01: Fixed,
    pub m10: Fixed,
    pub m11: Fixed,
    pub m20: Fixed,
    pub m21: Fixed,
}

impl Matrix {
    pub open spec fn spec_identity() -> Matrix {
        Matrix {
            m00: Fixed::one(),
            m01: Fixed::zero(),
            m10: Fixed::zero(),
            m11: Fixed::one(),
            m20: Fixed::zero(),
            m21: Fixed::zero(),
        }
    }

    /// Builds an identity matrix, in other words a matrix that has no effect.
    #[verifier::when_used_as_spec(spec_identity)]
    pub fn identity() -> (r: Matrix)
        ensures
            r == Matrix::spec_identity(),
    {
        Matrix {
            m00: Fixed::one(),
            m01: Fixed::zero(),
            m10: Fixed::zero(),
            m11: Fixed::one(),
            m20: Fixed::zero(),
            m21: Fixed::zero(),
        }
    }

    pub open spec fn spec_scale(factor: Fixed) -> Matrix {
        Matrix::spec_scale_wh(factor, factor)
    }

    /// Builds a matrix that will rescale both width and height of a given factor.
    #[verifier::when_used_as_spec(spec_scale)]
    pub fn scale(factor: Fixed) -> (r: Matrix)
        ensures
            r == Matrix::spec_scale(factor),
    {
        Matrix::scale_wh(factor, factor)
    }

    pub open spec fn spec_scale_wh(w: Fixed, h: Fixed) -> Matrix {
        Matrix {
            m00: w,
            m01: Fixed::zero(),
            m10: Fixed::zero(),
            m11: h,
            m20: Fixed::zero(),
            m21: Fixed::zero(),
        }
    }

    /// Builds a matrix that will multiply the width and height by a certain factor.
    #[verifier::when_used_as_spec(spec_scale_wh)]
    pub fn scale_wh(w: Fixed, h: Fixed) -> (r: Matrix)
        ensures
            r == Matrix::spec_scale_wh(w, h),
    {
        Matrix {
            m00: w,
            m01: Fixed::zero(),
            m10: Fixed::zero(),
            m11: h,
            m20: Fixed::zero(),
            m21: Fixed::zero(),
        }
    }

    pub open spec fn spec_translate(x: Fixed, y: Fixed) -> Matrix {
        Matrix {
            m00: Fixed::one(),
            m01: Fixed::zero(),
            m10: Fixed::zero(),
            m11: Fixed::one(),
            m20: x,
            m21: y,
        }
    }

    /// Builds a matrix that will translate the object.
    #[verifier::when_used_as_spec(spec_translate)]
    pub fn translate(x: Fixed, y: Fixed) -> (r: Matrix)
        ensures
            r == Matrix::spec_translate(x, y),
    {
        Matrix {
            m00: Fixed::one(),
            m01: Fixed::zero(),
            m10: Fixed::zero(),
            m11: Fixed::one(),
            m20: x,
            m21: y,
        }
    }

    pub open spec fn spec_rotate(cos: Fixed, sin: Fixed) -> Matrix {
        Matrix {
            m00: cos,
            m01: sin,
            m10: sin.negated(),
            m11: cos,
            m20: Fixed::zero(),
            m21: Fixed::zero(),
        }
    }

    /// Builds a matrix that will rotate the object by the angle whose cosine and sine are
    /// given.
    #[verifier::when_used_as_spec(spec_rotate)]
    pub fn rotate(cos: Fixed, sin: Fixed) -> (r: Matrix)
        ensures
            r == Matrix::spec_rotate(cos, sin),
    {
        Matrix {
            m00: cos,
            m01: sin,
            m10: sin.negated(),
            m11: cos,
            m20: Fixed::zero(),
            m21: Fixed::zero(),
        }
    }

    pub open spec fn spec_skew_x(tan: Fixed) -> Matrix {
        Matrix {
            m00: Fixed::one(),
            m01: Fixed::zero(),
            m10: tan,
            m11: Fixed::one(),
            m20: Fixed::zero(),
            m21: Fixed::zero(),
        }
    }

    /// Builds a matrix that will skew the x coordinate by the angle whose tangent is given.
    #[verifier::when_used_as_spec(spec_skew_x)]
    pub fn skew_x(tan: Fixed) -> (r: Matrix)
        ensures
            r == Matrix::spec_skew_x(tan),
    {
        Matrix {
            m00: Fixed::one(),
            m01: Fixed::zero(),
            m10: tan,
            m11: Fixed::one(),
            m20: Fixed::zero(),
            m21: Fixed::zero(),
        }
    }

    pub open spec fn spec_compose(self, other: Matrix) -> Matrix {
        Matrix {
            m00: self.m00.times(other.m00).plus(self.m10.times(other.m01)),
            m01: self.m01.times(other.m00).plus(self.m11.times(other.m01)),
            m10: self.m00.times(other.m10).plus(self.m10.times(other.m11)),
            m11: self.m01.times(other.m10).plus(self.m11.times(other.m11)),
            m20: self.m00.times(other.m20).plus(self.m10.times(other.m21)).plus(self.m20),
            m21: self.m01.times(other.m20).plus(self.m11.times(other.m21)).plus(self.m21),
        }
    }

    /// The matrix product `self * other`: the transform that applies `other` first and
    /// `self` after it.
    #[verifier::when_used_as_spec(spec_compose)]
    pub fn compose(self, other: Matrix) -> (r: Matrix)
        ensures
            r == self.spec_compose(other),
    {
        Matrix {
            m00: self.m00.times(other.m00).plus(self.m10.times(other.m01)),
            m01: self.m01.times(other.m00).plus(self.m11.times(other.m01)),
            m10: self.m00.times(other.m10).plus(self.m10.times(other.m11)),
            m11: self.m01.times(other.m10).plus(self.m11.times(other.m11)),
            m20: self.m00.times(other.m20).plus(self.m10.times(other.m21)).plus(self.m20),
            m21: self.m01.times(other.m20).plus(self.m11.times(other.m21)).plus(self.m21),
        }
    }

    /// Image of the homogeneous point `(x, y, w)`, as a sequence of three coordinates.
    pub open spec fn image(self, x: Fixed, y: Fixed, w: Fixed) -> Seq<Fixed> {
        seq![
            self.m00.times(x).plus(self.m10.times(y)).plus(self.m20.times(w)),
            self.m01.times(x).plus(self.m11.times(y)).plus(self.m21.times(w)),
            w,
        ]
    }

    /// Transforms the homogeneous point `[x, y, w]`. The last coordinate comes back
    /// unchanged; the caller divides by it.
    pub fn apply(self, point: [Fixed; 3]) -> (r: [Fixed; 3])
        ensures
            r@ == self.image(point[0], point[1], point[2]),
    {
        let x = self.m00.times(point[0]).plus(self.m10.times(point[1])).plus(
            self.m20.times(point[2]),
        );
        let y = self.m01.times(point[0]).plus(self.m11.times(point[1])).plus(
            self.m21.times(point[2]),
        );
        let r = [x, y, point[2]];
        assert(r@ =~= self.image(point[0], point[1], point[2]));
        r
    }

    pub open spec fn spec_determinant(self) -> Fixed {
        self.m00.times(self.m11).minus(self.m10.times(self.m01))
    }

    /// Determinant of the linear part.
    #[verifier::when_used_as_spec(spec_determinant)]
    pub fn determinant(self) -> (r: Fixed)
        ensures
            r == self.spec_determinant(),
    {
        self.m00.times(self.m11).minus(self.m10.times(self.m01))
    }

    /// The inverse of a matrix whose determinant is not zero: the linear part is the
    /// adjugate divided by the determinant, and the translation is the image of the old
    /// translation under that linear part, negated.
    pub open spec fn inverse(self) -> Matrix {
        let det = self.determinant();
        let m00 = self.m11.over(det);
        let m01 = self.m01.negated().over(det);
        let m10 = self.m10.negated().over(det);
        let m11 = self.m00.over(det);
        Matrix {
            m00,
            m01,
            m10,
            m11,
            m20: m00.times(self.m20).plus(m10.times(self.m21)).negated(),
            m21: m01.times(self.m20).plus(m11.times(self.m21)).negated(),
        }
    }

    /// Inverts the matrix. Returns `None` when the matrix is singular, that is when its
    /// determinant is zero.
    pub fn invert(self) -> (r: Option<Matrix>)
        ensures
            self.determinant() == Fixed::zero() <==> r is None,
            r matches Some(m) ==> m == self.inverse(),
    {
        let det = self.determinant();
        if det.bits == 0 {
            return None;
        }
        let m00 = self.m11.over(det);
        let m01 = self.m01.negated().over(det);
        let m10 = self.m10.negated().over(det);
        let m11 = self.m00.over(det);
        Some(
            Matrix {
                m00,
                m01,
                m10,
                m11,
                m20: m00.times(self.m20).plus(m10.times(self.m21)).negated(),
                m21: m01.times(self.m20).plus(m11.times(self.m21)).negated(),
            },
        )
    }

    pub open spec fn spec_blend(self, target: Matrix, factor: Fixed) -> Matrix {
        Matrix {
            m00: lerp(self.m00, target.m00, factor),
            m01: lerp(self.m01, target.m01, factor),
            m10: lerp(self.m10, target.m10, factor),
            m11: lerp(self.m11, target.m11, factor),
            m20: lerp(self.m20, target.m20, factor),
            m21: lerp(self.m21, target.m21, factor),
        }
    }

    /// Interpolates each cell linearly from `self` (at factor zero) to `target` (at factor
    /// one). This is not a decomposition into rotation, scale and translation: it looks
    /// right only between matrices that are close to each other.
    #[verifier::when_used_as_spec(spec_blend)]
    pub fn blend(self, target: Matrix, factor: Fixed) -> (r: Matrix)
        ensures
            r == self.spec_blend(target, factor),
    {
        Matrix {
            m00: lerp(self.m00, target.m00, factor),
            m01: lerp(self.m01, target.m01, factor),
            m10: lerp(self.m10, target.m10, factor),
            m11: lerp(self.m11, target.m11, factor),
            m20: lerp(self.m20, target.m20, factor),
            m21: lerp(self.m21, target.m21, factor),
        }
    }

    /// The rows of the 3x3 matrix that extends `self` by the column `(0, 0, 1)`.
    pub open spec fn rows_3x3(self) -> Seq<Seq<Fixed>> {
        seq![
            seq![self.m00, self.m01, Fixed::zero()],
            seq![self.m10, self.m11, Fixed::zero()],
            seq![self.m20, self.m21, Fixed::one()],
        ]
    }

    /// Turns the matrix into a 3x3 matrix.
    pub fn into_3x3(self) -> (r: [[Fixed; 3]; 3])
        ensures
            r@.len() == 3,
            forall|i: int| 0 <= i < 3 ==> (#[trigger] r@[i])@ == self.rows_3x3()[i],
    {
        let r = [
            [self.m00, self.m01, Fixed::zero()],
            [self.m10, self.m11, Fixed::zero()],
            [self.m20, self.m21, Fixed::one()],
        ];
        assert(r@[0]@ =~= self.rows_3x3()[0]);
        assert(r@[1]@ =~= self.rows_3x3()[1]);
        assert(r@[2]@ =~= self.rows_3x3()[2]);
        r
    }

    /// The rows of the 4x4 matrix that acts as `self` on the first two coordinates, sends
    /// the third to zero and keeps the fourth.
    pub open spec fn rows_4x4(self) -> Seq<Seq<Fixed>> {
        seq![
            seq![self.m00, self.m01, Fixed::zero(), Fixed::zero()],
            seq![self.m10, self.m11, Fixed::zero(), Fixed::zero()],
            seq![Fixed::zero(), Fixed::zero(), Fixed::zero(), Fixed::zero()],
            seq![self.m20, self.m21, Fixed::zero(), Fixed::one()],
        ]
    }

    /// Turns the matrix into a 4x4 matrix.
    pub fn into_4x4(self) -> (r: [[Fixed; 4]; 4])
        ensures
            r@.len() == 4,
            forall|i: int| 0 <= i < 4 ==> (#[trigger] r@[i])@ == self.rows_4x4()[i],
    {
        let r = [
            [self.m00, self.m01, Fixed::zero(), Fixed::zero()],
            [self.m10, self.m11, Fixed::zero(), Fixed::zero()],
            [Fixed::zero(), Fixed::zero(), Fixed::zero(), Fixed::zero()],
            [self.m20, self.m21, Fixed::zero(), Fixed::one()],
        ];
        assert(r@[0]@ =~= self.rows_4x4()[0]);
        assert(r@[1]@ =~= self.rows_4x4()[1]);
        assert(r@[2]@ =~= self.rows_4x4()[2]);
        assert(r@[3]@ =~= self.rows_4x4()[3]);
        r
    }
}

pub open spec fn spec_lerp(a: Fixed, b: Fixed, f: Fixed) -> Fixed {
    a.plus(b.minus(a).times(f))
}

/// Linear interpolation from `a` (at `f` zero) to `b` (at `f` one): `a + (b - a) * f`.
#[verifier::when_used_as_spec(spec_lerp)]
pub fn lerp(a: Fixed, b: Fixed, f: Fixed) -> (r: Fixed)
    ensures
        r == spec_lerp(a, b, f),
{
    a.plus(b.minus(a).times(f))
}

/// The identity is neutral for composition on the left.
pub proof fn lemma_identity_left(a: Matrix)
    ensures
        Matrix::identity().compose(a) == a,
{
    lemma_times_one(a.m00);
    lemma_times_one(a.m01);
    lemma_times_one(a.m10);
    lemma_times_one(a.m11);
    lemma_times_one(a.m20);
    lemma_times_one(a.m21);
    lemma_times_zero(a.m00);
    lemma_times_zero(a.m01);
    lemma_times_zero(a.m10);
    lemma_times_zero(a.m11);
    lemma_times_zero(a.m20);
    lemma_times_zero(a.m21);
    lemma_plus_zero(a.m00);
    lemma_plus_zero(a.m01);
    lemma_plus_zero(a.m10);
    lemma_plus_zero(a.m11);
    lemma_plus_zero(a.m20);
    lemma_plus_zero(a.m21);
}

/// The identity is neutral for composition on the right.
pub proof fn lemma_identity_right(a: Matrix)
    ensures
        a.compose(Matrix::identity()) == a,
{
    lemma_times_one(a.m00);
    lemma_times_one(a.m01);
    lemma_times_one(a.m10);
    lemma_times_one(a.m11);
    lemma_times_zero(a.m00);
    lemma_times_zero(a.m01);
    lemma_times_zero(a.m10);
    lemma_times_zero(a.m11);
    lemma_plus_zero(a.m00);
    lemma_plus_zero(a.m01);
    lemma_plus_zero(a.m10);
    lemma_plus_zero(a.m11);
    lemma_plus_zero(a.m20);
    lemma_plus_zero(a.m21);
}

/// The identity sends every point to itself.
pub proof fn lemma_identity_image(x: Fixed, y: Fixed, w: Fixed)
    ensures
        Matrix::identity().image(x, y, w) == seq![x, y, w],
{
    lemma_times_one(x);
    lemma_times_one(y);
    lemma_times_zero(x);
    lemma_times_zero(y);
    lemma_times_zero(w);
    lemma_plus_zero(x);
    lemma_plus_zero(y);
    assert(Matrix::identity().image(x, y, w) =~= seq![x, y, w]);
}

/// A translation can be inverted, its inverse is the translation back, and the two
/// compose to the identity, in either order.
pub proof fn lemma_translate_inverse(x: Fixed, y: Fixed)
    requires
        x.bits > i64::MIN,
        y.bits > i64::MIN,
    ensures
        Matrix::translate(x, y).determinant() == Fixed::one(),
        Matrix::translate(x, y).inverse() == Matrix::translate(x.negated(), y.negated()),
        Matrix::translate(x, y).compose(Matrix::translate(x, y).inverse()) == Matrix::identity(),
        Matrix::translate(x, y).inverse().compose(Matrix::translate(x, y)) == Matrix::identity(),
{
    let zero = Fixed::zero();
    let one = Fixed::one();
    lemma_times_one(one);
    lemma_times_one(x);
    lemma_times_one(y);
    lemma_times_one(x.negated());
    lemma_times_one(y.negated());
    lemma_times_zero(zero);
    lemma_times_zero(one);
    lemma_times_zero(x);
    lemma_times_zero(y);
    lemma_times_zero(x.negated());
    lemma_times_zero(y.negated());
    lemma_over_one(one);
    lemma_over_one(zero);
    assert(Matrix::translate(x, y).determinant() == one);
    assert(zero.negated() == zero);
    assert(Matrix::translate(x, y).inverse() == Matrix::translate(x.negated(), y.negated()));
}

/// `a0 * x0 + a1 * x1 + t`, as a cell of a matrix product is computed.
pub open spec fn dot(a0: Fixed, x0: Fixed, a1: Fixed, x1: Fixed, t: Fixed) -> Fixed {
    a0.times(x0).plus(a1.times(x1)).plus(t)
}

/// What rounding takes from a cell of a matrix product: less than two units of the last
/// place. The cell is as much larger than its operands as the exact value can be.
///
/// This holds of operands `a0` and `a1` of at most `m` in magnitude, `x0` and `x1` of at
/// most `n`, and `t` of at most `k`, where `2 * m * n + k` is at most two to the power
/// of 30.
pub proof fn lemma_dot_residue(
    a0: Fixed,
    x0: Fixed,
    a1: Fixed,
    x1: Fixed,
    t: Fixed,
    m: int,
    n: int,
    k: int,
)
    requires
        0 <= m,
        0 <= n,
        0 <= k,
        2 * m * n + k <= 0x4000_0000,
        -m * ONE_BITS <= a0.bits <= m * ONE_BITS,
        -m * ONE_BITS <= a1.bits <= m * ONE_BITS,
        -n * ONE_BITS <= x0.bits <= n * ONE_BITS,
        -n * ONE_BITS <= x1.bits <= n * ONE_BITS,
        -k * ONE_BITS <= t.bits <= k * ONE_BITS,
    ensures
        ({
            let d = dot(a0, x0, a1, x1, t).bits;
            let e = a0.bits * x0.bits + a1.bits * x1.bits + ONE_BITS * t.bits - ONE_BITS * d;
            &&& -2 * ONE_BITS < e < 2 * ONE_BITS
            &&& -(2 * m * n + k) * ONE_BITS <= d <= (2 * m * n + k) * ONE_BITS
        }),
{
    let s: int = 0x1_0000_0000;
    let first = a0.bits * x0.bits;
    let second = a1.bits * x1.bits;
    let mn = m * n;
    assert(0 <= mn && 2 * m * n == 2 * mn) by (nonlinear_arith)
        requires
            0 <= m,
            0 <= n,
            mn == m * n,
    ;
    assert(-(mn * s) * s <= first <= (mn * s) * s) by (nonlinear_arith)
        requires
            first == a0.bits * x0.bits,
            -m * s <= a0.bits <= m * s,
            -n * s <= x0.bits <= n * s,
            mn == m * n,
            0 <= m,
            0 <= n,
    ;
    assert(-(mn * s) * s <= second <= (mn * s) * s) by (nonlinear_arith)
        requires
            second == a1.bits * x1.bits,
            -m * s <= a1.bits <= m * s,
            -n * s <= x1.bits <= n * s,
            mn == m * n,
            0 <= m,
            0 <= n,
    ;
    lemma_quotient_exact(mn * s, s);
    lemma_quotient_exact(-(mn * s), s);
    lemma_quotient_monotone(-(mn * s) * s, first, s);
    lemma_quotient_monotone(first, (mn * s) * s, s);
    lemma_quotient_monotone(-(mn * s) * s, second, s);
    lemma_quotient_monotone(second, (mn * s) * s, s);
    let first_quotient = quotient(first, s);
    let second_quotient = quotient(second, s);
    assert(-s < first - s * first_quotient < s);
    assert(-s < second - s * second_quotient < s);
    assert(a0.times(x0).bits == first_quotient);
    assert(a1.times(x1).bits == second_quotient);
}

/// The two ways of computing a cell of the product of three matrices differ by what
/// rounding takes: by at most `8 * m + 6` units of the last place, where no operand is
/// more than `m` in magnitude, and `m` is at most 256.
///
/// The cell belongs to the row `(a0, a1, a2)` of the first matrix and to the column
/// `(c0, c1)` of the third; `b00` to `b21` are the cells of the second.
pub proof fn lemma_cell_associative(
    a0: Fixed,
    a1: Fixed,
    a2: Fixed,
    b00: Fixed,
    b01: Fixed,
    b10: Fixed,
    b11: Fixed,
    b20: Fixed,
    b21: Fixed,
    c0: Fixed,
    c1: Fixed,
    m: int,
)
    requires
        1 <= m <= 256,
        within(a0, m),
        within(a1, m),
        within(a2, m),
        within(b00, m),
        within(b01, m),
        within(b10, m),
        within(b11, m),
        within(b20, m),
        within(b21, m),
        within(c0, m),
        within(c1, m),
    ensures
        ({
            let zero = Fixed::zero();
            let left = dot(
                dot(a0, b00, a1, b01, zero),
                c0,
                dot(a0, b10, a1, b11, zero),
                c1,
                dot(a0, b20, a1, b21, a2),
            );
            let right = dot(a0, dot(b00, c0, b10, c1, b20), a1, dot(b01, c0, b11, c1, b21), a2);
            -(8 * m + 6) <= left.bits - right.bits <= 8 * m + 6
        }),
{
    let s: int = 0x1_0000_0000;
    let zero = Fixed::zero();
    let mm = m * m;
    assert(1 <= mm <= 65536 && mm * m <= 16777216) by (nonlinear_arith)
        requires
            1 <= m <= 256,
            mm == m * m,
    ;
    let ab0 = dot(a0, b00, a1, b01, zero);
    let ab1 = dot(a0, b10, a1, b11, zero);
    let ab2 = dot(a0, b20, a1, b21, a2);
    let bc0 = dot(b00, c0, b10, c1, b20);
    let bc1 = dot(b01, c0, b11, c1, b21);
    let left = dot(ab0, c0, ab1, c1, ab2);
    let right = dot(a0, bc0, a1, bc1, a2);
    let wide = 2 * mm + m;
    assert(2 * m * m + m == wide && wide <= 0x4000_0000) by (nonlinear_arith)
        requires
            wide == 2 * mm + m,
            mm == m * m,
            1 <= m <= 256,
    ;
    lemma_dot_residue(a0, b00, a1, b01, zero, m, m, m);
    lemma_dot_residue(a0, b10, a1, b11, zero, m, m, m);
    lemma_dot_residue(a0, b20, a1, b21, a2, m, m, m);
    lemma_dot_residue(b00, c0, b10, c1, b20, m, m, m);
    lemma_dot_residue(b01, c0, b11, c1, b21, m, m, m);
    assert(2 * wide * m + wide <= 0x4000_0000 && 2 * m * wide + m <= 0x4000_0000)
        by (nonlinear_arith)
        requires
            wide == 2 * mm + m,
            mm == m * m,
            1 <= m <= 256,
    ;
    lemma_dot_residue(ab0, c0, ab1, c1, ab2, wide, m, wide);
    lemma_dot_residue(a0, bc0, a1, bc1, a2, m, wide, m);
    let e1 = a0.bits * b00.bits + a1.bits * b01.bits - s * ab0.bits;
    let e2 = a0.bits * b10.bits + a1.bits * b11.bits - s * ab1.bits;
    let e4 = a0.bits * b20.bits + a1.bits * b21.bits + s * a2.bits - s * ab2.bits;
    let e3 = ab0.bits * c0.bits + ab1.bits * c1.bits + s * ab2.bits - s * left.bits;
    let f1 = b00.bits * c0.bits + b10.bits * c1.bits + s * b20.bits - s * bc0.bits;
    let f2 = b01.bits * c0.bits + b11.bits * c1.bits + s * b21.bits - s * bc1.bits;
    let f3 = a0.bits * bc0.bits + a1.bits * bc1.bits + s * a2.bits - s * right.bits;
    lemma_sums_associative(
        a0.bits as int,
        a1.bits as int,
        a2.bits as int,
        b00.bits as int,
        b01.bits as int,
        b10.bits as int,
        b11.bits as int,
        b20.bits as int,
        b21.bits as int,
        c0.bits as int,
        c1.bits as int,
        ab0.bits as int,
        ab1.bits as int,
        ab2.bits as int,
        bc0.bits as int,
        bc1.bits as int,
        left.bits as int,
        right.bits as int,
        s,
        e1,
        e2,
        e3,
        e4,
        f1,
        f2,
        f3,
    );
    let diff = left.bits - right.bits;
    let bound = m * s;
    lemma_product_bound(e1, c0.bits as int, 2 * s, bound);
    lemma_product_bound(e2, c1.bits as int, 2 * s, bound);
    lemma_product_bound(f1, a0.bits as int, 2 * s, bound);
    lemma_product_bound(f2, a1.bits as int, 2 * s, bound);
    assert((2 * s) * bound == (2 * m) * (s * s)) by (nonlinear_arith)
        requires
            bound == m * s,
    ;
    assert((s * s) * diff == s * s * left.bits - s * s * right.bits) by (nonlinear_arith)
        requires
            diff == left.bits - right.bits,
    ;
    assert(-(8 * m + 6) * (s * s) <= (s * s) * diff <= (8 * m + 6) * (s * s));
    assert(-(8 * m + 6) <= diff <= 8 * m + 6) by (nonlinear_arith)
        requires
            -(8 * m + 6) * (s * s) <= (s * s) * diff <= (8 * m + 6) * (s * s),
            s * s > 0,
    ;
}

/// Whether the magnitude of every cell of `a` is at most `m`.
pub open spec fn cells_within(a: Matrix, m: int) -> bool {
    &&& within(a.m00, m)
    &&& within(a.m01, m)
    &&& within(a.m10, m)
    &&& within(a.m11, m)
    &&& within(a.m20, m)
    &&& within(a.m21, m)
}

/// Whether `a` and `b` differ by at most `ulps` units of the last place.
pub open spec fn near(a: Fixed, b: Fixed, ulps: int) -> bool {
    -ulps <= a.bits - b.bits <= ulps
}

/// Whether each cell of `a` differs from the cell of `b` by at most `ulps` units of the
/// last place.
pub open spec fn cells_near(a: Matrix, b: Matrix, ulps: int) -> bool {
    &&& near(a.m00, b.m00, ulps)
    &&& near(a.m01, b.m01, ulps)
    &&& near(a.m10, b.m10, ulps)
    &&& near(a.m11, b.m11, ulps)
    &&& near(a.m20, b.m20, ulps)
    &&& near(a.m21, b.m21, ulps)
}

/// A cell of the linear part of the product of three matrices, computed in the two ways.
proof fn lemma_linear_cell_associative(
    a0: Fixed,
    a1: Fixed,
    b00: Fixed,
    b01: Fixed,
    b10: Fixed,
    b11: Fixed,
    c0: Fixed,
    c1: Fixed,
    m: int,
)
    requires
        1 <= m <= 256,
        within(a0, m),
        within(a1, m),
        within(b00, m),
        within(b01, m),
        within(b10, m),
        within(b11, m),
        within(c0, m),
        within(c1, m),
    ensures
        near(
            a0.times(b00).plus(a1.times(b01)).times(c0).plus(
                a0.times(b10).plus(a1.times(b11)).times(c1),
            ),
            a0.times(b00.times(c0).plus(b10.times(c1))).plus(
                a1.times(b01.times(c0).plus(b11.times(c1))),
            ),
            8 * m + 6,
        ),
{
    let zero = Fixed::zero();
    lemma_cell_associative(a0, a1, zero, b00, b01, b10, b11, zero, zero, c0, c1, m);
    lemma_times_zero(a0);
    lemma_times_zero(a1);
    lemma_plus_zero(zero);
    lemma_plus_zero(b00.times(c0).plus(b10.times(c1)));
    let ab0 = a0.times(b00).plus(a1.times(b01));
    let ab1 = a0.times(b10).plus(a1.times(b11));
    let bc0 = b00.times(c0).plus(b10.times(c1));
    let bc1 = b01.times(c0).plus(b11.times(c1));
    lemma_plus_zero(a0.times(bc0).plus(a1.times(bc1)));
    assert(dot(a0, b00, a1, b01, zero) == ab0);
    assert(dot(a0, b10, a1, b11, zero) == ab1);
    assert(dot(a0, zero, a1, zero, zero) == zero);
    assert(dot(b00, c0, b10, c1, zero) == bc0);
    assert(dot(b01, c0, b11, c1, zero) == bc1);
}

/// Composition is associative within rounding: the two ways of composing three matrices
/// give cells that differ by at most `8 * m + 6` units of the last place, where no cell
/// of the three matrices is more than `m` in magnitude, and `m` is at most 256.
pub proof fn lemma_compose_associative(a: Matrix, b: Matrix, c: Matrix, m: int)
    requires
        1 <= m <= 256,
        cells_within(a, m),
        cells_within(b, m),
        cells_within(c, m),
    ensures
        cells_near(a.compose(b).compose(c), a.compose(b.compose(c)), 8 * m + 6),
{
    let zero = Fixed::zero();
    lemma_linear_cell_associative(a.m00, a.m10, b.m00, b.m01, b.m10, b.m11, c.m00, c.m01, m);
    lemma_linear_cell_associative(a.m01, a.m11, b.m00, b.m01, b.m10, b.m11, c.m00, c.m01, m);
    lemma_linear_cell_associative(a.m00, a.m10, b.m00, b.m01, b.m10, b.m11, c.m10, c.m11, m);
    lemma_linear_cell_associative(a.m01, a.m11, b.m00, b.m01, b.m10, b.m11, c.m10, c.m11, m);
    lemma_cell_associative(
        a.m00,
        a.m10,
        a.m20,
        b.m00,
        b.m01,
        b.m10,
        b.m11,
        b.m20,
        b.m21,
        c.m20,
        c.m21,
        m,
    );
    lemma_cell_associative(
        a.m01,
        a.m11,
        a.m21,
        b.m00,
        b.m01,
        b.m10,
        b.m11,
        b.m20,
        b.m21,
        c.m20,
        c.m21,
        m,
    );
    lemma_plus_zero(a.m00.times(b.m10).plus(a.m10.times(b.m11)));
}

/// The product of two bounded numbers is bounded by the product of the bounds.
proof fn lemma_product_bound(x: int, y: int, p: int, q: int)
    by (nonlinear_arith)
    requires
        -p <= x <= p,
        -q <= y <= q,
    ensures
        -(p * q) <= x * y <= p * q,
{
}

/// Over the integers the two ways of computing a cell of the product of three matrices
/// differ by the rounding errors alone, each weighted by the cell that it was multiplied
/// with. `s` is the scale, and `e1` to `f3` are what rounding took at each step.
proof fn lemma_sums_associative(
    a0: int,
    a1: int,
    a2: int,
    b00: int,
    b01: int,
    b10: int,
    b11: int,
    b20: int,
    b21: int,
    c0: int,
    c1: int,
    ab0: int,
    ab1: int,
    ab2: int,
    bc0: int,
    bc1: int,
    left: int,
    right: int,
    s: int,
    e1: int,
    e2: int,
    e3: int,
    e4: int,
    f1: int,
    f2: int,
    f3: int,
)
    requires
        s * ab0 == a0 * b00 + a1 * b01 - e1,
        s * ab1 == a0 * b10 + a1 * b11 - e2,
        s * ab2 == a0 * b20 + a1 * b21 + s * a2 - e4,
        s * left == ab0 * c0 + ab1 * c1 + s * ab2 - e3,
        s * bc0 == b00 * c0 + b10 * c1 + s * b20 - f1,
        s * bc1 == b01 * c0 + b11 * c1 + s * b21 - f2,
        s * right == a0 * bc0 + a1 * bc1 + s * a2 - f3,
    ensures
        s * s * left - s * s * right == a0 * f1 + a1 * f2 + s * f3 - e1 * c0 - e2 * c1 - s * e4 - s
            * e3,
{
    let x000 = a0 * (b00 * c0);
    let x101 = a1 * (b01 * c0);
    let x010 = a0 * (b10 * c1);
    let x111 = a1 * (b11 * c1);
    let y0 = s * (a0 * b20);
    let y1 = s * (a1 * b21);
    let z = s * (s * a2);
    // The left side, from the inside out.
    lemma_scaled_sum(s * ab0, a0 * b00, a1 * b01, 0, e1, c0);
    lemma_products_regroup(s, ab0, c0);
    lemma_products_regroup(a0, b00, c0);
    lemma_products_regroup(a1, b01, c0);
    lemma_scaled_sum(s * ab1, a0 * b10, a1 * b11, 0, e2, c1);
    lemma_products_regroup(s, ab1, c1);
    lemma_products_regroup(a0, b10, c1);
    lemma_products_regroup(a1, b11, c1);
    lemma_scaled_sum(s * ab2, a0 * b20, a1 * b21, s * a2, e4, s);
    lemma_scaled_sum(s * left, ab0 * c0, ab1 * c1, s * ab2, e3, s);
    lemma_products_regroup(s, s, left);
    assert(s * s * left == x000 + x101 - e1 * c0 + x010 + x111 - e2 * c1 + y0 + y1 + z - s * e4 - s
        * e3);
    // The right side.
    lemma_scaled_sum(s * bc0, b00 * c0, b10 * c1, s * b20, f1, a0);
    lemma_products_regroup(a0, s, bc0);
    lemma_scaled_sum(s * bc1, b01 * c0, b11 * c1, s * b21, f2, a1);
    lemma_products_regroup(a1, s, bc1);
    lemma_scaled_sum(s * right, a0 * bc0, a1 * bc1, s * a2, f3, s);
    lemma_products_regroup(s, s, right);
    assert(s * s * right == x000 + x010 + y0 - a0 * f1 + x101 + x111 + y1 - a1 * f2 + z - s * f3);
}

/// A sum multiplied by `c` is the sum of the products, on either side.
proof fn lemma_scaled_sum(k: int, u: int, v: int, w: int, e: int, c: int)
    by (nonlinear_arith)
    requires
        k == u + v + w - e,
    ensures
        k * c == u * c + v * c + w * c - e * c,
        c * k == c * u + c * v + c * w - c * e,
        c * k == k * c,
        c * u == u * c,
        c * v == v * c,
        c * w == w * c,
        c * e == e * c,
{
}

/// The product of three numbers does not depend on how they are grouped.
proof fn lemma_products_regroup(a: int, b: int, c: int)
    by (nonlinear_arith)
    ensures
        (a * b) * c == a * (b * c),
        a * (b * c) == b * (a * c),
        a * b * c == a * (b * c),
        (a * b) * c == (a * c) * b,
{
}

/// The product with a negated factor is the product, negated.
proof fn lemma_negated_factor(x: int, y: int, minus_y: int)
    by (nonlinear_arith)
    requires
        minus_y == -y,
    ensures
        x * minus_y == -(x * y),
{
}

/// A number whose product with a number that is not zero is bounded by `b` times the
/// magnitude of that number is itself bounded by `b`.
proof fn lemma_bounded_factor(x: int, y: int, b: int)
    by (nonlinear_arith)
    requires
        y != 0,
        -(b * y) <= y * x <= b * y || -(b * (-y)) <= y * x <= b * (-y),
        b >= 0,
    ensures
        -b <= x <= b,
{
}

/// Over the integers, a cell of the linear part of a matrix composed with its inverse
/// differs from the cell of the identity, `t`, by the rounding errors alone.
///
/// The cell is `p * i0 + q * i1`, where `i0` and `i1` are the quotients of `n0` and `n1`
/// by the determinant `d`, and `p * n0 + q * n1` is `t` times the exact determinant. `s`
/// is the scale; `r0`, `r1`, `eta` and `eps` are what rounding took.
proof fn lemma_inverse_cell(
    p: int,
    q: int,
    n0: int,
    n1: int,
    i0: int,
    i1: int,
    cell: int,
    d: int,
    s: int,
    r0: int,
    r1: int,
    eta: int,
    eps: int,
    t: int,
)
    requires
        n0 * s - i0 * d == r0,
        n1 * s - i1 * d == r1,
        p * i0 + q * i1 - s * cell == eta,
        p * n0 + q * n1 == t * (s * d + eps),
    ensures
        d * (s * (cell - t * s)) == s * (t * eps) - p * r0 - q * r1 - d * eta,
{
    // d * s * cell is d * (p * i0 + q * i1 - eta).
    lemma_scaled_sum(s * cell, p * i0, q * i1, 0, eta, d);
    // p * (i0 * d) is p * (n0 * s - r0), and the same for q.
    lemma_scaled_sum(i0 * d, n0 * s, 0, 0, r0, p);
    lemma_scaled_sum(i1 * d, n1 * s, 0, 0, r1, q);
    lemma_products_regroup(p, i0, d);
    lemma_products_regroup(q, i1, d);
    assert(d * (s * cell) == (p * n0) * s + (q * n1) * s - p * r0 - q * r1 - d * eta);
    // s * (p * n0 + q * n1) is s * t * (s * d + eps).
    lemma_scaled_sum(p * n0 + q * n1, p * n0, q * n1, 0, 0, s);
    lemma_scaled_sum(s * d + eps, s * d, eps, 0, 0, t);
    lemma_scaled_sum(t * (s * d + eps), t * (s * d), t * eps, 0, 0, s);
    lemma_scaled_sum(cell - t * s, cell, 0, 0, t * s, s);
    lemma_scaled_sum(s * (cell - t * s), s * cell, 0, 0, s * (t * s), d);
    assert(s * (t * (s * d)) == d * (s * (t * s))) by (nonlinear_arith);
}

/// What rounding takes from a determinant is less than two units of the last place.
///
/// This holds of a matrix with no cell of more than `m` in magnitude, where `m` is at most
/// 64.
pub proof fn lemma_determinant_residue(a: Matrix, m: int)
    requires
        1 <= m <= 64,
        cells_within(a, m),
    ensures
        ({
            let exact = a.m00.bits * a.m11.bits - a.m10.bits * a.m01.bits;
            -2 * ONE_BITS < exact - ONE_BITS * a.determinant().bits < 2 * ONE_BITS
        }),
{
    assert(m * m <= 4096) by (nonlinear_arith)
        requires
            1 <= m <= 64,
    ;
    lemma_times_residue(a.m00, a.m11, m, m);
    lemma_times_residue(a.m10, a.m01, m, m);
}

/// A cell of the linear part of a matrix composed with its inverse is the cell of the
/// identity within rounding: it differs from `t` by at most `2 * t * k + 2 * m + 2` units
/// of the last place.
///
/// The cell is `p * (n0 / det) + q * (n1 / det)`, where `p * n0 + q * n1` is `t` times the
/// exact determinant, `t` is zero or one, no operand is more than `m` in magnitude, and
/// the determinant is at least `1 / k`.
proof fn lemma_inverse_linear_cell(
    p: Fixed,
    q: Fixed,
    n0: Fixed,
    n1: Fixed,
    det: Fixed,
    exact: int,
    t: int,
    m: int,
    k: int,
)
    requires
        1 <= m <= 64,
        1 <= k <= 64,
        0 <= t <= 1,
        within(p, m),
        within(q, m),
        within(n0, m),
        within(n1, m),
        k * magnitude(det.bits as int) >= ONE_BITS,
        -2 * ONE_BITS < exact - ONE_BITS * det.bits < 2 * ONE_BITS,
        p.bits * n0.bits + q.bits * n1.bits == t * exact,
    ensures
        ({
            let cell = p.times(n0.over(det)).plus(q.times(n1.over(det)));
            let eta = p.bits * n0.over(det).bits + q.bits * n1.over(det).bits - ONE_BITS
                * cell.bits;
            &&& -(2 * t * k + 2 * m + 2) <= cell.bits - t * ONE_BITS <= 2 * t * k + 2 * m + 2
            &&& -2 * ONE_BITS < eta < 2 * ONE_BITS
            &&& within(n0.over(det), m * k)
            &&& within(n1.over(det), m * k)
        }),
{
    let s: int = 0x1_0000_0000;
    let d = det.bits as int;
    let y = magnitude(d);
    let i0 = n0.over(det);
    let i1 = n1.over(det);
    let mk = m * k;
    assert(0 <= mk <= 4096 && 2 * m * mk <= 0x4000_0000) by (nonlinear_arith)
        requires
            1 <= m <= 64,
            1 <= k <= 64,
            mk == m * k,
    ;
    lemma_over_residue(n0, det, m, k);
    lemma_over_residue(n1, det, m, k);
    lemma_dot_residue(p, i0, q, i1, Fixed::zero(), m, mk, 0);
    let cell = p.times(i0).plus(q.times(i1));
    let r0 = n0.bits * s - i0.bits * d;
    let r1 = n1.bits * s - i1.bits * d;
    let eta = p.bits * i0.bits + q.bits * i1.bits - s * cell.bits;
    let eps = exact - s * d;
    lemma_inverse_cell(
        p.bits as int,
        q.bits as int,
        n0.bits as int,
        n1.bits as int,
        i0.bits as int,
        i1.bits as int,
        cell.bits as int,
        d,
        s,
        r0,
        r1,
        eta,
        eps,
        t,
    );
    let diff = cell.bits - t * s;
    let bound = 2 * t * k + 2 * m + 2;
    lemma_product_bound(p.bits as int, r0, m * s, y);
    lemma_product_bound(q.bits as int, r1, m * s, y);
    lemma_product_bound(d, eta, y, 2 * s);
    lemma_product_bound(t, eps, t, 2 * s);
    assert((m * s) * y == s * (m * y) && y * (2 * s) == s * (2 * y) && t * (2 * s) == s * (2 * t))
        by (nonlinear_arith);
    assert(s * (2 * t) <= (2 * t * k) * y) by (nonlinear_arith)
        requires
            k * y >= s,
            0 <= t,
            s > 0,
    ;
    let total = d * (s * diff);
    assert(-(s * (bound * y)) <= total <= s * (bound * y)) by {
        assert(s * (t * eps) <= s * (s * (2 * t))) by (nonlinear_arith)
            requires
                t * eps <= s * (2 * t),
                s > 0,
        ;
        assert(s * (t * eps) >= -(s * (s * (2 * t)))) by (nonlinear_arith)
            requires
                t * eps >= -(s * (2 * t)),
                s > 0,
        ;
        assert(s * (s * (2 * t)) <= s * ((2 * t * k) * y)) by (nonlinear_arith)
            requires
                s * (2 * t) <= (2 * t * k) * y,
                s > 0,
        ;
        assert(s * (bound * y) == s * ((2 * t * k) * y) + s * (m * y) + s * (m * y) + s * (2 * y))
            by (nonlinear_arith)
            requires
                bound == 2 * t * k + 2 * m + 2,
        ;
    }
    assert(total == (s * d) * diff && s * (bound * y) == bound * (s * y)) by (nonlinear_arith)
        requires
            total == d * (s * diff),
    ;
    assert(s * y == s * d || s * y == -(s * d)) by (nonlinear_arith)
        requires
            y == d || y == -d,
    ;
    lemma_bounded_factor(diff, s * d, bound);
}

/// Over the integers, a cell of the translation of a matrix composed with its inverse,
/// spelled out.
///
/// The cell is `shift - p * g0 - q * g1`, where `g0` and `g1` are the images of the
/// translation `(tx, ty)` under the linear part of the inverse, and `shift` is the cell of
/// the translation that belongs to the row `(p, q)`. `s` is the scale; `theta0`, `theta1`
/// and `eta` are what rounding took.
proof fn lemma_inverse_shift(
    p: int,
    q: int,
    tx: int,
    ty: int,
    i00: int,
    i01: int,
    i10: int,
    i11: int,
    g0: int,
    g1: int,
    cell: int,
    shift: int,
    s: int,
    theta0: int,
    theta1: int,
    eta: int,
)
    requires
        s * g0 == i00 * tx + i10 * ty - theta0,
        s * g1 == i01 * tx + i11 * ty - theta1,
        s * cell == s * shift - p * g0 - q * g1 - eta,
    ensures
        s * (s * cell) == s * (s * shift) - tx * (p * i00 + q * i01) - ty * (p * i10 + q * i11) + p
            * theta0 + q * theta1 - s * eta,
{
    lemma_scaled_sum(s * cell, s * shift, -(p * g0), -(q * g1), eta, s);
    lemma_scaled_sum(s * g0, i00 * tx, i10 * ty, 0, theta0, p);
    lemma_scaled_sum(s * g1, i01 * tx, i11 * ty, 0, theta1, q);
    lemma_products_regroup(p, s, g0);
    lemma_products_regroup(q, s, g1);
    lemma_products_regroup(p, i00, tx);
    lemma_products_regroup(p, i10, ty);
    lemma_products_regroup(q, i01, tx);
    lemma_products_regroup(q, i11, ty);
    lemma_scaled_sum(p * i00 + q * i01, p * i00, q * i01, 0, 0, tx);
    lemma_scaled_sum(p * i10 + q * i11, p * i10, q * i11, 0, 0, ty);
    assert(s * -(p * g0) == -(s * (p * g0)) && s * -(q * g1) == -(s * (q * g1)))
        by (nonlinear_arith);
}

/// A matrix composed with its inverse is the identity within rounding: each cell differs
/// from the cell of the identity by at most `2 * m * k + 4 * m * m + 12 * m + 2` units of
/// the last place.
///
/// This holds of a matrix with no cell of more than `m` in magnitude and a determinant of
/// at least `1 / k` in magnitude, where `m` and `k` are at most 64.
pub proof fn lemma_compose_inverse(a: Matrix, m: int, k: int)
    requires
        1 <= m <= 64,
        1 <= k <= 64,
        cells_within(a, m),
        k * magnitude(a.determinant().bits as int) >= ONE_BITS,
    ensures
        cells_near(
            a.compose(a.inverse()),
            Matrix::identity(),
            2 * m * k + 4 * m * m + 12 * m + 2,
        ),
{
    let s: int = 0x1_0000_0000;
    let det = a.determinant();
    let inv = a.inverse();
    let product = a.compose(inv);
    let exact = a.m00.bits * a.m11.bits - a.m10.bits * a.m01.bits;
    let mk = m * k;
    let mm = m * m;
    let wide = 2 * (mk * m);
    assert(1 <= mk <= 4096 && 1 <= mm <= 4096 && wide <= 524288 && 2 * mk * m == wide && 2 * m
        * wide + m <= 0x4000_0000 && 2 * m * k == 2 * mk && 4 * m * m == 4 * mm)
        by (nonlinear_arith)
        requires
            1 <= m <= 64,
            1 <= k <= 64,
            mk == m * k,
            mm == m * m,
            wide == 2 * (mk * m),
    ;
    lemma_determinant_residue(a, m);
    let minus_c = a.m01.negated();
    let minus_b = a.m10.negated();
    assert(minus_c.bits == -a.m01.bits && minus_b.bits == -a.m10.bits);
    assert(a.m00.bits * a.m11.bits + a.m10.bits * minus_c.bits == 1 * exact && a.m01.bits
        * a.m11.bits + a.m11.bits * minus_c.bits == 0 * exact && a.m00.bits * minus_b.bits
        + a.m10.bits * a.m00.bits == 0 * exact && a.m01.bits * minus_b.bits + a.m11.bits
        * a.m00.bits == 1 * exact) by (nonlinear_arith)
        requires
            exact == a.m00.bits * a.m11.bits - a.m10.bits * a.m01.bits,
            minus_c.bits == -a.m01.bits,
            minus_b.bits == -a.m10.bits,
    ;
    lemma_inverse_linear_cell(a.m00, a.m10, a.m11, minus_c, det, exact, 1, m, k);
    lemma_inverse_linear_cell(a.m01, a.m11, a.m11, minus_c, det, exact, 0, m, k);
    lemma_inverse_linear_cell(a.m00, a.m10, minus_b, a.m00, det, exact, 0, m, k);
    lemma_inverse_linear_cell(a.m01, a.m11, minus_b, a.m00, det, exact, 1, m, k);
    let zero = Fixed::zero();
    let g0 = inv.m00.times(a.m20).plus(inv.m10.times(a.m21));
    let g1 = inv.m01.times(a.m20).plus(inv.m11.times(a.m21));
    lemma_dot_residue(inv.m00, a.m20, inv.m10, a.m21, zero, mk, m, 0);
    lemma_dot_residue(inv.m01, a.m20, inv.m11, a.m21, zero, mk, m, 0);
    assert(inv.m20.bits == -g0.bits && inv.m21.bits == -g1.bits);
    lemma_dot_residue(a.m00, inv.m20, a.m10, inv.m21, a.m20, m, wide, m);
    lemma_dot_residue(a.m01, inv.m20, a.m11, inv.m21, a.m21, m, wide, m);
    let theta0 = inv.m00.bits * a.m20.bits + inv.m10.bits * a.m21.bits - s * g0.bits;
    let theta1 = inv.m01.bits * a.m20.bits + inv.m11.bits * a.m21.bits - s * g1.bits;
    let bound = 2 * mk + 4 * mm + 12 * m + 2;
    let tx = a.m20.bits as int;
    let ty = a.m21.bits as int;
    let limit = m * s;
    // The first cell of the translation.
    let da = product.m00.bits - s;
    let db = product.m10.bits as int;
    let eta_a = a.m00.bits * inv.m00.bits + a.m10.bits * inv.m01.bits - s * product.m00.bits;
    let eta_b = a.m00.bits * inv.m10.bits + a.m10.bits * inv.m11.bits - s * product.m10.bits;
    let eta = a.m00.bits * inv.m20.bits + a.m10.bits * inv.m21.bits + s * a.m20.bits - s
        * product.m20.bits;
    lemma_negated_factor(a.m00.bits as int, g0.bits as int, inv.m20.bits as int);
    lemma_negated_factor(a.m10.bits as int, g1.bits as int, inv.m21.bits as int);
    lemma_negated_factor(a.m01.bits as int, g0.bits as int, inv.m20.bits as int);
    lemma_negated_factor(a.m11.bits as int, g1.bits as int, inv.m21.bits as int);
    assert(k <= mk && m <= mm) by (nonlinear_arith)
        requires
            1 <= m,
            1 <= k,
            mk == m * k,
            mm == m * m,
    ;
    lemma_shift_bound(
        a.m00.bits as int,
        a.m10.bits as int,
        tx,
        ty,
        inv.m00.bits as int,
        inv.m01.bits as int,
        inv.m10.bits as int,
        inv.m11.bits as int,
        g0.bits as int,
        g1.bits as int,
        product.m20.bits as int,
        tx,
        da,
        db,
        s,
        theta0,
        theta1,
        eta,
        eta_a,
        eta_b,
        1,
        0,
        m,
        k,
    );
    // The second cell of the translation.
    let dc = product.m01.bits as int;
    let dd = product.m11.bits - s;
    let eta_c = a.m01.bits * inv.m00.bits + a.m11.bits * inv.m01.bits - s * product.m01.bits;
    let eta_d = a.m01.bits * inv.m10.bits + a.m11.bits * inv.m11.bits - s * product.m11.bits;
    let eta_y = a.m01.bits * inv.m20.bits + a.m11.bits * inv.m21.bits + s * a.m21.bits - s
        * product.m21.bits;
    lemma_shift_bound(
        a.m01.bits as int,
        a.m11.bits as int,
        tx,
        ty,
        inv.m00.bits as int,
        inv.m01.bits as int,
        inv.m10.bits as int,
        inv.m11.bits as int,
        g0.bits as int,
        g1.bits as int,
        product.m21.bits as int,
        ty,
        dc,
        dd,
        s,
        theta0,
        theta1,
        eta_y,
        eta_c,
        eta_d,
        0,
        1,
        m,
        k,
    );
    assert(2 * 1 * k + 2 * m + 2 <= bound && 2 * 0 * k + 2 * m + 2 <= bound);
}

/// A cell of the translation of a matrix composed with its inverse is at most
/// `m * (2 * k + 4 * m + 4) + 8 * m + 2` units of the last place: see
/// `lemma_inverse_shift` for the numbers. `t0` and `t1` tell which of `tx` and `ty` the
/// cell `shift` is, and bound `da` and `db`.
proof fn lemma_shift_bound(
    p: int,
    q: int,
    tx: int,
    ty: int,
    i00: int,
    i01: int,
    i10: int,
    i11: int,
    g0: int,
    g1: int,
    cell: int,
    shift: int,
    da: int,
    db: int,
    s: int,
    theta0: int,
    theta1: int,
    eta: int,
    eta_a: int,
    eta_b: int,
    t0: int,
    t1: int,
    m: int,
    k: int,
)
    requires
        s == 0x1_0000_0000,
        1 <= m <= 64,
        1 <= k <= 64,
        (t0 == 1 && t1 == 0 && shift == tx) || (t0 == 0 && t1 == 1 && shift == ty),
        -(m * s) <= p <= m * s,
        -(m * s) <= q <= m * s,
        -(m * s) <= tx <= m * s,
        -(m * s) <= ty <= m * s,
        -2 * s < theta0 < 2 * s,
        -2 * s < theta1 < 2 * s,
        -2 * s < eta < 2 * s,
        -2 * s < eta_a < 2 * s,
        -2 * s < eta_b < 2 * s,
        -(2 * t0 * k + 2 * m + 2) <= da <= 2 * t0 * k + 2 * m + 2,
        -(2 * t1 * k + 2 * m + 2) <= db <= 2 * t1 * k + 2 * m + 2,
        s * g0 == i00 * tx + i10 * ty - theta0,
        s * g1 == i01 * tx + i11 * ty - theta1,
        s * cell == s * shift - p * g0 - q * g1 - eta,
        p * i00 + q * i01 == s * (da + t0 * s) + eta_a,
        p * i10 + q * i11 == s * (db + t1 * s) + eta_b,
    ensures
        -(2 * (m * k) + 4 * (m * m) + 12 * m + 2) <= cell <= 2 * (m * k) + 4 * (m * m) + 12 * m + 2,
{
    let row_a = p * i00 + q * i01;
    let row_b = p * i10 + q * i11;
    lemma_inverse_shift(
        p,
        q,
        tx,
        ty,
        i00,
        i01,
        i10,
        i11,
        g0,
        g1,
        cell,
        shift,
        s,
        theta0,
        theta1,
        eta,
    );
    // tx * row_a + ty * row_b is s * s * shift and rounding errors.
    lemma_scaled_sum(row_a, s * da, s * (t0 * s), eta_a, 0, tx);
    lemma_scaled_sum(row_b, s * db, s * (t1 * s), eta_b, 0, ty);
    assert(tx * (s * (t0 * s)) + ty * (s * (t1 * s)) == s * (s * shift)) by (nonlinear_arith)
        requires
            (t0 == 1 && t1 == 0 && shift == tx) || (t0 == 0 && t1 == 1 && shift == ty),
    ;
    let ea = 2 * t0 * k + 2 * m + 2;
    let eb = 2 * t1 * k + 2 * m + 2;
    let limit = m * s;
    lemma_product_bound(tx, da, limit, ea);
    lemma_product_bound(ty, db, limit, eb);
    lemma_product_bound(tx, eta_a, limit, 2 * s);
    lemma_product_bound(ty, eta_b, limit, 2 * s);
    lemma_product_bound(p, theta0, limit, 2 * s);
    lemma_product_bound(q, theta1, limit, 2 * s);
    let xa = tx * da;
    let xb = ty * db;
    assert(tx * (s * da) == s * xa && ty * (s * db) == s * xb) by (nonlinear_arith)
        requires
            xa == tx * da,
            xb == ty * db,
    ;
    let total = s * (s * cell);
    assert(total == -(s * xa) - tx * eta_a - s * xb - ty * eta_b + p * theta0 + q * theta1 - s
        * eta);
    let unit = s * s;
    assert(limit * ea == s * (m * ea) && limit * eb == s * (m * eb) && limit * (2 * s) == (2 * m)
        * unit && s * (s * (m * ea)) == (m * ea) * unit && s * (s * (m * eb)) == (m * eb) * unit
        && s * (2 * s) == 2 * unit && total == unit * cell) by (nonlinear_arith)
        requires
            limit == m * s,
            unit == s * s,
            total == s * (s * cell),
    ;
    assert(-(s * (s * (m * ea))) <= s * xa <= s * (s * (m * ea))) by (nonlinear_arith)
        requires
            -(limit * ea) <= xa <= limit * ea,
            limit * ea == s * (m * ea),
            s > 0,
    ;
    assert(-(s * (s * (m * eb))) <= s * xb <= s * (s * (m * eb))) by (nonlinear_arith)
        requires
            -(limit * eb) <= xb <= limit * eb,
            limit * eb == s * (m * eb),
            s > 0,
    ;
    assert(-(s * (2 * s)) <= s * eta <= s * (2 * s)) by (nonlinear_arith)
        requires
            -2 * s < eta < 2 * s,
            s > 0,
    ;
    let bound = 2 * (m * k) + 4 * (m * m) + 12 * m + 2;
    assert(m * ea + m * eb + 8 * m + 2 == bound) by (nonlinear_arith)
        requires
            ea == 2 * t0 * k + 2 * m + 2,
            eb == 2 * t1 * k + 2 * m + 2,
            (t0 == 1 && t1 == 0) || (t0 == 0 && t1 == 1),
            bound == 2 * (m * k) + 4 * (m * m) + 12 * m + 2,
    ;
    assert(-(bound * unit) <= unit * cell <= bound * unit) by (nonlinear_arith)
        requires
            -((m * ea) * unit + (2 * m) * unit + (m * eb) * unit + (2 * m) * unit + (2 * m) * unit
                + (2 * m) * unit + 2 * unit) <= unit * cell <= (m * ea) * unit + (2 * m) * unit
                + (m * eb) * unit + (2 * m) * unit + (2 * m) * unit + (2 * m) * unit + 2 * unit,
            m * ea + m * eb + 8 * m + 2 == bound,
    ;
}

} // verus!
