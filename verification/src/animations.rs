//! Contains everything related to the animations that are supported by this library.
//!
//! An interpolation maps the number of animation cycles that have elapsed to the progress
//! of the animation. Both are [`Wide`] values. Time points and durations are counts of one
//! unit of the host's choice (nanoseconds, say), time points from one origin.
use crate::fixed::lemma_quotient_exact;
use crate::fixed::lemma_quotient_monotone;
use crate::fixed::lemma_times_monotone;
use crate::fixed::lemma_times_one;
use crate::fixed::magnitude;
use crate::fixed::quotient;
use crate::fixed::Fixed;
use crate::fixed::ONE_BITS;
use crate::fixed::Wide;
use vstd::prelude::*;

verus! {

pub open spec fn spec_cycles_elapsed(now: u64, start: u64, duration: u64) -> Wide {
    let elapsed = now - start;
    if duration == 0 {
        if elapsed > 0 {
            Wide { bits: i128::MAX }
        } else if elapsed < 0 {
            Wide { bits: i128::MIN }
        } else {
            Wide { bits: 0 }
        }
    } else {
        Wide { bits: quotient(elapsed * ONE_BITS, duration as int) as i128 }
    }
}

/// The number of cycles of length `duration` between `start` and `now`:
/// `(now - start) / duration`, rounded towards zero, negative when `now` comes before
/// `start`.
///
/// The difference is taken exactly, whatever the distance of the two time points from
/// their origin. With a zero duration the result is the largest value after `start`, the
/// smallest before it, and zero at `start`.
#[verifier::when_used_as_spec(spec_cycles_elapsed)]
pub fn cycles_elapsed(now: u64, start: u64, duration: u64) -> (r: Wide)
    ensures
        r == spec_cycles_elapsed(now, start, duration),
{
    if duration == 0 {
        if now > start {
            Wide { bits: i128::MAX }
        } else if now < start {
            Wide { bits: i128::MIN }
        } else {
            Wide { bits: 0 }
        }
    } else if now >= start {
        let n: u128 = ((now - start) as u128) * 0x1_0000_0000u128;
        let q: u128 = n / (duration as u128);
        assert(q <= n) by (nonlinear_arith)
            requires
                duration >= 1,
                q == (n as int) / (duration as int),
                n >= 0,
        ;
        assert(magnitude((now - start) * ONE_BITS) == n);
        Wide { bits: q as i128 }
    } else {
        let n: u128 = ((start - now) as u128) * 0x1_0000_0000u128;
        let q: u128 = n / (duration as u128);
        assert(q <= n) by (nonlinear_arith)
            requires
                duration >= 1,
                q == (n as int) / (duration as int),
                n >= 0,
        ;
        assert(magnitude((now - start) * ONE_BITS) == n);
        Wide { bits: -(q as i128) }
    }
}

/// Describes how an animation should be interpolated.
pub trait Interpolation {
    /// The progress of the interpolation after `anim_progress` cycles. Where an
    /// interpolation does not say otherwise, this is the number of cycles itself.
    open spec fn progress(&self, anim_progress: Wide) -> Wide {
        anim_progress
    }

    /// Takes a number representing the number of animation cycles that have elapsed, and
    /// returns the progress of the interpolation.
    fn from_progress(&self, anim_progress: Wide) -> (r: Wide)
        ensures
            r == self.progress(anim_progress),
    ;

    /// Takes the current point in time, the point in time when the animation has started
    /// or will start, and the duration, and returns the progress of the animation.
    ///
    /// Implementations typically return zero when `now < start` and one when
    /// `now > start + duration`.
    fn calculate(&self, now: u64, start: u64, duration: u64) -> (r: Wide)
        ensures
            r == self.progress(cycles_elapsed(now, start, duration)),
    {
        self.from_progress(cycles_elapsed(now, start, duration))
    }

    /// Reverses an interpolation. The element will start at its final position and go
    /// towards the start.
    fn reverse(self) -> (r: Reversed<Self>) where Self: Sized
        ensures
            r.inner == self,
    {
        Reversed { inner: self }
    }

    /// Repeats an interpolation forever.
    fn repeat(self) -> (r: Repeated<Self>) where Self: Sized
        ensures
            r.inner == self,
    {
        Repeated { inner: self }
    }

    /// Repeats an interpolation forever. Every other cycle is reversed.
    fn alternate_repeat(self) -> (r: AlternateRepeated<Self>) where Self: Sized
        ensures
            r.inner == self,
    {
        AlternateRepeated { inner: self }
    }
}

/// A linear animation. The animation progresses at a constant rate.
#[derive(Copy, Clone, Default, Debug)]
pub struct Linear;

/// `r` held between zero and one.
pub open spec fn clamp_unit(r: Wide) -> Wide {
    if r.bits >= ONE_BITS {
        Wide::one()
    } else if r.bits <= 0 {
        Wide::zero()
    } else {
        r
    }
}

impl Interpolation for Linear {
    open spec fn progress(&self, anim_progress: Wide) -> Wide {
        clamp_unit(anim_progress)
    }

    fn from_progress(&self, anim_progress: Wide) -> (r: Wide) {
        if anim_progress.bits >= ONE_BITS as i128 {
            Wide::one()
        } else if anim_progress.bits <= 0 {
            Wide::zero()
        } else {
            anim_progress
        }
    }
}

/// An ease-out animation. The animation progresses quickly and then slows down before
/// reaching its final position.
#[derive(Copy, Clone, Debug)]
pub struct EaseOut {
    /// The progress is one minus the decay of `linear_progress * factor`.
    ///
    /// The higher the factor, the quicker the element will reach its destination.
    pub factor: Fixed,
}

impl EaseOut {
    /// Builds a `EaseOut` object.
    pub fn new(factor: Fixed) -> (r: EaseOut)
        ensures
            r.factor == factor,
    {
        EaseOut { factor }
    }
}

impl Default for EaseOut {
    /// The factor is 10.
    fn default() -> (r: EaseOut)
        ensures
            r.factor == Fixed::from_int(10),
    {
        EaseOut { factor: Fixed::from_int(10) }
    }
}

/// `y` squared `steps` times over: `y` to the power of two to the power of `steps`, each
/// product rounded towards zero.
pub open spec fn squared(y: Fixed, steps: nat) -> Fixed
    decreases steps,
{
    if steps == 0 {
        y
    } else {
        let root = squared(y, (steps - 1) as nat);
        root.times(root)
    }
}

/// The exponent from which on the decay is zero: two to the power of 16.
pub const DECAY_END: i64 = 0x1_0000_0000_0000;

pub open spec fn spec_decay(x: Fixed) -> Fixed {
    if x.bits >= DECAY_END {
        Fixed::zero()
    } else {
        squared(Fixed::one().minus(Fixed { bits: (x.bits / 0x1_0000) as i64 }), 16)
    }
}

/// The exponential decay of `x`, which must not be negative: the power
/// `(1 - x / n) ^ n` with `n` two to the power of 16, by which the exponential function of
/// `-x` is approached, and zero from `x = n` on.
///
/// The result is one at zero, never grows with `x`, and is at most `1 / (1 + x)`.
#[verifier::when_used_as_spec(spec_decay)]
pub fn decay(x: Fixed) -> (r: Fixed)
    requires
        0 <= x.bits,
    ensures
        r == spec_decay(x),
{
    if x.bits >= DECAY_END {
        return Fixed::zero();
    }
    let mut y = Fixed::one().minus(Fixed { bits: x.bits / 0x1_0000 });
    let ghost first = y;
    let mut steps: u32 = 0;
    while steps < 16
        invariant
            steps <= 16,
            y == squared(first, steps as nat),
        decreases 16 - steps,
    {
        y = y.times(y);
        steps += 1;
    }
    y
}

impl Interpolation for EaseOut {
    /// No progress up to the start and with a factor that is not positive; from there on
    /// one minus the decay of `anim_progress * factor`, with `anim_progress` held to the
    /// range of [`Fixed`].
    open spec fn progress(&self, anim_progress: Wide) -> Wide {
        if anim_progress.bits <= 0 || self.factor.bits <= 0 {
            Wide::zero()
        } else {
            Wide::from_fixed(
                Fixed::one().minus(spec_decay(anim_progress.to_fixed().times(self.factor))),
            )
        }
    }

    fn from_progress(&self, anim_progress: Wide) -> (r: Wide) {
        if anim_progress.bits <= 0 || self.factor.bits <= 0 {
            return Wide::zero();
        }
        let cycles = anim_progress.to_fixed();
        proof {
            lemma_times_monotone(Fixed::zero(), cycles, Fixed::zero(), self.factor);
        }
        Wide::from_fixed(Fixed::one().minus(decay(cycles.times(self.factor))))
    }
}

/// Wraps around an interpolation and reverses it. The element will start at its final
/// position and go towards the start.
#[derive(Copy, Clone, Debug)]
pub struct Reversed<I> {
    pub inner: I,
}

impl<I> Reversed<I> where I: Interpolation {
    /// Builds a `Reversed` object.
    pub fn new(inner: I) -> (r: Reversed<I>)
        ensures
            r.inner == inner,
    {
        Reversed { inner }
    }
}

impl<I> Interpolation for Reversed<I> where I: Interpolation {
    open spec fn progress(&self, anim_progress: Wide) -> Wide {
        self.inner.progress(Wide::one().minus(anim_progress))
    }

    fn from_progress(&self, anim_progress: Wide) -> (r: Wide) {
        self.inner.from_progress(Wide::one().minus(anim_progress))
    }
}

/// Wraps around an interpolation and repeats the interpolation multiple times.
#[derive(Copy, Clone, Debug)]
pub struct Repeated<I> {
    pub inner: I,
}

impl<I> Repeated<I> where I: Interpolation {
    /// Builds a `Repeated` object.
    pub fn new(inner: I) -> (r: Repeated<I>)
        ensures
            r.inner == inner,
    {
        Repeated { inner }
    }
}

/// The place of `r` within its cycle: the fractional part of a non-negative `r`, and one
/// plus the (negative or zero) fractional part of a negative `r`.
pub open spec fn wrap_unit(r: Wide) -> Wide {
    if r.bits < 0 {
        Wide::one().plus(r.rem(Wide::one()))
    } else {
        r.rem(Wide::one())
    }
}

impl<I> Interpolation for Repeated<I> where I: Interpolation {
    open spec fn progress(&self, anim_progress: Wide) -> Wide {
        self.inner.progress(wrap_unit(anim_progress))
    }

    fn from_progress(&self, anim_progress: Wide) -> (r: Wide) {
        let progress = if anim_progress.bits < 0 {
            Wide::one().plus(anim_progress.rem(Wide::one()))
        } else {
            anim_progress.rem(Wide::one())
        };
        self.inner.from_progress(progress)
    }
}

/// Wraps around an interpolation and repeats the interpolation multiple times. Each uneven
/// cycle the animation is reversed.
#[derive(Copy, Clone, Debug)]
pub struct AlternateRepeated<I> {
    pub inner: I,
}

impl<I> AlternateRepeated<I> where I: Interpolation {
    /// Builds a `AlternateRepeated` object.
    pub fn new(inner: I) -> (r: AlternateRepeated<I>)
        ensures
            r.inner == inner,
    {
        AlternateRepeated { inner }
    }
}

/// The triangle wave of period two that is zero at zero and one at one:
/// `1 - | (|r| mod 2) - 1 |`.
pub open spec fn fold_unit(r: Wide) -> Wide {
    Wide::one().minus(r.abs().rem(Wide::from_int(2)).minus(Wide::one()).abs())
}

impl<I> Interpolation for AlternateRepeated<I> where I: Interpolation {
    open spec fn progress(&self, anim_progress: Wide) -> Wide {
        self.inner.progress(fold_unit(anim_progress))
    }

    fn from_progress(&self, anim_progress: Wide) -> (r: Wide) {
        let progress = Wide::one().minus(
            anim_progress.abs().rem(Wide::from_int(2)).minus(Wide::one()).abs(),
        );
        self.inner.from_progress(progress)
    }
}

/// A linear animation stays between zero and one and never goes back.
pub proof fn lemma_linear_monotone(earlier: Wide, later: Wide)
    requires
        earlier.bits <= later.bits,
    ensures
        0 <= Linear.progress(earlier).bits <= Linear.progress(later).bits <= ONE_BITS,
{
}

/// Before its start, and at its start, a linear animation has not progressed.
pub proof fn lemma_linear_before_start(now: u64, start: u64, duration: u64)
    requires
        now <= start,
    ensures
        Linear.progress(cycles_elapsed(now, start, duration)) == Wide::zero(),
{
    if duration != 0 {
        lemma_quotient_exact(0, duration as int);
        assert((now - start) * ONE_BITS <= 0) by (nonlinear_arith)
            requires
                now - start <= 0,
                ONE_BITS > 0,
        ;
        lemma_quotient_monotone((now - start) * ONE_BITS, 0, duration as int);
    }
}

/// From its end on, a linear animation is complete.
pub proof fn lemma_linear_after_end(now: u64, start: u64, duration: u64)
    requires
        now >= start + duration,
        now > start,
    ensures
        Linear.progress(cycles_elapsed(now, start, duration)) == Wide::one(),
{
    if duration != 0 {
        lemma_quotient_exact(ONE_BITS as int, duration as int);
        assert(ONE_BITS * duration <= (now - start) * ONE_BITS) by (nonlinear_arith)
            requires
                duration <= now - start,
                ONE_BITS > 0,
        ;
        lemma_quotient_monotone(ONE_BITS * duration, (now - start) * ONE_BITS, duration as int);
        assert((now - start) * ONE_BITS < 0x1_0000_0000_0000_0000_0000_0000) by (nonlinear_arith)
            requires
                now - start < 0x1_0000_0000_0000_0000,
                ONE_BITS == 0x1_0000_0000,
        ;
        assert(magnitude((now - start) * ONE_BITS) / (duration as int) <= magnitude(
            (now - start) * ONE_BITS,
        )) by (nonlinear_arith)
            requires
                duration >= 1,
                magnitude((now - start) * ONE_BITS) >= 0,
        ;
    }
}

/// The place within the cycle lies between zero and one. It is one only for negative whole
/// numbers of cycles.
pub proof fn lemma_wrap_unit_range(r: Wide)
    ensures
        0 <= wrap_unit(r).bits <= ONE_BITS,
        r.bits >= 0 ==> wrap_unit(r).bits < ONE_BITS,
{
    let m = magnitude(r.bits as int);
    assert(0 <= m % (ONE_BITS as int) < ONE_BITS);
}

/// One cycle later the place within the cycle is the same, except between the cycle that
/// ends at zero and the one that starts there: one cycle before zero the place is one, at
/// zero it is zero.
pub proof fn lemma_wrap_unit_periodic(r: Wide)
    requires
        r.bits + ONE_BITS <= i128::MAX,
        r.bits != -ONE_BITS,
    ensures
        wrap_unit(r.plus(Wide::one())) == wrap_unit(r),
{
    let s = ONE_BITS as int;
    let m = magnitude(r.bits as int);
    if r.bits >= 0 {
        assert((m + s) % s == m % s) by (nonlinear_arith)
            requires
                s > 0,
        ;
    } else if r.bits < -ONE_BITS {
        assert((m - s) % s == m % s) by (nonlinear_arith)
            requires
                s > 0,
        ;
    } else {
        assert(m % s == m);
        assert((r.bits + s) % s == r.bits + s);
    }
}

/// A repeated interpolation gives the same progress one cycle later, except from one cycle
/// before zero to zero.
pub proof fn lemma_repeated_periodic<I: Interpolation>(repeated: Repeated<I>, r: Wide)
    requires
        r.bits + ONE_BITS <= i128::MAX,
        r.bits != -ONE_BITS,
    ensures
        repeated.progress(r.plus(Wide::one())) == repeated.progress(r),
{
    lemma_wrap_unit_periodic(r);
}

/// The triangle wave lies between zero and one.
pub proof fn lemma_fold_unit_range(r: Wide)
    ensures
        0 <= fold_unit(r).bits <= ONE_BITS,
{
    let m = r.abs().bits as int;
    assert(0 <= m % (2 * ONE_BITS) < 2 * ONE_BITS);
}

/// The triangle wave is the same on both sides of zero.
pub proof fn lemma_fold_unit_even(r: Wide)
    requires
        r.bits > i128::MIN,
    ensures
        fold_unit(Wide::zero().minus(r)) == fold_unit(r),
{
}

/// The triangle wave repeats every two cycles.
pub proof fn lemma_fold_unit_periodic(r: Wide)
    requires
        0 <= r.bits,
        r.bits + 2 * ONE_BITS <= i128::MAX,
    ensures
        fold_unit(r.plus(Wide::from_int(2))) == fold_unit(r),
{
    let s = 2 * ONE_BITS;
    let m = r.bits as int;
    assert((m + s) % s == m % s) by (nonlinear_arith)
        requires
            s > 0,
    ;
}

/// Within the first cycle the triangle wave rises as a linear animation does, and within
/// the second it falls back.
pub proof fn lemma_fold_unit_first_cycles(r: Wide)
    requires
        0 <= r.bits <= 2 * ONE_BITS,
    ensures
        r.bits <= ONE_BITS ==> fold_unit(r) == r,
        r.bits >= ONE_BITS ==> fold_unit(r) == Wide::from_int(2).minus(r),
{
    let s = 2 * ONE_BITS;
    let m = r.bits as int;
    if m < s {
        assert(m % s == m) by (nonlinear_arith)
            requires
                0 <= m < s,
        ;
    } else {
        assert(m % s == 0) by (nonlinear_arith)
            requires
                m == s,
                s > 0,
        ;
    }
}

/// Reversing an interpolation twice gives the interpolation back.
pub proof fn lemma_reversed_twice<I: Interpolation>(inner: I, r: Wide)
    requires
        i128::MIN + ONE_BITS < r.bits,
    ensures
        (Reversed { inner: Reversed { inner } }).progress(r) == inner.progress(r),
{
    assert(Wide::one().minus(Wide::one().minus(r)) == r);
}

/// Squaring keeps the order of values between zero and one, and keeps them there.
pub proof fn lemma_squared_monotone(a: Fixed, b: Fixed, steps: nat)
    requires
        0 <= a.bits <= b.bits <= ONE_BITS,
    ensures
        0 <= squared(a, steps).bits <= squared(b, steps).bits <= ONE_BITS,
    decreases steps,
{
    if steps > 0 {
        let before = (steps - 1) as nat;
        lemma_squared_monotone(a, b, before);
        let x = squared(a, before);
        let y = squared(b, before);
        lemma_times_monotone(x, y, x, y);
        lemma_times_monotone(y, Fixed::one(), y, Fixed::one());
        lemma_times_one(Fixed::one());
    }
}

/// One stays one, however often it is squared.
pub proof fn lemma_squared_one(steps: nat)
    ensures
        squared(Fixed::one(), steps) == Fixed::one(),
    decreases steps,
{
    if steps > 0 {
        lemma_squared_one((steps - 1) as nat);
        lemma_times_one(Fixed::one());
    }
}

/// `a` doubled `steps` times over.
pub open spec fn doubled(a: int, steps: nat) -> int
    decreases steps,
{
    if steps == 0 {
        a
    } else {
        2 * doubled(a, (steps - 1) as nat)
    }
}

/// `1 - a`, squared `steps` times over, is at most `1 / (1 + a * 2 ^ steps)`.
pub proof fn lemma_squared_bound(y: Fixed, steps: nat)
    requires
        0 <= y.bits <= ONE_BITS,
    ensures
        squared(y, steps).bits * (ONE_BITS + doubled(ONE_BITS - y.bits, steps)) <= ONE_BITS
            * ONE_BITS,
        0 <= doubled(ONE_BITS - y.bits, steps),
    decreases steps,
{
    let s: int = 0x1_0000_0000;
    let a = s - y.bits;
    if steps == 0 {
        assert((s - a) * (s + a) <= s * s) by (nonlinear_arith);
    } else {
        let before = (steps - 1) as nat;
        lemma_squared_bound(y, before);
        lemma_squared_monotone(y, y, before);
        lemma_squared_monotone(y, y, steps);
        let root = squared(y, before).bits as int;
        let next = squared(y, steps).bits as int;
        let b = doubled(a, before);
        let p = root * (s + b);
        let square = root * root;
        assert(0 <= square <= s * s) by (nonlinear_arith)
            requires
                0 <= root <= s,
                square == root * root,
        ;
        assert(next * s <= square) by {
            assert(square == (square / s) * s + square % s);
        }
        assert(0 <= p) by (nonlinear_arith)
            requires
                0 <= root,
                0 <= s + b,
                p == root * (s + b),
        ;
        assert(p * p <= (s * s) * (s * s)) by (nonlinear_arith)
            requires
                0 <= p <= s * s,
        ;
        assert(square * (s * (s + 2 * b)) <= p * p) by (nonlinear_arith)
            requires
                p == root * (s + b),
                square == root * root,
                0 <= square,
        ;
        let t = square * (s + 2 * b);
        assert(square * (s * (s + 2 * b)) == t * s) by (nonlinear_arith)
            requires
                t == square * (s + 2 * b),
        ;
        assert(t <= s * s * s);
        assert(next * s * (s + 2 * b) <= t) by (nonlinear_arith)
            requires
                next * s <= square,
                0 <= s + 2 * b,
                t == square * (s + 2 * b),
        ;
        assert(next * s * (s + 2 * b) == (next * (s + 2 * b)) * s) by (nonlinear_arith);
    }
}

/// The decay lies between zero and one, is one at zero, and never grows.
pub proof fn lemma_decay_monotone(x: Fixed, later: Fixed)
    requires
        0 <= x.bits <= later.bits,
    ensures
        0 <= decay(later).bits <= decay(x).bits <= ONE_BITS,
        decay(Fixed::zero()) == Fixed::one(),
{
    lemma_squared_one(16);
    let y = Fixed::one().minus(Fixed { bits: (x.bits / 0x1_0000) as i64 });
    let z = Fixed::one().minus(Fixed { bits: (later.bits / 0x1_0000) as i64 });
    if later.bits < DECAY_END {
        lemma_squared_monotone(z, y, 16);
    } else if x.bits < DECAY_END {
        lemma_squared_monotone(y, y, 16);
    }
}

/// The decay of `x` is at most `1 / (1 + x)`, where `x` is rounded down to a multiple of
/// two to the power of -16.
pub proof fn lemma_decay_bound(x: Fixed)
    requires
        0 <= x.bits,
    ensures
        decay(x).bits * (ONE_BITS + 0x1_0000 * (x.bits / 0x1_0000)) <= ONE_BITS * ONE_BITS,
{
    if x.bits < DECAY_END {
        let a = x.bits / 0x1_0000;
        let y = Fixed::one().minus(Fixed { bits: a as i64 });
        lemma_squared_bound(y, 16);
        assert(doubled(a, 16) == 0x1_0000 * a) by {
            reveal_with_fuel(doubled, 17);
        }
    }
}

/// An ease-out animation has not progressed up to its start.
pub proof fn lemma_ease_out_start(ease: EaseOut, r: Wide)
    requires
        r.bits <= 0,
    ensures
        ease.progress(r) == Wide::zero(),
{
}

/// An ease-out animation stays between zero and one and never goes back.
pub proof fn lemma_ease_out_monotone(ease: EaseOut, earlier: Wide, later: Wide)
    requires
        earlier.bits <= later.bits,
    ensures
        0 <= ease.progress(earlier).bits <= ease.progress(later).bits <= ONE_BITS,
{
    let zero = Fixed::zero();
    if later.bits > 0 && ease.factor.bits > 0 {
        let x_later = later.to_fixed().times(ease.factor);
        lemma_times_monotone(zero, later.to_fixed(), zero, ease.factor);
        lemma_decay_monotone(x_later, x_later);
        if earlier.bits > 0 {
            let x_earlier = earlier.to_fixed().times(ease.factor);
            lemma_times_monotone(earlier.to_fixed(), later.to_fixed(), ease.factor, ease.factor);
            lemma_times_monotone(zero, earlier.to_fixed(), zero, ease.factor);
            lemma_decay_monotone(x_earlier, x_later);
        }
    }
}

/// An ease-out animation approaches its end: what is left of it after `r` cycles is at
/// most `1 / (1 + x)`, where `x` is `r * factor` rounded down to a multiple of two to the
/// power of -16, and nothing is left from `x` equal to two to the power of 16 on.
pub proof fn lemma_ease_out_end(ease: EaseOut, r: Wide)
    requires
        0 < r.bits,
        0 < ease.factor.bits,
    ensures
        ({
            let x = r.to_fixed().times(ease.factor);
            &&& 0 <= x.bits
            &&& (ONE_BITS - ease.progress(r).bits) * (ONE_BITS + 0x1_0000 * (x.bits / 0x1_0000))
                <= ONE_BITS * ONE_BITS
            &&& x.bits >= DECAY_END ==> ease.progress(r) == Wide::one()
        }),
{
    let x = r.to_fixed().times(ease.factor);
    lemma_times_monotone(Fixed::zero(), r.to_fixed(), Fixed::zero(), ease.factor);
    lemma_decay_monotone(x, x);
    lemma_decay_bound(x);
}

} // verus!
