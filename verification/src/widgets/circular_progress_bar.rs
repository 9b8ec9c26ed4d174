//! A circular progress bar is a circle that fills itself to indicate some sort of
//! progression.
//!
//! A widget like this is composed of two images:
//!
//! - The widget when empty.
//! - The widget when full. Since this one is drawn over the previous one, it can also just
//!   be the difference between empty and full.
//!
//! This module supposes that the center of the circular progress bar is the center of the
//! image. The direction is always clockwise.
//!
//! The full image is drawn as up to eight triangles around the center, each an eighth of
//! the square: from the middle of the top edge clockwise, the triangles with an upright
//! side come from `straight`, those in between from `slanted`.
use crate::draw::Triangle;
use crate::fixed::Fixed;
use crate::fixed::ONE_BITS;
use crate::layout::Alignment;
use crate::layout::DrawContext;
use crate::layout::SharedDrawContext;
use crate::matrix::Matrix;
use crate::widgets::image;
use vstd::prelude::*;

verus! {

/// Where to draw the images of a circular progress bar.
#[derive(Debug, Clone)]
pub struct CircularProgressBar {
    /// The matrix at which to draw the empty image, first.
    pub empty: Matrix,
    /// The triangles of the full image to draw over it, in order.
    pub full: Vec<Triangle>,
}

pub open spec fn spec_eighth() -> Fixed {
    Fixed { bits: 0x2000_0000 }
}

/// The value one eighth.
#[verifier::when_used_as_spec(spec_eighth)]
fn eighth() -> (r: Fixed)
    ensures
        r == spec_eighth(),
{
    Fixed { bits: 0x2000_0000 }
}

pub open spec fn spec_quarter() -> Fixed {
    Fixed { bits: 0x4000_0000 }
}

/// The value one quarter.
#[verifier::when_used_as_spec(spec_quarter)]
fn quarter() -> (r: Fixed)
    ensures
        r == spec_quarter(),
{
    Fixed { bits: 0x4000_0000 }
}

/// The rotation by `turns` quarter turns clockwise.
pub open spec fn spec_quarter_turns(turns: u8) -> Matrix {
    let zero = Fixed::zero();
    let one = Fixed::one();
    match turns % 4 {
        0 => Matrix::rotate(one, zero),
        1 => Matrix::rotate(zero, one.negated()),
        2 => Matrix::rotate(one.negated(), zero),
        _ => Matrix::rotate(zero, one),
    }
}

#[verifier::when_used_as_spec(spec_quarter_turns)]
fn quarter_turns(turns: u8) -> (r: Matrix)
    ensures
        r == spec_quarter_turns(turns),
{
    let zero = Fixed::zero();
    let one = Fixed::one();
    match turns % 4 {
        0 => Matrix::rotate(one, zero),
        1 => Matrix::rotate(zero, one.negated()),
        2 => Matrix::rotate(one.negated(), zero),
        _ => Matrix::rotate(zero, one),
    }
}

/// How much of the eighth that starts at `start` is filled at `progress`: nothing up to
/// `start`, all of it from the end of the eighth on.
pub open spec fn spec_local_percent(progress: Fixed, start: Fixed) -> Option<Fixed> {
    let local = progress.minus(start).over(spec_eighth());
    if local.bits <= 0 {
        None
    } else if local.bits >= ONE_BITS {
        Some(Fixed::one())
    } else {
        Some(local)
    }
}

#[verifier::when_used_as_spec(spec_local_percent)]
fn local_percent(progress: Fixed, start: Fixed) -> (r: Option<Fixed>)
    ensures
        r == spec_local_percent(progress, start),
{
    let local = progress.minus(start).over(eighth());
    if local.bits <= 0 {
        None
    } else if local.bits >= ONE_BITS {
        Some(Fixed::one())
    } else {
        Some(local)
    }
}

/// The square that is half as high as the viewport and `0.5 * local` as wide, with its
/// bottom-left hand corner at the center of the viewport.
pub open spec fn spec_sector(local: Fixed) -> Matrix {
    Matrix::scale_wh(Fixed::half().times(local), Fixed::half()).compose(
        Matrix::translate(Fixed::one(), Fixed::one()),
    )
}

#[verifier::when_used_as_spec(spec_sector)]
fn sector(local: Fixed) -> (r: Matrix)
    ensures
        r == spec_sector(local),
{
    Matrix::scale_wh(Fixed::half().times(local), Fixed::half()).compose(
        Matrix::translate(Fixed::one(), Fixed::one()),
    )
}

/// The triangle of the full image in the first half of the quarter `num`, if `progress`
/// reaches into it. The quarters are counted clockwise from the top, from 0 to 3.
pub open spec fn spec_straight(matrix: Matrix, progress: Fixed, num: u8) -> Option<Triangle> {
    match spec_local_percent(progress, spec_quarter().times(Fixed::from_int(num as i32))) {
        None => None,
        Some(local) => {
            let zero = Fixed::zero();
            let one = Fixed::one();
            let half = Fixed::half();
            let reach = half.times(local);
            let (uv1, uv3) = match num {
                0 => ((half, one), (half.plus(reach), one)),
                1 => ((one, half), (one, half.minus(reach))),
                2 => ((half, zero), (half.minus(reach), zero)),
                _ => ((zero, half), (zero, half.plus(reach))),
            };
            Some(
                Triangle {
                    matrix: matrix.compose(spec_quarter_turns(num).compose(spec_sector(local))),
                    uv_coords: (uv1, (half, half), uv3),
                },
            )
        },
    }
}

#[verifier::when_used_as_spec(spec_straight)]
fn straight(matrix: Matrix, progress: Fixed, num: u8) -> (r: Option<Triangle>)
    requires
        num < 4,
    ensures
        r == spec_straight(matrix, progress, num),
{
    match local_percent(progress, quarter().times(Fixed::from_int(num as i32))) {
        None => None,
        Some(local) => {
            let zero = Fixed::zero();
            let one = Fixed::one();
            let half = Fixed::half();
            let reach = half.times(local);
            let (uv1, uv3) = match num {
                0 => ((half, one), (half.plus(reach), one)),
                1 => ((one, half), (one, half.minus(reach))),
                2 => ((half, zero), (half.minus(reach), zero)),
                _ => ((zero, half), (zero, half.plus(reach))),
            };
            Some(
                Triangle {
                    matrix: matrix.compose(quarter_turns(num).compose(sector(local))),
                    uv_coords: (uv1, (half, half), uv3),
                },
            )
        },
    }
}

/// The triangle of the full image in the second half of the quarter `num`, if `progress`
/// reaches into it.
pub open spec fn spec_slanted(matrix: Matrix, progress: Fixed, num: u8) -> Option<Triangle> {
    match spec_local_percent(
        progress,
        spec_eighth().plus(spec_quarter().times(Fixed::from_int(num as i32))),
    ) {
        None => None,
        Some(local) => {
            let zero = Fixed::zero();
            let one = Fixed::one();
            let half = Fixed::half();
            let reach = half.times(local);
            let (uv1, uv3) = match num {
                0 => ((one, one), (one, one.minus(reach))),
                1 => ((one, zero), (one.minus(reach), zero)),
                2 => ((zero, zero), (zero, zero.plus(reach))),
                _ => ((zero, one), (zero.plus(reach), one)),
            };
            Some(
                Triangle {
                    matrix: matrix.compose(
                        spec_quarter_turns((num + 1) as u8).compose(
                            Matrix::skew_x(one.negated()).compose(spec_sector(local)),
                        ),
                    ),
                    uv_coords: (uv1, (half, half), uv3),
                },
            )
        },
    }
}

#[verifier::when_used_as_spec(spec_slanted)]
fn slanted(matrix: Matrix, progress: Fixed, num: u8) -> (r: Option<Triangle>)
    requires
        num < 4,
    ensures
        r == spec_slanted(matrix, progress, num),
{
    match local_percent(progress, eighth().plus(quarter().times(Fixed::from_int(num as i32)))) {
        None => None,
        Some(local) => {
            let zero = Fixed::zero();
            let one = Fixed::one();
            let half = Fixed::half();
            let reach = half.times(local);
            let (uv1, uv3) = match num {
                0 => ((one, one), (one, one.minus(reach))),
                1 => ((one, zero), (one.minus(reach), zero)),
                2 => ((zero, zero), (zero, zero.plus(reach))),
                _ => ((zero, one), (zero.plus(reach), one)),
            };
            Some(
                Triangle {
                    matrix: matrix.compose(
                        quarter_turns(num + 1).compose(
                            Matrix::skew_x(one.negated()).compose(sector(local)),
                        ),
                    ),
                    uv_coords: (uv1, (half, half), uv3),
                },
            )
        },
    }
}

/// `triangles` and then `triangle`, where there is one.
pub open spec fn with(triangles: Seq<Triangle>, triangle: Option<Triangle>) -> Seq<Triangle> {
    match triangle {
        Some(t) => triangles.push(t),
        None => triangles,
    }
}

/// The triangles of the first halves of the quarters before `num`, in order.
pub open spec fn straights(matrix: Matrix, progress: Fixed, num: u8) -> Seq<Triangle>
    decreases num,
{
    if num == 0 {
        Seq::empty()
    } else {
        with(
            straights(matrix, progress, (num - 1) as u8),
            spec_straight(matrix, progress, (num - 1) as u8),
        )
    }
}

/// The triangles of the second halves of the quarters before `num`, in order.
pub open spec fn slanteds(matrix: Matrix, progress: Fixed, num: u8) -> Seq<Triangle>
    decreases num,
{
    if num == 0 {
        Seq::empty()
    } else {
        with(
            slanteds(matrix, progress, (num - 1) as u8),
            spec_slanted(matrix, progress, (num - 1) as u8),
        )
    }
}

/// Lays out a circular progress bar and keeps the aspect ratio of the empty image, whose
/// width divided by its height is `width_per_height`.
///
/// If the `full` image doesn't have the same aspect ratio, it will be stretched.
/// `progress` must be between 0 and 1.
pub fn draw(
    context: &DrawContext,
    shared: &mut SharedDrawContext,
    width_per_height: Fixed,
    progress: Fixed,
    alignment: &Alignment,
) -> (r: CircularProgressBar)
    requires
        0 <= progress.bits <= ONE_BITS,
        context.width.bits > 0,
        context.height.bits > 0,
        width_per_height.bits > 0,
    ensures
        ({
            let area = context.spec_enforce_aspect_ratio_downscale(width_per_height, *alignment);
            &&& r.empty == area.matrix()
            &&& r.full@ == straights(area.matrix(), progress, 4) + slanteds(
                area.matrix(),
                progress,
                4,
            )
            &&& final(shared).hovered() == (old(shared).hovered() || area.is_cursor_hovering())
        }),
        final(shared).next_id() == old(shared).next_id(),
{
    stretch(&context.enforce_aspect_ratio_downscale(width_per_height, alignment), shared, progress)
}

/// Lays out a circular progress bar, stretching it over the whole area.
///
/// `progress` must be between 0 and 1.
pub fn stretch(context: &DrawContext, shared: &mut SharedDrawContext, progress: Fixed) -> (r:
    CircularProgressBar)
    requires
        0 <= progress.bits <= ONE_BITS,
    ensures
        r.empty == context.matrix(),
        r.full@ == straights(context.matrix(), progress, 4) + slanteds(
            context.matrix(),
            progress,
            4,
        ),
        final(shared).hovered() == (old(shared).hovered() || context.is_cursor_hovering()),
        final(shared).next_id() == old(shared).next_id(),
{
    let empty = image::stretch(context, shared);
    let matrix = context.matrix();
    let mut full: Vec<Triangle> = Vec::new();
    let mut num: u8 = 0;
    while num < 4
        invariant
            num <= 4,
            full@ == straights(matrix, progress, num),
        decreases 4 - num,
    {
        match straight(matrix, progress, num) {
            Some(triangle) => full.push(triangle),
            None => {},
        }
        num += 1;
    }
    let ghost first = full@;
    let mut num: u8 = 0;
    while num < 4
        invariant
            num <= 4,
            full@ == first + slanteds(matrix, progress, num),
        decreases 4 - num,
    {
        proof {
            let so_far = slanteds(matrix, progress, num);
            match spec_slanted(matrix, progress, num) {
                Some(t) => assert(first + so_far.push(t) =~= (first + so_far).push(t)),
                None => {},
            }
        }
        match slanted(matrix, progress, num) {
            Some(triangle) => full.push(triangle),
            None => {},
        }
        num += 1;
    }
    CircularProgressBar { empty, full }
}

} // verus!
