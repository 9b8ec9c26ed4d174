//! A progress bar is a rectangle that fills itself to indicate some sort of progression.
//!
//! A widget like this is composed of two images:
//!
//! - The widget when empty.
//! - The widget when full. Since this one is drawn over the previous one, it can also just
//!   be the difference between empty and full.
use crate::draw::Image;
use crate::fixed::Fixed;
use crate::fixed::ONE_BITS;
use crate::layout::Alignment;
use crate::layout::DrawContext;
use crate::layout::HorizontalAlignment;
use crate::layout::SharedDrawContext;
use crate::matrix::Matrix;
use crate::widgets::image;
use vstd::prelude::*;

verus! {

/// Where to draw the two images of a progress bar.
#[derive(Debug, Clone, Copy, PartialEq, Eq)]
pub struct ProgressBar {
    /// The matrix at which to draw the empty image, first.
    pub empty: Matrix,
    /// The part of the full image to draw over it.
    pub full: Image,
}

/// The progress bar that fills `area` up to `progress`.
pub open spec fn filled(area: DrawContext, progress: Fixed, direction: HorizontalAlignment)
    -> ProgressBar {
    ProgressBar {
        empty: area.matrix(),
        full: Image {
            matrix: area.spec_horizontal_rescale(progress, direction).matrix(),
            top_left: (Fixed::zero(), Fixed::one()),
            top_right: (progress, Fixed::one()),
            bottom_right: (progress, Fixed::zero()),
            bottom_left: (Fixed::zero(), Fixed::zero()),
        },
    }
}

/// Lays out a progress bar and keeps the aspect ratio of the empty image, whose width
/// divided by its height is `width_per_height`.
///
/// If the `full` image doesn't have the same aspect ratio, it will be stretched.
/// `progress` must be between 0 and 1.
pub fn draw(
    context: &DrawContext,
    shared: &mut SharedDrawContext,
    width_per_height: Fixed,
    progress: Fixed,
    progress_direction: &HorizontalAlignment,
    alignment: &Alignment,
) -> (r: ProgressBar)
    requires
        0 <= progress.bits <= ONE_BITS,
        context.width.bits > 0,
        context.height.bits > 0,
        width_per_height.bits > 0,
    ensures
        ({
            let area = context.animation_stop().spec_enforce_aspect_ratio_downscale(
                width_per_height,
                *alignment,
            );
            &&& r == filled(area, progress, *progress_direction)
            &&& final(shared).hovered() == (old(shared).hovered() || area.is_cursor_hovering())
        }),
        final(shared).next_id() == old(shared).next_id(),
{
    let context = context.animation_stop();
    stretch(
        &context.enforce_aspect_ratio_downscale(width_per_height, alignment),
        shared,
        progress,
        progress_direction,
    )
}

/// Lays out a progress bar, stretching it over the whole area.
///
/// `progress` must be between 0 and 1.
pub fn stretch(
    context: &DrawContext,
    shared: &mut SharedDrawContext,
    progress: Fixed,
    progress_direction: &HorizontalAlignment,
) -> (r: ProgressBar)
    requires
        0 <= progress.bits <= ONE_BITS,
    ensures
        r == filled(*context, progress, *progress_direction),
        final(shared).hovered() == (old(shared).hovered() || context.is_cursor_hovering()),
        final(shared).next_id() == old(shared).next_id(),
{
    let empty = image::stretch(context, shared);
    let context = context.horizontal_rescale(progress, progress_direction);
    ProgressBar {
        empty,
        full: Image {
            matrix: context.matrix(),
            top_left: (Fixed::zero(), Fixed::one()),
            top_right: (progress, Fixed::one()),
            bottom_right: (progress, Fixed::zero()),
            bottom_left: (Fixed::zero(), Fixed::zero()),
        },
    }
}

} // verus!
