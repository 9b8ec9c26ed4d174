//! Non-interactive images used for decoration purposes.
//!
//! If you want to use an image as a button, see the other modules.
use crate::fixed::Fixed;
use crate::layout::Alignment;
use crate::layout::DrawContext;
use crate::layout::SharedDrawContext;
use crate::matrix::Matrix;
use vstd::prelude::*;

verus! {

/// Decreases the size of the image if necessary until it fits in the context, and returns
/// the matrix at which to draw it. `width_per_height` is the width of the image divided by
/// its height.
pub fn draw(
    context: &DrawContext,
    shared: &mut SharedDrawContext,
    width_per_height: Fixed,
    alignment: &Alignment,
) -> (r: Matrix)
    requires
        context.width.bits > 0,
        context.height.bits > 0,
        width_per_height.bits > 0,
    ensures
        ({
            let area = context.animation_stop().spec_enforce_aspect_ratio_downscale(
                width_per_height,
                *alignment,
            );
            &&& r == area.matrix()
            &&& final(shared).hovered() == (old(shared).hovered() || area.is_cursor_hovering())
        }),
        final(shared).next_id() == old(shared).next_id(),
{
    let context = context.animation_stop();
    stretch(&context.enforce_aspect_ratio_downscale(width_per_height, alignment), shared)
}

/// Stretches the image if necessary so that it corresponds to the context's area, and
/// returns the matrix at which to draw it. Records whether the cursor is over the image.
pub fn stretch(context: &DrawContext, shared: &mut SharedDrawContext) -> (r: Matrix)
    ensures
        r == context.matrix(),
        final(shared).hovered() == (old(shared).hovered() || context.is_cursor_hovering()),
        final(shared).next_id() == old(shared).next_id(),
{
    if !context.cursor_hovered_widget(shared) {
        if context.is_cursor_hovering() {
            context.set_cursor_hovered_widget(shared);
        }
    }
    context.matrix()
}

/// Increases the size of the image until it covers the context, and returns the matrix at
/// which to draw it. `width_per_height` is the width of the image divided by its height.
pub fn cover(
    context: &DrawContext,
    shared: &mut SharedDrawContext,
    width_per_height: Fixed,
    alignment: &Alignment,
) -> (r: Matrix)
    requires
        context.width.bits > 0,
        context.height.bits > 0,
        width_per_height.bits > 0,
    ensures
        ({
            let area = context.animation_stop().spec_enforce_aspect_ratio_upscale(
                width_per_height,
                *alignment,
            );
            &&& r == area.matrix()
            &&& final(shared).hovered() == (old(shared).hovered() || area.is_cursor_hovering())
        }),
        final(shared).next_id() == old(shared).next_id(),
{
    let context = context.animation_stop();
    stretch(&context.enforce_aspect_ratio_upscale(width_per_height, alignment), shared)
}

} // verus!
