//! Same as `image9`, except that the image is clickable.
use crate::draw::Image;
use crate::fixed::Fixed;
use crate::fixed::ONE_BITS;
use crate::id::WidgetId;
use crate::layout::successor;
use crate::layout::DrawContext;
use crate::layout::SharedDrawContext;
use crate::widgets::image9;
use crate::widgets::react;
use crate::widgets::Interaction;
use crate::widgets::Visual;
use crate::UiState;
use vstd::prelude::*;

verus! {

/// How to draw a button in nine parts in this frame, and what the cursor did to it.
#[derive(Debug, Clone, Copy)]
pub struct Button9 {
    /// Which of the images of the button to draw.
    pub visual: Visual,
    /// The nine parts of that image, in the order of `image9::draw`.
    pub parts: [Image; 9],
    /// Whether the button was clicked.
    pub interaction: Interaction,
}

/// Same as `image9::draw`, except that the image is clickable. You can specify different
/// images for when the button is non-hovered, hovered, or active.
///
/// Reserves the widget identifier of the button, lets the button react to the cursor, and
/// records whether the cursor is over the button.
pub fn draw(
    context: &DrawContext,
    shared: &mut SharedDrawContext,
    ui_state: &mut UiState,
    left_border_percent: Fixed,
    image_width_per_height: Fixed,
    top_percent: Fixed,
    right_percent: Fixed,
    bottom_percent: Fixed,
    left_percent: Fixed,
) -> (r: Button9)
    requires
        top_percent.plus(bottom_percent).bits <= ONE_BITS,
        left_percent.plus(right_percent).bits <= ONE_BITS,
    ensures
        ({
            let reaction = react(
                context.is_cursor_hovering(),
                context.cursor_was_pressed,
                context.cursor_was_released,
                WidgetId(old(shared).next_id()),
                old(ui_state).active_widget,
            );
            &&& r.visual == reaction.visual
            &&& r.interaction == reaction.interaction
            &&& final(ui_state).active_widget == reaction.active_widget
        }),
        r.parts@ == image9::parts(
            *context,
            left_border_percent,
            image_width_per_height,
            top_percent,
            right_percent,
            bottom_percent,
            left_percent,
        ),
        final(shared).hovered() == (old(shared).hovered() || context.is_cursor_hovering()),
        final(shared).next_id() == successor(old(shared).next_id()),
{
    let widget_id = context.reserve_widget_id(shared);
    let reaction = react(
        context.is_cursor_hovering(),
        context.cursor_was_pressed(),
        context.cursor_was_released(),
        widget_id,
        ui_state.active_widget,
    );
    ui_state.active_widget = reaction.active_widget;
    let parts = image9::draw(
        context,
        shared,
        left_border_percent,
        image_width_per_height,
        top_percent,
        right_percent,
        bottom_percent,
        left_percent,
    );
    Button9 { visual: reaction.visual, parts, interaction: reaction.interaction }
}

} // verus!
