//! Image buttons are images that are clickable.
//!
//! You can specify different images for when the button is in a normal state, a hovered
//! state, or an active state.
//!
//! All the functions in this module return a [`Button`], which says in which state to draw
//! the button and whether it was clicked.
use crate::fixed::Fixed;
use crate::id::WidgetId;
use crate::layout::successor;
use crate::layout::Alignment;
use crate::layout::DrawContext;
use crate::layout::SharedDrawContext;
use crate::matrix::Matrix;
use crate::widgets::react;
use crate::widgets::Interaction;
use crate::widgets::Visual;
use crate::UiState;
use vstd::prelude::*;

verus! {

/// How to draw a button in this frame, and what the cursor did to it.
#[derive(Debug, Clone, Copy, PartialEq, Eq)]
pub struct Button {
    /// Which of the images of the button to draw.
    pub visual: Visual,
    /// The matrix at which to draw it.
    pub matrix: Matrix,
    /// Whether the button was clicked.
    pub interaction: Interaction,
}

/// What `stretch` returns for `area`, with the active widget that it leaves.
pub open spec fn pressed_in(area: DrawContext, next_id: usize, active_widget: Option<WidgetId>)
    -> (Button, Option<WidgetId>) {
    let reaction = react(
        area.is_cursor_hovering(),
        area.cursor_was_pressed,
        area.cursor_was_released,
        WidgetId(next_id),
        active_widget,
    );
    (
        Button { visual: reaction.visual, matrix: area.matrix(), interaction: reaction.interaction },
        reaction.active_widget,
    )
}

/// Same as `image::draw`, except that the image is clickable.
pub fn draw(
    context: &DrawContext,
    shared: &mut SharedDrawContext,
    ui_state: &mut UiState,
    width_per_height: Fixed,
    alignment: &Alignment,
) -> (r: Button)
    requires
        context.width.bits > 0,
        context.height.bits > 0,
        width_per_height.bits > 0,
    ensures
        ({
            let area = context.animation_stop().spec_enforce_aspect_ratio_downscale(
                width_per_height,
                *alignment,
            );
            &&& (r, final(ui_state).active_widget) == pressed_in(
                area,
                old(shared).next_id(),
                old(ui_state).active_widget,
            )
            &&& final(shared).hovered() == (old(shared).hovered() || area.is_cursor_hovering())
        }),
        final(shared).next_id() == successor(old(shared).next_id()),
{
    let context = context.animation_stop();
    stretch(&context.enforce_aspect_ratio_downscale(width_per_height, alignment), shared, ui_state)
}

/// Same as `image::stretch`, except that the image is clickable.
///
/// Reserves the widget identifier of the button, records whether the cursor is over the
/// button, and lets the button react to the cursor.
pub fn stretch(context: &DrawContext, shared: &mut SharedDrawContext, ui_state: &mut UiState) -> (r:
    Button)
    ensures
        (r, final(ui_state).active_widget) == pressed_in(
            *context,
            old(shared).next_id(),
            old(ui_state).active_widget,
        ),
        final(shared).hovered() == (old(shared).hovered() || context.is_cursor_hovering()),
        final(shared).next_id() == successor(old(shared).next_id()),
{
    let widget_id = context.reserve_widget_id(shared);
    let hovering = context.is_cursor_hovering();
    if hovering {
        context.set_cursor_hovered_widget(shared);
    }
    let reaction = react(
        hovering,
        context.cursor_was_pressed(),
        context.cursor_was_released(),
        widget_id,
        ui_state.active_widget,
    );
    ui_state.active_widget = reaction.active_widget;
    Button { visual: reaction.visual, matrix: context.matrix(), interaction: reaction.interaction }
}

} // verus!
