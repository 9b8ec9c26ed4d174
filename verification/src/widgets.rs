//! The widgets that can be drawn.
//!
//! Each module corresponds to a widget. The functions work out where the parts of the
//! widget go and what the cursor did to the widget; the caller draws the parts.
use crate::id::WidgetId;
use vstd::prelude::*;

pub mod circular_progress_bar;
pub mod image;
pub mod image9;
pub mod image9_button;
pub mod image_button;
pub mod label;
pub mod progress_bar;

verus! {

/// Whether the cursor clicked on the widget.
#[derive(Debug, Clone, Copy, PartialEq, Eq, Structural)]
#[must_use]
pub enum Interaction {
    /// The cursor clicked.
    Clicked,
    /// The cursor didn't click.
    NotClicked,
}

impl Interaction {
    /// Returns `true` if equal to `Clicked`. This function is useful so that you don't have
    /// to import the enum in scope.
    pub fn clicked(&self) -> (r: bool)
        ensures
            r == (*self == Interaction::Clicked),
    {
        match self {
            Interaction::Clicked => true,
            _ => false,
        }
    }
}

/// The look in which a widget that reacts to the cursor is drawn.
#[derive(Debug, Clone, Copy, PartialEq, Eq, Structural)]
pub enum Visual {
    /// The cursor is elsewhere.
    Normal,
    /// The cursor is over the widget.
    Hovered,
    /// The widget is held down.
    Active,
}

/// What one frame does to a widget that reacts to the cursor.
#[derive(Debug, Clone, Copy, PartialEq, Eq)]
pub struct Reaction {
    /// The look in which to draw the widget.
    pub visual: Visual,
    /// The active widget after the frame.
    pub active_widget: Option<WidgetId>,
    /// Whether the widget was clicked.
    pub interaction: Interaction,
}

/// The rule by which a widget reacts to the cursor, in this order:
///
/// 1. The cursor is elsewhere: the widget looks normal and nothing changes.
/// 2. The widget is the active one: it looks active; if the button was released in this
///    frame, no widget is active any more and the widget was clicked.
/// 3. The button was pressed in this frame: the widget looks active and becomes the active
///    one.
/// 4. Otherwise the widget looks hovered and nothing changes.
pub open spec fn spec_react(
    hovering: bool,
    pressed: bool,
    released: bool,
    id: WidgetId,
    active_widget: Option<WidgetId>,
) -> Reaction {
    if !hovering {
        Reaction { visual: Visual::Normal, active_widget, interaction: Interaction::NotClicked }
    } else if active_widget == Some(id) {
        if released {
            Reaction {
                visual: Visual::Active,
                active_widget: None,
                interaction: Interaction::Clicked,
            }
        } else {
            Reaction { visual: Visual::Active, active_widget, interaction: Interaction::NotClicked }
        }
    } else if pressed {
        Reaction {
            visual: Visual::Active,
            active_widget: Some(id),
            interaction: Interaction::NotClicked,
        }
    } else {
        Reaction { visual: Visual::Hovered, active_widget, interaction: Interaction::NotClicked }
    }
}

/// Resolves what one frame does to the widget `id`, from whether the cursor is over it,
/// whether the button was pressed or released in this frame, and the active widget.
#[verifier::when_used_as_spec(spec_react)]
pub fn react(
    hovering: bool,
    pressed: bool,
    released: bool,
    id: WidgetId,
    active_widget: Option<WidgetId>,
) -> (r: Reaction)
    ensures
        r == spec_react(hovering, pressed, released, id, active_widget),
{
    if !hovering {
        return Reaction { visual: Visual::Normal, active_widget, interaction: Interaction::NotClicked };
    }
    let is_active = match active_widget {
        Some(active) => active.0 == id.0,
        None => false,
    };
    if is_active {
        if released {
            Reaction {
                visual: Visual::Active,
                active_widget: None,
                interaction: Interaction::Clicked,
            }
        } else {
            Reaction { visual: Visual::Active, active_widget, interaction: Interaction::NotClicked }
        }
    } else if pressed {
        Reaction {
            visual: Visual::Active,
            active_widget: Some(id),
            interaction: Interaction::NotClicked,
        }
    } else {
        Reaction { visual: Visual::Hovered, active_widget, interaction: Interaction::NotClicked }
    }
}

/// A widget that the cursor is not over is drawn normal, is not clicked, and leaves the
/// active widget as it is.
pub proof fn lemma_not_hovered(
    pressed: bool,
    released: bool,
    id: WidgetId,
    active_widget: Option<WidgetId>,
)
    ensures
        react(false, pressed, released, id, active_widget) == (Reaction {
            visual: Visual::Normal,
            active_widget,
            interaction: Interaction::NotClicked,
        }),
{
}

/// A widget is clicked exactly when it is the active one, the cursor is over it, and the
/// button was released in this frame. No widget is active afterwards.
pub proof fn lemma_clicked(
    hovering: bool,
    pressed: bool,
    released: bool,
    id: WidgetId,
    active_widget: Option<WidgetId>,
)
    ensures
        react(hovering, pressed, released, id, active_widget).interaction == Interaction::Clicked
            <==> hovering && released && active_widget == Some(id),
        react(hovering, pressed, released, id, active_widget).interaction == Interaction::Clicked
            ==> react(hovering, pressed, released, id, active_widget).active_widget is None,
{
}

/// A press on a widget that is not the active one makes it the active one, without a
/// click; a release on it in a later frame, with the cursor still over it, is the click
/// and leaves no widget active.
pub proof fn lemma_press_then_release(
    id: WidgetId,
    active_widget: Option<WidgetId>,
    released_first: bool,
    pressed_then: bool,
)
    requires
        active_widget != Some(id),
    ensures
        ({
            let first = react(true, true, released_first, id, active_widget);
            let then = react(true, pressed_then, true, id, first.active_widget);
            &&& first.visual == Visual::Active
            &&& first.interaction == Interaction::NotClicked
            &&& first.active_widget == Some(id)
            &&& then.visual == Visual::Active
            &&& then.interaction == Interaction::Clicked
            &&& then.active_widget is None
        }),
{
}

/// While a widget is active, another widget under the cursor is drawn hovered, is not
/// clicked, and does not become the active one, unless the button is pressed on it.
pub proof fn lemma_other_widget_hovered(id: WidgetId, active: WidgetId, released: bool)
    requires
        active != id,
    ensures
        react(true, false, released, id, Some(active)) == (Reaction {
            visual: Visual::Hovered,
            active_widget: Some(active),
            interaction: Interaction::NotClicked,
        }),
{
}

/// Only the widget that reacts can become the active one, and a frame without a press and
/// without a click leaves the active widget as it is.
pub proof fn lemma_active_widget_changes(
    hovering: bool,
    pressed: bool,
    released: bool,
    id: WidgetId,
    active_widget: Option<WidgetId>,
)
    ensures
        ({
            let reaction = react(hovering, pressed, released, id, active_widget);
            &&& reaction.active_widget == active_widget || reaction.active_widget == Some(id)
                || (reaction.active_widget is None && reaction.interaction
                == Interaction::Clicked)
            &&& !pressed && reaction.interaction == Interaction::NotClicked
                ==> reaction.active_widget == active_widget
        }),
{
}

} // verus!
