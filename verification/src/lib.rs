//! Layout and interaction core of an immediate-mode user interface.
//!
//! The position and dimensions of the elements of an immediate-mode user interface are
//! calculated at each frame. The state of the interface (the content of text boxes, whether
//! a checkbox is checked, which tab is the current one) is not stored by this library, but
//! in a structure of the application, which holds a [`UiState`].
//!
//! At each frame, call [`draw`] to obtain a [`SharedDrawContext`], and
//! [`SharedDrawContext::draw`] to obtain the [`DrawContext`] of the whole viewport. The
//! methods of the context derive the contexts of smaller areas, and the functions under
//! [`widgets`] tell where each part of a widget is to be drawn and what the cursor did to
//! the widget.
//!
//! All numbers are fixed-point numbers: see [`fixed`].
use vstd::prelude::*;

pub mod animations;
pub mod draw;
pub mod fixed;
pub mod id;
pub mod layout;
pub mod matrix;
pub mod widgets;

pub use draw::GlyphInfos;
pub use fixed::Fixed;
pub use fixed::Wide;
pub use id::WidgetId;
pub use layout::draw;
pub use layout::Alignment;
pub use layout::DrawContext;
pub use layout::HorizontalAlignment;
pub use layout::SharedDrawContext;
pub use layout::VerticalAlignment;
pub use matrix::Matrix;

verus! {

/// Contains some persistent info about the UI.
#[derive(Clone, Copy, Debug, PartialEq, Eq)]
pub struct UiState {
    /// Identifier of the widget that is currently active.
    ///
    /// For example if you maintain the left button of the mouse, the element under will be
    /// active. If you then move your mouse somewhere else, the active element doesn't
    /// change.
    pub active_widget: Option<WidgetId>,
}

impl Default for UiState {
    fn default() -> (r: UiState)
        ensures
            r.active_widget is None,
    {
        UiState { active_widget: None }
    }
}

} // verus!
