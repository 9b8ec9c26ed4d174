//! Widget identifiers.
use vstd::prelude::*;
use vstd::std_specs::convert::FromSpecImpl;

verus! {

/// Represents an identifier of a widget. Two identifiers name the same widget when their
/// numbers are equal.
#[derive(Clone, Copy, Debug, PartialEq, Eq, Structural, Hash)]
pub struct WidgetId(pub usize);

impl From<usize> for WidgetId {
    fn from(id: usize) -> (r: WidgetId) {
        WidgetId(id)
    }
}

impl FromSpecImpl<usize> for WidgetId {
    open spec fn obeys_from_spec() -> bool {
        true
    }

    open spec fn from_spec(id: usize) -> WidgetId {
        WidgetId(id)
    }
}

} // verus!
