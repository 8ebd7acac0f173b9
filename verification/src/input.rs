use vstd::prelude::*;

use crate::geometry::Point;
use crate::page::WidgetId;

verus! {

/// A pointer interaction with the display.
#[derive(Debug, Clone, Copy, PartialEq, Eq, Structural)]
pub enum Interaction {
    Click(Point),
    Release(Point),
    Drag(Point),
}

impl Interaction {
    /// The point that the interaction carries, whatever its kind.
    pub open spec fn spec_point(self) -> Point {
        match self {
            Interaction::Click(p) => p,
            Interaction::Release(p) => p,
            Interaction::Drag(p) => p,
        }
    }

    pub fn point(&self) -> (p: Point)
        ensures
            p == self.spec_point(),
    {
        match self {
            Interaction::Click(p) => *p,
            Interaction::Release(p) => *p,
            Interaction::Drag(p) => *p,
        }
    }
}

/// A widget of a page changed in answer to an interaction.
#[derive(Debug, Clone, Copy, PartialEq, Eq, Structural)]
pub struct Event {
    pub page_idx: u8,
    pub widget_id: WidgetId,
}

} // verus!
