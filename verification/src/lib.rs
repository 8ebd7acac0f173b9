//! A small retained-mode widget toolkit for strip-buffered embedded displays:
//! geometry, layout, widget state machines, pages, event routing and the
//! planning of what to repaint.

pub mod arena;
pub mod colors;
pub mod events;
pub mod geometry;
pub mod input;
pub mod main_page;
pub mod page;
pub mod painter;
pub mod style;
pub mod ui;
pub mod text;
pub mod widgets;

use vstd::prelude::*;

verus! {

#[verifier::external_type_specification]
#[verifier::external_body]
pub struct ExCapacityError(heapless::CapacityError);

/// Errors of the toolkit.
#[derive(Debug)]
pub enum Error {
    /// A text did not fit in a widget's fixed-capacity text buffer.
    Capacity(heapless::CapacityError),
    /// A widget is larger than the bounds of the page's layout.
    NoSpaceLeft,
    /// Drawing failed (the framebuffer target never fails).
    Draw(core::convert::Infallible),
}

} // verus!
