use vstd::prelude::*;

use crate::geometry::Size;
use crate::input::Interaction;
use crate::widgets::{ColorRole, FramePaint, Widget};
use crate::Error;

verus! {

/// A filled bar that separates groups of widgets.
pub struct Separator {
    size: Size,
    changed: bool,
}

/// The state of a [`Separator`].
pub struct SeparatorView {
    pub size: Size,
    pub changed: bool,
}

impl View for Separator {
    type V = SeparatorView;

    closed spec fn view(&self) -> SeparatorView {
        SeparatorView { size: self.size, changed: self.changed }
    }
}

impl Separator {
    /// A new separator; it starts out clean.
    pub fn new(size: Size) -> (s: Self)
        ensures
            s@ == (SeparatorView { size, changed: false }),
    {
        Separator { size, changed: false }
    }

    /// How the bar is drawn: filled with the border colour and outlined
    /// with the screen background.
    pub fn frame_paint(&self) -> (f: FramePaint)
        ensures
            f == (FramePaint { fill: ColorRole::Border, stroke: ColorRole::ScreenBg }),
    {
        FramePaint { fill: ColorRole::Border, stroke: ColorRole::ScreenBg }
    }
}

impl Widget for Separator {
    fn interact(&mut self, interaction: Option<Interaction>)
        ensures
            final(self)@ == old(self)@,
    {
    }

    fn set_active(&mut self, active: bool)
        ensures
            final(self)@ == old(self)@,
    {
    }

    fn set_text(&mut self, text: &str) -> (r: Result<(), Error>)
        ensures
            r is Ok,
            final(self)@ == old(self)@,
    {
        Ok(())
    }

    fn set_focus(&mut self, focus: bool)
        ensures
            final(self)@ == old(self)@,
    {
    }

    fn set_focusable(&mut self, focusable: bool)
        ensures
            final(self)@ == old(self)@,
    {
    }

    fn mark_clean(&mut self)
        ensures
            final(self)@ == (SeparatorView { changed: false, ..old(self)@ }),
    {
        self.changed = false;
    }

    fn size(&self) -> (s: Size)
        ensures
            s == self@.size,
    {
        self.size
    }

    fn is_changed(&self) -> (b: bool)
        ensures
            b == self@.changed,
    {
        self.changed
    }

    fn is_focusable(&self) -> (b: bool)
        ensures
            !b,
    {
        false
    }

    fn is_pressed(&self) -> (b: bool)
        ensures
            !b,
    {
        false
    }
}

} // verus!
