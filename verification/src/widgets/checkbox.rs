use vstd::prelude::*;

use crate::geometry::{Point, Rectangle, Size, fits_i32};
use crate::input::Interaction;
use crate::widgets::{ColorRole, FramePaint, Widget};
use crate::Error;

verus! {

/// A box that a click checks or unchecks.
pub struct Checkbox {
    size: Size,
    focus: bool,
    checked: bool,
    held: bool,
    changed: bool,
}

/// The state of a [`Checkbox`]. `held` is set while the click that last
/// toggled the box is still going on.
pub struct CheckboxView {
    pub size: Size,
    pub focus: bool,
    pub checked: bool,
    pub held: bool,
    pub changed: bool,
}

impl CheckboxView {
    /// A click toggles the box once: further clicks while it is held do
    /// nothing, and anything else than a click releases the hold.
    pub open spec fn after_interact(self, i: Option<Interaction>) -> CheckboxView {
        let clicked = i matches Some(Interaction::Click(_));
        if clicked && !self.held {
            CheckboxView { checked: !self.checked, held: true, changed: true, ..self }
        } else if !clicked {
            CheckboxView { held: false, ..self }
        } else {
            self
        }
    }

    /// Only a real move of the focus marks the box changed.
    pub open spec fn after_focus(self, focus: bool) -> CheckboxView {
        if self.focus != focus {
            CheckboxView { focus, changed: true, ..self }
        } else {
            self
        }
    }
}

impl View for Checkbox {
    type V = CheckboxView;

    closed spec fn view(&self) -> CheckboxView {
        CheckboxView {
            size: self.size,
            focus: self.focus,
            checked: self.checked,
            held: self.held,
            changed: self.changed,
        }
    }
}

impl Checkbox {
    /// A new unchecked, unfocused box that must be drawn.
    pub fn new(size: Size) -> (c: Self)
        ensures
            c@ == (CheckboxView { size, focus: false, checked: false, held: false, changed: true }),
    {
        Checkbox { size, focus: false, checked: false, held: false, changed: true }
    }

    pub fn is_checked(&self) -> (b: bool)
        ensures
            b == self@.checked,
    {
        self.checked
    }

    pub fn has_focus(&self) -> (b: bool)
        ensures
            b == self@.focus,
    {
        self.focus
    }

    /// How the frame is drawn: the active colour while checked, the
    /// background otherwise; the focus colour around it while focused.
    pub fn frame_paint(&self) -> (f: FramePaint)
        ensures
            f == (FramePaint {
                fill: if self@.checked { ColorRole::Active } else { ColorRole::Bg },
                stroke: if self@.focus { ColorRole::Focus } else { ColorRole::Border },
            }),
    {
        FramePaint {
            fill: if self.checked { ColorRole::Active } else { ColorRole::Bg },
            stroke: if self.focus { ColorRole::Focus } else { ColorRole::Border },
        }
    }

    /// The inset of the mark of a checked box: a quarter of the shorter
    /// side, and at least 2 pixels.
    pub open spec fn mark_inset(rect: Rectangle) -> u32 {
        let shortest = if rect.size.width < rect.size.height { rect.size.width } else { rect.size.height };
        if shortest / 4 > 2 { shortest / 4 } else { 2 }
    }

    /// The mark of a checked box in `rect`: the rectangle inset on every
    /// side by `mark_inset` (its size does not go below zero).
    pub open spec fn spec_mark(rect: Rectangle) -> Rectangle {
        let pad = Self::mark_inset(rect);
        Rectangle {
            top_left: Point { x: (rect.top_left.x + pad) as i32, y: (rect.top_left.y + pad) as i32 },
            size: Size {
                width: if rect.size.width >= 2 * pad { (rect.size.width - 2 * pad) as u32 } else { 0 },
                height: if rect.size.height >= 2 * pad { (rect.size.height - 2 * pad) as u32 } else { 0 },
            },
        }
    }

    /// The rectangle filled with the active colour when the box is checked.
    pub fn mark(&self, rect: &Rectangle) -> (m: Option<Rectangle>)
        requires
            self@.checked ==> fits_i32(rect.top_left.x + Self::mark_inset(*rect)) && fits_i32(
                rect.top_left.y + Self::mark_inset(*rect),
            ),
        ensures
            m == (if self@.checked { Some(Self::spec_mark(*rect)) } else { None }),
    {
        if self.checked {
            let shortest = if rect.size.width < rect.size.height { rect.size.width } else { rect.size.height };
            let q = shortest / 4;
            let pad: i32 = if q > 2 { q as i32 } else { 2 };
            Some(Rectangle {
                top_left: Point { x: rect.top_left.x + pad, y: rect.top_left.y + pad },
                size: Size {
                    width: rect.size.width.saturating_sub(pad as u32 * 2),
                    height: rect.size.height.saturating_sub(pad as u32 * 2),
                },
            })
        } else {
            None
        }
    }
}

impl Widget for Checkbox {
    fn interact(&mut self, interaction: Option<Interaction>)
        ensures
            final(self)@ == old(self)@.after_interact(interaction),
    {
        let new_pressed = match interaction {
            Some(Interaction::Click(_)) => true,
            _ => false,
        };
        if new_pressed && !self.held {
            self.checked = !self.checked;
            self.held = true;
            self.changed = true;
        }
        if !new_pressed {
            self.held = false;
        }
    }

    fn set_active(&mut self, active: bool)
        ensures
            final(self)@ == old(self)@,
    {
    }

    fn set_text(&mut self, text: &str) -> (r: Result<(), Error>)
        ensures
            r is Ok,
            final(self)@ == old(self)@,
    {
        Ok(())
    }

    fn size(&self) -> (s: Size)
        ensures
            s == self@.size,
    {
        self.size
    }

    fn mark_clean(&mut self)
        ensures
            final(self)@ == (CheckboxView { changed: false, ..old(self)@ }),
    {
        self.changed = false;
    }

    fn set_focus(&mut self, focus: bool)
        ensures
            final(self)@ == old(self)@.after_focus(focus),
    {
        if self.focus != focus {
            self.changed = true;
            self.focus = focus;
        }
    }

    fn set_focusable(&mut self, focusable: bool)
        ensures
            final(self)@ == old(self)@,
    {
    }

    fn is_focusable(&self) -> (b: bool)
        ensures
            b,
    {
        true
    }

    fn is_changed(&self) -> (b: bool)
        ensures
            b == self@.changed,
    {
        self.changed
    }

    fn is_pressed(&self) -> (b: bool)
        ensures
            !b,
    {
        false
    }
}

} // verus!
