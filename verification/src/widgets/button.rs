use vstd::prelude::*;

use embedded_graphics::mono_font::MonoFont;

use crate::geometry::{Rectangle, Size, fits_i32};
use crate::input::Interaction;
use crate::text::{Text, text_as_str, text_chars, text_clear, text_from_str, text_push_str};
use crate::widgets::{
    ColorRole, FramePaint, TextAlignment, TextPaint, Widget, frame_padding, frame_padding_of, spec_text_placement,
    text_after_set, text_fits, text_placement, text_placement_defined,
};
use crate::Error;

verus! {

/// A push button with a text.
pub struct Button {
    text: Text,
    text_align: TextAlignment,
    font: &'static MonoFont<'static>,
    size: Size,
    focus: bool,
    focusable: bool,
    changed: bool,
    pressed: bool,
}

/// The state of a [`Button`].
pub struct ButtonView {
    pub text: Seq<char>,
    pub text_align: TextAlignment,
    pub font: &'static MonoFont<'static>,
    pub size: Size,
    pub focus: bool,
    pub focusable: bool,
    pub changed: bool,
    pub pressed: bool,
}

impl ButtonView {
    /// A click presses the button; a release, or the pointer going away,
    /// lets a pressed button go. Each of these marks the button as changed.
    pub open spec fn after_interact(self, i: Option<Interaction>) -> ButtonView {
        let clicked = i matches Some(Interaction::Click(_));
        let released = i matches Some(Interaction::Release(_));
        if clicked && !self.pressed {
            ButtonView { pressed: true, changed: true, ..self }
        } else if (released || i is None) && self.pressed {
            ButtonView { pressed: false, changed: true, ..self }
        } else {
            self
        }
    }

    pub open spec fn after_set_text(self, s: Seq<char>) -> ButtonView {
        ButtonView { text: text_after_set(s), changed: self.changed || text_fits(s), ..self }
    }

    /// Focus only moves on a focusable button, and only a real move marks it changed.
    pub open spec fn after_focus(self, focus: bool) -> ButtonView {
        if self.focus != focus && self.focusable {
            ButtonView { focus, changed: true, ..self }
        } else {
            self
        }
    }
}

impl View for Button {
    type V = ButtonView;

    closed spec fn view(&self) -> ButtonView {
        ButtonView {
            text: text_chars(self.text),
            text_align: self.text_align,
            font: self.font,
            size: self.size,
            focus: self.focus,
            focusable: self.focusable,
            changed: self.changed,
            pressed: self.pressed,
        }
    }
}

impl Button {
    /// A new, unfocused, unpressed button that must be drawn. Fails with
    /// `Error::Capacity` when the UTF-8 encoding of `text` exceeds 32 bytes.
    pub fn new(
        text: &str,
        font: &'static MonoFont<'static>,
        text_align: TextAlignment,
        size: Size,
        focusable: bool,
    ) -> (r: Result<Self, Error>)
        ensures
            r is Ok <==> text_fits(text@),
            r matches Err(e) ==> e is Capacity,
            r matches Ok(b) ==> b@ == (ButtonView {
                text: text@,
                text_align,
                font,
                size,
                focus: false,
                focusable,
                changed: true,
                pressed: false,
            }),
    {
        match text_from_str(text) {
            Ok(t) => Ok(Button {
                text: t,
                text_align,
                font,
                size,
                focus: false,
                focusable,
                changed: true,
                pressed: false,
            }),
            Err(e) => Err(Error::Capacity(e)),
        }
    }

    /// The button's text.
    pub fn text(&self) -> (s: &str)
        ensures
            s@ == self@.text,
    {
        text_as_str(&self.text)
    }

    pub fn text_align(&self) -> (a: TextAlignment)
        ensures
            a == self@.text_align,
    {
        self.text_align
    }

    pub fn font(&self) -> (f: &'static MonoFont<'static>)
        ensures
            f == self@.font,
    {
        self.font
    }

    pub fn has_focus(&self) -> (b: bool)
        ensures
            b == self@.focus,
    {
        self.focus
    }

    /// How the frame is drawn: the active colour while pressed, the
    /// background otherwise; the focus colour around it while focused.
    pub fn frame_paint(&self) -> (f: FramePaint)
        ensures
            f == (FramePaint {
                fill: if self@.pressed { ColorRole::Active } else { ColorRole::Bg },
                stroke: if self@.focus { ColorRole::Focus } else { ColorRole::Border },
            }),
    {
        FramePaint {
            fill: if self.pressed { ColorRole::Active } else { ColorRole::Bg },
            stroke: if self.focus { ColorRole::Focus } else { ColorRole::Border },
        }
    }

    /// How the text is drawn in `rect`: kept clear of borders
    /// `border_width` wide, in the widget's font and the style's text colour.
    pub fn text_paint(&self, rect: &Rectangle, border_width: u32) -> (p: TextPaint)
        requires
            fits_i32(frame_padding(border_width)),
            text_placement_defined(*rect, frame_padding(border_width)),
        ensures
            p.placement == spec_text_placement(*rect, self@.text_align, frame_padding(border_width)),
            p.font == self@.font,
            p.color == ColorRole::Text,
    {
        TextPaint {
            placement: text_placement(rect, self.text_align, frame_padding_of(border_width)),
            font: self.font,
            color: ColorRole::Text,
        }
    }
}

impl Widget for Button {
    fn interact(&mut self, interaction: Option<Interaction>)
        ensures
            final(self)@ == old(self)@.after_interact(interaction),
    {
        let (clicked, released) = match interaction {
            Some(Interaction::Click(_)) => (true, false),
            Some(Interaction::Release(_)) => (false, true),
            Some(Interaction::Drag(_)) => (false, false),
            None => (false, false),
        };
        if clicked && !self.pressed {
            self.pressed = true;
            self.changed = true;
        } else if (released || interaction.is_none()) && self.pressed {
            self.pressed = false;
            self.changed = true;
        }
    }

    fn set_active(&mut self, active: bool)
        ensures
            final(self)@ == old(self)@,
    {
    }

    fn set_text(&mut self, text: &str) -> (r: Result<(), Error>)
        ensures
            r is Ok <==> text_fits(text@),
            r matches Err(e) ==> e is Capacity,
            final(self)@ == old(self)@.after_set_text(text@),
    {
        text_clear(&mut self.text);
        match text_push_str(&mut self.text, text) {
            Ok(()) => {},
            Err(e) => {
                return Err(Error::Capacity(e));
            },
        }
        self.changed = true;
        Ok(())
    }

    fn mark_clean(&mut self)
        ensures
            final(self)@ == (ButtonView { changed: false, ..old(self)@ }),
    {
        self.changed = false;
    }

    fn set_focus(&mut self, focus: bool)
        ensures
            final(self)@ == old(self)@.after_focus(focus),
    {
        if self.focus != focus && self.focusable {
            self.changed = true;
            self.focus = focus;
        }
    }

    fn set_focusable(&mut self, focusable: bool)
        ensures
            final(self)@ == (ButtonView { focusable, ..old(self)@ }),
    {
        self.focusable = focusable;
    }

    fn size(&self) -> (s: Size)
        ensures
            s == self@.size,
    {
        self.size
    }

    fn is_changed(&self) -> (b: bool)
        ensures
            b == self@.changed,
    {
        self.changed
    }

    fn is_focusable(&self) -> (b: bool)
        ensures
            b == self@.focusable,
    {
        self.focusable
    }

    fn is_pressed(&self) -> (b: bool)
        ensures
            b == self@.pressed,
    {
        self.pressed
    }
}

} // verus!
