use vstd::prelude::*;

use embedded_graphics::mono_font::MonoFont;

use crate::geometry::{Rectangle, Size, fits_i32};
use crate::input::Interaction;
use crate::text::{Text, text_as_str, text_chars, text_clear, text_from_str, text_push_str};
use crate::widgets::{
    ColorRole, FramePaint, TextAlignment, TextPaint, Widget, frame_padding, frame_padding_of, spec_text_placement,
    text_after_set, text_fits, text_placement, text_placement_defined,
};
use crate::Error;

verus! {

/// A framed box that shows a text.
pub struct Textbox {
    text: Text,
    text_align: TextAlignment,
    font: &'static MonoFont<'static>,
    size: Size,
    focus: bool,
    focusable: bool,
    changed: bool,
}

/// The state of a [`Textbox`].
pub struct TextboxView {
    pub text: Seq<char>,
    pub text_align: TextAlignment,
    pub font: &'static MonoFont<'static>,
    pub size: Size,
    pub focus: bool,
    pub focusable: bool,
    pub changed: bool,
}

impl TextboxView {
    pub open spec fn after_set_text(self, s: Seq<char>) -> TextboxView {
        TextboxView { text: text_after_set(s), changed: self.changed || text_fits(s), ..self }
    }

    /// Focus only moves on a focusable textbox, and only a real move marks it changed.
    pub open spec fn after_focus(self, focus: bool) -> TextboxView {
        if self.focus != focus && self.focusable {
            TextboxView { focus, changed: true, ..self }
        } else {
            self
        }
    }
}

impl View for Textbox {
    type V = TextboxView;

    closed spec fn view(&self) -> TextboxView {
        TextboxView {
            text: text_chars(self.text),
            text_align: self.text_align,
            font: self.font,
            size: self.size,
            focus: self.focus,
            focusable: self.focusable,
            changed: self.changed,
        }
    }
}

impl Textbox {
    /// A new, unfocused textbox that must be drawn. Fails with
    /// `Error::Capacity` when the UTF-8 encoding of `text` exceeds 32 bytes.
    pub fn new(
        text: &str,
        font: &'static MonoFont<'static>,
        text_align: TextAlignment,
        size: Size,
        focusable: bool,
    ) -> (r: Result<Self, Error>)
        ensures
            r is Ok <==> text_fits(text@),
            r matches Err(e) ==> e is Capacity,
            r matches Ok(t) ==> t@ == (TextboxView {
                text: text@,
                text_align,
                font,
                size,
                focus: false,
                focusable,
                changed: true,
            }),
    {
        match text_from_str(text) {
            Ok(t) => Ok(Textbox { text: t, text_align, font, size, focus: false, focusable, changed: true }),
            Err(e) => Err(Error::Capacity(e)),
        }
    }

    /// The textbox's text.
    pub fn text(&self) -> (s: &str)
        ensures
            s@ == self@.text,
    {
        text_as_str(&self.text)
    }

    pub fn text_align(&self) -> (a: TextAlignment)
        ensures
            a == self@.text_align,
    {
        self.text_align
    }

    pub fn font(&self) -> (f: &'static MonoFont<'static>)
        ensures
            f == self@.font,
    {
        self.font
    }

    pub fn has_focus(&self) -> (b: bool)
        ensures
            b == self@.focus,
    {
        self.focus
    }

    /// How the frame is drawn: the background colour, with the focus
    /// colour around it while focused.
    pub fn frame_paint(&self) -> (f: FramePaint)
        ensures
            f == (FramePaint { fill: ColorRole::Bg, stroke: if self@.focus { ColorRole::Focus } else { ColorRole::Border } }),
    {
        FramePaint { fill: ColorRole::Bg, stroke: if self.focus { ColorRole::Focus } else { ColorRole::Border } }
    }

    /// How the text is drawn in `rect`: kept clear of borders
    /// `border_width` wide, in the widget's font and the style's text colour.
    pub fn text_paint(&self, rect: &Rectangle, border_width: u32) -> (p: TextPaint)
        requires
            fits_i32(frame_padding(border_width)),
            text_placement_defined(*rect, frame_padding(border_width)),
        ensures
            p.placement == spec_text_placement(*rect, self@.text_align, frame_padding(border_width)),
            p.font == self@.font,
            p.color == ColorRole::Text,
    {
        TextPaint {
            placement: text_placement(rect, self.text_align, frame_padding_of(border_width)),
            font: self.font,
            color: ColorRole::Text,
        }
    }
}

impl Widget for Textbox {
    fn interact(&mut self, interaction: Option<Interaction>)
        ensures
            final(self)@ == old(self)@,
    {
    }

    fn set_active(&mut self, active: bool)
        ensures
            final(self)@ == old(self)@,
    {
    }

    fn set_text(&mut self, text: &str) -> (r: Result<(), Error>)
        ensures
            r is Ok <==> text_fits(text@),
            r matches Err(e) ==> e is Capacity,
            final(self)@ == old(self)@.after_set_text(text@),
    {
        text_clear(&mut self.text);
        match text_push_str(&mut self.text, text) {
            Ok(()) => {},
            Err(e) => {
                return Err(Error::Capacity(e));
            },
        }
        self.changed = true;
        Ok(())
    }

    fn set_focus(&mut self, focus: bool)
        ensures
            final(self)@ == old(self)@.after_focus(focus),
    {
        if self.focus != focus && self.focusable {
            self.changed = true;
            self.focus = focus;
        }
    }

    fn set_focusable(&mut self, focusable: bool)
        ensures
            final(self)@ == (TextboxView { focusable, ..old(self)@ }),
    {
        self.focusable = focusable;
    }

    fn mark_clean(&mut self)
        ensures
            final(self)@ == (TextboxView { changed: false, ..old(self)@ }),
    {
        self.changed = false;
    }

    fn size(&self) -> (s: Size)
        ensures
            s == self@.size,
    {
        self.size
    }

    fn is_changed(&self) -> (b: bool)
        ensures
            b == self@.changed,
    {
        self.changed
    }

    fn is_focusable(&self) -> (b: bool)
        ensures
            b == self@.focusable,
    {
        self.focusable
    }

    fn is_pressed(&self) -> (b: bool)
        ensures
            !b,
    {
        false
    }
}

} // verus!
