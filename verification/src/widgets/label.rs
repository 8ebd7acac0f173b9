use vstd::prelude::*;

use embedded_graphics::mono_font::MonoFont;

use crate::geometry::{Rectangle, Size};
use crate::input::Interaction;
use crate::text::{Text, text_as_str, text_chars, text_clear, text_from_str, text_push_str};
use crate::widgets::{
    ColorRole, TextAlignment, TextPaint, Widget, spec_text_placement, text_after_set, text_fits, text_placement,
    text_placement_defined,
};
use crate::Error;

verus! {

/// A text without a frame; it never takes the focus.
pub struct Label {
    text: Text,
    text_align: TextAlignment,
    font: &'static MonoFont<'static>,
    size: Size,
    changed: bool,
}

/// The state of a [`Label`].
pub struct LabelView {
    pub text: Seq<char>,
    pub text_align: TextAlignment,
    pub font: &'static MonoFont<'static>,
    pub size: Size,
    pub changed: bool,
}

impl LabelView {
    pub open spec fn after_set_text(self, s: Seq<char>) -> LabelView {
        LabelView { text: text_after_set(s), changed: self.changed || text_fits(s), ..self }
    }
}

impl View for Label {
    type V = LabelView;

    closed spec fn view(&self) -> LabelView {
        LabelView {
            text: text_chars(self.text),
            text_align: self.text_align,
            font: self.font,
            size: self.size,
            changed: self.changed,
        }
    }
}

impl Label {
    /// A new label that must be drawn. Fails with `Error::Capacity` when the
    /// UTF-8 encoding of `text` exceeds 32 bytes.
    pub fn new(
        text: &str,
        font: &'static MonoFont<'static>,
        text_align: TextAlignment,
        size: Size,
    ) -> (r: Result<Self, Error>)
        ensures
            r is Ok <==> text_fits(text@),
            r matches Err(e) ==> e is Capacity,
            r matches Ok(l) ==> l@ == (LabelView { text: text@, text_align, font, size, changed: true }),
    {
        match text_from_str(text) {
            Ok(t) => Ok(Label { text: t, font, text_align, size, changed: true }),
            Err(e) => Err(Error::Capacity(e)),
        }
    }

    /// The label's text.
    pub fn text(&self) -> (s: &str)
        ensures
            s@ == self@.text,
    {
        text_as_str(&self.text)
    }

    pub fn text_align(&self) -> (a: TextAlignment)
        ensures
            a == self@.text_align,
    {
        self.text_align
    }

    pub fn font(&self) -> (f: &'static MonoFont<'static>)
        ensures
            f == self@.font,
    {
        self.font
    }

    /// How the text is drawn in `rect`: against its edges, without
    /// padding, in the label's font and the style's text colour.
    pub fn text_paint(&self, rect: &Rectangle) -> (p: TextPaint)
        requires
            text_placement_defined(*rect, 0),
        ensures
            p.placement == spec_text_placement(*rect, self@.text_align, 0),
            p.font == self@.font,
            p.color == ColorRole::Text,
    {
        TextPaint { placement: text_placement(rect, self.text_align, 0), font: self.font, color: ColorRole::Text }
    }
}

impl Widget for Label {
    fn interact(&mut self, interaction: Option<Interaction>)
        ensures
            final(self)@ == old(self)@,
    {
    }

    fn set_active(&mut self, active: bool)
        ensures
            final(self)@ == old(self)@,
    {
    }

    fn set_text(&mut self, text: &str) -> (r: Result<(), Error>)
        ensures
            r is Ok <==> text_fits(text@),
            r matches Err(e) ==> e is Capacity,
            final(self)@ == old(self)@.after_set_text(text@),
    {
        text_clear(&mut self.text);
        match text_push_str(&mut self.text, text) {
            Ok(()) => {},
            Err(e) => {
                return Err(Error::Capacity(e));
            },
        }
        self.changed = true;
        Ok(())
    }

    fn mark_clean(&mut self)
        ensures
            final(self)@ == (LabelView { changed: false, ..old(self)@ }),
    {
        self.changed = false;
    }

    fn size(&self) -> (s: Size)
        ensures
            s == self@.size,
    {
        self.size
    }

    fn is_changed(&self) -> (b: bool)
        ensures
            b == self@.changed,
    {
        self.changed
    }

    fn set_focus(&mut self, focus: bool)
        ensures
            final(self)@ == old(self)@,
    {
    }

    fn set_focusable(&mut self, focusable: bool)
        ensures
            final(self)@ == old(self)@,
    {
    }

    fn is_focusable(&self) -> (b: bool)
        ensures
            !b,
    {
        false
    }

    fn is_pressed(&self) -> (b: bool)
        ensures
            !b,
    {
        false
    }
}

} // verus!
