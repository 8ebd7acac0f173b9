use vstd::prelude::*;

use embedded_graphics::mono_font::MonoFont;

use crate::geometry::{Point, Rectangle, Size, fits_i32, i32_div, trunc_div};
use crate::input::Interaction;
use crate::text::{Text, text_as_str, text_chars, text_clear, text_from_str, text_push_str};
use crate::widgets::{
    ColorRole, FramePaint, TextAnchor, TextBaseline, TextPaint, TextPlacement, Widget, text_after_set, text_fits,
};
use crate::Error;

verus! {

/// The stroke width of the underline of the active radio button.
pub const UNDERLINE_WIDTH: u32 = 5;

/// A straight line drawn with a colour of the style and a stroke width.
#[derive(Debug, Clone, Copy, PartialEq, Eq, Structural)]
pub struct LinePaint {
    pub start: Point,
    pub end: Point,
    pub color: ColorRole,
    pub width: u32,
}

/// A button of a group of which one is active; the active one is underlined.
pub struct RadioButton {
    text: Text,
    font: &'static MonoFont<'static>,
    size: Size,
    focus: bool,
    focusable: bool,
    changed: bool,
    pressed: bool,
    toggled: bool,
}

/// The state of a [`RadioButton`]; `toggled` is set on the active button.
pub struct RadioButtonView {
    pub text: Seq<char>,
    pub font: &'static MonoFont<'static>,
    pub size: Size,
    pub focus: bool,
    pub focusable: bool,
    pub changed: bool,
    pub pressed: bool,
    pub toggled: bool,
}

impl RadioButtonView {
    /// A click presses the button; a release, or the pointer going away,
    /// lets a pressed button go. Each of these marks the button as changed.
    pub open spec fn after_interact(self, i: Option<Interaction>) -> RadioButtonView {
        let clicked = i matches Some(Interaction::Click(_));
        let released = i matches Some(Interaction::Release(_));
        if clicked && !self.pressed {
            RadioButtonView { pressed: true, changed: true, ..self }
        } else if (released || i is None) && self.pressed {
            RadioButtonView { pressed: false, changed: true, ..self }
        } else {
            self
        }
    }

    pub open spec fn after_set_text(self, s: Seq<char>) -> RadioButtonView {
        RadioButtonView { text: text_after_set(s), changed: self.changed || text_fits(s), ..self }
    }

    /// Only a real change of the active state marks the button changed.
    pub open spec fn after_active(self, active: bool) -> RadioButtonView {
        if self.toggled != active {
            RadioButtonView { toggled: active, changed: true, ..self }
        } else {
            self
        }
    }

    /// Focus only moves on a focusable button, and only a real move marks it changed.
    pub open spec fn after_focus(self, focus: bool) -> RadioButtonView {
        if self.focus != focus && self.focusable {
            RadioButtonView { focus, changed: true, ..self }
        } else {
            self
        }
    }
}

impl View for RadioButton {
    type V = RadioButtonView;

    closed spec fn view(&self) -> RadioButtonView {
        RadioButtonView {
            text: text_chars(self.text),
            font: self.font,
            size: self.size,
            focus: self.focus,
            focusable: self.focusable,
            changed: self.changed,
            pressed: self.pressed,
            toggled: self.toggled,
        }
    }
}

impl RadioButton {
    /// A new inactive, unfocused, unpressed button that must be drawn. Fails
    /// with `Error::Capacity` when the UTF-8 encoding of `text` exceeds 32 bytes.
    pub fn new(
        text: &str,
        font: &'static MonoFont<'static>,
        size: Size,
        focusable: bool,
    ) -> (r: Result<Self, Error>)
        ensures
            r is Ok <==> text_fits(text@),
            r matches Err(e) ==> e is Capacity,
            r matches Ok(b) ==> b@ == (RadioButtonView {
                text: text@,
                font,
                size,
                focus: false,
                focusable,
                changed: true,
                pressed: false,
                toggled: false,
            }),
    {
        match text_from_str(text) {
            Ok(t) => Ok(RadioButton {
                text: t,
                font,
                size,
                focus: false,
                focusable,
                changed: true,
                pressed: false,
                toggled: false,
            }),
            Err(e) => Err(Error::Capacity(e)),
        }
    }

    /// The button's text.
    pub fn text(&self) -> (s: &str)
        ensures
            s@ == self@.text,
    {
        text_as_str(&self.text)
    }

    pub fn font(&self) -> (f: &'static MonoFont<'static>)
        ensures
            f == self@.font,
    {
        self.font
    }

    pub fn has_focus(&self) -> (b: bool)
        ensures
            b == self@.focus,
    {
        self.focus
    }

    pub fn is_active(&self) -> (b: bool)
        ensures
            b == self@.toggled,
    {
        self.toggled
    }

    /// How the frame is drawn: the active colour while pressed, the
    /// background otherwise; the focus colour around it while focused.
    pub fn frame_paint(&self) -> (f: FramePaint)
        ensures
            f == (FramePaint {
                fill: if self@.pressed { ColorRole::Active } else { ColorRole::Bg },
                stroke: if self@.focus { ColorRole::Focus } else { ColorRole::Border },
            }),
    {
        FramePaint {
            fill: if self.pressed { ColorRole::Active } else { ColorRole::Bg },
            stroke: if self.focus { ColorRole::Focus } else { ColorRole::Border },
        }
    }

    /// The underline of the active button in `rect`: from a quarter to
    /// three quarters of the width, just above the bottom edge.
    pub open spec fn spec_underline(rect: Rectangle) -> LinePaint {
        let w = rect.size.width as i32 as int;
        let y = (rect.top_left.y + (rect.size.height as i32 as int) - trunc_div(UNDERLINE_WIDTH as i32 as int, 2) - 1) as i32;
        LinePaint {
            start: Point { x: (rect.top_left.x + trunc_div(w, 4)) as i32, y },
            end: Point { x: (rect.top_left.x + trunc_div(w * 3, 4) - 1) as i32, y },
            color: ColorRole::Focus,
            width: UNDERLINE_WIDTH,
        }
    }

    /// The arithmetic of the underline stays in `i32`.
    pub open spec fn underline_defined(rect: Rectangle) -> bool {
        let w = rect.size.width as i32 as int;
        &&& fits_i32(rect.top_left.x + trunc_div(w, 4))
        &&& fits_i32(w * 3)
        &&& fits_i32(rect.top_left.x + trunc_div(w * 3, 4))
        &&& fits_i32(rect.top_left.x + trunc_div(w * 3, 4) - 1)
        &&& fits_i32(rect.top_left.y + (rect.size.height as i32 as int))
        &&& fits_i32(rect.top_left.y + (rect.size.height as i32 as int) - trunc_div(UNDERLINE_WIDTH as i32 as int, 2) - 1)
    }

    /// The underline drawn under the button in `rect` while it is active.
    pub fn underline(&self, rect: &Rectangle) -> (l: Option<LinePaint>)
        requires
            self@.toggled ==> Self::underline_defined(*rect),
        ensures
            l == (if self@.toggled { Some(Self::spec_underline(*rect)) } else { None }),
    {
        if self.toggled {
            let line_thickness: u32 = UNDERLINE_WIDTH;
            let w = rect.size.width as i32;
            let start_x = rect.top_left.x + i32_div(w, 4);
            let end_x = rect.top_left.x + i32_div(w * 3, 4) - 1;
            let y = rect.top_left.y + rect.size.height as i32 - i32_div(line_thickness as i32, 2) - 1;
            Some(LinePaint {
                start: Point { x: start_x, y },
                end: Point { x: end_x, y },
                color: ColorRole::Focus,
                width: line_thickness,
            })
        } else {
            None
        }
    }

    /// How the text is drawn in `rect`: centred on the point half the
    /// width and half the height from the top left corner, in the button's
    /// font and the style's text colour.
    pub fn text_paint(&self, rect: &Rectangle) -> (p: TextPaint)
        requires
            fits_i32(rect.top_left.x + rect.size.width / 2),
            fits_i32(rect.top_left.y + rect.size.height / 2),
        ensures
            p.placement == (TextPlacement {
                anchor: TextAnchor::Center,
                baseline: TextBaseline::Middle,
                position: Point {
                    x: (rect.top_left.x + rect.size.width / 2) as i32,
                    y: (rect.top_left.y + rect.size.height / 2) as i32,
                },
            }),
            p.font == self@.font,
            p.color == ColorRole::Text,
    {
        let placement = TextPlacement {
            anchor: TextAnchor::Center,
            baseline: TextBaseline::Middle,
            position: Point {
                x: rect.top_left.x + (rect.size.width / 2) as i32,
                y: rect.top_left.y + (rect.size.height / 2) as i32,
            },
        };
        TextPaint { placement, font: self.font, color: ColorRole::Text }
    }

}

impl Widget for RadioButton {
    fn interact(&mut self, interaction: Option<Interaction>)
        ensures
            final(self)@ == old(self)@.after_interact(interaction),
    {
        let (clicked, released) = match interaction {
            Some(Interaction::Click(_)) => (true, false),
            Some(Interaction::Release(_)) => (false, true),
            Some(Interaction::Drag(_)) => (false, false),
            None => (false, false),
        };
        if clicked && !self.pressed {
            self.pressed = true;
            self.changed = true;
        } else if (released || interaction.is_none()) && self.pressed {
            self.pressed = false;
            self.changed = true;
        }
    }

    fn set_text(&mut self, text: &str) -> (r: Result<(), Error>)
        ensures
            r is Ok <==> text_fits(text@),
            r matches Err(e) ==> e is Capacity,
            final(self)@ == old(self)@.after_set_text(text@),
    {
        text_clear(&mut self.text);
        match text_push_str(&mut self.text, text) {
            Ok(()) => {},
            Err(e) => {
                return Err(Error::Capacity(e));
            },
        }
        self.changed = true;
        Ok(())
    }

    fn set_active(&mut self, active: bool)
        ensures
            final(self)@ == old(self)@.after_active(active),
    {
        if self.toggled != active {
            self.toggled = active;
            self.changed = true;
        }
    }

    fn set_focus(&mut self, focus: bool)
        ensures
            final(self)@ == old(self)@.after_focus(focus),
    {
        if self.focus != focus && self.focusable {
            self.changed = true;
            self.focus = focus;
        }
    }

    fn set_focusable(&mut self, focusable: bool)
        ensures
            final(self)@ == (RadioButtonView { focusable, ..old(self)@ }),
    {
        self.focusable = focusable;
    }

    fn mark_clean(&mut self)
        ensures
            final(self)@ == (RadioButtonView { changed: false, ..old(self)@ }),
    {
        self.changed = false;
    }

    fn size(&self) -> (s: Size)
        ensures
            s == self@.size,
    {
        self.size
    }

    fn is_focusable(&self) -> (b: bool)
        ensures
            b == self@.focusable,
    {
        self.focusable
    }

    fn is_changed(&self) -> (b: bool)
        ensures
            b == self@.changed,
    {
        self.changed
    }

    fn is_pressed(&self) -> (b: bool)
        ensures
            b == self@.pressed,
    {
        self.pressed
    }
}

} // verus!
