use vstd::prelude::*;

use crate::geometry::{Point, Rectangle, Size, fits_i32};
use crate::input::Interaction;
use crate::Error;

pub mod button;
pub mod checkbox;
pub mod label;
pub mod radio_button;
pub mod separator;
pub mod textbox;

use button::{Button, ButtonView};
use checkbox::{Checkbox, CheckboxView};
use label::{Label, LabelView};
use radio_button::{RadioButton, RadioButtonView};
use separator::{Separator, SeparatorView};
use textbox::{Textbox, TextboxView};

verus! {

/// The capacity, in bytes, of a widget's text.
pub const MAX_TEXT_LEN: usize = 32;

#[verifier::external_type_specification]
#[verifier::external_body]
pub struct ExMonoFont<'a>(embedded_graphics::mono_font::MonoFont<'a>);

/// Horizontal placement of a text inside its widget.
#[derive(Debug, Clone, Copy, PartialEq, Eq, Structural)]
pub enum Horizontal {
    Left,
    Center,
    Right,
}

/// Vertical placement of a text inside its widget.
#[derive(Debug, Clone, Copy, PartialEq, Eq, Structural)]
pub enum Vertical {
    Top,
    Center,
    Bottom,
}

/// Where a widget puts its text.
#[derive(Debug, Clone, Copy, PartialEq, Eq, Structural)]
pub struct TextAlignment {
    pub horizontal: Horizontal,
    pub vertical: Vertical,
}

impl Default for Horizontal {
    fn default() -> (h: Horizontal)
        ensures
            h == Horizontal::Center,
    {
        Horizontal::Center
    }
}

impl Default for Vertical {
    fn default() -> (v: Vertical)
        ensures
            v == Vertical::Center,
    {
        Vertical::Center
    }
}

impl Default for TextAlignment {
    fn default() -> (a: TextAlignment)
        ensures
            a == (TextAlignment { horizontal: Horizontal::Center, vertical: Vertical::Center }),
    {
        TextAlignment { horizontal: Horizontal::Center, vertical: Vertical::Center }
    }
}

/// A colour of the style, named by its role.
#[derive(Debug, Clone, Copy, PartialEq, Eq, Structural)]
pub enum ColorRole {
    ScreenBg,
    Bg,
    Active,
    Hover,
    Border,
    Text,
    Focus,
}

/// How a frame is drawn: filled with one colour, outlined with another,
/// with the style's border width.
#[derive(Debug, Clone, Copy, PartialEq, Eq, Structural)]
pub struct FramePaint {
    pub fill: ColorRole,
    pub stroke: ColorRole,
}

/// Which part of a text lies at its anchor, horizontally.
#[derive(Debug, Clone, Copy, PartialEq, Eq, Structural)]
pub enum TextAnchor {
    Left,
    Center,
    Right,
}

/// Which part of a text lies at its anchor, vertically.
#[derive(Debug, Clone, Copy, PartialEq, Eq, Structural)]
pub enum TextBaseline {
    Top,
    Middle,
    Bottom,
}

/// Where a text is drawn: the anchor point and which part of the text
/// lies on it.
#[derive(Debug, Clone, Copy, PartialEq, Eq, Structural)]
pub struct TextPlacement {
    pub anchor: TextAnchor,
    pub baseline: TextBaseline,
    pub position: Point,
}

/// How a widget's text is drawn: where, in which font and in which colour
/// of the style.
#[derive(Clone, Copy)]
pub struct TextPaint {
    pub placement: TextPlacement,
    pub font: &'static embedded_graphics::mono_font::MonoFont<'static>,
    pub color: ColorRole,
}

/// Where a widget's text goes in `rect`: against the left or right edge,
/// `padding` pixels inside it, or at the centre; at the top, bottom or
/// middle row.
pub open spec fn spec_text_placement(rect: Rectangle, align: TextAlignment, padding: int) -> TextPlacement {
    let br = rect.spec_bottom_right();
    let c = rect.spec_center();
    let (anchor, x) = match align.horizontal {
        Horizontal::Left => (TextAnchor::Left, (rect.top_left.x + padding) as i32),
        Horizontal::Center => (TextAnchor::Center, c.x),
        Horizontal::Right => (TextAnchor::Right, (br.x - padding) as i32),
    };
    let (baseline, y) = match align.vertical {
        Vertical::Top => (TextBaseline::Top, rect.top_left.y),
        Vertical::Center => (TextBaseline::Middle, c.y),
        Vertical::Bottom => (TextBaseline::Bottom, br.y),
    };
    TextPlacement { anchor, baseline, position: Point { x, y } }
}

/// Every point that the placement computes stays in `i32`.
pub open spec fn text_placement_defined(rect: Rectangle, padding: int) -> bool {
    &&& rect.bottom_right_defined()
    &&& rect.center_defined()
    &&& fits_i32(rect.top_left.x + padding)
    &&& fits_i32(rect.spec_bottom_right().x - padding)
}

/// Where a widget's text goes in `rect`, for the given alignment and
/// horizontal padding.
pub fn text_placement(rect: &Rectangle, align: TextAlignment, padding: i32) -> (p: TextPlacement)
    requires
        text_placement_defined(*rect, padding as int),
    ensures
        p == spec_text_placement(*rect, align, padding as int),
{
    let br = rect.bottom_right_or_default();
    let tl = rect.top_left;
    let center = rect.center();
    let padded_left = tl.x + padding;
    let padded_right = br.x - padding;
    let (anchor, x) = match align.horizontal {
        Horizontal::Left => (TextAnchor::Left, padded_left),
        Horizontal::Center => (TextAnchor::Center, center.x),
        Horizontal::Right => (TextAnchor::Right, padded_right),
    };
    let (baseline, y) = match align.vertical {
        Vertical::Top => (TextBaseline::Top, tl.y),
        Vertical::Center => (TextBaseline::Middle, center.y),
        Vertical::Bottom => (TextBaseline::Bottom, br.y),
    };
    TextPlacement { anchor, baseline, position: Point { x, y } }
}

/// The padding of framed text widgets: the border width and four pixels.
pub open spec fn frame_padding(border_width: u32) -> int {
    (border_width as i32) + 4
}

/// The padding of framed text widgets: the border width and four pixels.
pub fn frame_padding_of(border_width: u32) -> (p: i32)
    requires
        fits_i32(frame_padding(border_width)),
    ensures
        p == frame_padding(border_width),
{
    border_width as i32 + 4
}

/// What a text widget's text becomes when `set_text(s)` is called: the
/// buffer is emptied, then `s` is copied in when its UTF-8 encoding fits.
pub open spec fn text_after_set(s: Seq<char>) -> Seq<char> {
    if crate::text::utf8_len(s) <= MAX_TEXT_LEN {
        s
    } else {
        Seq::empty()
    }
}

/// `set_text(s)` succeeds exactly when the UTF-8 encoding of `s` fits.
pub open spec fn text_fits(s: Seq<char>) -> bool {
    crate::text::utf8_len(s) <= MAX_TEXT_LEN
}

/// The operations that the page and the user interface perform on a widget.
pub trait Widget {
    /// Answers a pointer interaction that hit the widget, or `None` when
    /// the pointer is elsewhere or idle.
    fn interact(&mut self, interaction: Option<Interaction>);

    fn set_active(&mut self, active: bool);

    fn set_text(&mut self, text: &str) -> Result<(), Error>;

    fn set_focus(&mut self, focus: bool);

    fn set_focusable(&mut self, focusable: bool);

    /// Records that the widget has been drawn.
    fn mark_clean(&mut self);

    fn size(&self) -> Size;

    /// The widget must be drawn again.
    fn is_changed(&self) -> bool;

    fn is_focusable(&self) -> bool;

    fn is_pressed(&self) -> bool;
}

/// The state of any widget, as the specifications see it.
pub enum WidgetView {
    Button(ButtonView),
    Checkbox(CheckboxView),
    Label(LabelView),
    RadioButton(RadioButtonView),
    Separator(SeparatorView),
    Textbox(TextboxView),
}

impl WidgetView {
    pub open spec fn size(self) -> Size {
        match self {
            WidgetView::Button(v) => v.size,
            WidgetView::Checkbox(v) => v.size,
            WidgetView::Label(v) => v.size,
            WidgetView::RadioButton(v) => v.size,
            WidgetView::Separator(v) => v.size,
            WidgetView::Textbox(v) => v.size,
        }
    }

    pub open spec fn changed(self) -> bool {
        match self {
            WidgetView::Button(v) => v.changed,
            WidgetView::Checkbox(v) => v.changed,
            WidgetView::Label(v) => v.changed,
            WidgetView::RadioButton(v) => v.changed,
            WidgetView::Separator(v) => v.changed,
            WidgetView::Textbox(v) => v.changed,
        }
    }

    /// The widget is drawn with the focus border.
    pub open spec fn has_focus(self) -> bool {
        match self {
            WidgetView::Button(v) => v.focus,
            WidgetView::Checkbox(v) => v.focus,
            WidgetView::RadioButton(v) => v.focus,
            WidgetView::Textbox(v) => v.focus,
            _ => false,
        }
    }

    pub open spec fn focusable(self) -> bool {
        match self {
            WidgetView::Button(v) => v.focusable,
            WidgetView::Checkbox(v) => true,
            WidgetView::Label(v) => false,
            WidgetView::RadioButton(v) => v.focusable,
            WidgetView::Separator(v) => false,
            WidgetView::Textbox(v) => v.focusable,
        }
    }

    pub open spec fn pressed(self) -> bool {
        match self {
            WidgetView::Button(v) => v.pressed,
            WidgetView::RadioButton(v) => v.pressed,
            _ => false,
        }
    }

    pub open spec fn after_interact(self, i: Option<Interaction>) -> WidgetView {
        match self {
            WidgetView::Button(v) => WidgetView::Button(v.after_interact(i)),
            WidgetView::Checkbox(v) => WidgetView::Checkbox(v.after_interact(i)),
            WidgetView::RadioButton(v) => WidgetView::RadioButton(v.after_interact(i)),
            _ => self,
        }
    }

    pub open spec fn after_active(self, active: bool) -> WidgetView {
        match self {
            WidgetView::RadioButton(v) => WidgetView::RadioButton(v.after_active(active)),
            _ => self,
        }
    }

    pub open spec fn after_set_text(self, s: Seq<char>) -> WidgetView {
        match self {
            WidgetView::Button(v) => WidgetView::Button(v.after_set_text(s)),
            WidgetView::Label(v) => WidgetView::Label(v.after_set_text(s)),
            WidgetView::RadioButton(v) => WidgetView::RadioButton(v.after_set_text(s)),
            WidgetView::Textbox(v) => WidgetView::Textbox(v.after_set_text(s)),
            _ => self,
        }
    }

    /// `set_text(s)` fails: the widget holds a text and `s` does not fit in it.
    pub open spec fn set_text_fails(self, s: Seq<char>) -> bool {
        match self {
            WidgetView::Checkbox(_) | WidgetView::Separator(_) => false,
            _ => !text_fits(s),
        }
    }

    pub open spec fn after_focus(self, focus: bool) -> WidgetView {
        match self {
            WidgetView::Button(v) => WidgetView::Button(v.after_focus(focus)),
            WidgetView::Checkbox(v) => WidgetView::Checkbox(v.after_focus(focus)),
            WidgetView::RadioButton(v) => WidgetView::RadioButton(v.after_focus(focus)),
            WidgetView::Textbox(v) => WidgetView::Textbox(v.after_focus(focus)),
            _ => self,
        }
    }

    pub open spec fn after_focusable(self, focusable: bool) -> WidgetView {
        match self {
            WidgetView::Button(v) => WidgetView::Button(ButtonView { focusable, ..v }),
            WidgetView::RadioButton(v) => WidgetView::RadioButton(RadioButtonView { focusable, ..v }),
            WidgetView::Textbox(v) => WidgetView::Textbox(TextboxView { focusable, ..v }),
            _ => self,
        }
    }

    pub open spec fn after_clean(self) -> WidgetView {
        match self {
            WidgetView::Button(v) => WidgetView::Button(ButtonView { changed: false, ..v }),
            WidgetView::Checkbox(v) => WidgetView::Checkbox(CheckboxView { changed: false, ..v }),
            WidgetView::Label(v) => WidgetView::Label(LabelView { changed: false, ..v }),
            WidgetView::RadioButton(v) => WidgetView::RadioButton(RadioButtonView { changed: false, ..v }),
            WidgetView::Separator(v) => WidgetView::Separator(SeparatorView { changed: false, ..v }),
            WidgetView::Textbox(v) => WidgetView::Textbox(TextboxView { changed: false, ..v }),
        }
    }
}

impl WidgetView {
    /// The text that a text widget holds; `None` for widgets without text.
    /// The font a text widget draws its text in.
    pub open spec fn font(self) -> Option<&'static embedded_graphics::mono_font::MonoFont<'static>> {
        match self {
            WidgetView::Button(v) => Some(v.font),
            WidgetView::Label(v) => Some(v.font),
            WidgetView::RadioButton(v) => Some(v.font),
            WidgetView::Textbox(v) => Some(v.font),
            _ => None,
        }
    }

    pub open spec fn text(self) -> Option<Seq<char>> {
        match self {
            WidgetView::Button(v) => Some(v.text),
            WidgetView::Label(v) => Some(v.text),
            WidgetView::RadioButton(v) => Some(v.text),
            WidgetView::Textbox(v) => Some(v.text),
            _ => None,
        }
    }
}

/// What `set_text` writes, the widget's text gives back: a text that fits
/// is read back as it was written; one that does not fit leaves the text
/// empty (and `set_text` fails).
pub proof fn lemma_set_text_reads_back(v: WidgetView, s: Seq<char>)
    requires
        v.text() is Some,
    ensures
        text_fits(s) ==> v.after_set_text(s).text() == Some(s) && !v.set_text_fails(s),
        !text_fits(s) ==> v.after_set_text(s).text() == Some(Seq::<char>::empty()) && v.set_text_fails(s),
{
}

/// A widget that can take the focus holds it once it is given the focus,
/// and has lost it once the focus is taken from it.
pub proof fn lemma_focus_flag_follows(v: WidgetView)
    requires
        v.focusable(),
    ensures
        v.after_focus(true).has_focus(),
        !v.after_focus(false).has_focus(),
        v.after_focus(true).focusable(),
        v.after_focus(false).focusable(),
{
}

/// The text's horizontal place depends on the horizontal alignment alone
/// and its vertical place on the vertical alignment alone: two alignments
/// that agree on one axis put the text at the same coordinate, with the
/// same anchor or baseline, on that axis.
pub proof fn lemma_text_axes_independent(rect: Rectangle, a: TextAlignment, b: TextAlignment, padding: int)
    ensures
        a.horizontal == b.horizontal ==> spec_text_placement(rect, a, padding).position.x
            == spec_text_placement(rect, b, padding).position.x && spec_text_placement(rect, a, padding).anchor
            == spec_text_placement(rect, b, padding).anchor,
        a.vertical == b.vertical ==> spec_text_placement(rect, a, padding).position.y
            == spec_text_placement(rect, b, padding).position.y && spec_text_placement(rect, a, padding).baseline
            == spec_text_placement(rect, b, padding).baseline,
{
}

/// The text's anchor sits on the edge or the centre that the alignment
/// names: `padding` inside the left or the right edge (the bottom right
/// pixel), on the centre, or on the top row, the middle row or the bottom
/// row, whatever the other axis asks.
pub proof fn lemma_text_on_named_edge(rect: Rectangle, a: TextAlignment, padding: int)
    requires
        text_placement_defined(rect, padding),
    ensures
        ({
            let p = spec_text_placement(rect, a, padding);
            let br = rect.spec_bottom_right();
            let c = rect.spec_center();
            &&& a.horizontal == Horizontal::Left ==> p.anchor == TextAnchor::Left && p.position.x == rect.top_left.x + padding
            &&& a.horizontal == Horizontal::Right ==> p.anchor == TextAnchor::Right && p.position.x == br.x - padding
            &&& a.horizontal == Horizontal::Center ==> p.anchor == TextAnchor::Center && p.position.x == c.x
            &&& a.vertical == Vertical::Top ==> p.baseline == TextBaseline::Top && p.position.y == rect.top_left.y
            &&& a.vertical == Vertical::Bottom ==> p.baseline == TextBaseline::Bottom && p.position.y == br.y
            &&& a.vertical == Vertical::Center ==> p.baseline == TextBaseline::Middle && p.position.y == c.y
        }),
{
}

/// A checkbox lets go of its hold on anything but a click (a release, a
/// drag or the pointer going away), without toggling; so a click, a
/// release and a click on a box that is not held leave it as it was.
pub proof fn lemma_checkbox_lets_go(v: CheckboxView, i: Option<Interaction>, p: Point, q: Point, r: Point)
    ensures
        !(i matches Some(Interaction::Click(_))) ==> !v.after_interact(i).held && v.after_interact(i).checked == v.checked,
        !v.held ==> v.after_interact(Some(Interaction::Click(p))).after_interact(Some(Interaction::Release(q))).after_interact(
            Some(Interaction::Click(r)),
        ).checked == v.checked,
{
}

/// A press and a release of a button leave it unpressed and to be redrawn.
pub proof fn lemma_press_then_release(v: ButtonView, p: Point, q: Point)
    requires
        !v.pressed,
    ensures
        v.after_interact(Some(Interaction::Click(p))).pressed,
        v.after_interact(Some(Interaction::Click(p))).changed,
        !v.after_interact(Some(Interaction::Click(p))).after_interact(Some(Interaction::Release(q))).pressed,
        v.after_interact(Some(Interaction::Click(p))).after_interact(Some(Interaction::Release(q))).changed,
{
}

/// A click toggles a checkbox once, however long it is held; a second
/// click, after the pointer let go, toggles it back.
pub proof fn lemma_click_toggles_once(v: CheckboxView, p: Point, q: Point)
    requires
        !v.held,
    ensures
        v.after_interact(Some(Interaction::Click(p))).checked == !v.checked,
        v.after_interact(Some(Interaction::Click(p))).after_interact(Some(Interaction::Click(q))).checked == !v.checked,
        v.after_interact(Some(Interaction::Click(p))).after_interact(None).after_interact(Some(Interaction::Click(q))).checked
            == v.checked,
{
}

/// Any of the toolkit's widgets.
pub enum WidgetKind {
    Button(Button),
    Checkbox(Checkbox),
    Label(Label),
    RadioButton(RadioButton),
    Separator(Separator),
    Textbox(Textbox),
}

impl View for WidgetKind {
    type V = WidgetView;

    open spec fn view(&self) -> WidgetView {
        match self {
            WidgetKind::Button(w) => WidgetView::Button(w@),
            WidgetKind::Checkbox(w) => WidgetView::Checkbox(w@),
            WidgetKind::Label(w) => WidgetView::Label(w@),
            WidgetKind::RadioButton(w) => WidgetView::RadioButton(w@),
            WidgetKind::Separator(w) => WidgetView::Separator(w@),
            WidgetKind::Textbox(w) => WidgetView::Textbox(w@),
        }
    }
}

impl Widget for WidgetKind {
    fn interact(&mut self, interaction: Option<Interaction>)
        ensures
            final(self)@ == old(self)@.after_interact(interaction),
    {
        match self {
            WidgetKind::Button(w) => w.interact(interaction),
            WidgetKind::Checkbox(w) => w.interact(interaction),
            WidgetKind::Label(w) => w.interact(interaction),
            WidgetKind::RadioButton(w) => w.interact(interaction),
            WidgetKind::Separator(w) => w.interact(interaction),
            WidgetKind::Textbox(w) => w.interact(interaction),
        }
    }

    fn set_active(&mut self, active: bool)
        ensures
            final(self)@ == old(self)@.after_active(active),
    {
        match self {
            WidgetKind::Button(w) => w.set_active(active),
            WidgetKind::Checkbox(w) => w.set_active(active),
            WidgetKind::Label(w) => w.set_active(active),
            WidgetKind::RadioButton(w) => w.set_active(active),
            WidgetKind::Separator(w) => w.set_active(active),
            WidgetKind::Textbox(w) => w.set_active(active),
        }
    }

    fn set_text(&mut self, text: &str) -> (r: Result<(), Error>)
        ensures
            r is Err <==> old(self)@.set_text_fails(text@),
            r matches Err(e) ==> e is Capacity,
            final(self)@ == old(self)@.after_set_text(text@),
    {
        match self {
            WidgetKind::Button(w) => w.set_text(text),
            WidgetKind::Checkbox(w) => w.set_text(text),
            WidgetKind::Label(w) => w.set_text(text),
            WidgetKind::RadioButton(w) => w.set_text(text),
            WidgetKind::Separator(w) => w.set_text(text),
            WidgetKind::Textbox(w) => w.set_text(text),
        }
    }

    fn set_focus(&mut self, focus: bool)
        ensures
            final(self)@ == old(self)@.after_focus(focus),
    {
        match self {
            WidgetKind::Button(w) => w.set_focus(focus),
            WidgetKind::Checkbox(w) => w.set_focus(focus),
            WidgetKind::Label(w) => w.set_focus(focus),
            WidgetKind::RadioButton(w) => w.set_focus(focus),
            WidgetKind::Separator(w) => w.set_focus(focus),
            WidgetKind::Textbox(w) => w.set_focus(focus),
        }
    }

    fn set_focusable(&mut self, focusable: bool)
        ensures
            final(self)@ == old(self)@.after_focusable(focusable),
    {
        match self {
            WidgetKind::Button(w) => w.set_focusable(focusable),
            WidgetKind::Checkbox(w) => w.set_focusable(focusable),
            WidgetKind::Label(w) => w.set_focusable(focusable),
            WidgetKind::RadioButton(w) => w.set_focusable(focusable),
            WidgetKind::Separator(w) => w.set_focusable(focusable),
            WidgetKind::Textbox(w) => w.set_focusable(focusable),
        }
    }

    fn mark_clean(&mut self)
        ensures
            final(self)@ == old(self)@.after_clean(),
    {
        match self {
            WidgetKind::Button(w) => w.mark_clean(),
            WidgetKind::Checkbox(w) => w.mark_clean(),
            WidgetKind::Label(w) => w.mark_clean(),
            WidgetKind::RadioButton(w) => w.mark_clean(),
            WidgetKind::Separator(w) => w.mark_clean(),
            WidgetKind::Textbox(w) => w.mark_clean(),
        }
    }

    fn size(&self) -> (s: Size)
        ensures
            s == self@.size(),
    {
        match self {
            WidgetKind::Button(w) => w.size(),
            WidgetKind::Checkbox(w) => w.size(),
            WidgetKind::Label(w) => w.size(),
            WidgetKind::RadioButton(w) => w.size(),
            WidgetKind::Separator(w) => w.size(),
            WidgetKind::Textbox(w) => w.size(),
        }
    }

    fn is_changed(&self) -> (b: bool)
        ensures
            b == self@.changed(),
    {
        match self {
            WidgetKind::Button(w) => w.is_changed(),
            WidgetKind::Checkbox(w) => w.is_changed(),
            WidgetKind::Label(w) => w.is_changed(),
            WidgetKind::RadioButton(w) => w.is_changed(),
            WidgetKind::Separator(w) => w.is_changed(),
            WidgetKind::Textbox(w) => w.is_changed(),
        }
    }

    fn is_focusable(&self) -> (b: bool)
        ensures
            b == self@.focusable(),
    {
        match self {
            WidgetKind::Button(w) => w.is_focusable(),
            WidgetKind::Checkbox(w) => w.is_focusable(),
            WidgetKind::Label(w) => w.is_focusable(),
            WidgetKind::RadioButton(w) => w.is_focusable(),
            WidgetKind::Separator(w) => w.is_focusable(),
            WidgetKind::Textbox(w) => w.is_focusable(),
        }
    }

    fn is_pressed(&self) -> (b: bool)
        ensures
            b == self@.pressed(),
    {
        match self {
            WidgetKind::Button(w) => w.is_pressed(),
            WidgetKind::Checkbox(w) => w.is_pressed(),
            WidgetKind::Label(w) => w.is_pressed(),
            WidgetKind::RadioButton(w) => w.is_pressed(),
            WidgetKind::Separator(w) => w.is_pressed(),
            WidgetKind::Textbox(w) => w.is_pressed(),
        }
    }
}

} // verus!
