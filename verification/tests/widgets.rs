use embed_ui::geometry::{Point, Rectangle, Size};
use embed_ui::input::Interaction;
use embed_ui::widgets::button::Button;
use embed_ui::widgets::checkbox::Checkbox;
use embed_ui::widgets::label::Label;
use embed_ui::widgets::radio_button::RadioButton;
use embed_ui::widgets::separator::Separator;
use embed_ui::widgets::textbox::Textbox;
use embed_ui::widgets::{
    frame_padding_of, text_placement, ColorRole, FramePaint, Horizontal, TextAlignment, TextAnchor, TextBaseline,
    TextPlacement, Vertical, Widget, MAX_TEXT_LEN,
};
use embed_ui::Error;

fn font() -> &'static embedded_graphics::mono_font::MonoFont<'static> {
    &profont::PROFONT_18_POINT
}

fn centered() -> TextAlignment {
    TextAlignment { horizontal: Horizontal::Center, vertical: Vertical::Center }
}

fn rect(x: i32, y: i32, w: u32, h: u32) -> Rectangle {
    Rectangle { top_left: Point { x, y }, size: Size { width: w, height: h } }
}

#[test]
fn a_new_button_must_be_drawn() {
    let b = Button::new("OK", font(), centered(), Size::new(50, 20), true).unwrap();
    assert_eq!(b.text(), "OK");
    assert!(b.is_changed());
    assert!(b.is_focusable());
    assert!(!b.is_pressed());
    assert!(!b.has_focus());
    assert_eq!(b.size(), Size::new(50, 20));
    assert_eq!(b.frame_paint(), FramePaint { fill: ColorRole::Bg, stroke: ColorRole::Border });
}

#[test]
fn too_long_a_text_is_a_capacity_error() {
    let long = "x".repeat(MAX_TEXT_LEN + 1);
    assert!(matches!(Button::new(&long, font(), centered(), Size::new(5, 5), false), Err(Error::Capacity(_))));
    assert!(matches!(Label::new(&long, font(), centered(), Size::new(5, 5)), Err(Error::Capacity(_))));
    assert!(matches!(Textbox::new(&long, font(), centered(), Size::new(5, 5), false), Err(Error::Capacity(_))));
    assert!(matches!(RadioButton::new(&long, font(), Size::new(5, 5), false), Err(Error::Capacity(_))));
    // Exactly 32 bytes fit; a two-byte character counts twice.
    let full = "x".repeat(MAX_TEXT_LEN);
    assert!(Label::new(&full, font(), centered(), Size::new(5, 5)).is_ok());
    let wide = "é".repeat(17);
    assert!(Label::new(&wide, font(), centered(), Size::new(5, 5)).is_err());
}

#[test]
fn set_text_reads_back() {
    let mut t = Textbox::new("DISCONNECTED", font(), centered(), Size::new(240, 30), false).unwrap();
    t.mark_clean();
    assert!(!t.is_changed());
    t.set_text("12.500").unwrap();
    assert_eq!(t.text(), "12.500");
    assert!(t.is_changed());
    let long = "y".repeat(40);
    assert!(matches!(t.set_text(&long), Err(Error::Capacity(_))));
    assert_eq!(t.text(), "");
}

#[test]
fn press_then_release() {
    let mut b = Button::new("RUN", font(), centered(), Size::new(160, 50), false).unwrap();
    b.mark_clean();
    b.interact(Some(Interaction::Click(Point::new(1, 1))));
    assert!(b.is_pressed());
    assert!(b.is_changed());
    assert_eq!(b.frame_paint().fill, ColorRole::Active);
    b.mark_clean();
    // A drag changes nothing.
    b.interact(Some(Interaction::Drag(Point::new(2, 2))));
    assert!(b.is_pressed());
    assert!(!b.is_changed());
    b.interact(Some(Interaction::Release(Point::new(2, 2))));
    assert!(!b.is_pressed());
    assert!(b.is_changed());
}

#[test]
fn a_pressed_button_lets_go_when_the_pointer_leaves() {
    let mut b = Button::new("<", font(), centered(), Size::new(50, 50), false).unwrap();
    b.interact(Some(Interaction::Click(Point::new(1, 1))));
    b.mark_clean();
    b.interact(None);
    assert!(!b.is_pressed());
    assert!(b.is_changed());
}

#[test]
fn focus_only_moves_on_a_focusable_widget() {
    let mut b = Button::new("A", font(), centered(), Size::new(5, 5), false).unwrap();
    b.mark_clean();
    b.set_focus(true);
    assert!(!b.has_focus());
    assert!(!b.is_changed());
    b.set_focusable(true);
    b.set_focus(true);
    assert!(b.has_focus());
    assert!(b.is_changed());
    assert_eq!(b.frame_paint().stroke, ColorRole::Focus);
}

#[test]
fn a_click_toggles_a_checkbox_once() {
    let mut c = Checkbox::new(Size::new(20, 20));
    let p = Point::new(3, 3);
    c.interact(Some(Interaction::Click(p)));
    assert!(c.is_checked());
    c.interact(Some(Interaction::Click(p)));
    assert!(c.is_checked());
    c.interact(None);
    c.interact(Some(Interaction::Click(p)));
    assert!(!c.is_checked());
}

#[test]
fn the_mark_of_a_checked_box_is_inset() {
    let mut c = Checkbox::new(Size::new(20, 20));
    assert_eq!(c.mark(&rect(0, 0, 20, 20)), None);
    c.interact(Some(Interaction::Click(Point::new(1, 1))));
    assert_eq!(c.mark(&rect(0, 0, 20, 20)), Some(rect(5, 5, 10, 10)));
    assert_eq!(c.mark(&rect(10, 10, 6, 6)), Some(rect(12, 12, 2, 2)));
    assert_eq!(c.mark(&rect(0, 0, 3, 40)), Some(rect(2, 2, 0, 36)));
    assert_eq!(c.frame_paint().fill, ColorRole::Active);
}

#[test]
fn an_active_radio_button_is_underlined() {
    let mut r = RadioButton::new("0.1", font(), Size::new(80, 50), false).unwrap();
    assert_eq!(r.underline(&rect(0, 350, 80, 50)), None);
    r.mark_clean();
    r.set_active(true);
    assert!(r.is_active());
    assert!(r.is_changed());
    let line = r.underline(&rect(0, 350, 80, 50)).unwrap();
    assert_eq!(line.start, Point::new(20, 397));
    assert_eq!(line.end, Point::new(59, 397));
    assert_eq!(line.color, ColorRole::Focus);
    assert_eq!(line.width, 5);
    r.mark_clean();
    r.set_active(true);
    assert!(!r.is_changed());
}

#[test]
fn radio_text_is_centred() {
    let r = RadioButton::new("10", font(), Size::new(80, 50), false).unwrap();
    let paint = r.text_paint(&rect(240, 350, 80, 50));
    assert_eq!(
        paint.placement,
        TextPlacement { anchor: TextAnchor::Center, baseline: TextBaseline::Middle, position: Point::new(280, 375) }
    );
    assert!(std::ptr::eq(paint.font, font()));
    assert_eq!(paint.color, ColorRole::Text);
}

#[test]
fn text_placement_for_each_alignment() {
    let r = rect(10, 20, 100, 40);
    let at = |h, v| text_placement(&r, TextAlignment { horizontal: h, vertical: v }, 5);
    assert_eq!(
        at(Horizontal::Left, Vertical::Top),
        TextPlacement { anchor: TextAnchor::Left, baseline: TextBaseline::Top, position: Point::new(15, 20) }
    );
    assert_eq!(
        at(Horizontal::Center, Vertical::Center),
        TextPlacement { anchor: TextAnchor::Center, baseline: TextBaseline::Middle, position: Point::new(59, 39) }
    );
    assert_eq!(
        at(Horizontal::Right, Vertical::Bottom),
        TextPlacement { anchor: TextAnchor::Right, baseline: TextBaseline::Bottom, position: Point::new(104, 59) }
    );
}

#[test]
fn framed_text_keeps_clear_of_the_border() {
    assert_eq!(frame_padding_of(2), 6);
    let b = Button::new(
        "A",
        font(),
        TextAlignment { horizontal: Horizontal::Left, vertical: Vertical::Center },
        Size::new(100, 40),
        false,
    )
    .unwrap();
    assert_eq!(b.text_paint(&rect(0, 0, 100, 40), 2).placement.position, Point::new(6, 19));
    let l = Label::new("B", font(), centered(), Size::new(50, 50)).unwrap();
    assert_eq!(l.text_paint(&rect(0, 50, 50, 50)).placement.position, Point::new(24, 74));
}

#[test]
fn a_label_is_drawn_in_its_font_and_the_text_colour() {
    let big = &profont::PROFONT_24_POINT;
    let l = Label::new("J1", big, centered(), Size::new(50, 50)).unwrap();
    let paint = l.text_paint(&rect(0, 50, 50, 50));
    assert!(std::ptr::eq(paint.font, big));
    assert_eq!(paint.color, ColorRole::Text);
    assert_eq!(paint.placement.anchor, TextAnchor::Center);
    assert_eq!(paint.placement.baseline, TextBaseline::Middle);
}

#[test]
fn separators_and_labels_do_not_take_focus() {
    let mut s = Separator::new(Size::new(320, 2));
    assert!(!s.is_focusable());
    s.set_focus(true);
    assert!(!s.is_focusable());
    let l = Label::new("J1", font(), centered(), Size::new(50, 50)).unwrap();
    assert!(!l.is_focusable());
}
