use embed_ui::geometry::{Point, Rectangle, Size};
use embed_ui::input::{Event, Interaction};
use embed_ui::main_page::{build_main_page, JogAction, UiState, STRIP_COUNT, STRIP_H};
use embed_ui::page::{Align, HorizontalAlign, Page, VerticalAlign};
use embed_ui::painter::SplitPainter;
use embed_ui::style::Style;
use embed_ui::ui::Ui;
use embed_ui::widgets::button::Button;
use embed_ui::widgets::checkbox::Checkbox;
use embed_ui::widgets::label::Label;
use embed_ui::widgets::{Horizontal, TextAlignment, Vertical, Widget, WidgetKind};
use embed_ui::Error;

fn font() -> &'static embedded_graphics::mono_font::MonoFont<'static> {
    &profont::PROFONT_18_POINT
}

fn centered() -> TextAlignment {
    TextAlignment { horizontal: Horizontal::Center, vertical: Vertical::Center }
}

fn rect(x: i32, y: i32, w: u32, h: u32) -> Rectangle {
    Rectangle { top_left: Point { x, y }, size: Size { width: w, height: h } }
}

fn left_top() -> Align {
    Align { horizontal: HorizontalAlign::Left, vertical: VerticalAlign::Top }
}

fn button(focusable: bool) -> WidgetKind {
    WidgetKind::Button(Button::new("B", font(), centered(), Size::new(40, 20), focusable).unwrap())
}

fn label() -> WidgetKind {
    WidgetKind::Label(Label::new("L", font(), centered(), Size::new(40, 20)).unwrap())
}

fn style() -> Style<u32> {
    Style {
        screen_bg: 0,
        bg_color: 1,
        active_color: 2,
        hover_color: 3,
        border_color: 4,
        text_color: 5,
        focus_color: 6,
        border_width: 2,
        font: font(),
    }
}

/// focusable pattern: label, button, label, button, button
fn sample_page() -> Page<8> {
    let mut p: Page<8> = Page::new(Size::new(100, 100), true, left_top());
    p.insert(label()).unwrap();
    p.insert(button(true)).unwrap();
    p.insert(label()).unwrap();
    p.insert(button(true)).unwrap();
    p.insert(button(true)).unwrap();
    p
}

#[test]
fn ids_are_insertion_indices() {
    let mut p: Page<4> = Page::new(Size::new(100, 100), true, left_top());
    assert_eq!(p.insert(label()).unwrap(), 0);
    assert_eq!(p.insert(button(false)).unwrap(), 1);
    assert_eq!(p.len(), 2);
    assert_eq!(*p.get(1).unwrap().1, rect(40, 0, 40, 20));
    assert!(p.get(2).is_none());
    let big = WidgetKind::Checkbox(Checkbox::new(Size::new(101, 5)));
    assert!(matches!(p.insert(big), Err(Error::NoSpaceLeft)));
    assert_eq!(p.len(), 2);
    assert_eq!(p.insert_next_row(button(false)).unwrap(), 2);
    assert_eq!(*p.get(2).unwrap().1, rect(0, 20, 40, 20));
}

#[test]
fn the_first_widget_takes_the_focus_when_it_can() {
    let mut p: Page<4> = Page::new(Size::new(100, 100), true, left_top());
    p.insert(button(true)).unwrap();
    assert_eq!(p.focused(), 0);
    assert!(p.get(0).unwrap().0.is_changed());
    let mut q: Page<4> = Page::new(Size::new(100, 100), true, left_top());
    q.insert(label()).unwrap();
    q.insert(button(true)).unwrap();
    assert_eq!(q.focused(), 0);
}

#[test]
fn focus_moves_cyclically_over_focusable_widgets() {
    let mut p = sample_page();
    assert!(!p.focus_set(0));
    assert!(!p.focus_set(9));
    assert!(p.focus_set(1));
    p.focus_next();
    assert_eq!(p.focused(), 3);
    p.focus_next();
    assert_eq!(p.focused(), 4);
    p.focus_next();
    assert_eq!(p.focused(), 1);
    p.focus_prev();
    assert_eq!(p.focused(), 4);
}

#[test]
fn focus_prev_undoes_focus_next() {
    let mut p = sample_page();
    for start in [1usize, 3, 4] {
        assert!(p.focus_set(start));
        p.focus_next();
        p.focus_prev();
        assert_eq!(p.focused(), start);
    }
}

#[test]
fn focus_stays_when_nothing_can_take_it() {
    let mut p: Page<4> = Page::new(Size::new(100, 100), true, left_top());
    p.insert(label()).unwrap();
    p.insert(label()).unwrap();
    p.focus_next();
    assert_eq!(p.focused(), 0);
    p.focus_prev();
    assert_eq!(p.focused(), 0);
}

#[test]
fn processing_routes_the_interaction_and_raises_events() {
    let painter: SplitPainter<4, 100, 25> = SplitPainter::new();
    let mut ui: Ui<8, 1, u32, _> = Ui::new([sample_page()], painter, style());
    // The button at index 3 lies at (40, 20).
    ui.begin_frame(Some(Interaction::Click(Point::new(45, 25))));
    assert_eq!(ui.drain_events(), Some(Event { page_idx: 0, widget_id: 3 }));
    assert_eq!(ui.drain_events(), None);
    assert!(ui.current_page().get(3).unwrap().0.is_pressed());
    ui.end_frame();
    assert!(!ui.current_page().get(3).unwrap().0.is_changed());
    // Nothing hit: the pressed button lets go and raises no event.
    ui.begin_frame(Some(Interaction::Release(Point::new(99, 99))));
    assert_eq!(ui.drain_events(), None);
    assert!(!ui.current_page().get(3).unwrap().0.is_pressed());
}

#[test]
fn an_idle_frame_raises_nothing() {
    let painter: SplitPainter<4, 100, 25> = SplitPainter::new();
    let mut ui: Ui<8, 1, u32, _> = Ui::new([sample_page()], painter, style());
    ui.begin_frame(None);
    assert_eq!(ui.drain_events(), None);
}

#[test]
fn a_full_queue_drops_events() {
    // A queue for a page of 2 widgets holds one event.
    let mut p: Page<2> = Page::new(Size::new(100, 100), true, left_top());
    p.insert(button(false)).unwrap();
    p.insert(button(false)).unwrap();
    let painter: SplitPainter<4, 100, 25> = SplitPainter::new();
    let mut ui: Ui<2, 1, u32, _> = Ui::new([p], painter, style());
    ui.begin_frame(Some(Interaction::Click(Point::new(1, 1))));
    ui.begin_frame(Some(Interaction::Click(Point::new(45, 1))));
    assert_eq!(ui.drain_events(), Some(Event { page_idx: 0, widget_id: 0 }));
    assert_eq!(ui.drain_events(), None);
}

#[test]
fn pages_wrap_both_ways() {
    let painter: SplitPainter<4, 100, 25> = SplitPainter::new();
    let mut ui: Ui<8, 3, u32, _> = Ui::new([sample_page(), sample_page(), sample_page()], painter, style());
    assert_eq!(ui.active_page(), 0);
    ui.prev_page();
    assert_eq!(ui.active_page(), 2);
    ui.next_page();
    assert_eq!(ui.active_page(), 0);
    ui.next_page();
    ui.next_page();
    assert_eq!(ui.active_page(), 2);
    ui.next_page();
    assert_eq!(ui.active_page(), 0);
    assert!(ui.switch_to_page(1));
    assert_eq!(ui.active_page(), 1);
    assert!(!ui.switch_to_page(3));
    assert_eq!(ui.active_page(), 1);
    ui.next_page();
    ui.prev_page();
    assert_eq!(ui.active_page(), 1);
}

#[test]
fn dirty_strips_follow_changed_widgets() {
    let mut p: Page<4> = Page::new(Size::new(100, 100), true, left_top());
    // Rows of 20 pixels: the label at y 0..20, the button at y 20..40.
    p.insert(WidgetKind::Label(Label::new("L", font(), centered(), Size::new(100, 20)).unwrap())).unwrap();
    p.insert(WidgetKind::Button(Button::new("B", font(), centered(), Size::new(100, 20), false).unwrap()))
        .unwrap();
    let painter: SplitPainter<4, 100, 25> = SplitPainter::new();
    // Both are new: strips 0 and 1 (of 25 pixels) need painting.
    assert_eq!(painter.dirty_strip_mask(&p, 25, 4), 0b11);
    p.get_mut(0).unwrap().mark_clean();
    assert_eq!(painter.dirty_strip_mask(&p, 25, 4), 0b11);
    p.get_mut(1).unwrap().mark_clean();
    assert_eq!(painter.dirty_strip_mask(&p, 25, 4), 0);
    p.get_mut(0).unwrap().set_text("M").unwrap();
    assert_eq!(painter.dirty_strip_mask(&p, 25, 4), 0b1);
    // A strip count of 1 folds every row into strip 0.
    assert_eq!(painter.dirty_strip_mask(&p, 10, 1), 0b1);
}

#[test]
fn strips_list_the_widgets_they_meet() {
    let mut p: Page<4> = Page::new(Size::new(100, 100), true, left_top());
    p.insert(WidgetKind::Label(Label::new("L", font(), centered(), Size::new(100, 20)).unwrap())).unwrap();
    p.insert(WidgetKind::Label(Label::new("M", font(), centered(), Size::new(100, 20)).unwrap())).unwrap();
    let painter: SplitPainter<4, 100, 25> = SplitPainter::new();
    assert_eq!(painter.strip_rect(1), rect(0, 25, 100, 25));
    assert_eq!(painter.strip_widgets(&p, 0), vec![(0, rect(0, 0, 100, 20)), (1, rect(0, 20, 100, 20))]);
    assert_eq!(painter.strip_widgets(&p, 1), vec![(1, rect(0, -5, 100, 20))]);
    assert!(painter.strip_widgets(&p, 2).is_empty());
}

#[test]
fn the_jog_screen_layout() {
    let (page, e) = build_main_page::<30>().unwrap();
    assert_eq!(page.len(), 29);
    assert_eq!((e.btn_left, e.btn_menu, e.btn_right), (0, 1, 2));
    assert_eq!(e.joint_textboxes, [4, 7, 10, 13, 16, 19]);
    assert_eq!(e.joint_zeros, [5, 8, 11, 14, 17, 20]);
    assert_eq!(e.steps_radio, [21, 22, 23, 24]);
    assert_eq!((e.status_textbox, e.mode_textbox, e.btn_run, e.btn_reset), (25, 26, 27, 28));
    assert_eq!(*page.get(1).unwrap().1, rect(50, 0, 220, 50));
    assert_eq!(*page.get(7).unwrap().1, rect(50, 100, 220, 50));
    assert_eq!(*page.get(20).unwrap().1, rect(270, 300, 50, 50));
    assert_eq!(*page.get(23).unwrap().1, rect(160, 350, 80, 50));
    assert_eq!(*page.get(26).unwrap().1, rect(240, 400, 80, 30));
    assert_eq!(*page.get(28).unwrap().1, rect(160, 430, 160, 50));
    assert!(page.get(4).unwrap().0.is_focusable());
    assert!(!page.get(5).unwrap().0.is_focusable());
    assert_eq!(STRIP_COUNT * STRIP_H, 480);
}

#[test]
fn the_jog_screen_decisions() {
    let (_, e) = build_main_page::<29>().unwrap();
    let state = UiState { focused_joint: 0, step_idx: 2 };
    let on = |id| e.jog_action(&state, Event { page_idx: 0, widget_id: id });
    assert_eq!(on(1), JogAction::SwitchPage(1));
    assert_eq!(on(0), JogAction::PrevPage);
    assert_eq!(on(2), JogAction::NextPage);
    assert_eq!(on(28), JogAction::Reset);
    assert_eq!(on(27), JogAction::Run);
    assert_eq!(on(10), JogAction::FocusJoint(2));
    assert_eq!(on(20), JogAction::ZeroJoint(5));
    assert_eq!(on(23), JogAction::KeepStep);
    assert_eq!(on(21), JogAction::SelectStep(0));
    assert_eq!(on(25), JogAction::Stray(25));
    assert_eq!(e.jog_action(&state, Event { page_idx: 1, widget_id: 1 }), JogAction::Ignore);
    assert_eq!(e.joint_of(16), Some(4));
    assert_eq!(e.joint_of(17), None);
    assert_eq!(UiState::default().step_idx, 0);
}

#[test]
fn focus_walks_the_joints_of_the_jog_screen() {
    let (mut page, e) = build_main_page::<29>().unwrap();
    assert!(page.focus_set(e.joint_textboxes[0]));
    page.focus_next();
    assert_eq!(e.joint_of(page.focused()), Some(1));
    page.focus_prev();
    page.focus_prev();
    assert_eq!(e.joint_of(page.focused()), Some(5));
}

#[test]
fn focus_moves_onto_a_focusable_widget() {
    // The focus starts on the label at index 0, which cannot hold it.
    let mut p = sample_page();
    assert_eq!(p.focused(), 0);
    p.focus_next();
    assert_eq!(p.focused(), 1);
    let mut q = sample_page();
    q.focus_prev();
    assert_eq!(q.focused(), 4);
    assert!(q.get(4).unwrap().0.is_focusable());
}

#[test]
fn events_drain_in_the_order_raised() {
    let painter: SplitPainter<4, 100, 25> = SplitPainter::new();
    let mut ui: Ui<8, 1, u32, _> = Ui::new([sample_page()], painter, style());
    // The button at index 1 lies at (40, 0), the one at index 4 at (0, 40).
    ui.begin_frame(Some(Interaction::Click(Point::new(45, 5))));
    ui.begin_frame(Some(Interaction::Click(Point::new(5, 45))));
    assert_eq!(ui.drain_events(), Some(Event { page_idx: 0, widget_id: 1 }));
    assert_eq!(ui.drain_events(), Some(Event { page_idx: 0, widget_id: 4 }));
    assert_eq!(ui.drain_events(), None);
}

#[test]
fn inserted_widgets_stay_inside_and_apart() {
    let aligns = [
        Align { horizontal: HorizontalAlign::Left, vertical: VerticalAlign::Top },
        Align { horizontal: HorizontalAlign::Right, vertical: VerticalAlign::Bottom },
        Align { horizontal: HorizontalAlign::Center { columns: 3 }, vertical: VerticalAlign::Center { rows: 4 } },
        Align { horizontal: HorizontalAlign::Right, vertical: VerticalAlign::Top },
    ];
    for align in aligns {
        for wrap in [false, true] {
            let mut p: Page<16> = Page::new(Size::new(100, 90), wrap, align);
            let mut placed: Vec<Rectangle> = Vec::new();
            for k in 0..16u32 {
                let size = Size::new(10 + (k * 7) % 23, 5 + (k * 5) % 18);
                let w = WidgetKind::Checkbox(Checkbox::new(size));
                if let Ok(id) = p.insert(w) {
                    let r = *p.get(id).unwrap().1;
                    assert!(r.top_left.x >= 0 && r.top_left.y >= 0);
                    assert!(r.top_left.x as i64 + r.size.width as i64 <= 100);
                    assert!(r.top_left.y as i64 + r.size.height as i64 <= 90);
                    for q in &placed {
                        assert!(!r.overlaps(q));
                    }
                    placed.push(r);
                }
            }
            assert!(!placed.is_empty());
        }
    }
}

type Font = embedded_graphics::mono_font::MonoFont<'static>;

fn text_and_font(w: &WidgetKind) -> (String, &'static Font) {
    match w {
        WidgetKind::Button(b) => (b.text().to_string(), b.font()),
        WidgetKind::Label(l) => (l.text().to_string(), l.font()),
        WidgetKind::RadioButton(r) => (r.text().to_string(), r.font()),
        WidgetKind::Textbox(t) => (t.text().to_string(), t.font()),
        _ => panic!("no text"),
    }
}

#[test]
fn the_jog_screen_texts_and_fonts() {
    let (page, _) = build_main_page::<29>().unwrap();
    let big: &'static Font = &profont::PROFONT_24_POINT;
    let small: &'static Font = &profont::PROFONT_18_POINT;
    let expect = [
        (0, "<", big),
        (1, "Joint jog", big),
        (2, ">", big),
        (3, "J1", big),
        (4, "0.000", big),
        (5, "<0>", small),
        (18, "J6", big),
        (21, "0.01", big),
        (24, "10", big),
        (25, "DISCONNECTED", small),
        (26, "JOG", small),
        (27, "RUN", small),
        (28, "RESET", small),
    ];
    for (k, text, font) in expect {
        let (t, f) = text_and_font(page.get(k).unwrap().0);
        assert_eq!(t, text);
        assert_eq!(f.character_size, font.character_size);
    }
    assert!(matches!(page.get(3).unwrap().0, WidgetKind::Label(_)));
    assert!(matches!(page.get(22).unwrap().0, WidgetKind::RadioButton(_)));
    assert!(matches!(page.get(25).unwrap().0, WidgetKind::Textbox(_)));
}
