use embed_ui::geometry::{i32_div, i32_rem, Point, Rectangle, Size};
use embed_ui::page::{Align, HorizontalAlign, Layout, VerticalAlign};
use embed_ui::Error;

fn left_top() -> Align {
    Align { horizontal: HorizontalAlign::Left, vertical: VerticalAlign::Top }
}

fn rect(x: i32, y: i32, w: u32, h: u32) -> Rectangle {
    Rectangle { top_left: Point { x, y }, size: Size { width: w, height: h } }
}

#[test]
fn truncating_division_of_signed_values() {
    assert_eq!(i32_div(-7, 2), -3);
    assert_eq!(i32_rem(-7, 2), -1);
    assert_eq!(i32_div(7, -2), -3);
    assert_eq!(i32_rem(7, -2), 1);
    assert_eq!(i32_div(-7, -2), 3);
    assert_eq!(i32_rem(-7, -2), -1);
}

#[test]
fn rows_go_left_to_right_then_wrap_below() {
    let mut l = Layout::new(Size::new(100, 100), true, left_top());
    assert_eq!(l.next(Size::new(60, 20)).unwrap(), rect(0, 0, 60, 20));
    // Does not fit beside the first one: a new row below the tallest widget.
    assert_eq!(l.next(Size::new(60, 30)).unwrap(), rect(0, 20, 60, 30));
    // Fits beside the second one.
    assert_eq!(l.next(Size::new(30, 10)).unwrap(), rect(60, 20, 30, 10));
    // The row is as high as its tallest widget.
    assert_eq!(l.next(Size::new(20, 10)).unwrap(), rect(0, 50, 20, 10));
}

#[test]
fn wrapping_keeps_widgets_within_the_width() {
    let mut l = Layout::new(Size::new(100, 100), true, left_top());
    for _ in 0..5 {
        let r = l.next(Size::new(45, 10)).unwrap();
        assert!(r.top_left.x >= 0);
        assert!(r.top_left.x + 45 <= 100);
    }
}

#[test]
fn without_wrap_a_full_row_takes_no_more() {
    let mut l = Layout::new(Size::new(100, 100), false, left_top());
    assert_eq!(l.next(Size::new(60, 20)).unwrap(), rect(0, 0, 60, 20));
    assert!(matches!(l.next(Size::new(60, 20)), Err(Error::NoSpaceLeft)));
    // The refusal changed nothing: a narrower widget still fits.
    assert_eq!(l.next(Size::new(40, 20)).unwrap(), rect(60, 0, 40, 20));
}

#[test]
fn nothing_is_placed_below_the_bounds() {
    let mut l = Layout::new(Size::new(100, 100), true, left_top());
    assert_eq!(l.next(Size::new(100, 60)).unwrap(), rect(0, 0, 100, 60));
    assert!(matches!(l.next(Size::new(100, 60)), Err(Error::NoSpaceLeft)));
    assert_eq!(l.next(Size::new(100, 40)).unwrap(), rect(0, 60, 100, 40));
}

#[test]
fn too_large_a_widget_is_refused() {
    let mut l = Layout::new(Size::new(100, 50), true, left_top());
    assert!(matches!(l.next(Size::new(101, 10)), Err(Error::NoSpaceLeft)));
    assert!(matches!(l.next(Size::new(10, 51)), Err(Error::NoSpaceLeft)));
    assert!(matches!(l.next_row(Size::new(101, 10)), Err(Error::NoSpaceLeft)));
    assert!(!l.check_bounds(Size::new(101, 10)));
    assert!(l.check_bounds(Size::new(100, 50)));
    // The refusal left the layout untouched.
    assert_eq!(l.next(Size::new(10, 10)).unwrap(), rect(0, 0, 10, 10));
}

#[test]
fn centred_columns_share_the_width() {
    let align = Align { horizontal: HorizontalAlign::Center { columns: 3 }, vertical: VerticalAlign::Top };
    let mut l = Layout::new(Size::new(100, 40), false, align);
    // Slots of 34, 33 and 33 pixels; each widget is centred in its slot.
    assert_eq!(l.next(Size::new(20, 10)).unwrap(), rect(7, 0, 20, 10));
    assert_eq!(l.next(Size::new(20, 10)).unwrap(), rect(40, 0, 20, 10));
    assert_eq!(l.next(Size::new(21, 10)).unwrap(), rect(73, 0, 21, 10));
}

#[test]
fn centred_rows_share_the_height() {
    let align = Align { horizontal: HorizontalAlign::Left, vertical: VerticalAlign::Center { rows: 2 } };
    let mut l = Layout::new(Size::new(100, 41), true, align);
    // Rows of 21 and 20 pixels.
    assert_eq!(l.next(Size::new(100, 11)).unwrap(), rect(0, 5, 100, 11));
    assert_eq!(l.next(Size::new(100, 10)).unwrap(), rect(0, 26, 100, 10));
}

#[test]
fn right_and_bottom_alignment() {
    let align = Align { horizontal: HorizontalAlign::Right, vertical: VerticalAlign::Bottom };
    let mut l = Layout::new(Size::new(100, 40), false, align);
    assert_eq!(l.next(Size::new(30, 10)).unwrap(), rect(70, 30, 30, 10));
    // The row fills from the right edge: the next widget goes just left of the first.
    assert_eq!(l.next(Size::new(20, 15)).unwrap(), rect(50, 25, 20, 15));
}

#[test]
fn right_aligned_widgets_do_not_overlap() {
    let align = Align { horizontal: HorizontalAlign::Right, vertical: VerticalAlign::Top };
    let mut l = Layout::new(Size::new(100, 50), false, align);
    let a = l.next(Size::new(30, 10)).unwrap();
    let b = l.next(Size::new(20, 10)).unwrap();
    assert_eq!(a, rect(70, 0, 30, 10));
    assert_eq!(b, rect(50, 0, 20, 10));
    assert!(!a.overlaps(&b));
    assert!(matches!(l.next(Size::new(51, 10)), Err(Error::NoSpaceLeft)));
}

#[test]
fn bottom_aligned_rows_fill_upward() {
    let align = Align { horizontal: HorizontalAlign::Left, vertical: VerticalAlign::Bottom };
    let mut l = Layout::new(Size::new(100, 40), true, align);
    assert_eq!(l.next(Size::new(60, 10)).unwrap(), rect(0, 30, 60, 10));
    assert_eq!(l.next(Size::new(60, 10)).unwrap(), rect(0, 20, 60, 10));
    assert_eq!(l.next(Size::new(60, 20)).unwrap(), rect(0, 0, 60, 20));
    assert!(matches!(l.next(Size::new(60, 1)), Err(Error::NoSpaceLeft)));
}

#[test]
fn a_widget_wider_than_its_column_spills_over() {
    let align = Align { horizontal: HorizontalAlign::Center { columns: 3 }, vertical: VerticalAlign::Top };
    let mut l = Layout::new(Size::new(100, 40), false, align);
    assert_eq!(l.next(Size::new(20, 10)).unwrap(), rect(7, 0, 20, 10));
    // Centred on its 33-pixel slot that starts at 34.
    assert_eq!(l.next(Size::new(40, 10)).unwrap(), rect(31, 0, 40, 10));
    // The last slot starts at 67: a 40-wide widget would end at 104.
    assert!(matches!(l.next(Size::new(40, 10)), Err(Error::NoSpaceLeft)));
}

#[test]
fn next_row_ignores_the_alignment() {
    let align = Align { horizontal: HorizontalAlign::Right, vertical: VerticalAlign::Bottom };
    let mut l = Layout::new(Size::new(100, 40), true, align);
    assert_eq!(l.next(Size::new(30, 10)).unwrap(), rect(70, 30, 30, 10));
    assert_eq!(l.next_row(Size::new(10, 10)).unwrap(), rect(0, 10, 10, 10));
    assert!(matches!(l.next_row(Size::new(10, 21)), Err(Error::NoSpaceLeft)));
}

#[test]
fn next_row_starts_at_the_left_edge_below() {
    let mut l = Layout::new(Size::new(100, 100), true, left_top());
    l.next(Size::new(30, 25)).unwrap();
    assert_eq!(l.next_row(Size::new(40, 10)).unwrap(), rect(0, 25, 40, 10));
    // The row continues after the widget that next_row placed.
    assert_eq!(l.next(Size::new(10, 10)).unwrap(), rect(40, 25, 10, 10));
}

#[test]
fn the_widget_after_next_row_goes_beside_it() {
    let mut l = Layout::new(Size::new(100, 100), true, Align::default());
    assert_eq!(l.next_row(Size::new(40, 10)).unwrap(), rect(0, 0, 40, 10));
    assert_eq!(l.next(Size::new(40, 10)).unwrap(), rect(40, 0, 40, 10));
}

#[test]
fn rectangle_queries() {
    let r = rect(10, 20, 100, 40);
    assert!(r.contains(Point::new(10, 20)));
    assert!(r.contains(Point::new(109, 59)));
    assert!(!r.contains(Point::new(110, 59)));
    assert!(!r.contains(Point::new(9, 20)));
    assert_eq!(r.bottom_right_or_default(), Point::new(109, 59));
    assert_eq!(r.center(), Point::new(59, 39));
    assert!(r.overlaps(&rect(109, 59, 5, 5)));
    assert!(!r.overlaps(&rect(110, 20, 5, 5)));
    assert!(!r.overlaps(&rect(20, 30, 0, 5)));
    let empty = rect(3, 4, 0, 0);
    assert!(!empty.contains(Point::new(3, 4)));
    assert_eq!(empty.bottom_right_or_default(), Point::new(0, 0));
}
