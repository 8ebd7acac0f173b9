use vstd::prelude::*;

use crate::events::EventQueue;
use crate::geometry::{Point, Rectangle, Size, fits_i32, i32_div, i32_rem, trunc_div, trunc_rem};
use crate::input::{Event, Interaction};
use crate::widgets::{Widget, WidgetKind, WidgetView};
use crate::Error;

verus! {

/// The index of a widget in its page.
pub type WidgetId = usize;

/// How a layout places widgets along a row.
#[derive(Debug, Clone, Copy, PartialEq, Eq, Structural)]
pub enum HorizontalAlign {
    /// Widgets follow each other from the left edge.
    Left,
    /// The width is cut into `columns` slots and each widget is centred in the next one.
    Center { columns: usize },
    /// The row fills from the right edge: each widget goes just left of the one before.
    Right,
}

/// How a layout places widgets within a row.
#[derive(Debug, Clone, Copy, PartialEq, Eq, Structural)]
pub enum VerticalAlign {
    Top,
    /// The height is cut into `rows` slots and each widget is centred in its row's slot.
    Center { rows: usize },
    /// The rows fill from the bottom edge up.
    Bottom,
}

#[derive(Debug, Clone, Copy, PartialEq, Eq, Structural)]
pub struct Align {
    pub horizontal: HorizontalAlign,
    pub vertical: VerticalAlign,
}

impl Default for HorizontalAlign {
    fn default() -> (h: HorizontalAlign)
        ensures
            h == HorizontalAlign::Left,
    {
        HorizontalAlign::Left
    }
}

impl Default for VerticalAlign {
    fn default() -> (v: VerticalAlign)
        ensures
            v == VerticalAlign::Top,
    {
        VerticalAlign::Top
    }
}

impl Default for Align {
    fn default() -> (a: Align)
        ensures
            a == (Align { horizontal: HorizontalAlign::Left, vertical: VerticalAlign::Top }),
    {
        Align { horizontal: HorizontalAlign::Left, vertical: VerticalAlign::Top }
    }
}

/// Places widgets in rows, from left to right and from top to bottom,
/// inside `bounds`: no widget is placed outside them, and no two overlap.
#[derive(Debug)]
pub struct Layout {
    /// Where the next widget of the row goes.
    pos: Point,
    /// Current row.
    row: usize,
    /// Current column.
    col: usize,
    /// Height of the current row.
    row_height: usize,
    /// Bound of the placer.
    pub bounds: Size,
    /// Wrap to the next row when a widget does not fit.
    pub wrap: bool,
    pub align: Align,
}

/// The placement state of a [`Layout`].
pub struct LayoutView {
    pub pos: Point,
    pub row: usize,
    pub col: usize,
    pub row_height: usize,
    pub bounds: Size,
    pub wrap: bool,
    pub align: Align,
}

impl View for Layout {
    type V = LayoutView;

    closed spec fn view(&self) -> LayoutView {
        LayoutView {
            pos: self.pos,
            row: self.row,
            col: self.col,
            row_height: self.row_height,
            bounds: self.bounds,
            wrap: self.wrap,
            align: self.align,
        }
    }
}

/// `r` lies within `bounds`, whose top left corner is the origin.
pub open spec fn inside(r: Rectangle, bounds: Size) -> bool {
    &&& 0 <= r.top_left.x && r.top_left.x + r.size.width <= bounds.width
    &&& 0 <= r.top_left.y && r.top_left.y + r.size.height <= bounds.height
}

impl LayoutView {
    /// The widget is no larger than the bounds.
    pub open spec fn fits(self, size: Size) -> bool {
        size.width <= self.bounds.width && size.height <= self.bounds.height
    }

    /// A wrapping layout starts a new row when the widget would cross the right edge.
    pub open spec fn wraps_before(self, size: Size) -> bool {
        self.wrap && (self.pos.x as u32) + size.width > self.bounds.width
    }

    /// The state once the current row is closed: back to the start of the
    /// row, past the closed row.
    pub open spec fn new_row(self) -> LayoutView {
        LayoutView {
            pos: Point { x: 0, y: (self.pos.y + (self.row_height as i32)) as i32 },
            row: (self.row + 1) as usize,
            col: 0,
            row_height: 0,
            ..self
        }
    }

    /// The state in which `next` places the widget.
    pub open spec fn line_start(self, size: Size) -> LayoutView {
        if self.wraps_before(size) {
            self.new_row()
        } else {
            self
        }
    }

    /// The left edge of a widget of this size on the current row, and how
    /// far the row advances: left alignment fills the row from the left
    /// edge, right alignment from the right edge, and centring cuts the
    /// width into `columns` slots and centres the widget in the next one.
    pub open spec fn x_slot(self, size: Size) -> (int, int) {
        let w = size.width as i32 as int;
        let bw = self.bounds.width as i32 as int;
        match self.align.horizontal {
            HorizontalAlign::Left => (self.pos.x as int, w),
            HorizontalAlign::Right => (bw - self.pos.x - w, w),
            HorizontalAlign::Center { columns } => {
                let cols = columns as i32 as int;
                let base = trunc_div(bw, cols);
                let slot = if (self.col as i32 as int) < trunc_rem(bw, cols) { base + 1 } else { base };
                (self.pos.x + trunc_div(slot - w, 2), slot)
            },
        }
    }

    /// Where the widget's cell starts on the row; the cell is as wide as the advance.
    pub open spec fn cell_x(self, size: Size) -> int {
        match self.align.horizontal {
            HorizontalAlign::Right => self.x_slot(size).0,
            _ => self.pos.x as int,
        }
    }

    /// The top edge of a widget of this size on the current row, and the
    /// height it claims in the row: top alignment fills the rows from the
    /// top edge, bottom alignment from the bottom edge, and centring cuts
    /// the height into `rows` slots and centres the widget in its row's one.
    pub open spec fn y_slot(self, size: Size) -> (int, int) {
        let h = size.height as i32 as int;
        let bh = self.bounds.height as i32 as int;
        match self.align.vertical {
            VerticalAlign::Top => (self.pos.y as int, h),
            VerticalAlign::Bottom => (bh - self.pos.y - h, h),
            VerticalAlign::Center { rows } => {
                let rs = rows as i32 as int;
                let base = trunc_div(bh, rs);
                let slot = if (self.row as i32 as int) < trunc_rem(bh, rs) { base + 1 } else { base };
                (self.pos.y + trunc_div(slot - h, 2), slot)
            },
        }
    }

    /// Where the widget's cell starts vertically; the cell is as high as the claimed height.
    pub open spec fn cell_y(self, size: Size) -> int {
        match self.align.vertical {
            VerticalAlign::Bottom => self.y_slot(size).0,
            _ => self.pos.y as int,
        }
    }

    /// The arithmetic of `x_slot` stays in `i32` and divides by no zero.
    pub open spec fn x_slot_defined(self, size: Size) -> bool {
        let w = size.width as i32 as int;
        let bw = self.bounds.width as i32 as int;
        match self.align.horizontal {
            HorizontalAlign::Left => true,
            HorizontalAlign::Right => fits_i32(bw - self.pos.x) && fits_i32(bw - self.pos.x - w),
            HorizontalAlign::Center { columns } => {
                let cols = columns as i32 as int;
                let base = trunc_div(bw, cols);
                let plus = (self.col as i32 as int) < trunc_rem(bw, cols);
                let slot = if plus { base + 1 } else { base };
                &&& cols != 0
                &&& !(bw == i32::MIN && cols == -1)
                &&& (plus ==> fits_i32(base + 1))
                &&& fits_i32(slot - w)
                &&& fits_i32(self.pos.x + trunc_div(slot - w, 2))
            },
        }
    }

    /// The arithmetic of `y_slot` stays in `i32` and divides by no zero.
    pub open spec fn y_slot_defined(self, size: Size) -> bool {
        let h = size.height as i32 as int;
        let bh = self.bounds.height as i32 as int;
        match self.align.vertical {
            VerticalAlign::Top => true,
            VerticalAlign::Bottom => fits_i32(bh - self.pos.y) && fits_i32(bh - self.pos.y - h),
            VerticalAlign::Center { rows } => {
                let rs = rows as i32 as int;
                let base = trunc_div(bh, rs);
                let plus = (self.row as i32 as int) < trunc_rem(bh, rs);
                let slot = if plus { base + 1 } else { base };
                &&& rs != 0
                &&& !(bh == i32::MIN && rs == -1)
                &&& (plus ==> fits_i32(base + 1))
                &&& fits_i32(slot - h)
                &&& fits_i32(self.pos.y + trunc_div(slot - h, 2))
            },
        }
    }

    /// Closing the current row neither overflows `pos.y` nor the row counter.
    pub open spec fn new_row_defined(self) -> bool {
        fits_i32(self.pos.y + (self.row_height as i32)) && self.row + 1 <= usize::MAX
    }

    /// Placing a widget of this size in the current state involves no
    /// overflow and no division by zero.
    pub open spec fn here_defined(self, size: Size) -> bool {
        &&& self.x_slot_defined(size)
        &&& self.y_slot_defined(size)
        &&& fits_i32(self.pos.x + self.x_slot(size).1)
        &&& self.col + 1 <= usize::MAX
    }

    /// `next` with a widget of this size involves no overflow and no division by zero.
    pub open spec fn next_defined(self, size: Size) -> bool {
        &&& (self.wrap ==> (self.pos.x as u32) + size.width <= u32::MAX)
        &&& (self.wraps_before(size) ==> self.new_row_defined())
        &&& self.line_start(size).here_defined(size)
    }

    /// `next_row` involves no overflow.
    pub open spec fn next_row_defined(self) -> bool {
        self.new_row_defined()
    }

    /// The row height is an `i32` value, as every placement keeps it.
    pub open spec fn valid(self) -> bool {
        self.row_height <= i32::MAX
    }

    /// The rectangle of a widget of this size placed in the current state.
    pub open spec fn rect_here(self, size: Size) -> Rectangle {
        Rectangle { top_left: Point { x: self.x_slot(size).0 as i32, y: self.y_slot(size).0 as i32 }, size }
    }

    /// Placed in the current state, the widget stays inside the bounds;
    /// its width and height, and the height it claims, are `i32` extents.
    pub open spec fn room_here(self, size: Size) -> bool {
        &&& size.width <= i32::MAX
        &&& size.height <= i32::MAX
        &&& 0 <= self.y_slot(size).1
        &&& inside(self.rect_here(size), self.bounds)
    }

    /// Placed in the current state, the widget also stays inside its cell
    /// of the row: always so but for a centred widget larger than its slot.
    pub open spec fn in_cell_here(self, size: Size) -> bool {
        let r = self.rect_here(size);
        &&& self.cell_x(size) <= r.top_left.x
        &&& r.top_left.x + size.width <= self.cell_x(size) + self.x_slot(size).1
        &&& self.cell_y(size) <= r.top_left.y
        &&& r.top_left.y + size.height <= self.cell_y(size) + self.y_slot(size).1
    }

    /// The state after a widget of this size is placed in the current
    /// state: the row advances past its cell, and is at least as high as it.
    pub open spec fn advanced_here(self, size: Size) -> LayoutView {
        let claimed = self.y_slot(size).1 as i32 as usize;
        LayoutView {
            pos: Point { x: (self.pos.x + self.x_slot(size).1) as i32, y: self.pos.y },
            col: (self.col + 1) as usize,
            row_height: if self.row_height >= claimed { self.row_height } else { claimed },
            ..self
        }
    }

    /// `next` places a widget of this size: it is no larger than the
    /// bounds, and where the layout puts it, it stays inside them.
    pub open spec fn room(self, size: Size) -> bool {
        self.fits(size) && self.line_start(size).room_here(size)
    }

    /// Where `next` places a widget of this size, it stays inside its cell.
    pub open spec fn in_cell(self, size: Size) -> bool {
        self.line_start(size).in_cell_here(size)
    }

    /// Where `next` places a widget of this size.
    pub open spec fn placed(self, size: Size) -> Rectangle {
        self.line_start(size).rect_here(size)
    }

    /// The state after `next` placed a widget of this size.
    pub open spec fn advanced(self, size: Size) -> LayoutView {
        self.line_start(size).advanced_here(size)
    }

    /// Where `next_row` places a widget of this size: at the left edge,
    /// just below the current row, whatever the alignment.
    pub open spec fn row_rect(self, size: Size) -> Rectangle {
        Rectangle { top_left: Point { x: 0, y: self.new_row().pos.y }, size }
    }

    /// The state after `next_row` placed a widget of this size: the new row
    /// holds the widget, and continues after it.
    pub open spec fn row_advanced(self, size: Size) -> LayoutView {
        LayoutView {
            pos: Point { x: size.width as i32, y: self.new_row().pos.y },
            col: 1,
            row_height: size.height as usize,
            ..self.new_row()
        }
    }

    /// `next_row` places a widget of this size: it is no larger than the
    /// bounds, its width and height are `i32` extents, and at the start of
    /// the new row it stays inside the bounds.
    pub open spec fn room_next_row(self, size: Size) -> bool {
        &&& self.fits(size)
        &&& size.width <= i32::MAX
        &&& size.height <= i32::MAX
        &&& inside(self.row_rect(size), self.bounds)
    }

    /// The alignment fills rows from the left and from the top, as
    /// `next_row` does: its widget then keeps clear of the later ones.
    pub open spec fn fills_from_top_left(self) -> bool {
        !(self.align.horizontal is Right) && !(self.align.vertical is Bottom)
    }

    /// `r` lies in what the layout has filled already: a closed row, or
    /// the used part of the current row.
    pub open spec fn covers(self, r: Rectangle) -> bool {
        let bw = self.bounds.width as i32 as int;
        let bh = self.bounds.height as i32 as int;
        let rh = self.row_height as int;
        let closed = match self.align.vertical {
            VerticalAlign::Bottom => r.top_left.y >= bh - self.pos.y,
            _ => r.top_left.y + r.size.height <= self.pos.y,
        };
        let in_row = match self.align.vertical {
            VerticalAlign::Bottom => bh - self.pos.y - rh <= r.top_left.y && r.top_left.y + r.size.height <= bh - self.pos.y,
            _ => self.pos.y <= r.top_left.y && r.top_left.y + r.size.height <= self.pos.y + rh,
        };
        let used = match self.align.horizontal {
            HorizontalAlign::Right => r.top_left.x >= bw - self.pos.x,
            _ => r.top_left.x + r.size.width <= self.pos.x,
        };
        closed || (in_row && used)
    }
}

impl Default for Layout {
    /// An empty layout: zero bounds, no wrapping, left and top alignment.
    fn default() -> (l: Layout)
        ensures
            l@ == (LayoutView {
                pos: Point { x: 0, y: 0 },
                row: 0,
                col: 0,
                row_height: 0,
                bounds: Size { width: 0, height: 0 },
                wrap: false,
                align: Align { horizontal: HorizontalAlign::Left, vertical: VerticalAlign::Top },
            }),
    {
        Layout {
            pos: Point { x: 0, y: 0 },
            row: 0,
            col: 0,
            row_height: 0,
            bounds: Size { width: 0, height: 0 },
            wrap: false,
            align: Align { horizontal: HorizontalAlign::Left, vertical: VerticalAlign::Top },
        }
    }
}

impl Layout {
    /// An empty layout at the top left corner of `bounds`.
    pub fn new(bounds: Size, wrap: bool, align: Align) -> (l: Self)
        ensures
            l@ == (LayoutView { pos: Point { x: 0, y: 0 }, row: 0, col: 0, row_height: 0, bounds, wrap, align }),
    {
        Layout { row: 0, col: 0, pos: Point::zero(), row_height: 0, bounds, wrap, align }
    }

    fn x_slot(&self, size: Size) -> (r: (i32, i32))
        requires
            self@.x_slot_defined(size),
        ensures
            r.0 == self@.x_slot(size).0,
            r.1 == self@.x_slot(size).1,
    {
        match self.align.horizontal {
            HorizontalAlign::Left => (self.pos.x, size.width as i32),
            HorizontalAlign::Right => (self.bounds.width as i32 - self.pos.x - size.width as i32, size.width as i32),
            HorizontalAlign::Center { columns } => {
                let cols = columns as i32;
                let base_slot_width = i32_div(self.bounds.width as i32, cols);
                let remainder = i32_rem(self.bounds.width as i32, cols);
                let current_slot_width = if (self.col as i32) < remainder {
                    base_slot_width + 1
                } else {
                    base_slot_width
                };
                let offset = i32_div(current_slot_width - size.width as i32, 2);
                (self.pos.x + offset, current_slot_width)
            },
        }
    }

    fn y_slot(&self, size: Size) -> (r: (i32, i32))
        requires
            self@.y_slot_defined(size),
        ensures
            r.0 == self@.y_slot(size).0,
            r.1 == self@.y_slot(size).1,
    {
        match self.align.vertical {
            VerticalAlign::Top => (self.pos.y, size.height as i32),
            VerticalAlign::Bottom => (self.bounds.height as i32 - self.pos.y - size.height as i32, size.height as i32),
            VerticalAlign::Center { rows } => {
                let rows_count = rows as i32;
                let base_row_height = i32_div(self.bounds.height as i32, rows_count);
                let remainder = i32_rem(self.bounds.height as i32, rows_count);
                let current_row_height = if (self.row as i32) < remainder {
                    base_row_height + 1
                } else {
                    base_row_height
                };
                let offset = i32_div(current_row_height - size.height as i32, 2);
                (self.pos.y + offset, current_row_height)
            },
        }
    }

    /// The layout as it stands.
    fn copied(&self) -> (l: Layout)
        ensures
            l@ == self@,
    {
        Layout {
            pos: self.pos,
            row: self.row,
            col: self.col,
            row_height: self.row_height,
            bounds: self.bounds,
            wrap: self.wrap,
            align: self.align,
        }
    }

    /// The layout once the current row is closed.
    fn with_new_row(&self) -> (l: Layout)
        requires
            self@.new_row_defined(),
        ensures
            l@ == self@.new_row(),
    {
        Layout {
            pos: Point { x: 0, y: self.pos.y + self.row_height as i32 },
            row: self.row + 1,
            col: 0,
            row_height: 0,
            bounds: self.bounds,
            wrap: self.wrap,
            align: self.align,
        }
    }

    /// Places a widget of `size` in the current state when it stays inside
    /// the bounds: its rectangle, and the layout advanced past it.
    fn place_here(&self, size: Size) -> (r: Option<(Rectangle, Layout)>)
        requires
            self@.here_defined(size),
        ensures
            r is Some <==> self@.room_here(size),
            r matches Some(p) ==> p.0 == self@.rect_here(size) && p.1@ == self@.advanced_here(size),
    {
        let (x, advance_width) = self.x_slot(size);
        let (y, advance_height) = self.y_slot(size);
        let (xl, yl) = (x as i64, y as i64);
        let (w, h) = (size.width as i64, size.height as i64);
        let extents = size.width <= i32::MAX as u32 && size.height <= i32::MAX as u32 && advance_height >= 0;
        let inside_bounds = 0 <= xl && xl + w <= self.bounds.width as i64 && 0 <= yl && yl + h
            <= self.bounds.height as i64;
        if !(extents && inside_bounds) {
            return None;
        }
        let claimed = advance_height as usize;
        let row_height = if claimed > self.row_height {
            claimed
        } else {
            self.row_height
        };
        let rect = Rectangle { top_left: Point { x, y }, size };
        let advanced = Layout {
            pos: Point { x: self.pos.x + advance_width, y: self.pos.y },
            row: self.row,
            col: self.col + 1,
            row_height,
            bounds: self.bounds,
            wrap: self.wrap,
            align: self.align,
        };
        Some((rect, advanced))
    }

    /// Places a widget of `size` and returns its rectangle: on the current
    /// row, or, when wrapping and the widget would cross the right edge,
    /// at the start of a new row. Fails with `NoSpaceLeft`, leaving the
    /// layout as it was, when the widget would not lie inside the bounds.
    pub fn next(&mut self, size: Size) -> (r: Result<Rectangle, Error>)
        requires
            old(self)@.fits(size) ==> old(self)@.next_defined(size),
        ensures
            old(self)@.valid() ==> final(self)@.valid(),
            r is Ok <==> old(self)@.room(size),
            r matches Ok(rect) ==> rect == old(self)@.placed(size) && final(self)@ == old(self)@.advanced(size),
            r matches Err(e) ==> e is NoSpaceLeft && final(self)@ == old(self)@,
    {
        if !self.check_bounds(size) {
            return Err(Error::NoSpaceLeft);
        }
        let start = if self.wrap && (self.pos.x as u32 + size.width > self.bounds.width) {
            self.with_new_row()
        } else {
            self.copied()
        };
        match start.place_here(size) {
            Some((rect, advanced)) => {
                proof {
                    lemma_slot_claim(start@, size);
                }
                *self = advanced;
                Ok(rect)
            },
            None => Err(Error::NoSpaceLeft),
        }
    }

    /// Closes the current row and places a widget of `size` at its left
    /// edge, just below the closed row, whatever the alignment; the new row
    /// continues after it. Fails with `NoSpaceLeft`, leaving the layout as
    /// it was, when the widget would not lie inside the bounds there.
    pub fn next_row(&mut self, size: Size) -> (r: Result<Rectangle, Error>)
        requires
            old(self)@.fits(size) ==> old(self)@.next_row_defined(),
        ensures
            old(self)@.valid() ==> final(self)@.valid(),
            r is Ok <==> old(self)@.room_next_row(size),
            r matches Ok(rect) ==> rect == old(self)@.row_rect(size) && final(self)@ == old(self)@.row_advanced(size),
            r matches Err(e) ==> e is NoSpaceLeft && final(self)@ == old(self)@,
    {
        if !self.check_bounds(size) {
            return Err(Error::NoSpaceLeft);
        }
        let y = self.pos.y + self.row_height as i32;
        let (yl, h) = (y as i64, size.height as i64);
        if !(size.width <= i32::MAX as u32 && size.height <= i32::MAX as u32 && 0 <= yl && yl + h
            <= self.bounds.height as i64) {
            return Err(Error::NoSpaceLeft);
        }
        self.pos = Point { x: size.width as i32, y };
        self.row_height = size.height as usize;
        self.row = self.row + 1;
        self.col = 1;
        Ok(Rectangle { top_left: Point { x: 0, y }, size })
    }

    /// The widget is no larger than the bounds.
    pub fn check_bounds(&self, size: Size) -> (b: bool)
        ensures
            b == self@.fits(size),
    {
        size.width <= self.bounds.width && size.height <= self.bounds.height
    }
}

proof fn lemma_new_row_covers(l: LayoutView, r: Rectangle)
    requires
        l.valid(),
        l.new_row_defined(),
        l.covers(r),
    ensures
        l.new_row().covers(r),
{
    assert(l.row_height as i32 == l.row_height);
}

/// Placing a widget in the current state keeps what was covered covered,
/// covers the new widget, and misses everything covered before, when the
/// widget stays inside its cell.
proof fn lemma_here_apart(l: LayoutView, size: Size, r: Rectangle)
    requires
        l.valid(),
        l.here_defined(size),
        l.room_here(size),
        l.in_cell_here(size),
        l.covers(r),
    ensures
        !l.rect_here(size).spec_overlaps(r),
        l.advanced_here(size).covers(r),
{
    lemma_slot_claim(l, size);
}

/// A widget placed inside its cell is covered once the layout advances past it.
proof fn lemma_here_self(l: LayoutView, size: Size)
    requires
        l.valid(),
        l.here_defined(size),
        l.room_here(size),
        l.in_cell_here(size),
    ensures
        l.advanced_here(size).covers(l.rect_here(size)),
{
    lemma_slot_claim(l, size);
}

/// The height a placed widget claims is an `i32` value; the widget's
/// rectangle is where the slots put it.
proof fn lemma_slot_claim(l: LayoutView, size: Size)
    requires
        l.here_defined(size),
        l.room_here(size),
    ensures
        0 <= l.y_slot(size).1 <= i32::MAX,
        l.y_slot(size).1 as i32 as usize == l.y_slot(size).1,
        fits_i32(l.x_slot(size).0),
        fits_i32(l.y_slot(size).0),
        l.rect_here(size).top_left.x == l.x_slot(size).0,
        l.rect_here(size).top_left.y == l.y_slot(size).0,
        l.valid() ==> l.advanced_here(size).valid(),
{
    let bh = l.bounds.height as i32 as int;
    match l.align.vertical {
        VerticalAlign::Center { rows } => {
            crate::geometry::lemma_trunc_div_fits(bh, rows as i32 as int);
        },
        _ => {},
    }
}

/// Without centring a placed widget always stays inside its cell.
pub proof fn lemma_uncentred_in_cell(l: LayoutView, size: Size)
    requires
        !(l.align.horizontal is Center),
        !(l.align.vertical is Center),
        l.next_defined(size),
        l.room(size),
    ensures
        l.in_cell(size),
{
    lemma_slot_claim(l.line_start(size), size);
}

/// Placement rules of a layout, for every alignment: each widget that
/// `next` places lies inside the bounds. When it also stays inside its
/// cell of the row (always so but for a centred widget larger than its
/// slot), it misses every widget placed before it, and they stay, with the
/// new one, in what the layout has filled. Starting from an empty layout,
/// every rectangle handed out so far is covered, so no two of them overlap.
pub proof fn lemma_next_inside_and_apart(l: LayoutView, size: Size, before: Seq<Rectangle>)
    requires
        l.valid(),
        l.next_defined(size),
        l.room(size),
        l.in_cell(size),
        forall|k: int| 0 <= k < before.len() ==> l.covers(#[trigger] before[k]),
    ensures
        inside(l.placed(size), l.bounds),
        forall|k: int| 0 <= k < before.len() ==> !l.placed(size).spec_overlaps(#[trigger] before[k]),
        forall|k: int| 0 <= k < before.len() ==> l.advanced(size).covers(#[trigger] before[k]),
        l.advanced(size).covers(l.placed(size)),
        l.advanced(size).valid(),
{
    let s = l.line_start(size);
    if l.wraps_before(size) {
        assert forall|k: int| 0 <= k < before.len() implies s.covers(#[trigger] before[k]) by {
            lemma_new_row_covers(l, before[k]);
        }
    }
    lemma_slot_claim(s, size);
    assert forall|k: int| 0 <= k < before.len() implies !l.placed(size).spec_overlaps(#[trigger] before[k])
        && l.advanced(size).covers(before[k]) by {
        lemma_here_apart(s, size, before[k]);
    }
    lemma_here_self(s, size);
}

/// The same rules for `next_row`, whose widget goes at the left edge just
/// below the closed row: with an alignment that fills rows from the left
/// and from the top, it lies inside the bounds, misses every widget placed
/// before, and they stay, with the new one, in what the layout has filled.
pub proof fn lemma_next_row_inside_and_apart(l: LayoutView, size: Size, before: Seq<Rectangle>)
    requires
        l.valid(),
        l.next_row_defined(),
        l.room_next_row(size),
        l.fills_from_top_left(),
        forall|k: int| 0 <= k < before.len() ==> l.covers(#[trigger] before[k]),
    ensures
        inside(l.row_rect(size), l.bounds),
        forall|k: int| 0 <= k < before.len() ==> !l.row_rect(size).spec_overlaps(#[trigger] before[k]),
        forall|k: int| 0 <= k < before.len() ==> l.row_advanced(size).covers(#[trigger] before[k]),
        l.row_advanced(size).covers(l.row_rect(size)),
        l.row_advanced(size).valid(),
{
    assert forall|k: int| 0 <= k < before.len() implies l.new_row().covers(#[trigger] before[k]) by {
        lemma_new_row_covers(l, before[k]);
    }
    assert(size.width as i32 == size.width);
}

/// With left and top alignment the next widget goes right after the
/// previous one on its row, or, when wrapping and it would cross the right
/// edge, at the left edge below the row, which is as high as its tallest
/// widget.
pub proof fn lemma_left_top_next_position(l: LayoutView, a: Size, b: Size)
    requires
        l.align == (Align { horizontal: HorizontalAlign::Left, vertical: VerticalAlign::Top }),
        l.valid(),
        l.room(a),
        l.next_defined(a),
        l.advanced(a).room(b),
        l.advanced(a).next_defined(b),
    ensures
        ({
            let ra = l.placed(a);
            let m = l.advanced(a);
            let rb = m.placed(b);
            &&& m.row_height == (if l.line_start(a).row_height >= a.height { l.line_start(a).row_height as int } else { a.height as int })
            &&& rb.size == b
            &&& rb.top_left == (if l.wrap && ra.top_left.x + a.width + b.width > l.bounds.width {
                Point { x: 0, y: (ra.top_left.y + m.row_height) as i32 }
            } else {
                Point { x: (ra.top_left.x + a.width) as i32, y: ra.top_left.y }
            })
        }),
{
    let s = l.line_start(a);
    let m = l.advanced(a);
    lemma_slot_claim(s, a);
    assert(a.height as i32 == a.height);
    assert(a.width as i32 == a.width);
    assert(m.row_height as i32 == m.row_height);
    assert(m.pos.x == l.placed(a).top_left.x + a.width);
    assert(m.pos.x as u32 == m.pos.x);
}

/// The interaction reaches a widget in `r`: it is there, and its point lies in `r`.
pub open spec fn hit(r: Rectangle, i: Option<Interaction>) -> bool {
    match i {
        Some(x) => r.spec_contains(x.spec_point()),
        None => false,
    }
}

/// What a widget in `r` is handed: the interaction when it is hit, `None` otherwise.
pub open spec fn routed(r: Rectangle, i: Option<Interaction>) -> Option<Interaction> {
    if hit(r, i) {
        i
    } else {
        None
    }
}

/// `q` after trying to enqueue `e` into a queue of capacity `cap`: a full
/// queue drops the event.
pub open spec fn bounded_push(q: Seq<Event>, e: Event, cap: nat) -> Seq<Event> {
    if q.len() < cap {
        q.push(e)
    } else {
        q
    }
}

/// `q` after trying to enqueue each of `s`, in order.
pub open spec fn bounded_append(q: Seq<Event>, s: Seq<Event>, cap: nat) -> Seq<Event>
    decreases s.len(),
{
    if s.len() == 0 {
        q
    } else {
        bounded_push(bounded_append(q, s.drop_last(), cap), s.last(), cap)
    }
}

/// Enqueueing into a queue with room for all of `s` appends `s` whole.
pub proof fn lemma_bounded_append_room(q: Seq<Event>, s: Seq<Event>, cap: nat)
    requires
        q.len() + s.len() <= cap,
    ensures
        bounded_append(q, s, cap) == q + s,
    decreases s.len(),
{
    if s.len() > 0 {
        lemma_bounded_append_room(q, s.drop_last(), cap);
        assert(q + s =~= (q + s.drop_last()).push(s.last()));
    }
}

/// Events leave a queue in the order they entered it, each once: after
/// `k` events are taken from the front, the next one taken is the `k`-th,
/// and once all are taken the queue is empty.
pub proof fn lemma_drain_in_order(q: Seq<Event>, k: int)
    requires
        0 <= k <= q.len(),
    ensures
        k < q.len() ==> q.skip(k)[0] == q[k] && q.skip(k).drop_first() == q.skip(k + 1),
        k == q.len() ==> q.skip(k).len() == 0,
{
    if k < q.len() {
        assert(q.skip(k).drop_first() =~= q.skip(k + 1));
    }
}

/// The state of a [`Page`]: its widgets with their rectangles, in insertion
/// order, the index of the focused widget and the layout.
pub struct PageView {
    pub widgets: Seq<(WidgetView, Rectangle)>,
    pub focus_idx: WidgetId,
    pub layout: LayoutView,
}

impl PageView {
    /// At most `cap` widgets, the focus index names one of them, or is 0,
    /// and the layout is valid.
    pub open spec fn wf(self, cap: nat) -> bool {
        &&& self.widgets.len() <= cap
        &&& (self.focus_idx < self.widgets.len() || self.focus_idx == 0)
        &&& self.layout.valid()
    }

    /// Every widget lies in what the layout has filled, so that the next
    /// one placed inside its cell misses them all.
    pub open spec fn ordered(self) -> bool {
        forall|k: int| 0 <= k < self.widgets.len() ==> self.layout.covers(#[trigger] self.widgets[k].1)
    }

    /// The widget at `idx` exists and can take the focus.
    pub open spec fn can_focus(self, idx: int) -> bool {
        0 <= idx < self.widgets.len() && self.widgets[idx].0.focusable()
    }

    /// The page after the focus moves to `idx`: the focused widget, if any,
    /// loses the focus, then the widget at `idx` takes it.
    pub open spec fn refocused(self, idx: int) -> PageView {
        let f = self.focus_idx as int;
        let ws1 = if f < self.widgets.len() {
            self.widgets.update(f, (self.widgets[f].0.after_focus(false), self.widgets[f].1))
        } else {
            self.widgets
        };
        PageView {
            widgets: ws1.update(idx, (ws1[idx].0.after_focus(true), ws1[idx].1)),
            focus_idx: idx as usize,
            ..self
        }
    }

    /// The first widget that can take the focus among `start`, `start + 1`, ...
    /// taken cyclically, from the `k`-th candidate on.
    pub open spec fn scan_next(self, start: int, k: nat) -> Option<int>
        decreases self.widgets.len() - k,
    {
        if k >= self.widgets.len() {
            None
        } else if self.can_focus((start + k) % (self.widgets.len() as int)) {
            Some((start + k) % (self.widgets.len() as int))
        } else {
            self.scan_next(start, k + 1)
        }
    }

    /// The first widget that can take the focus among `start`, `start - 1`, ...
    /// taken cyclically, from the `k`-th candidate on.
    pub open spec fn scan_prev(self, start: int, k: nat) -> Option<int>
        decreases self.widgets.len() - k,
    {
        if k >= self.widgets.len() {
            None
        } else if self.can_focus((start - k) % (self.widgets.len() as int)) {
            Some((start - k) % (self.widgets.len() as int))
        } else {
            self.scan_prev(start, k + 1)
        }
    }

    /// Where `focus_next` moves the focus: the nearest widget after the
    /// focused one, cyclically, that can take it.
    pub open spec fn next_target(self) -> Option<int> {
        let n = self.widgets.len() as int;
        if n == 0 {
            None
        } else {
            self.scan_next((self.focus_idx + 1) % n, 0)
        }
    }

    /// Where `focus_prev` moves the focus: the nearest widget before the
    /// focused one, cyclically, that can take it.
    pub open spec fn prev_target(self) -> Option<int> {
        let n = self.widgets.len() as int;
        if n == 0 {
            None
        } else {
            self.scan_prev(if self.focus_idx == 0 { n - 1 } else { self.focus_idx - 1 }, 0)
        }
    }

    /// The page once `w` is appended in `rect` and the layout moved to `layout`.
    pub open spec fn appended(self, w: WidgetView, rect: Rectangle, layout: LayoutView) -> PageView {
        PageView { widgets: self.widgets.push((w, rect)), layout, ..self }
    }

    /// The page after `insert(w)` placed `w`: the first widget of a page
    /// takes the focus when it can.
    pub open spec fn inserted(self, w: WidgetView) -> PageView {
        let p = self.appended(w, self.layout.placed(w.size()), self.layout.advanced(w.size()));
        if self.widgets.len() == 0 && p.can_focus(0) {
            p.refocused(0)
        } else {
            p
        }
    }

    /// The widgets after each of them got the interaction, when it hit
    /// them, or `None`.
    pub open spec fn processed(self, i: Option<Interaction>) -> Seq<(WidgetView, Rectangle)> {
        Seq::new(
            self.widgets.len(),
            |k: int| (self.widgets[k].0.after_interact(routed(self.widgets[k].1, i)), self.widgets[k].1),
        )
    }

    /// The events that processing raises for the first `k` widgets: one for
    /// each widget that was hit and is changed afterwards, in order.
    pub open spec fn raised(self, i: Option<Interaction>, page_idx: u8, k: nat) -> Seq<Event>
        decreases k,
    {
        if k == 0 {
            Seq::empty()
        } else {
            let j = k - 1;
            let prev = self.raised(i, page_idx, j as nat);
            if hit(self.widgets[j].1, i) && self.widgets[j].0.after_interact(i).changed() {
                prev.push(Event { page_idx, widget_id: j as usize })
            } else {
                prev
            }
        }
    }
}

/// The events that processing raises name the page they were raised on
/// and widgets in increasing order, each at most once; each names a widget
/// whose rectangle holds the interaction's point and that is changed by it.
pub proof fn lemma_raised_events(p: PageView, i: Option<Interaction>, page_idx: u8, k: nat)
    requires
        k <= usize::MAX,
    ensures
        p.raised(i, page_idx, k).len() <= k,
        forall|j: int| 0 <= j < p.raised(i, page_idx, k).len() ==> (#[trigger] p.raised(i, page_idx, k)[j]).page_idx == page_idx
            && p.raised(i, page_idx, k)[j].widget_id < k,
        forall|j: int|
            0 <= j < p.raised(i, page_idx, k).len() && k <= p.widgets.len() ==> i is Some && p.widgets[(
            #[trigger] p.raised(i, page_idx, k)[j]).widget_id as int].1.spec_contains(i->0.spec_point())
                && p.widgets[p.raised(i, page_idx, k)[j].widget_id as int].0.after_interact(i).changed(),
        forall|j1: int, j2: int|
            0 <= j1 < j2 < p.raised(i, page_idx, k).len() ==> (#[trigger] p.raised(i, page_idx, k)[j1]).widget_id
                < (#[trigger] p.raised(i, page_idx, k)[j2]).widget_id,
    decreases k,
{
    if k > 0 {
        lemma_raised_events(p, i, page_idx, (k - 1) as nat);
        let prev = p.raised(i, page_idx, (k - 1) as nat);
        let cur = p.raised(i, page_idx, k);
        let j = k - 1;
        if hit(p.widgets[j].1, i) && p.widgets[j].0.after_interact(i).changed() {
            assert(cur == prev.push(Event { page_idx, widget_id: j as usize }));
        } else {
            assert(cur == prev);
        }
        assert forall|j1: int, j2: int| 0 <= j1 < j2 < cur.len() implies (#[trigger] cur[j1]).widget_id
            < (#[trigger] cur[j2]).widget_id by {
            if j2 >= prev.len() {
                assert(cur[j1] == prev[j1]);
            } else {
                assert(cur[j1] == prev[j1] && cur[j2] == prev[j2]);
            }
        }
        assert forall|j: int| 0 <= j < cur.len() implies (#[trigger] cur[j]).page_idx == page_idx && cur[j].widget_id < k by {
            if j < prev.len() {
                assert(cur[j] == prev[j]);
            }
        }
        if k <= p.widgets.len() {
            assert forall|j: int| 0 <= j < cur.len() implies i is Some && p.widgets[(#[trigger] cur[j]).widget_id as int].1.spec_contains(
                i->0.spec_point(),
            ) && p.widgets[cur[j].widget_id as int].0.after_interact(i).changed() by {
                if j < prev.len() {
                    assert(cur[j] == prev[j]);
                }
            }
        }
    }
}

proof fn lemma_mod_succ(a: int, n: int)
    requires
        n > 0,
    ensures
        0 <= a % n < n,
        a % n + 1 < n ==> (a + 1) % n == a % n + 1,
        a % n + 1 == n ==> (a + 1) % n == 0,
{
    vstd::arithmetic::div_mod::lemma_mod_bound(a, n);
    vstd::arithmetic::div_mod::lemma_add_mod_noop(a, 1, n);
    vstd::arithmetic::div_mod::lemma_mod_bound(a + 1, n);
    if n > 1 {
        vstd::arithmetic::div_mod::lemma_small_mod(1, n as nat);
        if a % n + 1 < n {
            vstd::arithmetic::div_mod::lemma_small_mod((a % n + 1) as nat, n as nat);
        } else {
            vstd::arithmetic::div_mod::lemma_mod_self_0(n);
        }
    }
}

proof fn lemma_mod_pred(a: int, n: int)
    requires
        n > 0,
    ensures
        0 <= a % n < n,
        a % n > 0 ==> (a - 1) % n == a % n - 1,
        a % n == 0 ==> (a - 1) % n == n - 1,
{
    vstd::arithmetic::div_mod::lemma_mod_bound(a, n);
    vstd::arithmetic::div_mod::lemma_sub_mod_noop(a, 1, n);
    vstd::arithmetic::div_mod::lemma_mod_bound(a - 1, n);
    if n > 1 {
        vstd::arithmetic::div_mod::lemma_small_mod(1, n as nat);
        if a % n > 0 {
            vstd::arithmetic::div_mod::lemma_small_mod((a % n - 1) as nat, n as nat);
        } else {
            vstd::arithmetic::div_mod::lemma_mod_sub_multiples_vanish(n - 1, n);
            vstd::arithmetic::div_mod::lemma_small_mod((n - 1) as nat, n as nat);
        }
    }
}

/// Stepping `k` places cyclically from `start` comes back to `start` only after a full turn.
proof fn lemma_turn(start: int, k: int, n: int)
    requires
        0 <= start < n,
        0 < k <= n,
    ensures
        (start + k) % n == start <==> k == n,
        (start - k) % n == start <==> k == n,
{
    if k == n {
        vstd::arithmetic::div_mod::lemma_mod_add_multiples_vanish(start, n);
        vstd::arithmetic::div_mod::lemma_mod_sub_multiples_vanish(start, n);
        vstd::arithmetic::div_mod::lemma_small_mod(start as nat, n as nat);
    } else {
        if start + k < n {
            vstd::arithmetic::div_mod::lemma_small_mod((start + k) as nat, n as nat);
        } else {
            vstd::arithmetic::div_mod::lemma_mod_sub_multiples_vanish(start + k, n);
            vstd::arithmetic::div_mod::lemma_small_mod((start + k - n) as nat, n as nat);
        }
        if start - k >= 0 {
            vstd::arithmetic::div_mod::lemma_small_mod((start - k) as nat, n as nat);
        } else {
            vstd::arithmetic::div_mod::lemma_mod_add_multiples_vanish(start - k, n);
            vstd::arithmetic::div_mod::lemma_small_mod((start - k + n) as nat, n as nat);
        }
    }
}

proof fn lemma_scan_next_found(p: PageView, start: int, k: nat)
    requires
        p.scan_next(start, k) is Some,
    ensures
        ({
            let n = p.widgets.len() as int;
            let t = p.scan_next(start, k)->0;
            exists|j: int|
                #![trigger (start + j) % n]
                k <= j < n && t == (start + j) % n && p.can_focus(t) && forall|i: int|
                    #![trigger (start + i) % n]
                    k <= i < j ==> !p.can_focus((start + i) % n)
        }),
    decreases p.widgets.len() - k,
{
    let n = p.widgets.len() as int;
    if !p.can_focus((start + k) % n) {
        lemma_scan_next_found(p, start, k + 1);
        let t = p.scan_next(start, k)->0;
        let j = choose|j: int|
            #![trigger (start + j) % n]
            k + 1 <= j < n && t == (start + j) % n && p.can_focus(t) && forall|i: int|
                #![trigger (start + i) % n]
                k + 1 <= i < j ==> !p.can_focus((start + i) % n);
        assert forall|i: int| #![trigger (start + i) % n] k <= i < j implies !p.can_focus((start + i) % n) by {
            if i == k {
            }
        }
    } else {
        assert(p.scan_next(start, k)->0 == (start + k) % n);
    }
}

proof fn lemma_scan_prev_reaches(p: PageView, start: int, k: nat, j: int)
    requires
        k <= j < p.widgets.len(),
        p.can_focus((start - j) % (p.widgets.len() as int)),
        forall|i: int|
            #![trigger (start - i) % (p.widgets.len() as int)]
            k <= i < j ==> !p.can_focus((start - i) % (p.widgets.len() as int)),
    ensures
        p.scan_prev(start, k) == Some((start - j) % (p.widgets.len() as int)),
    decreases j - k,
{
    let n = p.widgets.len() as int;
    if k < j {
        assert(!p.can_focus((start - k) % n));
        lemma_scan_prev_reaches(p, start, (k + 1) as nat, j);
    }
}

proof fn lemma_after_focus_keeps_focusable(w: WidgetView, b: bool)
    ensures
        w.after_focus(b).focusable() == w.focusable(),
{
}

proof fn lemma_refocused_keeps_focusable(p: PageView, t: int)
    requires
        p.can_focus(t),
        p.widgets.len() <= usize::MAX,
    ensures
        p.refocused(t).widgets.len() == p.widgets.len(),
        forall|i: int| #[trigger] p.refocused(t).can_focus(i) == p.can_focus(i),
        p.refocused(t).focus_idx == t,
{
    let f = p.focus_idx as int;
    assert forall|i: int| #[trigger] p.refocused(t).can_focus(i) == p.can_focus(i) by {
        if 0 <= i < p.widgets.len() {
            lemma_after_focus_keeps_focusable(p.widgets[i].0, false);
            if f < p.widgets.len() {
                lemma_after_focus_keeps_focusable(p.widgets[f].0, false);
                lemma_after_focus_keeps_focusable(p.widgets[f].0.after_focus(false), true);
            }
            lemma_after_focus_keeps_focusable(p.widgets[t].0, true);
            lemma_after_focus_keeps_focusable(p.widgets[t].0.after_focus(false), true);
        }
    }
}

/// Moving the focus forward and then back returns it to where it was,
/// when the focused widget can hold the focus: `focus_prev` undoes `focus_next`.
pub proof fn lemma_focus_prev_undoes_next(p: PageView)
    requires
        p.widgets.len() <= usize::MAX,
        p.can_focus(p.focus_idx as int),
    ensures
        p.next_target() is Some,
        p.refocused(p.next_target()->0).prev_target() == Some(p.focus_idx as int),
{
    let n = p.widgets.len() as int;
    let f = p.focus_idx as int;
    let start = (f + 1) % n;
    lemma_mod_succ(f, n);
    vstd::arithmetic::div_mod::lemma_small_mod(f as nat, n as nat);
    // The focused widget itself is the last candidate of the forward scan.
    assert((start + (n - 1)) % n == f) by {
        vstd::arithmetic::div_mod::lemma_add_mod_noop(f + 1, n - 1, n);
        vstd::arithmetic::div_mod::lemma_small_mod((n - 1) as nat, n as nat);
        vstd::arithmetic::div_mod::lemma_mod_add_multiples_vanish(f, n);
        assert(f + 1 + (n - 1) == n + f);
    }
    lemma_scan_next_always(p, start, 0, n - 1);
    lemma_scan_next_found(p, start, 0);
    let t = p.scan_next(start, 0)->0;
    let j = choose|j: int|
        #![trigger (start + j) % n]
        0 <= j < n && t == (start + j) % n && p.can_focus(t) && forall|i: int|
            #![trigger (start + i) % n]
            0 <= i < j ==> !p.can_focus((start + i) % n);
    let q = p.refocused(t);
    lemma_refocused_keeps_focusable(p, t);
    assert(q.widgets.len() == n);
    let s2 = if t == 0 { n - 1 } else { t - 1 };
    // Each backward candidate of `q` is a forward candidate of `p`, read in reverse.
    assert forall|i: int| 0 <= i <= j implies #[trigger] ((s2 - i) % n) == (start + (j - 1 - i)) % n
        || (i == j && (s2 - i) % n == f) by {
        lemma_back_forward(f, n, j, i);
    }
    assert forall|i: int| #![trigger (s2 - i) % n] 0 <= i < j implies !q.can_focus((s2 - i) % n) by {
        lemma_back_forward(f, n, j, i);
        assert(!p.can_focus((start + (j - 1 - i)) % n));
    }
    lemma_back_forward(f, n, j, j);
    assert(q.can_focus((s2 - j) % n));
    lemma_scan_prev_reaches(q, s2, 0, j);
}

proof fn lemma_scan_next_always(p: PageView, start: int, k: nat, j: int)
    requires
        k <= j < p.widgets.len(),
        p.can_focus((start + j) % (p.widgets.len() as int)),
    ensures
        p.scan_next(start, k) is Some,
    decreases j - k,
{
    if k < j && !p.can_focus((start + k) % (p.widgets.len() as int)) {
        lemma_scan_next_always(p, start, (k + 1) as nat, j);
    }
}

/// With `start = (f + 1) % n` and `t = (start + j) % n`, the `i`-th
/// candidate backward from the one before `t` is the `(j - 1 - i)`-th
/// candidate forward from `start`; the `j`-th is `f` itself.
proof fn lemma_back_forward(f: int, n: int, j: int, i: int)
    requires
        0 <= f < n,
        0 <= j < n,
        0 <= i <= j,
    ensures
        ({
            let start = (f + 1) % n;
            let t = (start + j) % n;
            let s2 = if t == 0 { n - 1 } else { t - 1 };
            &&& (i < j ==> (s2 - i) % n == (start + (j - 1 - i)) % n)
            &&& (i == j ==> (s2 - i) % n == f)
        }),
{
    let start = (f + 1) % n;
    let t = (start + j) % n;
    let s2 = if t == 0 { n - 1 } else { t - 1 };
    vstd::arithmetic::div_mod::lemma_mod_bound(start + j, n);
    // s2 is congruent to f + j modulo n.
    assert(s2 % n == (f + j) % n) by {
        vstd::arithmetic::div_mod::lemma_add_mod_noop(f + 1, j, n);
        vstd::arithmetic::div_mod::lemma_small_mod(j as nat, n as nat);
        vstd::arithmetic::div_mod::lemma_mod_twice(f + 1, n);
        lemma_mod_pred(start + j, n);
        vstd::arithmetic::div_mod::lemma_mod_twice(start + j, n);
        assert((start + j) % n == (f + 1 + j) % n) by {
            vstd::arithmetic::div_mod::lemma_add_mod_noop(f + 1, j, n);
            vstd::arithmetic::div_mod::lemma_add_mod_noop(start, j, n);
            vstd::arithmetic::div_mod::lemma_mod_twice(f + 1, n);
        }
        lemma_mod_pred(f + 1 + j, n);
        if t == 0 {
            vstd::arithmetic::div_mod::lemma_small_mod((n - 1) as nat, n as nat);
        } else {
            vstd::arithmetic::div_mod::lemma_small_mod((t - 1) as nat, n as nat);
        }
    }
    vstd::arithmetic::div_mod::lemma_sub_mod_noop(s2, i, n);
    vstd::arithmetic::div_mod::lemma_sub_mod_noop(f + j, i, n);
    vstd::arithmetic::div_mod::lemma_small_mod(i as nat, n as nat);
    assert((s2 - i) % n == (f + j - i) % n);
    if i < j {
        vstd::arithmetic::div_mod::lemma_add_mod_noop(f + 1, j - 1 - i, n);
        vstd::arithmetic::div_mod::lemma_add_mod_noop(start, j - 1 - i, n);
        vstd::arithmetic::div_mod::lemma_mod_twice(f + 1, n);
        assert(f + 1 + (j - 1 - i) == f + j - i);
    } else {
        vstd::arithmetic::div_mod::lemma_small_mod(f as nat, n as nat);
    }
}

proof fn lemma_scan_prev_found(p: PageView, start: int, k: nat)
    requires
        p.scan_prev(start, k) is Some,
    ensures
        p.can_focus(p.scan_prev(start, k)->0),
    decreases p.widgets.len() - k,
{
    if !p.can_focus((start - k) % (p.widgets.len() as int)) {
        lemma_scan_prev_found(p, start, k + 1);
    }
}

proof fn lemma_scan_prev_always(p: PageView, start: int, k: nat, j: int)
    requires
        k <= j < p.widgets.len(),
        p.can_focus((start - j) % (p.widgets.len() as int)),
    ensures
        p.scan_prev(start, k) is Some,
    decreases j - k,
{
    if k < j && !p.can_focus((start - k) % (p.widgets.len() as int)) {
        lemma_scan_prev_always(p, start, (k + 1) as nat, j);
    }
}

/// The focus only ever moves onto a widget that can hold it, and it
/// always finds one when the page has one: whenever some widget can take
/// the focus, `focus_next` and `focus_prev` both move it onto such a widget.
pub proof fn lemma_focus_moves_onto_focusable(p: PageView, i: int)
    requires
        p.widgets.len() <= usize::MAX,
        p.can_focus(i),
    ensures
        p.next_target() is Some,
        p.can_focus(p.next_target()->0),
        p.refocused(p.next_target()->0).can_focus(p.refocused(p.next_target()->0).focus_idx as int),
        p.prev_target() is Some,
        p.can_focus(p.prev_target()->0),
        p.refocused(p.prev_target()->0).can_focus(p.refocused(p.prev_target()->0).focus_idx as int),
{
    let n = p.widgets.len() as int;
    let f = p.focus_idx as int;
    let s1 = (f + 1) % n;
    let s2 = if f == 0 { n - 1 } else { f - 1 };
    vstd::arithmetic::div_mod::lemma_mod_bound(f + 1, n);
    // Candidate `i` is reached forward after `j1` steps and backward after `j2` steps.
    let j1 = (i - s1 + n) % n;
    let j2 = (s2 - i + n) % n;
    assert((s1 + j1) % n == i && 0 <= j1 < n) by {
        vstd::arithmetic::div_mod::lemma_mod_bound(i - s1 + n, n);
        vstd::arithmetic::div_mod::lemma_fundamental_div_mod(i - s1 + n, n);
        let q = (i - s1 + n) / n;
        assert(s1 + j1 == i + n - n * q);
        vstd::arithmetic::div_mod::lemma_mod_multiples_vanish(1 - q, i, n);
        assert(i + n - n * q == n * (1 - q) + i) by (nonlinear_arith);
        vstd::arithmetic::div_mod::lemma_small_mod(i as nat, n as nat);
    }
    assert((s2 - j2) % n == i && 0 <= j2 < n) by {
        vstd::arithmetic::div_mod::lemma_mod_bound(s2 - i + n, n);
        vstd::arithmetic::div_mod::lemma_fundamental_div_mod(s2 - i + n, n);
        let q = (s2 - i + n) / n;
        assert(s2 - j2 == i - n + n * q);
        vstd::arithmetic::div_mod::lemma_mod_multiples_vanish(q - 1, i, n);
        assert(i - n + n * q == n * (q - 1) + i) by (nonlinear_arith);
        vstd::arithmetic::div_mod::lemma_small_mod(i as nat, n as nat);
    }
    lemma_scan_next_always(p, s1, 0, j1);
    lemma_scan_next_found(p, s1, 0);
    lemma_scan_prev_always(p, s2, 0, j2);
    lemma_scan_prev_found(p, s2, 0);
    lemma_refocused_keeps_focusable(p, p.next_target()->0);
    lemma_refocused_keeps_focusable(p, p.prev_target()->0);
}

/// Processing hands the interaction only to the widgets whose rectangle
/// holds its point; every other widget is handed `None`, whatever the
/// interaction. The rectangles and the number of widgets stay.
pub proof fn lemma_process_routes_by_position(p: PageView, i: Option<Interaction>)
    ensures
        p.processed(i).len() == p.widgets.len(),
        forall|k: int| 0 <= k < p.widgets.len() ==> (#[trigger] p.processed(i)[k]).1 == p.widgets[k].1,
        forall|k: int|
            0 <= k < p.widgets.len() && (i is None || !p.widgets[k].1.spec_contains(i->0.spec_point()))
                ==> (#[trigger] p.processed(i)[k]).0 == p.widgets[k].0.after_interact(None),
        forall|k: int|
            0 <= k < p.widgets.len() && i is Some && p.widgets[k].1.spec_contains(i->0.spec_point())
                ==> (#[trigger] p.processed(i)[k]).0 == p.widgets[k].0.after_interact(i),
{
}

/// Moving the focus from the focused widget `f` to another widget `t`
/// takes the focus flag from `f` and gives it to `t`, and leaves every
/// other widget as it was; so when `f` was the only widget holding the
/// focus, afterwards `t`, at the page's focus index, is the only one.
pub proof fn lemma_focus_moves_flag(p: PageView, t: int)
    requires
        p.widgets.len() <= usize::MAX,
        0 <= p.focus_idx < p.widgets.len(),
        p.can_focus(p.focus_idx as int),
        p.can_focus(t),
        t != p.focus_idx,
    ensures
        ({
            let q = p.refocused(t);
            let f = p.focus_idx as int;
            &&& q.focus_idx == t
            &&& q.widgets.len() == p.widgets.len()
            &&& q.widgets[t].0.has_focus()
            &&& !q.widgets[f].0.has_focus()
            &&& forall|k: int| 0 <= k < p.widgets.len() && k != f && k != t ==> #[trigger] q.widgets[k] == p.widgets[k]
            &&& (forall|k: int| 0 <= k < p.widgets.len() && k != f ==> !(#[trigger] p.widgets[k].0.has_focus())) ==> forall|k: int|
                0 <= k < q.widgets.len() && k != t ==> !(#[trigger] q.widgets[k].0.has_focus())
        }),
{
    let f = p.focus_idx as int;
    let q = p.refocused(t);
    crate::widgets::lemma_focus_flag_follows(p.widgets[f].0);
    crate::widgets::lemma_focus_flag_follows(p.widgets[t].0);
    assert(q.widgets[t].0 == p.widgets[t].0.after_focus(true));
    assert(q.widgets[f].0 == p.widgets[f].0.after_focus(false));
    assert forall|k: int| 0 <= k < p.widgets.len() && k != f && k != t implies #[trigger] q.widgets[k] == p.widgets[k] by {}
}

/// Without an interaction no widget is hit, so processing raises no event.
pub proof fn lemma_idle_raises_nothing(p: PageView, page_idx: u8, k: nat)
    ensures
        p.raised(None, page_idx, k) == Seq::<Event>::empty(),
    decreases k,
{
    if k > 0 {
        lemma_idle_raises_nothing(p, page_idx, (k - 1) as nat);
    }
}

/// A screen of widgets placed by a layout, one of which may hold the focus.
pub struct Page<const WIDGET_COUNT: usize> {
    widgets: Vec<(WidgetKind, Rectangle)>,
    focus_idx: WidgetId,
    layout: Layout,
}

impl<const S: usize> View for Page<S> {
    type V = PageView;

    closed spec fn view(&self) -> PageView {
        PageView {
            widgets: self.widgets@.map_values(|e: (WidgetKind, Rectangle)| (e.0@, e.1)),
            focus_idx: self.focus_idx,
            layout: self.layout@,
        }
    }
}

impl<const S: usize> Page<S> {
    /// The page holds at most `S` widgets, and the focus index names one of
    /// them, or is 0.
    pub open spec fn wf(&self) -> bool {
        self@.wf(S as nat)
    }

    /// An empty page whose layout covers `size`.
    pub fn new(size: Size, wrap: bool, align: Align) -> (p: Self)
        ensures
            p.wf(),
            p@.ordered(),
            p@.widgets == Seq::<(WidgetView, Rectangle)>::empty(),
            p@.focus_idx == 0,
            p@.layout == (LayoutView { pos: Point { x: 0, y: 0 }, row: 0, col: 0, row_height: 0, bounds: size, wrap, align }),
    {
        let layout = Layout::new(size, wrap, align);
        let p = Page { widgets: Vec::new(), focus_idx: 0, layout };
        proof {
            assert(p@.widgets =~= Seq::<(WidgetView, Rectangle)>::empty());
        }
        p
    }

    /// The number of widgets on the page.
    pub fn len(&self) -> (n: usize)
        ensures
            n == self@.widgets.len(),
    {
        self.widgets.len()
    }

    /// The index of the focused widget.
    pub fn focused(&self) -> (f: WidgetId)
        ensures
            f == self@.focus_idx,
    {
        self.focus_idx
    }

    /// Hands the interaction to every widget that it hits and `None` to
    /// the others, in order, and enqueues an event for each hit widget that
    /// is changed afterwards. An event that finds the queue full is dropped.
    pub fn process<const E: usize>(
        &mut self,
        interaction: Option<Interaction>,
        events: &mut EventQueue<E>,
        page_idx: u8,
    )
        requires
            old(self).wf(),
            old(events).wf(),
        ensures
            final(self).wf(),
            final(events).wf(),
            final(self)@ == (PageView { widgets: old(self)@.processed(interaction), ..old(self)@ }),
            forall|k: int|
                0 <= k < old(self)@.widgets.len() && (interaction is None || !old(self)@.widgets[k].1.spec_contains(
                    interaction->0.spec_point(),
                )) ==> (#[trigger] final(self)@.widgets[k]).0 == old(self)@.widgets[k].0.after_interact(None),
            final(events).items() == bounded_append(
                old(events).items(),
                old(self)@.raised(interaction, page_idx, old(self)@.widgets.len() as nat),
                (E - 1) as nat,
            ),
    {
        let ghost old_view = self@;
        let ghost old_items = events.items();
        let n = self.widgets.len();
        let mut i: usize = 0;
        while i < n
            invariant
                0 <= i <= n,
                n == self.widgets.len(),
                n == old_view.widgets.len(),
                events.wf(),
                self.focus_idx == old_view.focus_idx,
                self.layout@ == old_view.layout,
                forall|k: int| 0 <= k < i ==> #[trigger] self@.widgets[k] == old_view.processed(interaction)[k],
                forall|k: int| i <= k < n ==> #[trigger] self@.widgets[k] == old_view.widgets[k],
                events.items() == bounded_append(old_items, old_view.raised(interaction, page_idx, i as nat), (E - 1) as nat),
            decreases n - i,
        {
            let ghost before = self.widgets@;
            let ghost before_view = self@;
            assert(self@.widgets[i as int] == old_view.widgets[i as int]);
            assert(self@.widgets[i as int] == (before[i as int].0@, before[i as int].1));
            let is_hit = match interaction {
                Some(it) => self.widgets[i].1.contains(it.point()),
                None => false,
            };
            assert(is_hit == hit(old_view.widgets[i as int].1, interaction));
            let ghost r0 = old_view.raised(interaction, page_idx, i as nat);
            let ghost r1 = old_view.raised(interaction, page_idx, (i + 1) as nat);
            if is_hit {
                self.widgets[i].0.interact(interaction);
                if self.widgets[i].0.is_changed() {
                    let ev = Event { page_idx, widget_id: i };
                    proof {
                        assert(r1 == r0.push(ev));
                        assert(r1.drop_last() =~= r0);
                    }
                    let _ = events.enqueue(ev);
                } else {
                    assert(r1 == r0);
                }
            } else {
                self.widgets[i].0.interact(None);
            }
            proof {
                assert(self.widgets@.len() == before.len());
                assert(self.widgets@[i as int].1 == before[i as int].1);
                assert forall|k: int| 0 <= k < n && k != i implies #[trigger] self@.widgets[k] == before_view.widgets[k] by {
                    assert(self.widgets@[k] == before[k]);
                }
                assert(self@.widgets[i as int] == (self.widgets@[i as int].0@, self.widgets@[i as int].1));
                assert(self@.widgets[i as int] == old_view.processed(interaction)[i as int]);
            }
            i = i + 1;
        }
        proof {
            assert(self@.widgets =~= old_view.processed(interaction));
            lemma_process_routes_by_position(old_view, interaction);
        }
    }

    /// Moves the focus to the widget at `new_idx` when it can take it: the
    /// focused widget loses the focus and the new one gains it. Returns
    /// false, changing nothing, when `new_idx` names no widget or one that
    /// cannot be focused.
    pub fn focus_set(&mut self, new_idx: WidgetId) -> (b: bool)
        requires
            old(self).wf(),
        ensures
            final(self).wf(),
            b == old(self)@.can_focus(new_idx as int),
            b ==> final(self)@ == old(self)@.refocused(new_idx as int),
            !b ==> final(self)@ == old(self)@,
            b && old(self)@.focus_idx < old(self)@.widgets.len() && old(self)@.focus_idx != new_idx && old(self)@.can_focus(
                old(self)@.focus_idx as int,
            ) ==> !final(self)@.widgets[old(self)@.focus_idx as int].0.has_focus() && final(self)@.widgets[new_idx as int].0.has_focus(),
    {
        proof {
            if old(self)@.focus_idx < old(self)@.widgets.len() && old(self)@.focus_idx != new_idx && old(self)@.can_focus(
                old(self)@.focus_idx as int,
            ) && old(self)@.can_focus(new_idx as int) {
                lemma_focus_moves_flag(old(self)@, new_idx as int);
            }
        }
        let n = self.widgets.len();
        if new_idx >= n {
            return false;
        }
        assert(self@.widgets[new_idx as int] == (self.widgets@[new_idx as int].0@, self.widgets@[new_idx as int].1));
        if !self.widgets[new_idx].0.is_focusable() {
            return false;
        }
        let ghost v0 = self@;
        let f = self.focus_idx;
        if f < n {
            let ghost before = self.widgets@;
            assert(self@.widgets[f as int] == (before[f as int].0@, before[f as int].1));
            self.widgets[f].0.set_focus(false);
            proof {
                assert forall|k: int| 0 <= k < n && k != f implies #[trigger] self@.widgets[k] == v0.widgets[k] by {
                    assert(self.widgets@[k] == before[k]);
                }
                assert(self@.widgets[f as int] == (self.widgets@[f as int].0@, self.widgets@[f as int].1));
            }
        }
        let ghost v1 = self@;
        assert(v1.widgets =~= (if f < n {
            v0.widgets.update(f as int, (v0.widgets[f as int].0.after_focus(false), v0.widgets[f as int].1))
        } else {
            v0.widgets
        }));
        self.focus_idx = new_idx;
        let ghost before = self.widgets@;
        assert(self@.widgets[new_idx as int] == (before[new_idx as int].0@, before[new_idx as int].1));
        self.widgets[new_idx].0.set_focus(true);
        proof {
            assert forall|k: int| 0 <= k < n && k != new_idx implies #[trigger] self@.widgets[k] == v1.widgets[k] by {
                assert(self.widgets@[k] == before[k]);
            }
            assert(self@.widgets[new_idx as int] == (self.widgets@[new_idx as int].0@, self.widgets@[new_idx as int].1));
            assert(self@.widgets =~= v0.refocused(new_idx as int).widgets);
        }
        true
    }

    /// The widget at `index` with its rectangle, if there is one.
    pub fn get(&self, index: WidgetId) -> (r: Option<(&WidgetKind, &Rectangle)>)
        ensures
            r is Some <==> index < self@.widgets.len(),
            r matches Some(p) ==> (p.0@, *p.1) == self@.widgets[index as int],
    {
        if index < self.widgets.len() {
            let entry = &self.widgets[index];
            Some((&entry.0, &entry.1))
        } else {
            None
        }
    }

    /// The widget at `index`, to change it, if there is one.
    pub fn get_mut(&mut self, index: WidgetId) -> (r: Option<&mut WidgetKind>)
        ensures
            r is Some <==> index < old(self)@.widgets.len(),
            r matches Some(w) ==> w@ == old(self)@.widgets[index as int].0,
            r matches Some(w) ==> {
                &&& final(self)@.widgets.len() == old(self)@.widgets.len()
                &&& final(self)@.widgets[index as int] == (final(w)@, old(self)@.widgets[index as int].1)
                &&& forall|k: int| 0 <= k < old(self)@.widgets.len() && k != index
                    ==> #[trigger] final(self)@.widgets[k] == old(self)@.widgets[k]
                &&& final(self)@.focus_idx == old(self)@.focus_idx
                &&& final(self)@.layout == old(self)@.layout
            },
            r is None ==> final(self)@ == old(self)@,
    {
        if index < self.widgets.len() {
            Some(&mut self.widgets[index].0)
        } else {
            None
        }
    }

    /// Moves the focus to the nearest widget after the focused one,
    /// cyclically, that can take it; changes nothing when there is none.
    pub fn focus_next(&mut self)
        requires
            old(self).wf(),
        ensures
            final(self).wf(),
            match old(self)@.next_target() {
                Some(t) => final(self)@ == old(self)@.refocused(t),
                None => final(self)@ == old(self)@,
            },
    {
        let n = self.widgets.len();
        if n == 0 {
            return;
        }
        let ghost v0 = self@;
        let start = (self.focus_idx + 1) % n;
        let mut next_idx = start;
        let ghost mut k: int = 0;
        proof {
            vstd::arithmetic::div_mod::lemma_mod_pos_bound(self.focus_idx + 1, n as int);
            vstd::arithmetic::div_mod::lemma_small_mod(start as nat, n as nat);
        }
        loop
            invariant
                n == self.widgets.len(),
                n == v0.widgets.len(),
                n > 0,
                0 <= start < n,
                0 <= k < n,
                next_idx == (start + k) % (n as int),
                self.wf(),
                self@ == v0,
                v0 == old(self)@,
                start == (v0.focus_idx + 1) % (n as int),
                v0.scan_next(start as int, 0) == v0.scan_next(start as int, k as nat),
            decreases n - k,
        {
            if self.focus_set(next_idx) {
                assert(v0.scan_next(start as int, k as nat) == Some(next_idx as int));
                assert(v0.next_target() == Some(next_idx as int));
                return;
            }
            assert(v0.scan_next(start as int, k as nat) == v0.scan_next(start as int, (k + 1) as nat));
            let ghost old_next = next_idx;
            proof {
                lemma_mod_succ(start + k, n as int);
                if old_next + 1 < n {
                    vstd::arithmetic::div_mod::lemma_small_mod((old_next + 1) as nat, n as nat);
                } else {
                    vstd::arithmetic::div_mod::lemma_mod_self_0(n as int);
                }
            }
            next_idx = (next_idx + 1) % n;
            proof {
                k = k + 1;
                assert(next_idx == (start + k) % (n as int));
                lemma_turn(start as int, k, n as int);
            }
            if next_idx == start {
                assert(v0.scan_next(start as int, k as nat) == None::<int>);
                assert(v0.next_target() == None::<int>);
                return;
            }
        }
    }

    /// Moves the focus to the nearest widget before the focused one,
    /// cyclically, that can take it; changes nothing when there is none.
    pub fn focus_prev(&mut self)
        requires
            old(self).wf(),
        ensures
            final(self).wf(),
            match old(self)@.prev_target() {
                Some(t) => final(self)@ == old(self)@.refocused(t),
                None => final(self)@ == old(self)@,
            },
    {
        let n = self.widgets.len();
        if n == 0 {
            return;
        }
        let ghost v0 = self@;
        let start = if self.focus_idx == 0 { n - 1 } else { self.focus_idx - 1 };
        let mut prev_idx = start;
        let ghost mut k: int = 0;
        proof {
            vstd::arithmetic::div_mod::lemma_small_mod(start as nat, n as nat);
        }
        loop
            invariant
                n == self.widgets.len(),
                n == v0.widgets.len(),
                n > 0,
                0 <= start < n,
                0 <= k < n,
                prev_idx == (start - k) % (n as int),
                self.wf(),
                self@ == v0,
                v0 == old(self)@,
                start == (if v0.focus_idx == 0 { n - 1 } else { v0.focus_idx - 1 }),
                v0.scan_prev(start as int, 0) == v0.scan_prev(start as int, k as nat),
            decreases n - k,
        {
            if self.focus_set(prev_idx) {
                assert(v0.scan_prev(start as int, k as nat) == Some(prev_idx as int));
                assert(v0.prev_target() == Some(prev_idx as int));
                return;
            }
            assert(v0.scan_prev(start as int, k as nat) == v0.scan_prev(start as int, (k + 1) as nat));
            proof {
                lemma_mod_pred(start - k, n as int);
            }
            prev_idx = if prev_idx == 0 { n - 1 } else { prev_idx - 1 };
            proof {
                k = k + 1;
                lemma_turn(start as int, k, n as int);
            }
            if prev_idx == start {
                assert(v0.scan_prev(start as int, k as nat) == None::<int>);
                assert(v0.prev_target() == None::<int>);
                return;
            }
        }
    }

    /// The widgets with their rectangles, in insertion order.
    pub fn iter(&self) -> (ws: &[(WidgetKind, Rectangle)])
        ensures
            ws@.len() == self@.widgets.len(),
            forall|k: int| 0 <= k < ws@.len() ==> (#[trigger] ws@[k].0@, ws@[k].1) == self@.widgets[k],
    {
        self.widgets.as_slice()
    }

    /// Places `widget` with the layout and appends it; its id is its index.
    /// The first widget of a page takes the focus when it can. Fails with
    /// `NoSpaceLeft`, changing nothing, when the layout has no room for the
    /// widget inside its bounds. The new widget lies inside the bounds; on
    /// an ordered page it overlaps no widget of the page when it stays
    /// inside its cell (always so without centring), and the page stays
    /// ordered. A page holds at most `S` widgets.
    pub fn insert(&mut self, widget: WidgetKind) -> (r: Result<WidgetId, Error>)
        requires
            old(self).wf(),
            old(self)@.layout.fits(widget@.size()) ==> old(self)@.layout.next_defined(widget@.size()),
            old(self)@.layout.room(widget@.size()) ==> old(self)@.widgets.len() < S,
        ensures
            final(self).wf(),
            r is Ok <==> old(self)@.layout.room(widget@.size()),
            r matches Ok(id) ==> id == old(self)@.widgets.len() && final(self)@ == old(self)@.inserted(widget@),
            r matches Ok(id) ==> inside(final(self)@.widgets[id as int].1, final(self)@.layout.bounds),
            old(self)@.ordered() && old(self)@.layout.in_cell(widget@.size()) ==> final(self)@.ordered(),
            r matches Ok(id) ==> old(self)@.ordered() && old(self)@.layout.in_cell(widget@.size()) ==> forall|k: int|
                0 <= k < id ==> !final(self)@.widgets[id as int].1.spec_overlaps(#[trigger] final(self)@.widgets[k].1),
            r matches Err(e) ==> e is NoSpaceLeft && final(self)@ == old(self)@,
    {
        let ghost w = widget@;
        let ghost v0 = self@;
        let rect = match self.layout.next(widget.size()) {
            Ok(rect) => rect,
            Err(e) => {
                return Err(e);
            },
        };
        let id = self.widgets.len();
        self.widgets.push((widget, rect));
        proof {
            let s0 = v0.layout.line_start(w.size());
            lemma_slot_claim(s0, w.size());
            assert(self@.widgets =~= v0.widgets.push((w, rect)));
            if v0.ordered() && v0.layout.in_cell(w.size()) {
                let before = Seq::new(v0.widgets.len(), |k: int| v0.widgets[k].1);
                assert forall|k: int| 0 <= k < v0.widgets.len() implies v0.layout.covers(#[trigger] before[k]) by {
                    assert(before[k] == v0.widgets[k].1);
                }
                lemma_next_inside_and_apart(v0.layout, w.size(), before);
                assert forall|k: int| 0 <= k < self@.widgets.len() implies self@.layout.covers(
                    #[trigger] self@.widgets[k].1,
                ) by {
                    if k < v0.widgets.len() {
                        assert(before[k] == v0.widgets[k].1);
                    }
                }
                assert forall|k: int| 0 <= k < id implies !self@.widgets[id as int].1.spec_overlaps(
                    #[trigger] self@.widgets[k].1,
                ) by {
                    assert(before[k] == v0.widgets[k].1);
                }
            }
        }
        let ghost v1 = self@;
        if self.widgets.len() == 1 {
            self.focus_set(0);
        }
        proof {
            assert forall|k: int| 0 <= k < self@.widgets.len() implies #[trigger] self@.widgets[k].1 == v1.widgets[k].1 by {}
        }
        Ok(id)
    }

    /// Closes the current row of the layout and appends `widget` at its
    /// left edge, just below the closed row; its id is its index. Fails
    /// with `NoSpaceLeft`, changing nothing, when the widget would not lie
    /// inside the layout's bounds there. The new widget lies inside the
    /// bounds; on an ordered page whose alignment fills rows from the left
    /// and from the top, it overlaps no widget of the page and the page
    /// stays ordered. A page holds at most `S` widgets.
    pub fn insert_next_row(&mut self, widget: WidgetKind) -> (r: Result<WidgetId, Error>)
        requires
            old(self).wf(),
            old(self)@.layout.fits(widget@.size()) ==> old(self)@.layout.next_row_defined(),
            old(self)@.layout.room_next_row(widget@.size()) ==> old(self)@.widgets.len() < S,
        ensures
            final(self).wf(),
            r is Ok <==> old(self)@.layout.room_next_row(widget@.size()),
            r matches Ok(id) ==> id == old(self)@.widgets.len() && final(self)@ == old(self)@.appended(
                widget@,
                old(self)@.layout.row_rect(widget@.size()),
                old(self)@.layout.row_advanced(widget@.size()),
            ),
            r matches Ok(id) ==> inside(final(self)@.widgets[id as int].1, final(self)@.layout.bounds),
            old(self)@.ordered() && old(self)@.layout.fills_from_top_left() ==> final(self)@.ordered(),
            r matches Ok(id) ==> old(self)@.ordered() && old(self)@.layout.fills_from_top_left() ==> forall|k: int|
                0 <= k < id ==> !final(self)@.widgets[id as int].1.spec_overlaps(#[trigger] final(self)@.widgets[k].1),
            r matches Err(e) ==> e is NoSpaceLeft && final(self)@ == old(self)@,
    {
        let ghost w = widget@;
        let ghost v0 = self@;
        let rect = match self.layout.next_row(widget.size()) {
            Ok(rect) => rect,
            Err(e) => {
                return Err(e);
            },
        };
        let id = self.widgets.len();
        self.widgets.push((widget, rect));
        proof {
            assert(self@.widgets =~= v0.widgets.push((w, rect)));
            if v0.ordered() && v0.layout.fills_from_top_left() {
                let before = Seq::new(v0.widgets.len(), |k: int| v0.widgets[k].1);
                assert forall|k: int| 0 <= k < v0.widgets.len() implies v0.layout.covers(#[trigger] before[k]) by {
                    assert(before[k] == v0.widgets[k].1);
                }
                lemma_next_row_inside_and_apart(v0.layout, w.size(), before);
                assert forall|k: int| 0 <= k < self@.widgets.len() implies self@.layout.covers(
                    #[trigger] self@.widgets[k].1,
                ) by {
                    if k < v0.widgets.len() {
                        assert(before[k] == v0.widgets[k].1);
                    }
                }
                assert forall|k: int| 0 <= k < id implies !self@.widgets[id as int].1.spec_overlaps(
                    #[trigger] self@.widgets[k].1,
                ) by {
                    assert(before[k] == v0.widgets[k].1);
                }
            }
        }
        Ok(id)
    }
}

} // verus!
