use vstd::prelude::*;

verus! {

/// A point on the display, in pixels.
#[derive(Clone, Copy, Debug, PartialEq, Eq, Structural)]
pub struct Point {
    pub x: i32,
    pub y: i32,
}

/// A width and height, in pixels.
#[derive(Clone, Copy, Debug, PartialEq, Eq, Structural)]
pub struct Size {
    pub width: u32,
    pub height: u32,
}

/// An axis-aligned rectangle given by its top left corner and its size.
#[derive(Clone, Copy, Debug, PartialEq, Eq, Structural)]
pub struct Rectangle {
    pub top_left: Point,
    pub size: Size,
}

/// Rust's `/` on signed integers: the quotient rounded toward zero.
pub open spec fn trunc_div(a: int, b: int) -> int {
    if b > 0 {
        if a >= 0 { a / b } else { -((-a) / b) }
    } else {
        if a >= 0 { -(a / (-b)) } else { (-a) / (-b) }
    }
}

/// Rust's `%` on signed integers: the remainder takes the sign of the dividend.
pub open spec fn trunc_rem(a: int, b: int) -> int {
    let d = if b > 0 { b } else { -b };
    if a >= 0 { a % d } else { -((-a) % d) }
}

/// The value lies in the range of `i32`.
pub open spec fn fits_i32(v: int) -> bool {
    i32::MIN <= v <= i32::MAX
}

/// Rust's `/` of two `i32` values is again an `i32` value, but for `i32::MIN / -1`.
pub proof fn lemma_trunc_div_fits(a: int, b: int)
    requires
        fits_i32(a),
        fits_i32(b),
        b != 0,
        !(a == i32::MIN && b == -1),
    ensures
        fits_i32(trunc_div(a, b)),
{
    if b > 0 {
        if a >= 0 {
            assert(0 <= a / b <= a) by (nonlinear_arith)
                requires a >= 0, b >= 1;
        } else {
            assert(0 <= (-a) / b <= -a) by (nonlinear_arith)
                requires a < 0, b >= 1;
        }
    } else {
        if a >= 0 {
            assert(0 <= a / (-b) <= a) by (nonlinear_arith)
                requires a >= 0, b <= -1;
        } else if b == -1 {
            assert((-a) / (-b) == -a);
        } else {
            assert(0 <= (-a) / (-b) <= (-a) / 2) by (nonlinear_arith)
                requires a < 0, b <= -2;
            assert((-a) / 2 <= 0x4000_0000);
        }
    }
}

/// `a / b` on `i32`, as Rust computes it.
pub fn i32_div(a: i32, b: i32) -> (r: i32)
    requires
        b != 0,
        !(a == i32::MIN && b == -1),
    ensures
        r == trunc_div(a as int, b as int),
{
    if b > 0 {
        a / b
    } else if b == i32::MIN {
        if a == i32::MIN { 1 } else { 0 }
    } else {
        let d: i32 = -b;
        let q = a / d;
        proof {
            if a >= 0 {
                assert(0 <= a as int / d as int <= a) by (nonlinear_arith)
                    requires a >= 0, d >= 1;
            } else {
                assert(0 <= (-a) / (d as int) <= -a) by (nonlinear_arith)
                    requires a < 0, d >= 1;
                if a == i32::MIN {
                    assert((-a) / (d as int) <= (-a) / 2) by (nonlinear_arith)
                        requires a < 0, d >= 2;
                }
            }
        }
        -q
    }
}

/// `a % b` on `i32`, as Rust computes it.
pub fn i32_rem(a: i32, b: i32) -> (r: i32)
    requires
        b != 0,
        !(a == i32::MIN && b == -1),
    ensures
        r == trunc_rem(a as int, b as int),
{
    if b > 0 {
        a % b
    } else if b == i32::MIN {
        if a == i32::MIN { 0 } else { a }
    } else {
        a % (-b)
    }
}

impl Point {
    pub fn new(x: i32, y: i32) -> (p: Point)
        ensures
            p.x == x,
            p.y == y,
    {
        Point { x, y }
    }

    pub fn zero() -> (p: Point)
        ensures
            p.x == 0,
            p.y == 0,
    {
        Point { x: 0, y: 0 }
    }
}

impl Size {
    pub fn new(width: u32, height: u32) -> (s: Size)
        ensures
            s.width == width,
            s.height == height,
    {
        Size { width, height }
    }
}

impl Rectangle {
    pub fn new(top_left: Point, size: Size) -> (r: Rectangle)
        ensures
            r.top_left == top_left,
            r.size == size,
    {
        Rectangle { top_left, size }
    }

    /// `p` lies in the half-open box `[left, left + width) x [top, top + height)`.
    pub open spec fn spec_contains(self, p: Point) -> bool {
        &&& self.top_left.x <= p.x < self.top_left.x + self.size.width
        &&& self.top_left.y <= p.y < self.top_left.y + self.size.height
    }

    /// Whether the rectangle holds the point.
    pub fn contains(&self, p: Point) -> (r: bool)
        ensures
            r == self.spec_contains(p),
    {
        let x = p.x as i64;
        let y = p.y as i64;
        let left = self.top_left.x as i64;
        let top = self.top_left.y as i64;
        left <= x && x < left + self.size.width as i64 && top <= y && y < top + self.size.height as i64
    }

    /// The two rectangles share at least one pixel: both have an area and
    /// their pixel ranges meet on both axes.
    pub open spec fn spec_overlaps(self, other: Rectangle) -> bool {
        &&& self.size.width > 0 && self.size.height > 0
        &&& other.size.width > 0 && other.size.height > 0
        &&& self.top_left.x < other.top_left.x + other.size.width
        &&& other.top_left.x < self.top_left.x + self.size.width
        &&& self.top_left.y < other.top_left.y + other.size.height
        &&& other.top_left.y < self.top_left.y + self.size.height
    }

    /// Whether the intersection of the two rectangles is not empty.
    pub fn overlaps(&self, other: &Rectangle) -> (r: bool)
        ensures
            r == self.spec_overlaps(*other),
    {
        let ax = self.top_left.x as i64;
        let ay = self.top_left.y as i64;
        let bx = other.top_left.x as i64;
        let by = other.top_left.y as i64;
        self.size.width > 0 && self.size.height > 0 && other.size.width > 0 && other.size.height > 0
            && ax < bx + other.size.width as i64 && bx < ax + self.size.width as i64
            && ay < by + other.size.height as i64 && by < ay + self.size.height as i64
    }

    /// The arithmetic of `bottom_right` stays in `i32`.
    pub open spec fn bottom_right_defined(self) -> bool {
        self.size.width > 0 && self.size.height > 0 ==> {
            &&& self.size.width <= i32::MAX
            &&& self.size.height <= i32::MAX
            &&& fits_i32(self.top_left.x + self.size.width)
            &&& fits_i32(self.top_left.y + self.size.height)
        }
    }

    /// The bottom right pixel of a rectangle with an area; the origin for an empty one.
    pub open spec fn spec_bottom_right(self) -> Point {
        if self.size.width > 0 && self.size.height > 0 {
            Point {
                x: (self.top_left.x + self.size.width - 1) as i32,
                y: (self.top_left.y + self.size.height - 1) as i32,
            }
        } else {
            Point { x: 0, y: 0 }
        }
    }

    /// The bottom right pixel of the rectangle, or the origin when it has no area.
    pub fn bottom_right_or_default(&self) -> (p: Point)
        requires
            self.bottom_right_defined(),
        ensures
            p == self.spec_bottom_right(),
    {
        if self.size.width > 0 && self.size.height > 0 {
            Point {
                x: self.top_left.x + self.size.width as i32 - 1,
                y: self.top_left.y + self.size.height as i32 - 1,
            }
        } else {
            Point { x: 0, y: 0 }
        }
    }

    /// The centre, rounded toward the top left.
    pub open spec fn spec_center(self) -> Point {
        Point {
            x: (self.top_left.x + (if self.size.width > 0 { self.size.width - 1 } else { 0 }) / 2) as i32,
            y: (self.top_left.y + (if self.size.height > 0 { self.size.height - 1 } else { 0 }) / 2) as i32,
        }
    }

    /// The arithmetic of `center` stays in `i32`.
    pub open spec fn center_defined(self) -> bool {
        &&& fits_i32(self.top_left.x + (if self.size.width > 0 { self.size.width - 1 } else { 0 }) / 2)
        &&& fits_i32(self.top_left.y + (if self.size.height > 0 { self.size.height - 1 } else { 0 }) / 2)
    }

    /// The centre of the rectangle, rounded toward the top left.
    pub fn center(&self) -> (p: Point)
        requires
            self.center_defined(),
        ensures
            p == self.spec_center(),
    {
        let ox = self.size.width.saturating_sub(1) / 2;
        let oy = self.size.height.saturating_sub(1) / 2;
        Point { x: self.top_left.x + ox as i32, y: self.top_left.y + oy as i32 }
    }
}

} // verus!
