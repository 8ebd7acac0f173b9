use vstd::prelude::*;

use crate::geometry::{Point, Rectangle, Size};
use crate::page::{Page, PageView, WidgetId};
use crate::widgets::{Widget, WidgetView};

verus! {

/// The rows of strips that a rectangle covers, for strips `strip_h` pixels
/// high of which there are `strip_count`: from the strip of its top edge
/// (clamped at 0) to the strip of its bottom edge, capped at the last strip.
pub open spec fn strip_span(r: Rectangle, strip_h: int, strip_count: int) -> (int, int) {
    let y0: int = if r.top_left.y > 0 { r.top_left.y as int } else { 0 };
    let y1: int = if y0 + r.size.height >= 1 { y0 + r.size.height - 1 } else { 0 };
    let last = if y1 / strip_h < strip_count - 1 { y1 / strip_h } else { strip_count - 1 };
    (y0 / strip_h, last)
}

/// Strip `s` must be repainted: one of the first `k` widgets is changed and covers it.
pub open spec fn strip_dirty(ws: Seq<(WidgetView, Rectangle)>, strip_h: int, strip_count: int, s: int, k: int) -> bool {
    exists|j: int|
        0 <= j < k && #[trigger] ws[j].0.changed() && strip_span(ws[j].1, strip_h, strip_count).0 <= s
            && s <= strip_span(ws[j].1, strip_h, strip_count).1
}

/// Computing the strips of every changed widget divides by no zero,
/// overflows nothing and shifts by less than 32.
pub open spec fn mask_defined(ws: Seq<(WidgetView, Rectangle)>, strip_h: int, strip_count: int) -> bool {
    forall|j: int|
        0 <= j < ws.len() && #[trigger] ws[j].0.changed() ==> {
            let y0: int = if ws[j].1.top_left.y > 0 { ws[j].1.top_left.y as int } else { 0 };
            let span = strip_span(ws[j].1, strip_h, strip_count);
            &&& strip_h > 0
            &&& strip_count > 0
            &&& y0 + ws[j].1.size.height <= usize::MAX
            &&& (span.0 <= span.1 ==> span.1 < 32)
        }
}

/// The widgets of the first `k` that meet the strip `strip`, with their
/// rectangles moved up by `y0` so that the strip's top is row 0.
pub open spec fn strip_entries(ws: Seq<(WidgetView, Rectangle)>, strip: Rectangle, y0: int, k: int) -> Seq<(WidgetId, Rectangle)>
    decreases k,
{
    if k <= 0 {
        Seq::empty()
    } else {
        let prev = strip_entries(ws, strip, y0, k - 1);
        let r = ws[k - 1].1;
        if r.spec_overlaps(strip) {
            prev.push(((k - 1) as usize, Rectangle { top_left: Point { x: r.top_left.x, y: (r.top_left.y - y0) as i32 }, size: r.size }))
        } else {
            prev
        }
    }
}

proof fn lemma_dirty_step(ws: Seq<(WidgetView, Rectangle)>, strip_h: int, strip_count: int, t: int, k: int)
    requires
        0 <= k < ws.len(),
    ensures
        strip_dirty(ws, strip_h, strip_count, t, k + 1) <==> (strip_dirty(ws, strip_h, strip_count, t, k) || (
            ws[k].0.changed() && strip_span(ws[k].1, strip_h, strip_count).0 <= t
                && t <= strip_span(ws[k].1, strip_h, strip_count).1)),
{
    if strip_dirty(ws, strip_h, strip_count, t, k + 1) {
        let j = choose|j: int|
            0 <= j < k + 1 && #[trigger] ws[j].0.changed() && strip_span(ws[j].1, strip_h, strip_count).0 <= t
                && t <= strip_span(ws[j].1, strip_h, strip_count).1;
        if j < k {
            assert(strip_dirty(ws, strip_h, strip_count, t, k));
        }
    }
    if strip_dirty(ws, strip_h, strip_count, t, k) {
        let j = choose|j: int|
            0 <= j < k && #[trigger] ws[j].0.changed() && strip_span(ws[j].1, strip_h, strip_count).0 <= t
                && t <= strip_span(ws[j].1, strip_h, strip_count).1;
        assert(strip_dirty(ws, strip_h, strip_count, t, k + 1));
    }
    if ws[k].0.changed() && strip_span(ws[k].1, strip_h, strip_count).0 <= t && t <= strip_span(ws[k].1, strip_h, strip_count).1 {
        assert(strip_dirty(ws, strip_h, strip_count, t, k + 1));
    }
}

/// The rows of the display that a rectangle covers meet the rows of strip
/// `s`: the strip starts above the rectangle's bottom edge and ends below
/// its top row (clamped at 0).
pub open spec fn rows_meet(r: Rectangle, strip_h: int, s: int) -> bool {
    let top: int = if r.top_left.y > 0 { r.top_left.y as int } else { 0 };
    s * strip_h < top + r.size.height && top < (s + 1) * strip_h
}

/// Every strip whose rows meet the rows of a changed widget must be
/// repainted, however many strips the widget spans.
pub proof fn lemma_changed_widget_dirties_its_strips(
    ws: Seq<(WidgetView, Rectangle)>,
    strip_h: int,
    strip_count: int,
    j: int,
    s: int,
)
    requires
        0 <= j < ws.len(),
        ws[j].0.changed(),
        strip_h > 0,
        0 <= s < strip_count,
        rows_meet(ws[j].1, strip_h, s),
    ensures
        strip_dirty(ws, strip_h, strip_count, s, ws.len() as int),
{
    let r = ws[j].1;
    let top: int = if r.top_left.y > 0 { r.top_left.y as int } else { 0 };
    let bottom: int = top + r.size.height - 1;
    assert(s * strip_h <= bottom);
    assert(top / strip_h <= s) by (nonlinear_arith)
        requires
            strip_h > 0,
            top < (s + 1) * strip_h,
            top >= 0,
            s >= 0,
    {
        vstd::arithmetic::div_mod::lemma_div_is_ordered(top, (s + 1) * strip_h - 1, strip_h);
        vstd::arithmetic::div_mod::lemma_div_multiples_vanish_fancy(s, strip_h - 1, strip_h);
    }
    assert(s <= bottom / strip_h) by (nonlinear_arith)
        requires
            strip_h > 0,
            s * strip_h <= bottom,
            s >= 0,
    {
        vstd::arithmetic::div_mod::lemma_div_is_ordered(s * strip_h, bottom, strip_h);
        vstd::arithmetic::div_mod::lemma_div_multiples_vanish(s, strip_h);
    }
    let span = strip_span(r, strip_h, strip_count);
    assert(span.0 <= s && s <= span.1);
    assert(strip_dirty(ws, strip_h, strip_count, s, ws.len() as int));
}

/// Once every widget is marked as drawn (`Ui::end_frame`), no strip needs
/// repainting until a widget changes again.
pub proof fn lemma_clean_page_has_no_dirty_strip(ws: Seq<(WidgetView, Rectangle)>, strip_h: int, strip_count: int, s: int)
    ensures
        !strip_dirty(
            ws.map_values(|e: (WidgetView, Rectangle)| (e.0.after_clean(), e.1)),
            strip_h,
            strip_count,
            s,
            ws.len() as int,
        ),
{
    let cs = ws.map_values(|e: (WidgetView, Rectangle)| (e.0.after_clean(), e.1));
    assert forall|j: int| 0 <= j < ws.len() implies !(#[trigger] cs[j].0.changed()) by {
        assert(cs[j].0 == ws[j].0.after_clean());
    }
}

proof fn lemma_set_bit(mask: u32, s: u32, t: u32)
    requires
        s < 32,
        t < 32,
    ensures
        ((mask | (1u32 << s)) >> t) & 1 == 1 <==> ((mask >> t) & 1 == 1 || t == s),
{
    assert(((mask | (1u32 << s)) >> t) & 1 == 1 <==> ((mask >> t) & 1 == 1 || t == s)) by (bit_vector)
        requires
            s < 32,
            t < 32,
    ;
}

proof fn lemma_zero_bits(t: u32)
    requires
        t < 32,
    ensures
        (0u32 >> t) & 1 != 1,
{
    assert((0u32 >> t) & 1 != 1) by (bit_vector);
}

/// Paints a page strip by strip: `STRIP_COUNT` strips of `STRIP_W` by
/// `STRIP_H` pixels, from the top of the display down.
#[derive(Debug)]
pub struct SplitPainter<const STRIP_COUNT: usize, const STRIP_W: usize, const STRIP_H: usize> {}

impl<const STRIP_COUNT: usize, const STRIP_W: usize, const STRIP_H: usize> SplitPainter<STRIP_COUNT, STRIP_W, STRIP_H> {
    pub fn new() -> (p: Self) {
        SplitPainter {}
    }

    /// Returns a bitmask of strips: bit `s` is set when strip `s` needs
    /// repainting, because a changed widget covers it.
    pub fn dirty_strip_mask<const W: usize>(&self, page: &Page<W>, strip_h: usize, strip_count: usize) -> (mask: u32)
        requires
            mask_defined(page@.widgets, strip_h as int, strip_count as int),
        ensures
            forall|s: u32|
                s < 32 ==> (((mask >> s) & 1 == 1) <==> strip_dirty(
                    page@.widgets,
                    strip_h as int,
                    strip_count as int,
                    s as int,
                    page@.widgets.len() as int,
                )),
            forall|j: int, s: u32|
                0 <= j < page@.widgets.len() && page@.widgets[j].0.changed() && s < 32 && s < strip_count
                    && #[trigger] rows_meet(page@.widgets[j].1, strip_h as int, s as int) ==> (mask >> s) & 1 == 1,
    {
        let ghost ws = page@.widgets;
        let entries = page.iter();
        let n = entries.len();
        let mut mask: u32 = 0;
        let mut k: usize = 0;
        proof {
            assert forall|t: u32| t < 32 implies !(((mask >> t) & 1 == 1)) by {
                lemma_zero_bits(t);
            }
        }
        while k < n
            invariant
                0 <= k <= n,
                n == ws.len(),
                n == entries@.len(),
                forall|j: int| 0 <= j < n ==> (#[trigger] entries@[j].0@, entries@[j].1) == ws[j],
                mask_defined(ws, strip_h as int, strip_count as int),
                forall|t: u32|
                    t < 32 ==> (((mask >> t) & 1 == 1) <==> strip_dirty(ws, strip_h as int, strip_count as int, t as int, k as int)),
            decreases n - k,
        {
            let entry = &entries[k];
            assert((entry.0@, entry.1) == ws[k as int]);
            if entry.0.is_changed() {
                assert(ws[k as int].0.changed());
                let rect = entry.1;
                let y0: usize = if rect.top_left.y > 0 { rect.top_left.y as usize } else { 0 };
                let y1: usize = (y0 + rect.size.height as usize).saturating_sub(1);
                let first = y0 / strip_h;
                let last_raw = y1 / strip_h;
                let last = if last_raw < strip_count - 1 { last_raw } else { strip_count - 1 };
                let ghost span = strip_span(rect, strip_h as int, strip_count as int);
                assert(first == span.0 && last == span.1);
                let ghost mask_k = mask;
                let mut s = first;
                while s <= last
                    invariant
                        first <= s,
                        first <= last ==> s <= last + 1,
                        first > last ==> s == first,
                        first <= last ==> last < 32,
                        forall|t: u32|
                            t < 32 ==> (((mask >> t) & 1 == 1) <==> (((mask_k >> t) & 1 == 1) || (first <= t && t < s))),
                    decreases last + 1 - s,
                {
                    let ghost m0 = mask;
                    assert(s < 32);
                    mask = mask | (1u32 << (s as u32));
                    proof {
                        assert forall|t: u32| t < 32 implies (((mask >> t) & 1 == 1) <==> (((m0 >> t) & 1 == 1) || t == s)) by {
                            lemma_set_bit(m0, s as u32, t);
                        }
                    }
                    s = s + 1;
                }
                proof {
                    assert forall|t: u32| t < 32 implies (((mask >> t) & 1 == 1) <==> strip_dirty(ws, strip_h as int, strip_count as int, t as int, k + 1)) by {
                        lemma_dirty_step(ws, strip_h as int, strip_count as int, t as int, k as int);
                    }
                }
            } else {
                proof {
                    assert forall|t: u32| t < 32 implies (((mask >> t) & 1 == 1) <==> strip_dirty(ws, strip_h as int, strip_count as int, t as int, k + 1)) by {
                        lemma_dirty_step(ws, strip_h as int, strip_count as int, t as int, k as int);
                    }
                }
            }
            k = k + 1;
        }
        proof {
            assert forall|j: int, s: u32|
                0 <= j < ws.len() && ws[j].0.changed() && s < 32 && s < strip_count && #[trigger] rows_meet(
                    ws[j].1,
                    strip_h as int,
                    s as int,
                ) implies (mask >> s) & 1 == 1 by {
                lemma_changed_widget_dirties_its_strips(ws, strip_h as int, strip_count as int, j, s as int);
            }
        }
        mask
    }

    /// The rectangle of the display that strip `strip` covers.
    pub open spec fn spec_strip_rect(strip: int) -> Rectangle {
        Rectangle {
            top_left: Point { x: 0, y: ((strip * STRIP_H) as usize) as i32 },
            size: Size { width: STRIP_W as u32, height: STRIP_H as u32 },
        }
    }

    /// The rectangle of the display that strip `strip` covers.
    pub fn strip_rect(&self, strip: usize) -> (r: Rectangle)
        requires
            strip * STRIP_H <= usize::MAX,
        ensures
            r == Self::spec_strip_rect(strip as int),
    {
        let y0 = strip * STRIP_H;
        Rectangle { top_left: Point { x: 0, y: y0 as i32 }, size: Size { width: STRIP_W as u32, height: STRIP_H as u32 } }
    }

    /// Moving every widget that meets strip `strip` up to the strip's own
    /// coordinates stays in `i32`.
    pub open spec fn strip_defined(ws: Seq<(WidgetView, Rectangle)>, strip: int) -> bool {
        &&& strip * STRIP_H <= usize::MAX
        &&& forall|j: int|
            0 <= j < ws.len() && (#[trigger] ws[j].1).spec_overlaps(Self::spec_strip_rect(strip)) ==> crate::geometry::fits_i32(
                ws[j].1.top_left.y - Self::spec_strip_rect(strip).top_left.y,
            )
    }

    /// The widgets to draw into the buffer of strip `strip`: those whose
    /// rectangle meets the strip, in order, with the rectangle moved so that
    /// the strip's top is row 0 of the buffer.
    pub fn strip_widgets<const W: usize>(&self, page: &Page<W>, strip: usize) -> (r: Vec<(WidgetId, Rectangle)>)
        requires
            Self::strip_defined(page@.widgets, strip as int),
        ensures
            r@ == strip_entries(
                page@.widgets,
                Self::spec_strip_rect(strip as int),
                Self::spec_strip_rect(strip as int).top_left.y as int,
                page@.widgets.len() as int,
            ),
    {
        let ghost ws = page@.widgets;
        let strip_rect = self.strip_rect(strip);
        let y0 = strip_rect.top_left.y;
        let entries = page.iter();
        let n = entries.len();
        let mut out: Vec<(WidgetId, Rectangle)> = Vec::new();
        let mut k: usize = 0;
        while k < n
            invariant
                0 <= k <= n,
                n == ws.len(),
                n == entries@.len(),
                forall|j: int| 0 <= j < n ==> (#[trigger] entries@[j].0@, entries@[j].1) == ws[j],
                Self::strip_defined(ws, strip as int),
                strip_rect == Self::spec_strip_rect(strip as int),
                y0 == strip_rect.top_left.y,
                out@ == strip_entries(ws, strip_rect, y0 as int, k as int),
            decreases n - k,
        {
            let rect = entries[k].1;
            assert((entries@[k as int].0@, entries@[k as int].1) == ws[k as int]);
            if rect.overlaps(&strip_rect) {
                assert(ws[k as int].1.spec_overlaps(Self::spec_strip_rect(strip as int)));
                let shifted = Rectangle { top_left: Point { x: rect.top_left.x, y: rect.top_left.y - y0 }, size: rect.size };
                out.push((k, shifted));
            }
            k = k + 1;
        }
        out
    }
}

} // verus!
