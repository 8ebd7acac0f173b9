use vstd::prelude::*;

use crate::events::EventQueue;
use crate::input::{Event, Interaction};
use crate::page::{Page, PageView, bounded_append};
use crate::style::Style;
use crate::widgets::Widget;

verus! {

/// The page after page `a` of `m`, wrapping to the first.
pub open spec fn next_index(a: u8, m: u8) -> u8 {
    ((a + 1) % (m as int)) as u8
}

/// The page before page `a` of `m`, wrapping to the last.
pub open spec fn prev_index(a: u8, m: u8) -> u8 {
    if a == 0 {
        (m - 1) as u8
    } else {
        (a - 1) as u8
    }
}

/// `prev_page` undoes `next_page`, and `next_page` undoes `prev_page`.
pub proof fn lemma_next_prev_inverse(a: u8, m: u8)
    requires
        0 <= a < m,
    ensures
        prev_index(next_index(a, m), m) == a,
        next_index(prev_index(a, m), m) == a,
{
    if a + 1 < m {
        vstd::arithmetic::div_mod::lemma_small_mod((a + 1) as nat, m as nat);
    } else {
        vstd::arithmetic::div_mod::lemma_mod_self_0(m as int);
    }
    if a == 0 {
        vstd::arithmetic::div_mod::lemma_mod_self_0(m as int);
    } else {
        vstd::arithmetic::div_mod::lemma_small_mod(a as nat, m as nat);
    }
}

/// One call of `drain_events`: the oldest waiting event comes out, or
/// `None` when no event waits.
pub open spec fn drain_step(before: Seq<Event>, r: Option<Event>, after: Seq<Event>) -> bool {
    match r {
        Some(e) => before.len() > 0 && e == before[0] && after == before.drop_first(),
        None => before.len() == 0 && after == before,
    }
}

/// Draining gives the waiting events in the order they were raised, each
/// once, then `None`: over calls `0 ..= n` of `drain_events` from queue
/// `qs[0]` of `n` events, call `i` returns the `i`-th event and call `n`
/// returns `None`.
pub proof fn lemma_drain_all(qs: Seq<Seq<Event>>, rs: Seq<Option<Event>>)
    requires
        qs.len() == rs.len() + 1,
        rs.len() == qs[0].len() + 1,
        forall|i: int| 0 <= i < rs.len() ==> drain_step(#[trigger] qs[i], rs[i], qs[i + 1]),
    ensures
        forall|i: int| 0 <= i < qs[0].len() ==> #[trigger] rs[i] == Some(qs[0][i]),
        rs[qs[0].len() as int] is None,
{
    let n = qs[0].len() as int;
    assert forall|i: int| 0 <= i <= n implies #[trigger] qs[i] == qs[0].skip(i) by {
        lemma_drain_prefix(qs, rs, i);
    }
    assert forall|i: int| 0 <= i < n implies #[trigger] rs[i] == Some(qs[0][i]) by {
        assert(qs[i] == qs[0].skip(i));
        assert(drain_step(qs[i], rs[i], qs[i + 1]));
    }
    assert(qs[n] == qs[0].skip(n));
    assert(drain_step(qs[n], rs[n], qs[n + 1]));
}

proof fn lemma_drain_prefix(qs: Seq<Seq<Event>>, rs: Seq<Option<Event>>, i: int)
    requires
        qs.len() == rs.len() + 1,
        rs.len() == qs[0].len() + 1,
        forall|j: int| 0 <= j < rs.len() ==> drain_step(#[trigger] qs[j], rs[j], qs[j + 1]),
        0 <= i <= qs[0].len(),
    ensures
        qs[i] == qs[0].skip(i),
    decreases i,
{
    if i > 0 {
        lemma_drain_prefix(qs, rs, i - 1);
        assert(drain_step(qs[i - 1], rs[i - 1], qs[i]));
        assert(qs[0].skip(i - 1).len() > 0);
        assert(qs[0].skip(i - 1).drop_first() =~= qs[0].skip(i));
    } else {
        assert(qs[0].skip(0) =~= qs[0]);
    }
}

/// A set of pages, one of which is shown, with the queue of the events
/// that their widgets raise.
pub struct Ui<const WIDGET_COUNT: usize, const PAGE_COUNT: usize, C, P> {
    pages: [Page<WIDGET_COUNT>; PAGE_COUNT],
    active_page_idx: u8,
    events: EventQueue<WIDGET_COUNT>,
    pub painter: P,
    pub style: Style<C>,
}

impl<const WIDGET_COUNT: usize, const PAGE_COUNT: usize, C, P> Ui<WIDGET_COUNT, PAGE_COUNT, C, P> {
    pub closed spec fn pages(&self) -> Seq<PageView> {
        self.pages@.map_values(|p: Page<WIDGET_COUNT>| p@)
    }

    pub closed spec fn active(&self) -> u8 {
        self.active_page_idx
    }

    /// The painter that the user interface holds.
    pub closed spec fn held_painter(&self) -> P {
        self.painter
    }

    /// The style that the user interface holds.
    pub closed spec fn held_style(&self) -> Style<C> {
        self.style
    }

    pub closed spec fn events(&self) -> Seq<Event> {
        self.events.items()
    }

    pub closed spec fn wf(&self) -> bool {
        &&& self.events.wf()
        &&& forall|i: int| 0 <= i < PAGE_COUNT ==> #[trigger] self.pages@[i].wf()
        &&& (PAGE_COUNT > 0 ==> self.active_page_idx < PAGE_COUNT)
        &&& (PAGE_COUNT as u8 > 0 ==> self.active_page_idx < PAGE_COUNT as u8)
    }

    /// What a well-formed user interface keeps: one view per page, each
    /// page well-formed, the page shown among them, and no more events
    /// waiting than the queue holds.
    pub proof fn lemma_wf(&self)
        requires
            self.wf(),
        ensures
            self.pages().len() == PAGE_COUNT,
            forall|i: int| 0 <= i < PAGE_COUNT ==> (#[trigger] self.pages()[i]).wf(WIDGET_COUNT as nat),
            PAGE_COUNT > 0 ==> self.active() < PAGE_COUNT,
            WIDGET_COUNT > 1,
            self.events().len() <= WIDGET_COUNT - 1,
    {
        assert forall|i: int| 0 <= i < PAGE_COUNT implies (#[trigger] self.pages()[i]).wf(WIDGET_COUNT as nat) by {
            assert(self.pages@[i].wf());
        }
    }

    /// A user interface showing the first page, with no event waiting.
    /// The event queue holds `WIDGET_COUNT - 1` events and needs `WIDGET_COUNT > 1`.
    pub fn new(pages: [Page<WIDGET_COUNT>; PAGE_COUNT], painter: P, style: Style<C>) -> (ui: Self)
        requires
            WIDGET_COUNT > 1,
            forall|i: int| 0 <= i < PAGE_COUNT ==> #[trigger] pages@[i].wf(),
        ensures
            ui.wf(),
            ui.pages() == pages@.map_values(|p: Page<WIDGET_COUNT>| p@),
            ui.active() == 0,
            ui.events() == Seq::<Event>::empty(),
            ui.held_painter() == painter,
            ui.held_style() == style,
    {
        Ui { pages, events: EventQueue::new(), painter, active_page_idx: 0, style }
    }

    /// The index of the page shown.
    pub fn active_page(&self) -> (idx: u8)
        ensures
            idx == self.active(),
    {
        self.active_page_idx
    }

    /// Takes the oldest event out of the queue, if any.
    pub fn drain_events(&mut self) -> (r: Option<Event>)
        requires
            old(self).wf(),
        ensures
            final(self).wf(),
            final(self).held_style() == old(self).held_style(),
            final(self).held_painter() == old(self).held_painter(),
            final(self).pages() == old(self).pages(),
            final(self).active() == old(self).active(),
            r is None <==> old(self).events().len() == 0,
            r is None ==> final(self).events() == old(self).events(),
            r matches Some(e) ==> e == old(self).events()[0] && final(self).events() == old(self).events().drop_first(),
            drain_step(old(self).events(), r, final(self).events()),
    {
        self.events.dequeue()
    }

    /// Shows page `idx` when there is such a page (among the first
    /// `PAGE_COUNT as u8`); returns whether it did.
    pub fn switch_to_page(&mut self, idx: u8) -> (b: bool)
        requires
            old(self).wf(),
        ensures
            final(self).wf(),
            final(self).held_style() == old(self).held_style(),
            final(self).held_painter() == old(self).held_painter(),
            b == (idx < PAGE_COUNT as u8),
            final(self).active() == (if b { idx } else { old(self).active() }),
            final(self).pages() == old(self).pages(),
            final(self).events() == old(self).events(),
    {
        if idx < PAGE_COUNT as u8 {
            self.active_page_idx = idx;
            true
        } else {
            false
        }
    }

    /// Switches to the next page, wrapping back to the first page at the end.
    pub fn next_page(&mut self)
        requires
            old(self).wf(),
            PAGE_COUNT as u8 > 0,
        ensures
            final(self).wf(),
            final(self).held_style() == old(self).held_style(),
            final(self).held_painter() == old(self).held_painter(),
            final(self).active() == next_index(old(self).active(), PAGE_COUNT as u8),
            final(self).pages() == old(self).pages(),
            final(self).events() == old(self).events(),
    {
        proof {
            assert((PAGE_COUNT as u8) as int <= PAGE_COUNT) by {
                if PAGE_COUNT <= 255 {
                    assert(PAGE_COUNT as u8 == PAGE_COUNT);
                }
            }
        }
        self.active_page_idx = (self.active_page_idx + 1) % PAGE_COUNT as u8;
        proof {
            assert(self.active_page_idx < PAGE_COUNT) by {
                if PAGE_COUNT <= 255 {
                    assert(PAGE_COUNT as u8 == PAGE_COUNT);
                }
            }
        }
    }

    /// Switches to the previous page, wrapping to the last page at the beginning.
    pub fn prev_page(&mut self)
        requires
            old(self).wf(),
            PAGE_COUNT as u8 > 0,
        ensures
            final(self).wf(),
            final(self).held_style() == old(self).held_style(),
            final(self).held_painter() == old(self).held_painter(),
            final(self).active() == prev_index(old(self).active(), PAGE_COUNT as u8),
            final(self).pages() == old(self).pages(),
            final(self).events() == old(self).events(),
    {
        proof {
            assert((PAGE_COUNT as u8) as int <= PAGE_COUNT) by {
                if PAGE_COUNT <= 255 {
                    assert(PAGE_COUNT as u8 == PAGE_COUNT);
                }
            }
        }
        self.active_page_idx = if self.active_page_idx == 0 {
            PAGE_COUNT as u8 - 1
        } else {
            self.active_page_idx - 1
        };
    }

    /// The page shown.
    pub fn current_page(&self) -> (p: &Page<WIDGET_COUNT>)
        requires
            self.wf(),
            PAGE_COUNT > 0,
        ensures
            p@ == self.pages()[self.active() as int],
            p.wf(),
    {
        &self.pages[self.active_page_idx as usize]
    }

    /// The page shown, to change it.
    pub fn current_page_mut(&mut self) -> (p: &mut Page<WIDGET_COUNT>)
        requires
            old(self).wf(),
            PAGE_COUNT > 0,
        ensures
            p@ == old(self).pages()[old(self).active() as int],
            p.wf(),
            final(p).wf() ==> final(self).wf(),
            final(self).held_style() == old(self).held_style(),
            final(self).held_painter() == old(self).held_painter(),
            final(self).pages() == old(self).pages().update(old(self).active() as int, final(p)@),
            final(self).active() == old(self).active(),
            final(self).events() == old(self).events(),
    {
        &mut self.pages[self.active_page_idx as usize]
    }

    /// Page `idx`.
    pub fn get_page(&self, idx: u8) -> (p: &Page<WIDGET_COUNT>)
        requires
            self.wf(),
            idx < PAGE_COUNT,
        ensures
            p@ == self.pages()[idx as int],
            p.wf(),
    {
        &self.pages[idx as usize]
    }

    /// Page `idx`, to change it.
    pub fn get_page_mut(&mut self, idx: u8) -> (p: &mut Page<WIDGET_COUNT>)
        requires
            old(self).wf(),
            idx < PAGE_COUNT,
        ensures
            p@ == old(self).pages()[idx as int],
            p.wf(),
            final(p).wf() ==> final(self).wf(),
            final(self).held_style() == old(self).held_style(),
            final(self).held_painter() == old(self).held_painter(),
            final(self).pages() == old(self).pages().update(idx as int, final(p)@),
            final(self).active() == old(self).active(),
            final(self).events() == old(self).events(),
    {
        &mut self.pages[idx as usize]
    }

    /// Processes the interaction on the page shown: the widgets it hits
    /// answer it, and each one that is changed afterwards raises an event.
    /// Call it before drawing each frame.
    pub fn begin_frame(&mut self, interaction: Option<Interaction>)
        requires
            old(self).wf(),
            PAGE_COUNT > 0,
        ensures
            final(self).wf(),
            final(self).held_style() == old(self).held_style(),
            final(self).held_painter() == old(self).held_painter(),
            final(self).active() == old(self).active(),
            final(self).pages() == old(self).pages().update(
                old(self).active() as int,
                PageView {
                    widgets: old(self).pages()[old(self).active() as int].processed(interaction),
                    ..old(self).pages()[old(self).active() as int]
                },
            ),
            final(self).events() == bounded_append(
                old(self).events(),
                old(self).pages()[old(self).active() as int].raised(
                    interaction,
                    old(self).active(),
                    old(self).pages()[old(self).active() as int].widgets.len() as nat,
                ),
                (WIDGET_COUNT - 1) as nat,
            ),
    {
        let idx = self.active_page_idx;
        let ghost v = self.pages();
        self.pages[idx as usize].process(interaction, &mut self.events, idx);
        proof {
            assert(self.pages() =~= v.update(idx as int, self.pages@[idx as int]@));
        }
    }

    /// Marks every widget of the page shown as drawn, so that only widgets
    /// that change again are drawn in the next frame. Call it after
    /// drawing each frame.
    pub fn end_frame(&mut self)
        requires
            old(self).wf(),
            PAGE_COUNT > 0,
        ensures
            final(self).wf(),
            final(self).held_style() == old(self).held_style(),
            final(self).held_painter() == old(self).held_painter(),
            final(self).active() == old(self).active(),
            final(self).events() == old(self).events(),
            final(self).pages() == old(self).pages().update(
                old(self).active() as int,
                PageView {
                    widgets: old(self).pages()[old(self).active() as int].widgets.map_values(
                        |e: (crate::widgets::WidgetView, crate::geometry::Rectangle)| (e.0.after_clean(), e.1),
                    ),
                    ..old(self).pages()[old(self).active() as int]
                },
            ),
    {
        let idx = self.active_page_idx as usize;
        let ghost v = self.pages();
        let ghost p0 = self.pages@[idx as int]@;
        let n = self.pages[idx].len();
        let mut i: usize = 0;
        while i < n
            invariant
                0 <= i <= n,
                idx < PAGE_COUNT,
                self.wf(),
                self.active_page_idx == idx,
                self.events() == old(self).events(),
                self.style == old(self).style,
                self.painter == old(self).painter,
                v == old(self).pages(),
                p0 == v[idx as int],
                n == p0.widgets.len(),
                forall|j: int| 0 <= j < PAGE_COUNT && j != idx ==> #[trigger] self.pages()[j] == v[j],
                self.pages()[idx as int].widgets.len() == n,
                self.pages()[idx as int].focus_idx == p0.focus_idx,
                self.pages()[idx as int].layout == p0.layout,
                forall|k: int| 0 <= k < i ==> #[trigger] self.pages()[idx as int].widgets[k] == (p0.widgets[k].0.after_clean(), p0.widgets[k].1),
                forall|k: int| i <= k < n ==> #[trigger] self.pages()[idx as int].widgets[k] == p0.widgets[k],
            decreases n - i,
        {
            let ghost before = self.pages();
            assert(self.pages@[idx as int].wf());
            assert(before[idx as int] == self.pages@[idx as int]@);
            let page = &mut self.pages[idx];
            match page.get_mut(i) {
                Some(w) => w.mark_clean(),
                None => {},
            }
            proof {
                assert(self.pages() =~= before.update(idx as int, self.pages@[idx as int]@));
                assert(self.pages()[idx as int] == self.pages@[idx as int]@);
                assert(self.pages()[idx as int].widgets.len() == before[idx as int].widgets.len());
                assert(self.pages()[idx as int].focus_idx == before[idx as int].focus_idx);
                assert(self.pages@[idx as int].wf());
                assert forall|j: int| 0 <= j < PAGE_COUNT implies #[trigger] self.pages@[j].wf() by {
                    if j != idx {
                        assert(self.pages()[j] == before[j]);
                    }
                }
            }
            i = i + 1;
        }
        proof {
            assert(self.pages()[idx as int].widgets =~= p0.widgets.map_values(
                |e: (crate::widgets::WidgetView, crate::geometry::Rectangle)| (e.0.after_clean(), e.1),
            ));
            assert(self.pages()[idx as int] == PageView {
                widgets: p0.widgets.map_values(
                    |e: (crate::widgets::WidgetView, crate::geometry::Rectangle)| (e.0.after_clean(), e.1),
                ),
                ..p0
            });
            assert(self.pages() =~= v.update(idx as int, self.pages()[idx as int]));
        }
    }
}

} // verus!
