use vstd::prelude::*;

use embedded_graphics::mono_font::MonoFont;

use crate::geometry::{Point, Rectangle, Size};
use crate::page::{Align, HorizontalAlign, LayoutView, Page, VerticalAlign, WidgetId};
use crate::text::lemma_ascii_utf8_len;
use crate::widgets::button::Button;
use crate::widgets::label::Label;
use crate::widgets::radio_button::RadioButton;
use crate::widgets::textbox::Textbox;
use crate::widgets::{Horizontal, TextAlignment, Vertical, WidgetKind, WidgetView, text_fits};
use crate::input::Event;
use crate::Error;

verus! {

pub const SCREEN_W: usize = 320;

pub const SCREEN_H: usize = 480;

pub const STRIP_COUNT: usize = 8;

pub const STRIP_H: usize = SCREEN_H / STRIP_COUNT;

pub const STRIP_PIXEL_COUNT: usize = SCREEN_W * STRIP_H;

/// `profont::PROFONT_24_POINT`.
#[verifier::external_body]
fn font_24() -> &'static MonoFont<'static> {
    &profont::PROFONT_24_POINT
}

/// `profont::PROFONT_18_POINT`.
#[verifier::external_body]
fn font_18() -> &'static MonoFont<'static> {
    &profont::PROFONT_18_POINT
}

/// What the jog screen is showing: the joint being jogged and the index of
/// the jog step.
#[derive(Debug, Clone, Copy)]
pub struct UiState {
    pub focused_joint: usize,
    pub step_idx: usize,
}

impl Default for UiState {
    fn default() -> (s: Self)
        ensures
            s.focused_joint == 0,
            s.step_idx == 0,
    {
        UiState { focused_joint: 0, step_idx: 0 }
    }
}

/// The ids of the widgets of the jog screen.
#[derive(Clone, Copy)]
pub struct MainElements {
    pub btn_left: WidgetId,
    pub btn_menu: WidgetId,
    pub btn_right: WidgetId,
    pub joint_textboxes: [WidgetId; 6],
    pub joint_zeros: [WidgetId; 6],
    pub steps_radio: [WidgetId; 4],
    pub status_textbox: WidgetId,
    pub mode_textbox: WidgetId,
    pub btn_run: WidgetId,
    pub btn_reset: WidgetId,
}

fn centered() -> (a: TextAlignment)
    ensures
        a == (TextAlignment { horizontal: Horizontal::Center, vertical: Vertical::Center }),
{
    TextAlignment { horizontal: Horizontal::Center, vertical: Vertical::Center }
}

/// A short ASCII text fits in a widget's buffer.
proof fn lemma_ascii_fits(s: Seq<char>)
    requires
        s.len() <= 32,
        forall|i: int| 0 <= i < s.len() ==> (#[trigger] s[i] as u32) < 0x80,
    ensures
        text_fits(s),
{
    lemma_ascii_utf8_len(s);
}

/// Where the jog screen places its `k`-th widget: a title row of three
/// 50-pixel rows of three widgets, each 50 pixels high, then the four
/// step buttons, the two status boxes and the two action buttons.
pub open spec fn jog_rect(k: int) -> Rectangle {
    if k < 21 {
        let col = k % 3;
        Rectangle {
            top_left: Point { x: if col == 0 { 0 } else if col == 1 { 50 } else { 270 }, y: (50 * (k / 3)) as i32 },
            size: Size { width: if col == 1 { 220 } else { 50 }, height: 50 },
        }
    } else if k < 25 {
        Rectangle { top_left: Point { x: (80 * (k - 21)) as i32, y: 350 }, size: Size { width: 80, height: 50 } }
    } else if k == 25 {
        Rectangle { top_left: Point { x: 0, y: 400 }, size: Size { width: 240, height: 30 } }
    } else if k == 26 {
        Rectangle { top_left: Point { x: 240, y: 400 }, size: Size { width: 80, height: 30 } }
    } else if k == 27 {
        Rectangle { top_left: Point { x: 0, y: 430 }, size: Size { width: 160, height: 50 } }
    } else {
        Rectangle { top_left: Point { x: 160, y: 430 }, size: Size { width: 160, height: 50 } }
    }
}

/// The name of joint `j`, from 1 to 6.
pub open spec fn jog_joint_name(j: int) -> Seq<char> {
    if j == 1 {
        "J1"@
    } else if j == 2 {
        "J2"@
    } else if j == 3 {
        "J3"@
    } else if j == 4 {
        "J4"@
    } else if j == 5 {
        "J5"@
    } else {
        "J6"@
    }
}

/// The text of the `k`-th widget of the jog screen.
pub open spec fn jog_text(k: int) -> Seq<char> {
    if k == 0 {
        "<"@
    } else if k == 1 {
        "Joint jog"@
    } else if k == 2 {
        ">"@
    } else if k < 21 {
        if k % 3 == 0 {
            jog_joint_name(k / 3)
        } else if k % 3 == 1 {
            "0.000"@
        } else {
            "<0>"@
        }
    } else if k == 21 {
        "0.01"@
    } else if k == 22 {
        "0.1"@
    } else if k == 23 {
        "1"@
    } else if k == 24 {
        "10"@
    } else if k == 25 {
        "DISCONNECTED"@
    } else if k == 26 {
        "JOG"@
    } else if k == 27 {
        "RUN"@
    } else {
        "RESET"@
    }
}

/// The zeroing buttons, the status boxes and the action buttons of the jog
/// screen use the small font; the other widgets the large one.
pub open spec fn jog_small_font(k: int) -> bool {
    (3 <= k < 21 && k % 3 == 2) || k >= 25
}

/// The `k`-th widget of the jog screen is `v`: a button, label, radio
/// button or text box as the screen lays them out, with its text, in the
/// `big` or the `small` font.
pub open spec fn jog_widget(k: int, v: WidgetView, big: &'static MonoFont<'static>, small: &'static MonoFont<'static>) -> bool {
    &&& v.text() == Some(jog_text(k))
    &&& v.font() == Some(if jog_small_font(k) { small } else { big })
    &&& if k < 3 || k >= 27 {
        v is Button
    } else if k < 21 {
        if k % 3 == 0 {
            v is Label
        } else {
            v is Button
        }
    } else if k < 25 {
        v is RadioButton
    } else {
        v is Textbox
    }
}

/// Only the joints' value buttons of the jog screen take the focus.
pub open spec fn jog_focusable(k: int) -> bool {
    4 <= k < 21 && k % 3 == 1
}

/// The layout of the jog screen once its rows are full up to `y + height`.
pub open spec fn jog_layout(row: usize, y: int, col: usize, height: usize, x: int) -> LayoutView {
    LayoutView {
        pos: Point { x: x as i32, y: y as i32 },
        row,
        col,
        row_height: height,
        bounds: Size { width: 320, height: 480 },
        wrap: true,
        align: Align { horizontal: HorizontalAlign::Left, vertical: VerticalAlign::Top },
    }
}

/// Builds the joint-jog screen of 320 x 480 pixels: a title row with a
/// button on each side, six rows of a joint label, its value button and
/// its zeroing button, four jog-step radio buttons, a status and a mode
/// box, and the run and reset buttons. It never fails; the page needs
/// room for the 29 widgets.
#[verifier::rlimit(40)]
pub fn build_main_page<const W: usize>() -> (r: Result<(Page<W>, MainElements), Error>)
    requires
        W >= 29,
    ensures
        r is Ok,
        r matches Ok((p, e)) ==> {
            &&& p.wf()
            &&& p@.widgets.len() == 29
            &&& p@.focus_idx == 0
            &&& forall|k: int| 0 <= k < 29 ==> #[trigger] p@.widgets[k].1 == jog_rect(k)
            &&& forall|k: int| 0 <= k < 29 ==> (#[trigger] p@.widgets[k].0.focusable() <==> jog_focusable(k))
            &&& forall|k: int|
                0 <= k < 29 ==> jog_widget(
                    k,
                    #[trigger] p@.widgets[k].0,
                    p@.widgets[0].0.font()->0,
                    p@.widgets[5].0.font()->0,
                )
            &&& e.btn_left == 0 && e.btn_menu == 1 && e.btn_right == 2
            &&& forall|i: int| 0 <= i < 6 ==> #[trigger] e.joint_textboxes[i] == 4 + 3 * i
            &&& forall|i: int| 0 <= i < 6 ==> #[trigger] e.joint_zeros[i] == 5 + 3 * i
            &&& forall|i: int| 0 <= i < 4 ==> #[trigger] e.steps_radio[i] == 21 + i
            &&& e.status_textbox == 25 && e.mode_textbox == 26
            &&& e.btn_run == 27 && e.btn_reset == 28
        },
{
    let mut page: Page<W> = Page::new(
        Size::new(SCREEN_W as u32, SCREEN_H as u32),
        true,
        Align { horizontal: HorizontalAlign::Left, vertical: VerticalAlign::Top },
    );
    let big = font_24();
    let small = font_18();
    proof {
        reveal_strlit("<");
        reveal_strlit("Joint jog");
        reveal_strlit(">");
        lemma_ascii_fits("<"@);
        lemma_ascii_fits("Joint jog"@);
        lemma_ascii_fits(">"@);
    }
    let btn_left = page.insert(WidgetKind::Button(Button::new("<", big, centered(), Size::new(50, 50), false)?))?;
    let btn_menu = page.insert(WidgetKind::Button(Button::new("Joint jog", big, centered(), Size::new(220, 50), false)?))?;
    let btn_right = page.insert(WidgetKind::Button(Button::new(">", big, centered(), Size::new(50, 50), false)?))?;
    assert(page@.widgets[0].1 == jog_rect(0));
    assert(page@.widgets[1].1 == jog_rect(1));
    assert(page@.widgets[2].1 == jog_rect(2));
    assert(!page@.widgets[0].0.focusable() && !page@.widgets[1].0.focusable() && !page@.widgets[2].0.focusable());
    assert(jog_widget(0, page@.widgets[0].0, big, small));
    assert(jog_widget(1, page@.widgets[1].0, big, small));
    assert(jog_widget(2, page@.widgets[2].0, big, small));

    let names: [&str; 6] = ["J1", "J2", "J3", "J4", "J5", "J6"];
    proof {
        reveal_strlit("J1");
        reveal_strlit("J2");
        reveal_strlit("J3");
        reveal_strlit("J4");
        reveal_strlit("J5");
        reveal_strlit("J6");
        reveal_strlit("0.000");
        reveal_strlit("<0>");
        lemma_ascii_fits("J1"@);
        lemma_ascii_fits("J2"@);
        lemma_ascii_fits("J3"@);
        lemma_ascii_fits("J4"@);
        lemma_ascii_fits("J5"@);
        lemma_ascii_fits("J6"@);
        lemma_ascii_fits("0.000"@);
        lemma_ascii_fits("<0>"@);
        assert(names[0]@ == jog_joint_name(1));
        assert(names[1]@ == jog_joint_name(2));
        assert(names[2]@ == jog_joint_name(3));
        assert(names[3]@ == jog_joint_name(4));
        assert(names[4]@ == jog_joint_name(5));
        assert(names[5]@ == jog_joint_name(6));
    }
    let mut joint_textboxes: [WidgetId; 6] = [0, 0, 0, 0, 0, 0];
    let mut joint_zeros: [WidgetId; 6] = [0, 0, 0, 0, 0, 0];
    let mut row: usize = 0;
    while row < 6
        invariant
            W >= 29,
            row <= 6,
            page.wf(),
            page@.widgets.len() == 3 + 3 * row,
            page@.focus_idx == 0,
            page@.layout == jog_layout(row, 50 * row, 3, 50, 320),
            forall|k: int| 0 <= k < 3 + 3 * row ==> #[trigger] page@.widgets[k].1 == jog_rect(k),
            forall|k: int| 0 <= k < 3 + 3 * row ==> (#[trigger] page@.widgets[k].0.focusable() <==> jog_focusable(k)),
            forall|i: int| 0 <= i < row ==> #[trigger] joint_textboxes[i] == 4 + 3 * i,
            forall|i: int| 0 <= i < row ==> #[trigger] joint_zeros[i] == 5 + 3 * i,
            forall|i: int| 0 <= i < 6 ==> text_fits(#[trigger] names[i]@),
            forall|i: int| 0 <= i < 6 ==> #[trigger] names[i]@ == jog_joint_name(i + 1),
            forall|k: int| 0 <= k < 3 + 3 * row ==> jog_widget(k, #[trigger] page@.widgets[k].0, big, small),
            text_fits("0.000"@),
            text_fits("<0>"@),
        decreases 6 - row,
    {
        let ghost before = page@;
        let _ = page.insert(WidgetKind::Label(Label::new(names[row], big, centered(), Size::new(50, 50))?))?;
        let textbox_id = page.insert(
            WidgetKind::Button(Button::new("0.000", big, centered(), Size::new(220, 50), true)?),
        )?;
        joint_textboxes[row] = textbox_id;
        let zero_id = page.insert(WidgetKind::Button(Button::new("<0>", small, centered(), Size::new(50, 50), false)?))?;
        joint_zeros[row] = zero_id;
        proof {
            let b = 3 + 3 * row;
            assert(b / 3 == row + 1 && b % 3 == 0);
            assert((b + 1) / 3 == row + 1 && (b + 1) % 3 == 1);
            assert((b + 2) / 3 == row + 1 && (b + 2) % 3 == 2);
            assert(names[row as int]@ == jog_joint_name(row + 1));
            assert forall|k: int| 0 <= k < b + 3 implies #[trigger] page@.widgets[k].1 == jog_rect(k)
                && (page@.widgets[k].0.focusable() <==> jog_focusable(k)) && jog_widget(k, page@.widgets[k].0, big, small) by {
                if k < b {
                    assert(page@.widgets[k] == before.widgets[k]);
                }
            }
        }
        row = row + 1;
    }

    let steps: [&str; 4] = ["0.01", "0.1", "1", "10"];
    proof {
        reveal_strlit("0.01");
        reveal_strlit("0.1");
        reveal_strlit("1");
        reveal_strlit("10");
        lemma_ascii_fits("0.01"@);
        lemma_ascii_fits("0.1"@);
        lemma_ascii_fits("1"@);
        lemma_ascii_fits("10"@);
        assert(steps[0]@ == jog_text(21));
        assert(steps[1]@ == jog_text(22));
        assert(steps[2]@ == jog_text(23));
        assert(steps[3]@ == jog_text(24));
    }
    let mut steps_radio: [WidgetId; 4] = [0, 0, 0, 0];
    let mut step: usize = 0;
    while step < 4
        invariant
            W >= 29,
            step <= 4,
            page.wf(),
            page@.widgets.len() == 21 + step,
            page@.focus_idx == 0,
            page@.layout == (if step == 0 {
                jog_layout(6, 300, 3, 50, 320)
            } else {
                jog_layout(7, 350, step, 50, 80 * step)
            }),
            forall|k: int| 0 <= k < 21 + step ==> #[trigger] page@.widgets[k].1 == jog_rect(k),
            forall|k: int| 0 <= k < 21 + step ==> (#[trigger] page@.widgets[k].0.focusable() <==> jog_focusable(k)),
            forall|i: int| 0 <= i < 6 ==> #[trigger] joint_textboxes[i] == 4 + 3 * i,
            forall|i: int| 0 <= i < 6 ==> #[trigger] joint_zeros[i] == 5 + 3 * i,
            forall|i: int| 0 <= i < step ==> #[trigger] steps_radio[i] == 21 + i,
            forall|i: int| 0 <= i < 4 ==> text_fits(#[trigger] steps[i]@),
            forall|i: int| 0 <= i < 4 ==> #[trigger] steps[i]@ == jog_text(21 + i),
            forall|k: int| 0 <= k < 21 + step ==> jog_widget(k, #[trigger] page@.widgets[k].0, big, small),
        decreases 4 - step,
    {
        let ghost before = page@;
        let radio_id = page.insert(WidgetKind::RadioButton(RadioButton::new(steps[step], big, Size::new(80, 50), false)?))?;
        steps_radio[step] = radio_id;
        proof {
            assert(steps[step as int]@ == jog_text(21 + step));
            assert forall|k: int| 0 <= k < 22 + step implies #[trigger] page@.widgets[k].1 == jog_rect(k)
                && (page@.widgets[k].0.focusable() <==> jog_focusable(k)) && jog_widget(k, page@.widgets[k].0, big, small) by {
                if k < 21 + step {
                    assert(page@.widgets[k] == before.widgets[k]);
                }
            }
        }
        step = step + 1;
    }

    proof {
        reveal_strlit("DISCONNECTED");
        reveal_strlit("JOG");
        reveal_strlit("RUN");
        reveal_strlit("RESET");
        lemma_ascii_fits("DISCONNECTED"@);
        lemma_ascii_fits("JOG"@);
        lemma_ascii_fits("RUN"@);
        lemma_ascii_fits("RESET"@);
    }
    let ghost before = page@;
    let status_textbox = page.insert(
        WidgetKind::Textbox(
            Textbox::new(
                "DISCONNECTED",
                small,
                TextAlignment { horizontal: Horizontal::Left, vertical: Vertical::Center },
                Size::new(240, 30),
                false,
            )?,
        ),
    )?;
    let mode_textbox = page.insert(
        WidgetKind::Textbox(Textbox::new("JOG", small, centered(), Size::new(80, 30), false)?),
    )?;
    let btn_run = page.insert(WidgetKind::Button(Button::new("RUN", small, centered(), Size::new(160, 50), false)?))?;
    let btn_reset = page.insert(
        WidgetKind::Button(Button::new("RESET", small, centered(), Size::new(160, 50), false)?),
    )?;
    proof {
        assert forall|k: int| 0 <= k < 29 implies #[trigger] page@.widgets[k].1 == jog_rect(k)
            && (page@.widgets[k].0.focusable() <==> jog_focusable(k)) && jog_widget(k, page@.widgets[k].0, big, small) by {
            if k < 25 {
                assert(page@.widgets[k] == before.widgets[k]);
            }
        }
        assert(page@.widgets[0].0.font() == Some(big));
        assert(page@.widgets[5].0.font() == Some(small));
    }

    Ok(
        (
            page,
            MainElements {
                btn_left,
                btn_menu,
                btn_right,
                joint_textboxes,
                joint_zeros,
                steps_radio,
                status_textbox,
                mode_textbox,
                btn_run,
                btn_reset,
            },
        ),
    )
}

/// The first index at which `id` occurs in `ids`.
pub open spec fn first_index(ids: Seq<WidgetId>, id: WidgetId) -> Option<int>
    decreases ids.len(),
{
    if ids.len() == 0 {
        None
    } else {
        match first_index(ids.drop_last(), id) {
            Some(i) => Some(i),
            None => if ids.last() == id {
                Some(ids.len() - 1)
            } else {
                None
            },
        }
    }
}

proof fn lemma_first_index_step(ids: Seq<WidgetId>, id: WidgetId, i: int)
    requires
        0 <= i < ids.len(),
        first_index(ids.take(i), id) is None,
    ensures
        ids[i] == id ==> first_index(ids.take(i + 1), id) == Some(i),
        ids[i] != id ==> first_index(ids.take(i + 1), id) is None,
{
    assert(ids.take(i + 1).drop_last() =~= ids.take(i));
}

/// The index of the first occurrence of `id` in `ids`, if any.
pub fn position(ids: &[WidgetId], id: WidgetId) -> (r: Option<usize>)
    ensures
        r matches Some(i) ==> first_index(ids@, id) == Some(i as int),
        r is None ==> first_index(ids@, id) is None,
{
    let mut i: usize = 0;
    while i < ids.len()
        invariant
            i <= ids.len(),
            first_index(ids@.take(i as int), id) is None,
        decreases ids.len() - i,
    {
        proof {
            lemma_first_index_step(ids@, id, i as int);
        }
        if ids[i] == id {
            proof {
                lemma_first_index_prefix(ids@, id, i as int + 1);
            }
            return Some(i);
        }
        i = i + 1;
    }
    assert(ids@.take(i as int) =~= ids@);
    None
}

/// A found index in a prefix is the index in the whole sequence.
proof fn lemma_first_index_prefix(ids: Seq<WidgetId>, id: WidgetId, n: int)
    requires
        0 <= n <= ids.len(),
        first_index(ids.take(n), id) is Some,
    ensures
        first_index(ids, id) == first_index(ids.take(n), id),
    decreases ids.len() - n,
{
    if n < ids.len() {
        assert(ids.take(n + 1).drop_last() =~= ids.take(n));
        lemma_first_index_prefix(ids, id, n + 1);
    } else {
        assert(ids.take(n) =~= ids);
    }
}

/// What the jog screen does in answer to an event of the user interface.
#[derive(Debug, Clone, Copy, PartialEq, Eq, Structural)]
pub enum JogAction {
    /// Show the page with this index.
    SwitchPage(u8),
    PrevPage,
    NextPage,
    /// Put every joint back to its starting angle.
    Reset,
    /// Send the jog to the controller.
    Run,
    /// Focus the value button of this joint and jog that joint.
    FocusJoint(usize),
    /// Set this joint's angle to zero.
    ZeroJoint(usize),
    /// The current step button was hit again: keep it active.
    KeepStep,
    /// Deactivate the current step button and activate this one.
    SelectStep(usize),
    /// A widget of the page that none of the above names: deactivate the
    /// current step button and activate this widget.
    Stray(WidgetId),
    /// An event of another page.
    Ignore,
}

/// The action for `event`, in the order in which the jog screen tests the
/// widgets: the title buttons, reset and run, the joint value buttons, the
/// zeroing buttons, then the step buttons.
pub open spec fn spec_jog_action(e: MainElements, state: UiState, event: Event) -> JogAction {
    let id = event.widget_id;
    if event.page_idx != 0 {
        JogAction::Ignore
    } else if id == e.btn_menu {
        JogAction::SwitchPage(1)
    } else if id == e.btn_left {
        JogAction::PrevPage
    } else if id == e.btn_right {
        JogAction::NextPage
    } else if id == e.btn_reset {
        JogAction::Reset
    } else if id == e.btn_run {
        JogAction::Run
    } else if first_index(e.joint_textboxes@, id) is Some {
        JogAction::FocusJoint(first_index(e.joint_textboxes@, id)->0 as usize)
    } else if first_index(e.joint_zeros@, id) is Some {
        JogAction::ZeroJoint(first_index(e.joint_zeros@, id)->0 as usize)
    } else if state.step_idx < 4 && id == e.steps_radio[state.step_idx as int] {
        JogAction::KeepStep
    } else if first_index(e.steps_radio@, id) is Some {
        JogAction::SelectStep(first_index(e.steps_radio@, id)->0 as usize)
    } else {
        JogAction::Stray(id)
    }
}

impl MainElements {
    /// The joint whose value button is `id`, if any.
    pub fn joint_of(&self, id: WidgetId) -> (r: Option<usize>)
        ensures
            r matches Some(i) ==> first_index(self.joint_textboxes@, id) == Some(i as int),
            r is None ==> first_index(self.joint_textboxes@, id) is None,
    {
        position(self.joint_textboxes.as_slice(), id)
    }

    /// Decides what the jog screen does in answer to `event`.
    pub fn jog_action(&self, state: &UiState, event: Event) -> (a: JogAction)
        ensures
            a == spec_jog_action(*self, *state, event),
    {
        let id = event.widget_id;
        if event.page_idx != 0 {
            JogAction::Ignore
        } else if id == self.btn_menu {
            JogAction::SwitchPage(1)
        } else if id == self.btn_left {
            JogAction::PrevPage
        } else if id == self.btn_right {
            JogAction::NextPage
        } else if id == self.btn_reset {
            JogAction::Reset
        } else if id == self.btn_run {
            JogAction::Run
        } else if let Some(joint) = position(self.joint_textboxes.as_slice(), id) {
            JogAction::FocusJoint(joint)
        } else if let Some(joint) = position(self.joint_zeros.as_slice(), id) {
            JogAction::ZeroJoint(joint)
        } else if state.step_idx < 4 && id == self.steps_radio[state.step_idx] {
            JogAction::KeepStep
        } else if let Some(step) = position(self.steps_radio.as_slice(), id) {
            JogAction::SelectStep(step)
        } else {
            JogAction::Stray(id)
        }
    }
}

} // verus!
