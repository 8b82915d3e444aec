//! Where things go on screen: scrolling, click targets, buttons and dialogs. The renderer
//! draws what these place and registers the targets they return.

use vstd::prelude::*;
use super::hit::{topmost, Rect};
use super::model::{Action, AppsView, Dialog, Screen, SCREENS};
use crate::executor::Mode;

verus! {

/// The offset that keeps `selected` in view, as `draw_rows` computes it: scroll up to the
/// selection, scroll down just enough to show it, and never past the last full page.
pub open spec fn scroll_spec(selected: usize, offset: usize, count: usize, rows: usize) -> int {
    let first = if selected < offset {
        selected as int
    } else if rows > 0 && selected >= offset + rows {
        selected + 1 - rows
    } else {
        offset as int
    };
    let last_page = if count > rows { count - rows } else { 0 };
    if first < last_page { first } else { last_page }
}

/// The first visible row of a list of `count` rows showing `rows` at a time.
pub fn scroll(selected: usize, offset: usize, count: usize, rows: usize) -> (r: usize)
    requires
        selected < offset || rows == 0 || offset + rows <= usize::MAX,
    ensures
        r == scroll_spec(selected, offset, count, rows),
        selected < count && rows > 0 ==> r <= selected < r + rows,
{
    let mut off = offset;
    if selected < off {
        off = selected;
    } else if rows > 0 && selected >= off + rows {
        off = selected - rows + 1;
    }
    let last_page = count.saturating_sub(rows);
    if off < last_page {
        off
    } else {
        last_page
    }
}

/// How many rows of a list show from `offset` when `rows` fit.
pub open spec fn shown_rows(offset: usize, count: usize, rows: usize) -> int {
    let end = if count < offset + rows { count as int } else { offset + rows };
    if end > offset { end - offset } else { 0 }
}

/// The click targets of a list drawn in `inner` from row `offset`: each visible row selects
/// its item, and its three-cell box (when there are boxes) ticks it.
pub open spec fn row_targets_spec(inner: Rect, offset: usize, count: usize, checkbox: bool) -> Seq<(Rect, Action)> {
    let n = shown_rows(offset, count, inner.height as usize);
    let row = |k: int| Rect { x: inner.x, y: (inner.y + k) as u16, width: inner.width, height: 1 };
    let boxed = |k: int| Rect { x: inner.x, y: (inner.y + k) as u16, width: if inner.width < 3 { inner.width } else { 3 }, height: 1 };
    if checkbox {
        Seq::new((2 * n) as nat, |j: int| if j % 2 == 0 {
            (row(j / 2), Action::Row((offset + j / 2) as usize))
        } else {
            (boxed(j / 2), Action::Toggle((offset + j / 2) as usize))
        })
    } else {
        Seq::new(n as nat, |k: int| (row(k), Action::Row((offset + k) as usize)))
    }
}

/// The click targets of the visible rows of a list, in drawing order.
pub fn row_targets(inner: Rect, offset: usize, count: usize, checkbox: bool) -> (r: Vec<(Rect, Action)>)
    requires
        offset + inner.height <= usize::MAX,
        inner.y + shown_rows(offset, count, inner.height as usize) <= u16::MAX + 1,
    ensures
        r@ == row_targets_spec(inner, offset, count, checkbox),
{
    let rows = inner.height as usize;
    let end = if count < offset + rows { count } else { offset + rows };
    let mut out: Vec<(Rect, Action)> = Vec::new();
    let mut i = offset;
    let ghost n = shown_rows(offset, count, rows);
    let ghost want = row_targets_spec(inner, offset, count, checkbox);
    while i < end
        invariant
            offset <= i,
            i <= end || end <= offset,
            end <= offset ==> i == offset,
            end == (if count < offset + rows { count as int } else { offset + rows }),
            rows == inner.height,
            inner.y + n <= u16::MAX + 1,
            n == shown_rows(offset, count, rows),
            want == row_targets_spec(inner, offset, count, checkbox),
            out@.len() == (if checkbox { 2 * (i - offset) } else { i - offset }),
            forall|j: int| 0 <= j < out@.len() ==> out@[j] == want[j],
        decreases end - i,
    {
        let k = i - offset;
        let y = inner.y + k as u16;
        let r = Rect { x: inner.x, y, width: inner.width, height: 1 };
        out.push((r, Action::Row(i)));
        if checkbox {
            let w = if inner.width < 3 { inner.width } else { 3 };
            out.push((Rect { x: inner.x, y, width: w, height: 1 }, Action::Toggle(i)));
        }
        i = i + 1;
    }
    assert(want.len() == out@.len());
    assert(out@ =~= want);
    out
}

/// The right edge of a rectangle, saturating like `Rect::right`.
pub open spec fn right_of(r: Rect) -> int {
    if r.x + r.width > u16::MAX { u16::MAX as int } else { r.x + r.width }
}

/// Buttons laid out left to right from `x`, a cell apart, each four cells wider than its
/// label; the first that would cross `right` and all after it are left out.
pub open spec fn button_slots(x: int, y: u16, height: u16, right: int, labels: Seq<u16>) -> Seq<Rect>
    decreases labels.len(),
{
    if labels.len() == 0 {
        Seq::empty()
    } else {
        let w = labels[0] + 4;
        if x + w > right {
            Seq::empty()
        } else {
            seq![Rect { x: x as u16, y, width: w as u16, height }] + button_slots(x + w + 1, y, height, right, labels.skip(1))
        }
    }
}

/// Laying out the buttons from `x` stays within cell coordinates (up to the first button
/// that does not fit).
pub open spec fn buttons_fit(x: int, right: int, labels: Seq<u16>) -> bool
    decreases labels.len(),
{
    if labels.len() == 0 {
        true
    } else {
        let w = labels[0] + 4;
        &&& w <= u16::MAX
        &&& x + w <= u16::MAX
        &&& (x + w > right || (x + w + 1 <= u16::MAX && buttons_fit(x + w + 1, right, labels.skip(1))))
    }
}

/// Where the buttons with labels of these widths (in characters) go in `area`.
pub fn button_rects(area: Rect, labels: &Vec<u16>) -> (r: Vec<Rect>)
    requires
        buttons_fit(area.x as int, right_of(area), labels@),
    ensures
        r@ == button_slots(area.x as int, area.y, area.height, right_of(area), labels@),
{
    let right = area.x.saturating_add(area.width);
    let mut x = area.x;
    let mut out: Vec<Rect> = Vec::new();
    let mut i: usize = 0;
    proof {
        assert(labels@.skip(0) =~= labels@);
        assert(out@ + button_slots(x as int, area.y, area.height, right as int, labels@) =~= button_slots(
            x as int,
            area.y,
            area.height,
            right as int,
            labels@,
        ));
    }
    while i < labels.len()
        invariant
            i <= labels@.len(),
            right == right_of(area),
            buttons_fit(x as int, right as int, labels@.skip(i as int)),
            out@ + button_slots(x as int, area.y, area.height, right as int, labels@.skip(i as int)) == button_slots(
                area.x as int,
                area.y,
                area.height,
                right_of(area),
                labels@,
            ),
        decreases labels@.len() - i,
    {
        proof {
            assert(labels@.skip(i as int)[0] == labels@[i as int]);
            assert(labels@.skip(i as int).skip(1) =~= labels@.skip(i + 1));
        }
        let w = labels[i] + 4;
        if x + w > right {
            proof {
                assert(out@ + Seq::<Rect>::empty() =~= out@);
            }
            return out;
        }
        let ghost before = out@;
        out.push(Rect { x, y: area.y, width: w, height: area.height });
        proof {
            assert(before + (seq![Rect { x, y: area.y, width: w, height: area.height }] + button_slots(
                x + w + 1,
                area.y,
                area.height,
                right as int,
                labels@.skip(i + 1),
            )) =~= out@ + button_slots(x + w + 1, area.y, area.height, right as int, labels@.skip(i + 1)));
        }
        x = x + w + 1;
        i = i + 1;
    }
    proof {
        assert(labels@.skip(i as int).len() == 0);
        assert(out@ + Seq::<Rect>::empty() =~= out@);
    }
    out
}

/// The width of a tab: its title, its number and three spaces (` 1 Title `).
pub open spec fn tab_width(i: int) -> int {
    Screen::nth(i).title_spec().len() + 4int
}

/// The tabs from the `i`-th on, laid out from `x` a cell apart; a tab that would cross
/// `right` gets no click target, and the tabs after it keep their places.
pub open spec fn tab_targets_from(x: int, y: u16, right: int, i: int) -> Seq<(Rect, Action)>
    decreases 6 - i,
{
    if i < 0 || i >= 6 {
        Seq::empty()
    } else {
        let w = tab_width(i);
        let rest = tab_targets_from(x + w + 1, y, right, i + 1);
        if x + w <= right {
            seq![(Rect { x: x as u16, y, width: w as u16, height: 1 }, Action::Tab(Screen::nth(i)))] + rest
        } else {
            rest
        }
    }
}

fn title_width(s: Screen) -> (r: u16)
    ensures
        r == s.title_spec().len(),
        r <= 11,
{
    match s {
        Screen::Dashboard => {
            proof {
                reveal_strlit("Dashboard");
            }
            9
        },
        Screen::Apps => {
            proof {
                reveal_strlit("Apps");
            }
            4
        },
        Screen::Cleanup => {
            proof {
                reveal_strlit("Cleanup");
            }
            7
        },
        Screen::Leftovers => {
            proof {
                reveal_strlit("Leftovers");
            }
            9
        },
        Screen::Large => {
            proof {
                reveal_strlit("Large files");
            }
            11
        },
        Screen::Dupes => {
            proof {
                reveal_strlit("Duplicates");
            }
            10
        },
    }
}

/// The click targets of the tab bar drawn in `inner`.
pub fn tab_targets(inner: Rect) -> (r: Vec<(Rect, Action)>)
    requires
        inner.x + 80 <= u16::MAX,
    ensures
        r@ == tab_targets_from(inner.x as int, inner.y, right_of(inner), 0),
{
    let right = inner.x.saturating_add(inner.width);
    let mut x = inner.x;
    let mut out: Vec<(Rect, Action)> = Vec::new();
    let mut i: usize = 0;
    let ghost want = tab_targets_from(inner.x as int, inner.y, right_of(inner), 0);
    proof {
        assert(out@ + tab_targets_from(x as int, inner.y, right as int, 0) =~= want);
    }
    while i < SCREENS
        invariant
            i <= SCREENS,
            right == right_of(inner),
            x as int == inner.x + (if i == 0 { 0int } else if i == 1 { 14int } else if i == 2 { 23int } else if i == 3 {
                35int
            } else if i == 4 { 49int } else if i == 5 { 65int } else { 80int }),
            inner.x + 80 <= u16::MAX,
            out@ + tab_targets_from(x as int, inner.y, right as int, i as int) == want,
        decreases SCREENS - i,
    {
        let s = Screen::at(i);
        let w = title_width(s) + 4;
        proof {
            reveal_strlit("Dashboard");
            reveal_strlit("Apps");
            reveal_strlit("Cleanup");
            reveal_strlit("Leftovers");
            reveal_strlit("Large files");
            reveal_strlit("Duplicates");
        }
        let ghost before = out@;
        let ghost rest = tab_targets_from(x + w + 1, inner.y, right as int, i + 1);
        if x + w <= right {
            out.push((Rect { x, y: inner.y, width: w, height: 1 }, Action::Tab(s)));
            proof {
                assert(before + (seq![(Rect { x, y: inner.y, width: w, height: 1 }, Action::Tab(s))] + rest) =~= out@
                    + rest);
            }
        }
        x = x + w + 1;
        i = i + 1;
    }
    proof {
        assert(out@ + Seq::<(Rect, Action)>::empty() =~= out@);
    }
    out
}

/// The mode badge at the right end of the status line: its text.
pub fn badge_label(permanent: bool) -> (r: &'static str)
    ensures
        r@ == if permanent { " PERMANENT delete "@ } else { " Trash "@ },
{
    if permanent {
        " PERMANENT delete "
    } else {
        " Trash "
    }
}

/// The mode badge's place in the status line `area` (a click on it switches the mode), and
/// the width left for the hint before it.
pub fn status_badge(area: Rect, permanent: bool) -> (r: (Rect, u16))
    ensures
        ({
            let bw: int = if permanent { 18 } else { 7 };
            let from = if right_of(area) - bw > area.x { right_of(area) - bw } else { area.x as int };
            &&& r.0 == Rect {
                x: (if right_of(area) >= bw { from } else { area.x as int }) as u16,
                y: area.y,
                width: (if bw < area.width { bw } else { area.width as int }) as u16,
                height: 1,
            }
            &&& r.1 == if area.width > bw + 1 { area.width - bw - 1 } else { 0 }
        }),
{
    let bw: u16 = if permanent { 18 } else { 7 };
    let right = area.x.saturating_add(area.width);
    let start = right.saturating_sub(bw);
    let x = if start > area.x { start } else { area.x };
    let w = if bw < area.width { bw } else { area.width };
    (Rect { x, y: area.y, width: w, height: 1 }, area.width.saturating_sub(bw + 1))
}

/// The width of a dialog on a screen `width` cells wide: four cells narrower, at most 76.
pub open spec fn dialog_width(width: u16) -> int {
    if width >= 4 {
        if width - 4 < 76 { width - 4 } else { 76 }
    } else {
        0
    }
}

/// The height a dialog with `lines` lines of text asks for (counted in cells, so `lines`
/// is taken modulo 2^16), with room for borders and a row of buttons if it has any.
pub open spec fn dialog_want(lines: usize, buttons: bool) -> int {
    (lines as u16) + 2 + (if buttons { 3int } else { 0int }) + 1
}

/// The height of such a dialog on a screen `height` cells tall: what it asks for, at most
/// two cells short of the screen.
pub open spec fn dialog_height(height: u16, lines: usize, buttons: bool) -> int {
    let room: int = if height >= 2 { height - 2 } else { 0 };
    if dialog_want(lines, buttons) < room { dialog_want(lines, buttons) } else { room }
}

/// Where such a dialog goes on a screen of `area`: centred.
pub open spec fn dialog_area_spec(area: Rect, lines: usize, buttons: bool) -> Rect {
    let w = dialog_width(area.width);
    let h = dialog_height(area.height, lines, buttons);
    let free: int = if area.height >= h { area.height - h } else { 0 };
    Rect { x: (area.x + (area.width - w) / 2) as u16, y: (area.y + free / 2) as u16, width: w as u16, height: h as u16 }
}

pub fn dialog_area(area: Rect, lines: usize, buttons: bool) -> (r: Rect)
    requires
        dialog_want(lines, buttons) <= u16::MAX,
        area.x + (area.width - dialog_width(area.width)) / 2 <= u16::MAX,
        area.y + (area.height - dialog_height(area.height, lines, buttons)) / 2 <= u16::MAX,
    ensures
        r == dialog_area_spec(area, lines, buttons),
{
    let room = area.width.saturating_sub(4);
    let w: u16 = if room < 76 { room } else { 76 };
    let extra: u16 = if buttons { 3 } else { 0 };
    let n: u16 = lines as u16;
    let want: u16 = n + 2 + extra + 1;
    let tall = area.height.saturating_sub(2);
    let h: u16 = if want < tall { want } else { tall };
    Rect { x: area.x + (area.width - w) / 2, y: area.y + area.height.saturating_sub(h) / 2, width: w, height: h }
}

/// The buttons of a dialog, left to right: a permanent removal asks to continue, then to
/// delete forever; other confirmations confirm; every dialog but a busy one can be closed.
pub open spec fn dialog_buttons_spec(d: Dialog) -> Seq<(Seq<char>, Action)> {
    match d {
        Dialog::Confirm { mode, stage, .. } => {
            let label = if mode == Mode::Permanent && stage == 0 {
                "Continue  (enter)"@
            } else if mode == Mode::Permanent {
                "Delete forever  (enter)"@
            } else {
                "Confirm  (enter)"@
            };
            seq![(label, Action::Confirm), ("Cancel (esc)"@, Action::Cancel)]
        },
        Dialog::Result { .. } => seq![("OK  (enter)"@, Action::Cancel)],
        Dialog::Busy(_) => Seq::empty(),
        Dialog::Help => seq![("Close  (esc)"@, Action::Cancel)],
    }
}

pub fn dialog_buttons(d: &Dialog) -> (r: Vec<(&'static str, Action)>)
    ensures
        r@.map_values(|b: (&str, Action)| (b.0@, b.1)) == dialog_buttons_spec(*d),
{
    let r = match d {
        Dialog::Confirm { mode, stage, .. } => {
            let label = if *mode == Mode::Permanent && *stage == 0 {
                "Continue  (enter)"
            } else if *mode == Mode::Permanent {
                "Delete forever  (enter)"
            } else {
                "Confirm  (enter)"
            };
            vec![(label, Action::Confirm), ("Cancel (esc)", Action::Cancel)]
        },
        Dialog::Result { .. } => vec![("OK  (enter)", Action::Cancel)],
        Dialog::Busy(_) => Vec::new(),
        Dialog::Help => vec![("Close  (esc)", Action::Cancel)],
    };
    assert(r@.map_values(|b: (&str, Action)| (b.0@, b.1)) =~= dialog_buttons_spec(*d));
    r
}

/// The apps screen's buttons: uninstall (only for a selected app that is not Apple's),
/// sort and rescan.
pub open spec fn apps_buttons_spec(v: AppsView) -> Seq<(Seq<char>, Action)> {
    let rest = seq![("Sort (s)"@, Action::Sort), ("Rescan (r)"@, Action::Refresh)];
    if v.selected < v.apps@.len() && !v.apps@[v.selected as int].apple() {
        seq![("Uninstall  (enter)"@, Action::Primary)] + rest
    } else {
        rest
    }
}

pub fn apps_buttons(v: &AppsView) -> (r: Vec<(&'static str, Action)>)
    ensures
        r@.map_values(|b: (&str, Action)| (b.0@, b.1)) == apps_buttons_spec(*v),
{
    let mut r: Vec<(&'static str, Action)> = Vec::new();
    if v.selected < v.apps.len() && !v.apps[v.selected].is_apple() {
        r.push(("Uninstall  (enter)", Action::Primary));
    }
    r.push(("Sort (s)", Action::Sort));
    r.push(("Rescan (r)", Action::Refresh));
    assert(r@.map_values(|b: (&str, Action)| (b.0@, b.1)) =~= apps_buttons_spec(*v));
    r
}

/// What a list screen's main button says: its own verb, or "Delete" when deleting
/// permanently (cleaning keeps its name).
pub open spec fn list_verb_spec(screen: Screen, permanent: bool) -> Seq<char> {
    let verb = match screen {
        Screen::Leftovers => "Remove"@,
        Screen::Large => "Trash"@,
        Screen::Dupes => "Remove extras"@,
        _ => "Clean"@,
    };
    if permanent && verb != "Clean"@ {
        "Delete"@
    } else {
        verb
    }
}

pub fn list_verb(screen: Screen, permanent: bool) -> (r: &'static str)
    ensures
        r@ == list_verb_spec(screen, permanent),
{
    proof {
        reveal_strlit("Remove");
        reveal_strlit("Trash");
        reveal_strlit("Remove extras");
        reveal_strlit("Clean");
        assert("Trash"@[0] != "Clean"@[0]);
    }
    match screen {
        Screen::Leftovers => if permanent { "Delete" } else { "Remove" },
        Screen::Large => if permanent { "Delete" } else { "Trash" },
        Screen::Dupes => if permanent { "Delete" } else { "Remove extras" },
        _ => "Clean",
    }
}

/// A checklist row `w` cells wide shows a size bar and the category when it is at least 56
/// wide; the path gets what is left.
pub fn checklist_columns(w: usize) -> (r: (bool, usize))
    ensures
        r.0 == (w >= 56),
        r.1 == if w >= 56 { w - 33 } else if w >= 14 { w - 14 } else { 0 },
{
    if w >= 56 {
        (true, w - 33)
    } else {
        (false, w.saturating_sub(14))
    }
}

/// The dashboard's category rows in `inner`: one row each, as many as fit, each opening the
/// cleanup screen when clicked.
pub fn category_targets(inner: Rect, count: usize) -> (r: Vec<(Rect, Action)>)
    requires
        inner.y + (if count < inner.height { count as int } else { inner.height as int }) <= u16::MAX + 1,
    ensures
        r@.len() == if count < inner.height { count as int } else { inner.height as int },
        forall|k: int| 0 <= k < r@.len() ==> #[trigger] r@[k] == (Rect {
            x: inner.x,
            y: (inner.y + k) as u16,
            width: inner.width,
            height: 1,
        }, Action::Tab(Screen::Cleanup)),
{
    let n: usize = if count < inner.height as usize { count } else { inner.height as usize };
    let mut out: Vec<(Rect, Action)> = Vec::new();
    let mut k: usize = 0;
    while k < n
        invariant
            k <= n,
            n <= inner.height,
            inner.y + n <= u16::MAX + 1,
            out@.len() == k,
            forall|j: int| 0 <= j < k ==> #[trigger] out@[j] == (Rect {
                x: inner.x,
                y: (inner.y + j) as u16,
                width: inner.width,
                height: 1,
            }, Action::Tab(Screen::Cleanup)),
        decreases n - k,
    {
        out.push((Rect { x: inner.x, y: inner.y + k as u16, width: inner.width, height: 1 }, Action::Tab(Screen::Cleanup)));
        k = k + 1;
    }
    out
}

/// Targets that do not hold a point do not change what a click there hits.
proof fn lemma_topmost_skips(s: Seq<(Rect, Action)>, t: Seq<(Rect, Action)>, x: u16, y: u16)
    requires
        forall|i: int| 0 <= i < t.len() ==> !(#[trigger] t[i]).0.holds(x, y),
    ensures
        topmost(s + t, x, y) == topmost(s, x, y),
    decreases t.len(),
{
    if t.len() > 0 {
        assert((s + t).drop_last() =~= s + t.drop_last());
        assert((s + t).last() == t[t.len() - 1]);
        lemma_topmost_skips(s, t.drop_last(), x, y);
    } else {
        assert(s + t =~= s);
    }
}

/// In a list with tick boxes, a click in a visible row's box ticks that row's item, and a
/// click elsewhere in the row selects it.
pub proof fn clicks_in_rows(inner: Rect, offset: usize, count: usize, k: int, x: u16)
    requires
        0 <= k < shown_rows(offset, count, inner.height as usize),
        inner.y + inner.height <= u16::MAX,
        inner.x <= x,
        x < right_of(inner),
    ensures
        ({
            let targets = row_targets_spec(inner, offset, count, true);
            let y = (inner.y + k) as u16;
            topmost(targets, x, y) == Some(
                if x < inner.x + 3 { Action::Toggle((offset + k) as usize) } else { Action::Row((offset + k) as usize) },
            )
        }),
{
    let targets = row_targets_spec(inner, offset, count, true);
    let y = (inner.y + k) as u16;
    let n = shown_rows(offset, count, inner.height as usize);
    let head = targets.take(2 * k + 2);
    let rest = targets.skip(2 * k + 2);
    assert(targets =~= head + rest);
    assert forall|i: int| 0 <= i < rest.len() implies !(#[trigger] rest[i]).0.holds(x, y) by {
        assert(rest[i] == targets[2 * k + 2 + i]);
    }
    lemma_topmost_skips(head, rest, x, y);
    assert(head.last() == targets[2 * k + 1]);
    assert(head.drop_last() =~= targets.take(2 * k + 1));
    assert(targets.take(2 * k + 1).last() == targets[2 * k]);
    assert(targets.take(2 * k + 1).drop_last() =~= targets.take(2 * k));
    assert(targets[2 * k + 1].1 == Action::Toggle((offset + k) as usize));
    assert(targets[2 * k].1 == Action::Row((offset + k) as usize));
    assert(targets[2 * k].0.holds(x, y));
    if x < inner.x + 3 {
        assert(targets[2 * k + 1].0.holds(x, y));
        assert(topmost(head, x, y) == Some(targets[2 * k + 1].1));
    } else {
        assert(!targets[2 * k + 1].0.holds(x, y));
        assert(topmost(head, x, y) == topmost(targets.take(2 * k + 1), x, y));
        assert(topmost(targets.take(2 * k + 1), x, y) == Some(targets[2 * k].1));
    }
}

} // verus!
