//! The interface's state and its update function: input becomes an `Action`, `act` changes
//! the state and returns `Effect`s for the runner to perform.

use vstd::prelude::*;
use crate::apps::{name_le, size_ge, App as AppInfo};
use crate::executor::{sum_removed, Mode, Report};
use crate::plan::{checked_total, largest_first, larger_first, sum_sizes, Category, Item, Plan};
use crate::sort::{stable_sort, stable_sort_permutes};
use crate::text::{concat, decimal, decimal_spec, owned};
use super::hit::{topmost, HitMap};
use super::model::{AppsView, Checklist, Dialog, Effect, Key, KeyCode, Line, Load, Mouse, Msg, Reclaim, ScanKind, ScanResult, Screen, Action, CatRow, ticked, SCREENS};
use super::theme::Theme;

verus! {

pub struct App {
    pub screen: Screen,
    pub theme: Theme,
    pub quit: bool,
    pub cleanup: Load<Reclaim>,
    pub apps: Load<AppsView>,
    pub leftovers: Load<Checklist>,
    pub large: Load<Checklist>,
    pub dupes: Load<Checklist>,
    pub dialog: Option<Dialog>,
    pub permanent: bool,
    /// (used, total) bytes of the volume holding the home directory.
    pub disk: Option<(u64, u64)>,
    pub hits: HitMap,
    /// Rows visible in the current list, set by the last draw; used for page moves.
    pub view_rows: usize,
    pub tick: usize,
}

/// `sel` moved by `delta` (saturating), kept within a list of `len` rows.
pub open spec fn clamp_spec(sel: usize, delta: isize, len: usize) -> usize {
    if len == 0 {
        0
    } else {
        let s = (sel as isize) as int + delta as int;
        let v = if s > isize::MAX { isize::MAX as int } else if s < isize::MIN { isize::MIN as int } else { s };
        if v < 0 {
            0
        } else if v > len - 1 {
            (len - 1) as usize
        } else {
            v as usize
        }
    }
}

fn clamp_move(sel: usize, delta: isize, len: usize) -> (r: usize)
    requires
        len <= isize::MAX,
    ensures
        r == clamp_spec(sel, delta, len),
        len > 0 ==> r < len,
{
    if len == 0 {
        0
    } else {
        let s: i128 = (sel as isize) as i128 + delta as i128;
        let v: i128 = if s > isize::MAX as i128 {
            isize::MAX as i128
        } else if s < isize::MIN as i128 {
            isize::MIN as i128
        } else {
            s
        };
        let hi: i128 = len as i128 - 1;
        if v < 0 {
            0
        } else if v > hi {
            len - 1
        } else {
            v as usize
        }
    }
}

/// A change to the current checklist.
#[derive(Clone, Copy, Debug, PartialEq, Eq, Structural)]
pub enum ListOp {
    Move(isize),
    Select(usize),
    Flip(usize),
    /// Select row `i`, then flip its box.
    Toggle(usize),
    FlipCurrent,
    ToggleAll,
}

/// `i` kept within a list of `len` rows (`i.min(len.saturating_sub(1))`).
pub open spec fn select_spec(i: usize, len: usize) -> usize {
    if len == 0 {
        0
    } else if i < len - 1 {
        i
    } else {
        (len - 1) as usize
    }
}

/// `old` changed into `new` by `op`.
pub open spec fn list_op_post(old: Checklist, new: Checklist, op: ListOp) -> bool {
    match op {
        ListOp::Move(d) => new == Checklist { selected: clamp_spec(old.selected, d, old.items@.len() as usize), ..old },
        ListOp::Select(i) => new == Checklist { selected: select_spec(i, old.items@.len() as usize), ..old },
        ListOp::Flip(i) => flipped(old, new, i),
        ListOp::Toggle(i) => flipped(old, Checklist { selected: old.selected, ..new }, i) && new.selected
            == select_spec(i, old.items@.len() as usize),
        ListOp::FlipCurrent => flipped(old, new, old.selected),
        ListOp::ToggleAll => {
            let all = forall|k: int| 0 <= k < old.checked@.len() ==> #[trigger] old.checked@[k];
            &&& new == Checklist { checked: new.checked, ..old }
            &&& new.checked@ == Seq::new(old.checked@.len(), |k: int| !all)
        },
    }
}

/// `new` is `old` with box `i` flipped (nothing changes when there is no box `i`).
pub open spec fn flipped(old: Checklist, new: Checklist, i: usize) -> bool {
    &&& new == Checklist { checked: new.checked, ..old }
    &&& new.checked@ == if i < old.checked@.len() {
        old.checked@.update(i as int, !old.checked@[i as int])
    } else {
        old.checked@
    }
}

fn apply_list_op(c: &mut Checklist, op: ListOp)
    requires
        old(c).items@.len() <= isize::MAX,
    ensures
        list_op_post(*old(c), *final(c), op),
{
    match op {
        ListOp::Move(d) => {
            c.selected = clamp_move(c.selected, d, c.items.len());
        },
        ListOp::Select(i) => {
            let n = c.items.len();
            let m = n.saturating_sub(1);
            c.selected = if i < m { i } else { m };
        },
        ListOp::Flip(i) => {
            if i < c.checked.len() {
                let v = c.checked[i];
                c.checked.set(i, !v);
            }
        },
        ListOp::Toggle(i) => {
            let n = c.items.len();
            let m = n.saturating_sub(1);
            c.selected = if i < m { i } else { m };
            if i < c.checked.len() {
                let v = c.checked[i];
                c.checked.set(i, !v);
            }
        },
        ListOp::FlipCurrent => {
            let i = c.selected;
            if i < c.checked.len() {
                let v = c.checked[i];
                c.checked.set(i, !v);
            }
        },
        ListOp::ToggleAll => {
            c.toggle_all();
        },
    }
}

/// `new` is `old` with the checklist of the current screen (if it is loaded) changed by `op`,
/// and nothing else changed.
pub open spec fn list_changed(old: App, new: App, op: ListOp) -> bool {
    match old.screen {
        Screen::Cleanup => match old.cleanup {
            Load::Ready(r) => new.cleanup matches Load::Ready(r2) && r2.rows == r.rows && list_op_post(r.list, r2.list, op)
                && new == App { cleanup: new.cleanup, ..old },
            _ => new == old,
        },
        Screen::Leftovers => match old.leftovers {
            Load::Ready(l) => new.leftovers matches Load::Ready(l2) && list_op_post(l, l2, op)
                && new == App { leftovers: new.leftovers, ..old },
            _ => new == old,
        },
        Screen::Large => match old.large {
            Load::Ready(l) => new.large matches Load::Ready(l2) && list_op_post(l, l2, op)
                && new == App { large: new.large, ..old },
            _ => new == old,
        },
        Screen::Dupes => match old.dupes {
            Load::Ready(l) => new.dupes matches Load::Ready(l2) && list_op_post(l, l2, op)
                && new == App { dupes: new.dupes, ..old },
            _ => new == old,
        },
        _ => new == old,
    }
}

/// Where the apps list's cursor goes under `op` (only moves and selections touch it).
pub open spec fn cursor_after(sel: usize, len: usize, op: ListOp) -> usize {
    match op {
        ListOp::Move(d) => clamp_spec(sel, d, len),
        ListOp::Select(i) => select_spec(i, len),
        ListOp::Toggle(i) => select_spec(i, len),
        _ => sel,
    }
}

/// `new` is `old` after a cursor operation: on the apps screen it moves the apps list's
/// cursor, elsewhere it changes the current checklist.
pub open spec fn cursor_moved(old: App, new: App, op: ListOp) -> bool {
    if old.screen == Screen::Apps {
        match old.apps {
            Load::Ready(v) => new == App {
                apps: Load::Ready(AppsView { selected: cursor_after(v.selected, v.apps@.len() as usize, op), ..v }),
                ..old
            },
            _ => new == old,
        }
    } else {
        list_changed(old, new, op)
    }
}

/// The mode a removal runs in, from the "permanent" switch.
pub open spec fn mode_for(permanent: bool) -> Mode {
    if permanent {
        Mode::Permanent
    } else {
        Mode::Trash
    }
}

/// The warning line under a confirmation's summary.
pub open spec fn mode_warning(mode: Mode) -> Seq<char> {
    if mode == Mode::Permanent {
        "PERMANENT: items are deleted and cannot be recovered."@
    } else {
        "Items are moved to the Trash."@
    }
}

/// The lines of the dialog that asks to confirm removing `items`: a summary, what the
/// mode means, a blank line, the first six items, how many more there are, and the first
/// three warnings.
pub open spec fn confirm_lines(lines: Seq<Line>, items: Seq<Item>, warnings: Seq<String>, mode: Mode) -> bool {
    let shown = if items.len() < 6 { items.len() as int } else { 6int };
    let more = if items.len() > 6 { 1int } else { 0int };
    let notes = if warnings.len() < 3 { warnings.len() as int } else { 3int };
    &&& lines.len() == 3 + shown + more + notes
    &&& lines[0] matches Line::Summary { count, bytes } && count == items.len() && bytes == sum_sizes(items)
    &&& is_text(lines[1], mode_warning(mode))
    &&& is_text(lines[2], Seq::empty())
    &&& forall|k: int| 3 <= k < 3 + shown ==> #[trigger] lines[k] == (Line::Entry {
        bytes: items[k - 3].size,
        path: items[k - 3].path,
    })
    &&& more == 1 ==> is_text(lines[3 + shown], "…and "@ + decimal_spec((items.len() - 6) as nat) + " more"@)
    &&& forall|k: int|
        3 + shown + more <= k < lines.len() ==> is_text(#[trigger] lines[k], "note: "@ + warnings[k - 3 - shown - more]@)
}

/// `d` asks (first stage) to confirm removing `items` in `mode`, carrying them and
/// `warnings` as its plan.
pub open spec fn is_confirm(d: Dialog, items: Seq<Item>, warnings: Seq<String>, mode: Mode, apps: bool) -> bool {
    d matches Dialog::Confirm { title, lines, plan, mode: m, apps: a, stage } && title@ == "Confirm"@
        && plan.items@ == items && plan.warnings@ == warnings && m == mode && a == apps && stage == 0
        && confirm_lines(lines@, items, warnings, mode)
}

/// `d` is an information dialog with this title and these text lines.
pub open spec fn is_info(d: Dialog, title: Seq<char>, texts: Seq<Seq<char>>) -> bool {
    d matches Dialog::Result { title: t, lines } && t@ == title && lines@.len() == texts.len() && forall|k: int|
        0 <= k < texts.len() ==> is_text(#[trigger] lines@[k], texts[k])
}

/// `new` is `old` switched to `screen`, whose scan starts if it never ran; `effects` are
/// what that asks for.
pub open spec fn switched(old: App, screen: Screen, new: App, effects: Seq<Effect>) -> bool {
    let moved = App { screen, ..old };
    new == moved.ensured(screen.scan_kind()) && effects == moved.ensure_effects(screen.scan_kind())
}

/// Cancelling closes any dialog but a busy one.
pub open spec fn cancelled(old: App, new: App) -> bool {
    if old.dialog matches Some(Dialog::Busy(_)) {
        new == old
    } else {
        new == App { dialog: None, ..old }
    }
}

/// The screen's main button. On the dashboard it opens the cleanup screen; on the apps
/// screen it asks for an uninstall plan of the selected app; on a list screen it asks to
/// confirm removing the ticked items, or says that nothing is ticked.
pub open spec fn primary_post(old: App, new: App, effects: Seq<Effect>) -> bool {
    if old.screen == Screen::Dashboard {
        switched(old, Screen::Cleanup, new, effects)
    } else if old.screen == Screen::Apps {
        match old.apps {
            Load::Ready(v) => if v.selected < v.apps@.len() {
                let app = v.apps@[v.selected as int];
                &&& effects == seq![Effect::PlanUninstall(app)]
                &&& new == App { dialog: new.dialog, ..old }
                &&& new.dialog matches Some(Dialog::Busy(m)) && m@ == "Checking "@ + app.name@ + "…"@
            } else {
                new == old && effects.len() == 0
            },
            _ => new == old && effects.len() == 0,
        }
    } else {
        &&& effects.len() == 0
        &&& match old.current_list() {
            None => new == old,
            Some(l) => {
                &&& new == App { dialog: new.dialog, ..old }
                &&& new.dialog matches Some(d) && if l.ticked_items().len() == 0 {
                    is_info(d, "Nothing selected"@, seq!["Tick items with space or a click first."@])
                } else {
                    is_confirm(d, l.ticked_items(), l.warnings@, mode_for(old.permanent), false)
                }
            },
        }
    }
}

/// Confirming a dialog: a permanent removal asks a second time, any other confirmation
/// starts the removal of the dialog's plan; without a confirmation dialog it cancels.
pub open spec fn confirm_post(old: App, new: App, effects: Seq<Effect>) -> bool {
    match old.dialog {
        Some(Dialog::Confirm { title, lines, plan, mode, apps, stage }) => if mode == Mode::Permanent && stage == 0 {
            &&& effects.len() == 0
            &&& new == App { dialog: new.dialog, ..old }
            &&& new.dialog matches Some(Dialog::Confirm { title: t2, lines: l2, plan: p2, mode: m2, apps: a2, stage: s2 })
            &&& t2@ == "Are you sure?"@ && p2 == plan && m2 == mode && a2 == apps && s2 == 1
            &&& l2@.len() == 2
            &&& is_text(l2@[0], "Delete "@ + decimal_spec(plan.items@.len()) + " item(s) permanently?"@)
            &&& is_text(l2@[1], "PERMANENT: this cannot be undone."@)
        } else {
            &&& effects == seq![Effect::Execute { plan, mode, apps }]
            &&& new == App { dialog: new.dialog, ..old }
            &&& new.dialog matches Some(Dialog::Busy(m)) && m@ == "Removing…"@
        },
        _ => cancelled(old, new) && effects.len() == 0,
    }
}

/// Sorting flips the apps list between size and name order, if it is loaded.
pub open spec fn sorted_post(old: App, new: App) -> bool {
    match old.apps {
        Load::Ready(v) => {
            &&& new == App { apps: new.apps, ..old }
            &&& new.apps matches Load::Ready(w)
            &&& w.by_size == !v.by_size
            &&& w.selected == 0 && w.offset == 0
            &&& w.apps@ == if w.by_size {
                stable_sort(v.apps@, |a: AppInfo, b: AppInfo| size_ge(a, b))
            } else {
                stable_sort(v.apps@, |a: AppInfo, b: AppInfo| name_le(a, b))
            }
        },
        _ => new == old,
    }
}

/// `new` and `effects` are what `action` makes of `old`.
pub open spec fn acted(old: App, action: Action, new: App, effects: Seq<Effect>) -> bool {
    match action {
        Action::Quit => new == App { quit: true, ..old } && effects.len() == 0,
        Action::Tab(s) => switched(old, s, new, effects),
        Action::NextTab => switched(old, Screen::nth((old.screen.position() + 1) % 6), new, effects),
        Action::PrevTab => switched(old, Screen::nth((old.screen.position() + 5) % 6), new, effects),
        Action::Move(d) => cursor_moved(old, new, ListOp::Move(d)) && effects.len() == 0,
        Action::Row(i) => cursor_moved(old, new, ListOp::Select(i)) && effects.len() == 0,
        Action::Toggle(i) => cursor_moved(old, new, ListOp::Toggle(i)) && effects.len() == 0,
        Action::ToggleCurrent => list_changed(old, new, ListOp::FlipCurrent) && effects.len() == 0,
        Action::SelectAll => list_changed(old, new, ListOp::ToggleAll) && effects.len() == 0,
        Action::Refresh => {
            let k = old.screen.scan_kind();
            if old.loading(k) {
                new == old && effects.len() == 0
            } else {
                new == old.with_loading(k) && effects == seq![Effect::Scan(k)]
            }
        },
        Action::Sort => sorted_post(old, new) && effects.len() == 0,
        Action::Primary => primary_post(old, new, effects),
        Action::TogglePermanent => new == App { permanent: !old.permanent, ..old } && effects.len() == 0,
        Action::Help => new == App { dialog: Some(Dialog::Help), ..old } && effects.len() == 0,
        Action::Cancel => cancelled(old, new) && effects.len() == 0,
        Action::Confirm => confirm_post(old, new, effects),
    }
}

/// The rows a page key moves by: the visible rows, at least one.
pub open spec fn page_of(view_rows: usize) -> isize {
    (if view_rows > 1 { view_rows } else { 1usize }) as isize
}

/// The action a key press asks for. Control-C always quits; with a dialog open only
/// confirm and cancel keys count.
pub open spec fn key_spec(app: App, k: Key) -> Option<Action> {
    if k.ctrl {
        if k.code == KeyCode::Char('c') {
            Some(Action::Quit)
        } else {
            None
        }
    } else if app.dialog is Some {
        match k.code {
            KeyCode::Enter | KeyCode::Char('y') => Some(Action::Confirm),
            KeyCode::Esc | KeyCode::Char('n') | KeyCode::Char('q') => Some(Action::Cancel),
            _ => None,
        }
    } else {
        let page = page_of(app.view_rows);
        match k.code {
            KeyCode::Char('q') | KeyCode::Esc => Some(Action::Quit),
            KeyCode::Tab => Some(Action::NextTab),
            KeyCode::BackTab => Some(Action::PrevTab),
            KeyCode::Char('1') => Some(Action::Tab(Screen::Dashboard)),
            KeyCode::Char('2') => Some(Action::Tab(Screen::Apps)),
            KeyCode::Char('3') => Some(Action::Tab(Screen::Cleanup)),
            KeyCode::Char('4') => Some(Action::Tab(Screen::Leftovers)),
            KeyCode::Char('5') => Some(Action::Tab(Screen::Large)),
            KeyCode::Char('6') => Some(Action::Tab(Screen::Dupes)),
            KeyCode::Up | KeyCode::Char('k') => Some(Action::Move(-1isize)),
            KeyCode::Down | KeyCode::Char('j') => Some(Action::Move(1)),
            KeyCode::PageUp => Some(Action::Move((-page) as isize)),
            KeyCode::PageDown => Some(Action::Move(page)),
            KeyCode::Home => Some(Action::Move((isize::MIN / 2) as isize)),
            KeyCode::End => Some(Action::Move((isize::MAX / 2) as isize)),
            KeyCode::Char(' ') => Some(Action::ToggleCurrent),
            KeyCode::Char('a') => Some(Action::SelectAll),
            KeyCode::Char('r') => Some(Action::Refresh),
            KeyCode::Char('s') => Some(Action::Sort),
            KeyCode::Char('d') => Some(Action::TogglePermanent),
            KeyCode::Char('?') => Some(Action::Help),
            KeyCode::Enter => Some(Action::Primary),
            _ => None,
        }
    }
}

/// The items a cleanup scan offers: those of every category but the Trash, in scan order.
pub open spec fn reclaim_items(rows: Seq<(Category, &'static str, Plan)>) -> Seq<Item>
    decreases rows.len(),
{
    if rows.len() == 0 {
        Seq::empty()
    } else {
        let prev = reclaim_items(rows.drop_last());
        if rows.last().0 == Category::Trash {
            prev
        } else {
            prev + rows.last().2.items@
        }
    }
}

/// The warnings of every category of a cleanup scan, in scan order.
pub open spec fn reclaim_warnings(rows: Seq<(Category, &'static str, Plan)>) -> Seq<String>
    decreases rows.len(),
{
    if rows.len() == 0 {
        Seq::empty()
    } else {
        reclaim_warnings(rows.drop_last()) + rows.last().2.warnings@
    }
}

/// The dashboard's lines: one per category, with its total size and item count.
pub open spec fn summary_rows(out: Seq<CatRow>, rows: Seq<(Category, &'static str, Plan)>) -> bool {
    &&& out.len() == rows.len()
    &&& forall|i: int|
        0 <= i < rows.len() ==> (#[trigger] out[i]).id == rows[i].0 && out[i].size == sum_sizes(rows[i].2.items@)
            && out[i].count == rows[i].2.items@.len()
}

/// `l` is a fresh checklist of `plan`, every box set to `checked`.
pub open spec fn fresh_list(l: Checklist, items: Seq<Item>, warnings: Seq<String>, checked: bool) -> bool {
    &&& l.items@ == items
    &&& l.warnings@ == warnings
    &&& l.checked@ == Seq::new(items.len(), |i: int| checked)
    &&& l.selected == 0 && l.offset == 0
}

/// A scan's result replaces what its screen shows.
pub open spec fn scanned_post(old: App, result: ScanResult, new: App) -> bool {
    match result {
        ScanResult::Cleanup(rows) => {
            &&& new == App { cleanup: new.cleanup, ..old }
            &&& new.cleanup matches Load::Ready(r)
            &&& summary_rows(r.rows@, rows@)
            &&& fresh_list(
                r.list,
                stable_sort(reclaim_items(rows@), |a: Item, b: Item| larger_first(a, b)),
                reclaim_warnings(rows@),
                true,
            )
        },
        ScanResult::Apps(apps) => {
            &&& new == App { apps: new.apps, ..old }
            &&& new.apps matches Load::Ready(v)
            &&& v.apps@ == stable_sort(apps@, |a: AppInfo, b: AppInfo| name_le(a, b))
            &&& !v.by_size && v.selected == 0 && v.offset == 0
        },
        ScanResult::List(kind, plan) => match kind {
            ScanKind::Leftovers => new == App { leftovers: new.leftovers, ..old } && (new.leftovers matches Load::Ready(l)
                && fresh_list(l, plan.items@, plan.warnings@, false)),
            ScanKind::Large => new == App { large: new.large, ..old } && (new.large matches Load::Ready(l)
                && fresh_list(l, plan.items@, plan.warnings@, false)),
            ScanKind::Dupes => new == App { dupes: new.dupes, ..old } && (new.dupes matches Load::Ready(l)
                && fresh_list(l, plan.items@, plan.warnings@, false)),
            _ => new == old,
        },
    }
}

/// The lines of the dialog that reports a finished removal: what was done, and up to
/// five of the skipped paths with the reason.
pub open spec fn done_lines(lines: Seq<Line>, report: Report, mode: Mode) -> bool {
    let skipped = report.skipped@;
    let shown = if skipped.len() < 5 { skipped.len() as int } else { 5int };
    &&& lines.len() == if skipped.len() > 0 { 2 + shown } else { 1 }
    &&& lines[0] matches Line::Outcome { verb, count, bytes } && verb@ == (if mode == Mode::Permanent {
        "Deleted"@
    } else {
        "Moved to Trash"@
    }) && count == report.removed@.len() && bytes == sum_removed(report.removed@)
    &&& skipped.len() > 0 ==> is_text(lines[1], decimal_spec(skipped.len()) + " skipped:"@)
    &&& forall|k: int|
        2 <= k < lines.len() ==> is_text(#[trigger] lines[k], "  "@ + skipped[k - 2].0@ + ": "@ + skipped[k - 2].1@)
}

/// `new` and `effects` are what `msg` makes of `old`.
pub open spec fn updated(old: App, msg: Msg, new: App, effects: Seq<Effect>) -> bool {
    match msg {
        Msg::Tick => new == App { tick: old.tick.wrapping_add(1), ..old } && effects.len() == 0,
        Msg::Key(k) => match key_spec(old, k) {
            Some(a) => acted(old, a, new, effects),
            None => new == old && effects.len() == 0,
        },
        Msg::Mouse(m) => match m {
            Mouse::LeftDown { column, row } => match topmost(old.hits.targets@, column, row) {
                Some(a) => acted(old, a, new, effects),
                None => new == old && effects.len() == 0,
            },
            Mouse::ScrollUp => if old.dialog is None {
                acted(old, Action::Move(-3isize), new, effects)
            } else {
                new == old && effects.len() == 0
            },
            Mouse::ScrollDown => if old.dialog is None {
                acted(old, Action::Move(3), new, effects)
            } else {
                new == old && effects.len() == 0
            },
            Mouse::Other => new == old && effects.len() == 0,
        },
        Msg::Disk(d) => new == App { disk: d, ..old } && effects.len() == 0,
        Msg::Scanned(r) => scanned_post(old, r, new) && effects.len() == 0,
        Msg::Planned(res) => {
            &&& effects.len() == 0
            &&& new == App { dialog: new.dialog, ..old }
            &&& new.dialog matches Some(d)
            &&& match res {
                Ok(plan) => is_confirm(d, plan.items@, plan.warnings@, mode_for(old.permanent), true),
                Err(e) => is_info(d, "Cannot uninstall"@, seq![e@]),
            }
        },
        Msg::Progress { .. } => new == old && effects.len() == 0,
        Msg::Executed(report, mode) => {
            let k = old.screen.scan_kind();
            let cleared = App {
                dialog: new.dialog,
                cleanup: Load::Idle,
                apps: Load::Idle,
                leftovers: Load::Idle,
                large: Load::Idle,
                dupes: Load::Idle,
                ..old
            };
            &&& new == cleared.with_loading(k)
            &&& effects == seq![Effect::Scan(k)]
            &&& new.dialog matches Some(Dialog::Result { title, lines }) && title@ == "Done"@ && done_lines(
                lines@,
                report,
                mode,
            )
        },
    }
}

/// A text line with these characters.
pub open spec fn is_text(l: Line, t: Seq<char>) -> bool {
    l matches Line::Text(s) && s@ == t
}

impl App {
    /// The checklist shown on the current screen, if it is loaded.
    pub open spec fn current_list(&self) -> Option<Checklist> {
        match self.screen {
            Screen::Cleanup => match self.cleanup {
                Load::Ready(r) => Some(r.list),
                _ => None,
            },
            Screen::Leftovers => match self.leftovers {
                Load::Ready(l) => Some(l),
                _ => None,
            },
            Screen::Large => match self.large {
                Load::Ready(l) => Some(l),
                _ => None,
            },
            Screen::Dupes => match self.dupes {
                Load::Ready(l) => Some(l),
                _ => None,
            },
            _ => None,
        }
    }

    /// The ticked items of the current list sum to a size that fits `u64`.
    pub open spec fn primary_fits(&self) -> bool {
        self.current_list() matches Some(l) ==> sum_sizes(l.ticked_items()) <= u64::MAX
    }

    /// A page-up key can be negated: the visible rows are not `isize::MIN` as `isize`.
    pub open spec fn key_ok(&self, k: Key) -> bool {
        (!k.ctrl && self.dialog is None && k.code == KeyCode::PageUp) ==> page_of(self.view_rows) != isize::MIN
    }

    /// What `update` needs of a message: that sums it shows fit `u64`, that lists it loads
    /// fit `isize`, and that an action it leads to can run.
    pub open spec fn takes(&self, msg: Msg) -> bool {
        match msg {
            Msg::Key(k) => self.key_ok(k) && (key_spec(*self, k) == Some(Action::Primary) ==> self.primary_fits()),
            Msg::Mouse(Mouse::LeftDown { column, row }) => topmost(self.hits.targets@, column, row) == Some(
                Action::Primary,
            ) ==> self.primary_fits(),
            Msg::Scanned(ScanResult::Cleanup(rows)) => {
                &&& forall|i: int| 0 <= i < rows@.len() ==> sum_sizes(#[trigger] rows@[i].2.items@) <= u64::MAX
                &&& reclaim_items(rows@).len() <= isize::MAX
            },
            Msg::Scanned(ScanResult::Apps(apps)) => apps@.len() <= isize::MAX,
            Msg::Scanned(ScanResult::List(_, plan)) => plan.items@.len() <= isize::MAX,
            Msg::Planned(Ok(plan)) => sum_sizes(plan.items@) <= u64::MAX,
            Msg::Executed(report, _) => sum_removed(report.removed@) <= u64::MAX,
            _ => true,
        }
    }

    /// Every loaded list has at most `isize::MAX` rows.
    pub open spec fn rows_fit(&self) -> bool {
        &&& (self.cleanup matches Load::Ready(r) ==> r.list.items@.len() <= isize::MAX)
        &&& (self.apps matches Load::Ready(v) ==> v.apps@.len() <= isize::MAX)
        &&& (self.leftovers matches Load::Ready(l) ==> l.items@.len() <= isize::MAX)
        &&& (self.large matches Load::Ready(l) ==> l.items@.len() <= isize::MAX)
        &&& (self.dupes matches Load::Ready(l) ==> l.items@.len() <= isize::MAX)
    }

    pub open spec fn idle(&self, kind: ScanKind) -> bool {
        match kind {
            ScanKind::Cleanup => self.cleanup is Idle,
            ScanKind::Apps => self.apps is Idle,
            ScanKind::Leftovers => self.leftovers is Idle,
            ScanKind::Large => self.large is Idle,
            ScanKind::Dupes => self.dupes is Idle,
        }
    }

    pub open spec fn loading(&self, kind: ScanKind) -> bool {
        match kind {
            ScanKind::Cleanup => self.cleanup is Loading,
            ScanKind::Apps => self.apps is Loading,
            ScanKind::Leftovers => self.leftovers is Loading,
            ScanKind::Large => self.large is Loading,
            ScanKind::Dupes => self.dupes is Loading,
        }
    }

    /// This state with `kind` marked as loading.
    pub open spec fn with_loading(self, kind: ScanKind) -> App {
        match kind {
            ScanKind::Cleanup => App { cleanup: Load::Loading, ..self },
            ScanKind::Apps => App { apps: Load::Loading, ..self },
            ScanKind::Leftovers => App { leftovers: Load::Loading, ..self },
            ScanKind::Large => App { large: Load::Loading, ..self },
            ScanKind::Dupes => App { dupes: Load::Loading, ..self },
        }
    }

    /// The first visit of a screen starts its scan: the state after `ensure`.
    pub open spec fn ensured(self, kind: ScanKind) -> App {
        if self.idle(kind) {
            self.with_loading(kind)
        } else {
            self
        }
    }

    /// The effects of `ensure`.
    pub open spec fn ensure_effects(self, kind: ScanKind) -> Seq<Effect> {
        if self.idle(kind) {
            seq![Effect::Scan(kind)]
        } else {
            Seq::empty()
        }
    }

    pub fn new(theme: Theme) -> (r: Self)
        ensures
            r.screen == Screen::Dashboard,
            r.theme == theme,
            !r.quit,
            r.cleanup is Idle && r.apps is Idle && r.leftovers is Idle && r.large is Idle && r.dupes is Idle,
            r.dialog is None,
            !r.permanent,
            r.disk is None,
            r.hits.targets@.len() == 0,
            r.view_rows == 10,
            r.tick == 0,
    {
        App {
            screen: Screen::Dashboard,
            theme,
            quit: false,
            cleanup: Load::Idle,
            apps: Load::Idle,
            leftovers: Load::Idle,
            large: Load::Idle,
            dupes: Load::Idle,
            dialog: None,
            permanent: false,
            disk: None,
            hits: HitMap::default(),
            view_rows: 10,
            tick: 0,
        }
    }

    /// Starts the scan of the first screen.
    pub fn start(&mut self) -> (r: Vec<Effect>)
        ensures
            *final(self) == old(self).ensured(old(self).screen.scan_kind()),
            r@ == old(self).ensure_effects(old(self).screen.scan_kind()),
    {
        let k = self.screen.kind();
        self.ensure(k)
    }

    /// The checklist shown on the current screen, if it is loaded.
    pub fn checklist(&self) -> (r: Option<&Checklist>)
        ensures
            match r {
                Some(c) => self.current_list() == Some(*c),
                None => self.current_list() is None,
            },
    {
        match self.screen {
            Screen::Cleanup => match &self.cleanup {
                Load::Ready(r) => Some(&r.list),
                _ => None,
            },
            Screen::Leftovers => ready(&self.leftovers),
            Screen::Large => ready(&self.large),
            Screen::Dupes => ready(&self.dupes),
            _ => None,
        }
    }

    fn is_idle(&self, kind: ScanKind) -> (r: bool)
        ensures
            r == self.idle(kind),
    {
        match kind {
            ScanKind::Cleanup => matches!(self.cleanup, Load::Idle),
            ScanKind::Apps => matches!(self.apps, Load::Idle),
            ScanKind::Leftovers => matches!(self.leftovers, Load::Idle),
            ScanKind::Large => matches!(self.large, Load::Idle),
            ScanKind::Dupes => matches!(self.dupes, Load::Idle),
        }
    }

    fn is_loading(&self, kind: ScanKind) -> (r: bool)
        ensures
            r == self.loading(kind),
    {
        match kind {
            ScanKind::Cleanup => matches!(self.cleanup, Load::Loading),
            ScanKind::Apps => matches!(self.apps, Load::Loading),
            ScanKind::Leftovers => matches!(self.leftovers, Load::Loading),
            ScanKind::Large => matches!(self.large, Load::Loading),
            ScanKind::Dupes => matches!(self.dupes, Load::Loading),
        }
    }

    fn set_loading(&mut self, kind: ScanKind)
        ensures
            *final(self) == old(self).with_loading(kind),
    {
        match kind {
            ScanKind::Cleanup => self.cleanup = Load::Loading,
            ScanKind::Apps => self.apps = Load::Loading,
            ScanKind::Leftovers => self.leftovers = Load::Loading,
            ScanKind::Large => self.large = Load::Loading,
            ScanKind::Dupes => self.dupes = Load::Loading,
        }
    }

    /// Starts a scan the first time a screen is shown.
    fn ensure(&mut self, kind: ScanKind) -> (r: Vec<Effect>)
        ensures
            *final(self) == old(self).ensured(kind),
            r@ == old(self).ensure_effects(kind),
    {
        if self.is_idle(kind) {
            self.set_loading(kind);
            let r = vec![Effect::Scan(kind)];
            assert(r@ =~= seq![Effect::Scan(kind)]);
            r
        } else {
            let r = Vec::new();
            assert(r@ =~= Seq::<Effect>::empty());
            r
        }
    }

    fn switch(&mut self, screen: Screen) -> (r: Vec<Effect>)
        ensures
            *final(self) == (App { screen, ..*old(self) }).ensured(screen.scan_kind()),
            r@ == (App { screen, ..*old(self) }).ensure_effects(screen.scan_kind()),
    {
        self.screen = screen;
        let k = screen.kind();
        self.ensure(k)
    }

    fn refresh(&mut self) -> (r: Vec<Effect>)
        ensures
            ({
                let k = old(self).screen.scan_kind();
                if old(self).loading(k) {
                    *final(self) == *old(self) && r@.len() == 0
                } else {
                    *final(self) == old(self).with_loading(k) && r@ == seq![Effect::Scan(k)]
                }
            }),
    {
        let kind = self.screen.kind();
        if self.is_loading(kind) {
            let r = Vec::new();
            assert(r@.len() == 0);
            return r;
        }
        self.set_loading(kind);
        let r = vec![Effect::Scan(kind)];
        assert(r@ =~= seq![Effect::Scan(kind)]);
        r
    }

    /// Applies `op` to the current screen's checklist, if it is loaded.
    fn change_list(&mut self, op: ListOp)
        requires
            old(self).rows_fit(),
        ensures
            list_changed(*old(self), *final(self), op),
    {
        match self.screen {
            Screen::Cleanup => {
                let mut tmp = Load::Idle;
                std::mem::swap(&mut tmp, &mut self.cleanup);
                match tmp {
                    Load::Ready(mut r) => {
                        apply_list_op(&mut r.list, op);
                        self.cleanup = Load::Ready(r);
                    },
                    other => {
                        self.cleanup = other;
                    },
                }
            },
            Screen::Leftovers => {
                let mut tmp = Load::Idle;
                std::mem::swap(&mut tmp, &mut self.leftovers);
                match tmp {
                    Load::Ready(mut l) => {
                        apply_list_op(&mut l, op);
                        self.leftovers = Load::Ready(l);
                    },
                    other => {
                        self.leftovers = other;
                    },
                }
            },
            Screen::Large => {
                let mut tmp = Load::Idle;
                std::mem::swap(&mut tmp, &mut self.large);
                match tmp {
                    Load::Ready(mut l) => {
                        apply_list_op(&mut l, op);
                        self.large = Load::Ready(l);
                    },
                    other => {
                        self.large = other;
                    },
                }
            },
            Screen::Dupes => {
                let mut tmp = Load::Idle;
                std::mem::swap(&mut tmp, &mut self.dupes);
                match tmp {
                    Load::Ready(mut l) => {
                        apply_list_op(&mut l, op);
                        self.dupes = Load::Ready(l);
                    },
                    other => {
                        self.dupes = other;
                    },
                }
            },
            _ => {},
        }
    }

    /// Moves the cursor (apps list or checklist) by a move or selection.
    fn move_cursor(&mut self, op: ListOp)
        requires
            old(self).rows_fit(),
            op is Move || op is Select || op is Toggle,
        ensures
            cursor_moved(*old(self), *final(self), op),
    {
        if self.screen == Screen::Apps {
            if let Load::Ready(v) = &mut self.apps {
                let n = v.apps.len();
                v.selected = match op {
                    ListOp::Move(d) => clamp_move(v.selected, d, n),
                    ListOp::Select(i) | ListOp::Toggle(i) => {
                        let m = n.saturating_sub(1);
                        if i < m { i } else { m }
                    },
                    _ => v.selected,
                };
            }
        } else {
            self.change_list(op);
        }
    }
    fn mode(&self) -> (r: Mode)
        ensures
            r == mode_for(self.permanent),
    {
        if self.permanent {
            Mode::Permanent
        } else {
            Mode::Trash
        }
    }

    fn confirm_dialog(&self, plan: Plan, apps: bool) -> (d: Dialog)
        requires
            sum_sizes(plan.items@) <= u64::MAX,
        ensures
            is_confirm(d, plan.items@, plan.warnings@, mode_for(self.permanent), apps),
    {
        let mode = self.mode();
        let n = plan.items.len();
        let mut lines: Vec<Line> = Vec::new();
        lines.push(Line::Summary { count: n, bytes: plan.total_size() });
        let warning = if mode == Mode::Permanent {
            owned("PERMANENT: items are deleted and cannot be recovered.")
        } else {
            owned("Items are moved to the Trash.")
        };
        lines.push(Line::Text(warning));
        lines.push(Line::Text(String::new()));
        let shown: usize = if n < 6 { n } else { 6 };
        let mut j: usize = 0;
        while j < shown
            invariant
                shown <= n == plan.items@.len(),
                shown == (if n < 6 { n } else { 6 }),
                j <= shown,
                lines@.len() == 3 + j,
                lines@[0] matches Line::Summary { count, bytes } && count == n && bytes == sum_sizes(plan.items@),
                is_text(lines@[1], mode_warning(mode)),
                is_text(lines@[2], Seq::empty()),
                mode == mode_for(self.permanent),
                forall|k: int| 3 <= k < 3 + j ==> #[trigger] lines@[k] == (Line::Entry {
                    bytes: plan.items@[k - 3].size,
                    path: plan.items@[k - 3].path,
                }),
            decreases shown - j,
        {
            let it = &plan.items[j];
            lines.push(Line::Entry { bytes: it.size, path: it.path.clone() });
            j = j + 1;
        }
        let more: usize = if n > 6 { 1 } else { 0 };
        if n > 6 {
            let count = decimal((n - 6) as u64);
            let mut t = concat("…and ", count.as_str());
            t.append(" more");
            lines.push(Line::Text(t));
        }
        let w = plan.warnings.len();
        let notes: usize = if w < 3 { w } else { 3 };
        let base: usize = 3 + shown + more;
        let mut k: usize = 0;
        while k < notes
            invariant
                shown <= n == plan.items@.len(),
                shown == (if n < 6 { n } else { 6 }),
                more == (if n > 6 { 1usize } else { 0usize }),
                base == 3 + shown + more,
                notes <= w == plan.warnings@.len(),
                notes == (if w < 3 { w } else { 3 }),
                k <= notes,
                lines@.len() == base + k,
                lines@[0] matches Line::Summary { count, bytes } && count == n && bytes == sum_sizes(plan.items@),
                is_text(lines@[1], mode_warning(mode)),
                is_text(lines@[2], Seq::empty()),
                mode == mode_for(self.permanent),
                forall|q: int| 3 <= q < 3 + shown ==> #[trigger] lines@[q] == (Line::Entry {
                    bytes: plan.items@[q - 3].size,
                    path: plan.items@[q - 3].path,
                }),
                more == 1 ==> is_text(lines@[3 + shown as int], "…and "@ + decimal_spec((n - 6) as nat) + " more"@),
                forall|q: int| base <= q < base + k ==> is_text(#[trigger] lines@[q], "note: "@ + plan.warnings@[q - base]@),
            decreases notes - k,
        {
            let note = concat("note: ", plan.warnings[k].as_str());
            lines.push(Line::Text(note));
            k = k + 1;
        }
        Dialog::Confirm { title: owned("Confirm"), lines, plan, mode, apps, stage: 0 }
    }

    fn info(title: &str, text: &str) -> (d: Dialog)
        ensures
            is_info(d, title@, seq![text@]),
    {
        let mut lines: Vec<Line> = Vec::new();
        lines.push(Line::Text(owned(text)));
        Dialog::Result { title: owned(title), lines }
    }
    fn primary(&mut self) -> (r: Vec<Effect>)
        requires
            old(self).primary_fits(),
        ensures
            primary_post(*old(self), *final(self), r@),
    {
        if self.screen == Screen::Dashboard {
            return self.switch(Screen::Cleanup);
        }
        if self.screen == Screen::Apps {
            let app = match &self.apps {
                Load::Ready(v) => if v.selected < v.apps.len() {
                    Some(v.apps[v.selected].clone())
                } else {
                    None
                },
                _ => None,
            };
            return match app {
                Some(app) => {
                    let mut m = concat("Checking ", app.name.as_str());
                    m.append("…");
                    self.dialog = Some(Dialog::Busy(m));
                    let r = vec![Effect::PlanUninstall(app)];
                    assert(r@ =~= seq![Effect::PlanUninstall(app)]);
                    r
                },
                None => Vec::new(),
            };
        }
        let plan = match self.checklist() {
            Some(list) => list.plan(),
            None => {
                return Vec::new();
            },
        };
        let d = if plan.items.len() == 0 {
            Self::info("Nothing selected", "Tick items with space or a click first.")
        } else {
            self.confirm_dialog(plan, false)
        };
        self.dialog = Some(d);
        Vec::new()
    }

    fn cancel(&mut self)
        ensures
            cancelled(*old(self), *final(self)),
    {
        if !matches!(self.dialog, Some(Dialog::Busy(_))) {
            self.dialog = None;
        }
    }

    fn confirm(&mut self) -> (r: Vec<Effect>)
        ensures
            confirm_post(*old(self), *final(self), r@),
    {
        if !matches!(self.dialog, Some(Dialog::Confirm { .. })) {
            self.cancel();
            return Vec::new();
        }
        match self.dialog.take() {
            Some(Dialog::Confirm { plan, mode, apps, stage, .. }) => {
                if mode == Mode::Permanent && stage == 0 {
                    let mut first = concat("Delete ", decimal(plan.items.len() as u64).as_str());
                    first.append(" item(s) permanently?");
                    let mut lines: Vec<Line> = Vec::new();
                    lines.push(Line::Text(first));
                    lines.push(Line::Text(owned("PERMANENT: this cannot be undone.")));
                    self.dialog = Some(Dialog::Confirm { title: owned("Are you sure?"), lines, plan, mode, apps, stage: 1 });
                    Vec::new()
                } else {
                    self.dialog = Some(Dialog::Busy(owned("Removing…")));
                    let r = vec![Effect::Execute { plan, mode, apps }];
                    assert(r@ =~= seq![Effect::Execute { plan, mode, apps }]);
                    r
                }
            },
            _ => Vec::new(),
        }
    }

    /// Carries out `action`, returning the work it asks of the runner.
    pub fn act(&mut self, action: Action) -> (r: Vec<Effect>)
        requires
            old(self).rows_fit(),
            action == Action::Primary ==> old(self).primary_fits(),
        ensures
            acted(*old(self), action, *final(self), r@),
            final(self).rows_fit(),
    {
        match action {
            Action::Quit => {
                self.quit = true;
            },
            Action::Tab(s) => {
                return self.switch(s);
            },
            Action::NextTab => {
                let next = Screen::at((self.screen.index() + 1) % SCREENS);
                return self.switch(next);
            },
            Action::PrevTab => {
                let prev = Screen::at((self.screen.index() + SCREENS - 1) % SCREENS);
                return self.switch(prev);
            },
            Action::Move(d) => self.move_cursor(ListOp::Move(d)),
            Action::Row(i) => self.move_cursor(ListOp::Select(i)),
            Action::Toggle(i) => self.move_cursor(ListOp::Toggle(i)),
            Action::ToggleCurrent => self.change_list(ListOp::FlipCurrent),
            Action::SelectAll => self.change_list(ListOp::ToggleAll),
            Action::Refresh => {
                return self.refresh();
            },
            Action::Sort => {
                if let Load::Ready(v) = &mut self.apps {
                    proof {
                        stable_sort_permutes(v.apps@, |a: AppInfo, b: AppInfo| size_ge(a, b));
                        stable_sort_permutes(v.apps@, |a: AppInfo, b: AppInfo| name_le(a, b));
                    }
                    v.by_size = !v.by_size;
                    v.sort();
                }
            },
            Action::Primary => {
                return self.primary();
            },
            Action::TogglePermanent => {
                self.permanent = !self.permanent;
            },
            Action::Help => {
                self.dialog = Some(Dialog::Help);
            },
            Action::Cancel => self.cancel(),
            Action::Confirm => {
                return self.confirm();
            },
        }
        Vec::new()
    }
    /// The action a key press asks for, if any.
    pub fn key_action(&self, key: Key) -> (r: Option<Action>)
        requires
            self.key_ok(key),
        ensures
            r == key_spec(*self, key),
    {
        if key.ctrl {
            return if key.code == KeyCode::Char('c') {
                Some(Action::Quit)
            } else {
                None
            };
        }
        if self.dialog.is_some() {
            return match key.code {
                KeyCode::Enter | KeyCode::Char('y') => Some(Action::Confirm),
                KeyCode::Esc | KeyCode::Char('n') | KeyCode::Char('q') => Some(Action::Cancel),
                _ => None,
            };
        }
        let rows: usize = if self.view_rows > 1 { self.view_rows } else { 1 };
        let page: isize = rows as isize;
        match key.code {
            KeyCode::Char('q') | KeyCode::Esc => Some(Action::Quit),
            KeyCode::Tab => Some(Action::NextTab),
            KeyCode::BackTab => Some(Action::PrevTab),
            KeyCode::Char('1') => Some(Action::Tab(Screen::Dashboard)),
            KeyCode::Char('2') => Some(Action::Tab(Screen::Apps)),
            KeyCode::Char('3') => Some(Action::Tab(Screen::Cleanup)),
            KeyCode::Char('4') => Some(Action::Tab(Screen::Leftovers)),
            KeyCode::Char('5') => Some(Action::Tab(Screen::Large)),
            KeyCode::Char('6') => Some(Action::Tab(Screen::Dupes)),
            KeyCode::Up | KeyCode::Char('k') => Some(Action::Move(-1)),
            KeyCode::Down | KeyCode::Char('j') => Some(Action::Move(1)),
            KeyCode::PageUp => Some(Action::Move(-page)),
            KeyCode::PageDown => Some(Action::Move(page)),
            KeyCode::Home => Some(Action::Move(isize::MIN / 2)),
            KeyCode::End => Some(Action::Move(isize::MAX / 2)),
            KeyCode::Char(' ') => Some(Action::ToggleCurrent),
            KeyCode::Char('a') => Some(Action::SelectAll),
            KeyCode::Char('r') => Some(Action::Refresh),
            KeyCode::Char('s') => Some(Action::Sort),
            KeyCode::Char('d') => Some(Action::TogglePermanent),
            KeyCode::Char('?') => Some(Action::Help),
            KeyCode::Enter => Some(Action::Primary),
            _ => None,
        }
    }

    /// Handles one message from the terminal or a worker, returning the work it asks for.
    pub fn update(&mut self, msg: Msg) -> (r: Vec<Effect>)
        requires
            old(self).rows_fit(),
            old(self).takes(msg),
        ensures
            updated(*old(self), msg, *final(self), r@),
            final(self).rows_fit(),
    {
        match msg {
            Msg::Tick => {
                self.tick = self.tick.wrapping_add(1);
                Vec::new()
            },
            Msg::Key(k) => match self.key_action(k) {
                Some(a) => self.act(a),
                None => Vec::new(),
            },
            Msg::Mouse(m) => match m {
                Mouse::LeftDown { column, row } => match self.hits.at(column, row) {
                    Some(a) => self.act(a),
                    None => Vec::new(),
                },
                Mouse::ScrollUp => if self.dialog.is_none() {
                    self.act(Action::Move(-3))
                } else {
                    Vec::new()
                },
                Mouse::ScrollDown => if self.dialog.is_none() {
                    self.act(Action::Move(3))
                } else {
                    Vec::new()
                },
                Mouse::Other => Vec::new(),
            },
            Msg::Disk(d) => {
                self.disk = d;
                Vec::new()
            },
            Msg::Scanned(r) => {
                self.scanned(r);
                Vec::new()
            },
            Msg::Planned(res) => {
                let d = match res {
                    Ok(plan) => self.confirm_dialog(plan, true),
                    Err(e) => Self::info("Cannot uninstall", e.as_str()),
                };
                self.dialog = Some(d);
                Vec::new()
            },
            Msg::Progress { .. } => Vec::new(),
            Msg::Executed(report, mode) => {
                let d = Self::done_dialog(&report, mode);
                self.dialog = Some(d);
                self.cleanup = Load::Idle;
                self.apps = Load::Idle;
                self.leftovers = Load::Idle;
                self.large = Load::Idle;
                self.dupes = Load::Idle;
                let k = self.screen.kind();
                self.ensure(k)
            },
        }
    }

    fn done_dialog(report: &Report, mode: Mode) -> (d: Dialog)
        requires
            sum_removed(report.removed@) <= u64::MAX,
        ensures
            d matches Dialog::Result { title, lines } && title@ == "Done"@ && done_lines(lines@, *report, mode),
    {
        let verb = if mode == Mode::Permanent {
            owned("Deleted")
        } else {
            owned("Moved to Trash")
        };
        let mut lines: Vec<Line> = Vec::new();
        lines.push(Line::Outcome { verb, count: report.removed.len(), bytes: report.freed() });
        let n = report.skipped.len();
        if n > 0 {
            let mut head = decimal(n as u64);
            head.append(" skipped:");
            lines.push(Line::Text(head));
            let shown: usize = if n < 5 { n } else { 5 };
            let mut j: usize = 0;
            while j < shown
                invariant
                    n == report.skipped@.len(),
                    0 < n,
                    shown == (if n < 5 { n } else { 5 }),
                    j <= shown,
                    lines@.len() == 2 + j,
                    lines@[0] matches Line::Outcome { verb, count, bytes } && verb@ == (if mode == Mode::Permanent {
                        "Deleted"@
                    } else {
                        "Moved to Trash"@
                    }) && count == report.removed@.len() && bytes == sum_removed(report.removed@),
                    is_text(lines@[1], decimal_spec(n as nat) + " skipped:"@),
                    forall|k: int| 2 <= k < 2 + j ==> is_text(#[trigger] lines@[k], "  "@ + report.skipped@[k - 2].0@ + ": "@
                        + report.skipped@[k - 2].1@),
                decreases shown - j,
            {
                let (p, why) = &report.skipped[j];
                let mut t = concat("  ", p.as_str());
                t.append(": ");
                t.append(why.as_str());
                lines.push(Line::Text(t));
                j = j + 1;
            }
        }
        Dialog::Result { title: owned("Done"), lines }
    }

    fn scanned(&mut self, result: ScanResult)
        requires
            old(self).rows_fit(),
            old(self).takes(Msg::Scanned(result)),
        ensures
            scanned_post(*old(self), result, *final(self)),
            final(self).rows_fit(),
    {
        match result {
            ScanResult::Cleanup(rows) => {
                proof {
                    stable_sort_permutes(reclaim_items(rows@), |a: Item, b: Item| larger_first(a, b));
                    assert(old(self).takes(Msg::Scanned(ScanResult::Cleanup(rows))));
                }
                let r = reclaim(rows);
                self.cleanup = Load::Ready(r);
            },
            ScanResult::Apps(apps) => {
                let mut v = AppsView { apps, selected: 0, offset: 0, by_size: false };
                v.sort();
                proof {
                    stable_sort_permutes(apps@, |a: AppInfo, b: AppInfo| name_le(a, b));
                }
                self.apps = Load::Ready(v);
            },
            ScanResult::List(kind, plan) => {
                let list = Checklist::new(plan.items, plan.warnings, false);
                match kind {
                    ScanKind::Leftovers => self.leftovers = Load::Ready(list),
                    ScanKind::Large => self.large = Load::Ready(list),
                    ScanKind::Dupes => self.dupes = Load::Ready(list),
                    ScanKind::Cleanup | ScanKind::Apps => {},
                }
            },
        }
    }
}

/// The cleanup screen's data from a scan of every category: a summary line per category,
/// and the items of all but the Trash, largest first, all ticked.
fn reclaim(rows: Vec<(Category, &'static str, Plan)>) -> (r: Reclaim)
    requires
        forall|i: int| 0 <= i < rows@.len() ==> sum_sizes(#[trigger] rows@[i].2.items@) <= u64::MAX,
    ensures
        summary_rows(r.rows@, rows@),
        fresh_list(r.list, stable_sort(reclaim_items(rows@), |a: Item, b: Item| larger_first(a, b)), reclaim_warnings(rows@), true),
{
    let ghost all = rows@;
    let n = rows.len();
    let mut rest = rows;
    let mut pending: Vec<(Category, &'static str, Plan)> = Vec::new();
    while rest.len() > 0
        invariant
            pending@.len() + rest@.len() == n,
            n == all.len(),
            forall|k: int| 0 <= k < pending@.len() ==> pending@[k] == all[n - 1 - k],
            rest@ == all.take(rest@.len() as int),
        decreases rest@.len(),
    {
        let x = rest.pop().unwrap();
        pending.push(x);
        proof {
            assert(rest@ =~= all.take(rest@.len() as int));
        }
    }
    let mut items: Vec<Item> = Vec::new();
    let mut warnings: Vec<String> = Vec::new();
    let mut summary: Vec<CatRow> = Vec::new();
    let mut done: usize = 0;
    proof {
        assert(all.take(0) =~= Seq::<(Category, &'static str, Plan)>::empty());
    }
    while pending.len() > 0
        invariant
            pending@.len() + done == n,
            n == all.len(),
            forall|k: int| 0 <= k < pending@.len() ==> pending@[k] == all[n - 1 - k],
            forall|i: int| 0 <= i < all.len() ==> sum_sizes(#[trigger] all[i].2.items@) <= u64::MAX,
            items@ == reclaim_items(all.take(done as int)),
            warnings@ == reclaim_warnings(all.take(done as int)),
            summary_rows(summary@, all.take(done as int)),
        decreases pending@.len(),
    {
        let (id, _, mut plan) = pending.pop().unwrap();
        proof {
            assert(all.take(done + 1).drop_last() =~= all.take(done as int));
            assert(all.take(done + 1).last() == all[done as int]);
        }
        summary.push(CatRow { id, size: plan.total_size(), count: plan.items.len() });
        warnings.append(&mut plan.warnings);
        if !id.is_trash() {
            items.append(&mut plan.items);
        }
        done = done + 1;
    }
    proof {
        assert(all.take(n as int) =~= all);
    }
    let sorted = largest_first(items);
    Reclaim { rows: summary, list: Checklist::new(sorted, warnings, true) }
}

fn ready<T>(l: &Load<T>) -> (r: Option<&T>)
    ensures
        match r {
            Some(v) => *l == Load::Ready(*v),
            None => !(*l is Ready),
        },
{
    match l {
        Load::Ready(v) => Some(v),
        _ => None,
    }
}

} // verus!

verus! {

/// A prefix of a cleanup scan's rows offers no more items than all of them.
proof fn lemma_reclaim_prefix(rows: Seq<(Category, &'static str, Plan)>, k: int)
    requires
        0 <= k <= rows.len(),
    ensures
        reclaim_items(rows.take(k)).len() <= reclaim_items(rows).len(),
    decreases rows.len() - k,
{
    if k < rows.len() {
        lemma_reclaim_prefix(rows, k + 1);
        assert(rows.take(k + 1).drop_last() =~= rows.take(k));
    } else {
        assert(rows.take(k) =~= rows);
    }
}

/// Whether a cleanup scan offers at most `isize::MAX` items.
fn reclaim_fits(rows: &Vec<(Category, &'static str, Plan)>) -> (r: bool)
    ensures
        r == (reclaim_items(rows@).len() <= isize::MAX),
{
    let mut count: usize = 0;
    let mut i: usize = 0;
    while i < rows.len()
        invariant
            i <= rows@.len(),
            count == reclaim_items(rows@.take(i as int)).len(),
            count <= isize::MAX,
        decreases rows@.len() - i,
    {
        proof {
            assert(rows@.take(i + 1).drop_last() =~= rows@.take(i as int));
        }
        if !rows[i].0.is_trash() {
            let n = rows[i].2.items.len();
            if n > (isize::MAX as usize) - count {
                proof {
                    lemma_reclaim_prefix(rows@, i + 1);
                }
                return false;
            }
            count = count + n;
        }
        i = i + 1;
    }
    proof {
        assert(rows@.take(rows@.len() as int) =~= rows@);
    }
    true
}

/// Whether every category of a cleanup scan sums to no more than `u64::MAX`.
fn row_sums_fit(rows: &Vec<(Category, &'static str, Plan)>) -> (r: bool)
    ensures
        r == (forall|i: int| 0 <= i < rows@.len() ==> sum_sizes(#[trigger] rows@[i].2.items@) <= u64::MAX),
{
    let mut i: usize = 0;
    while i < rows.len()
        invariant
            i <= rows@.len(),
            forall|j: int| 0 <= j < i ==> sum_sizes(#[trigger] rows@[j].2.items@) <= u64::MAX,
        decreases rows@.len() - i,
    {
        if checked_total(&rows[i].2.items).is_none() {
            return false;
        }
        i = i + 1;
    }
    true
}

impl App {
    /// Whether every loaded list has at most `isize::MAX` rows.
    pub fn fits(&self) -> (r: bool)
        ensures
            r == self.rows_fit(),
    {
        let m = isize::MAX as usize;
        (match &self.cleanup {
            Load::Ready(r) => r.list.items.len() <= m,
            _ => true,
        }) && (match &self.apps {
            Load::Ready(v) => v.apps.len() <= m,
            _ => true,
        }) && (match &self.leftovers {
            Load::Ready(l) => l.items.len() <= m,
            _ => true,
        }) && (match &self.large {
            Load::Ready(l) => l.items.len() <= m,
            _ => true,
        }) && (match &self.dupes {
            Load::Ready(l) => l.items.len() <= m,
            _ => true,
        })
    }

    /// Whether the ticked items of the current list sum to no more than `u64::MAX`.
    fn primary_ok(&self) -> (r: bool)
        ensures
            r == self.primary_fits(),
    {
        match self.checklist() {
            Some(c) => {
                let p = c.plan();
                checked_total(&p.items).is_some()
            },
            None => true,
        }
    }

    /// Whether `update` can take `msg` (see `takes`): sums it shows fit `u64`, lists it loads
    /// fit `isize`, and an action it leads to can run.
    pub fn takes_msg(&self, msg: &Msg) -> (r: bool)
        ensures
            r == self.takes(*msg),
    {
        match msg {
            Msg::Key(k) => {
                let page_up = !k.ctrl && self.dialog.is_none() && matches!(k.code, KeyCode::PageUp);
                let rows = if self.view_rows > 1 { self.view_rows } else { 1usize };
                let key_ok = !page_up || (rows as isize) != isize::MIN;
                if !key_ok {
                    return false;
                }
                match self.key_action(*k) {
                    Some(Action::Primary) => self.primary_ok(),
                    _ => true,
                }
            },
            Msg::Mouse(Mouse::LeftDown { column, row }) => match self.hits.at(*column, *row) {
                Some(Action::Primary) => self.primary_ok(),
                _ => true,
            },
            Msg::Scanned(ScanResult::Cleanup(rows)) => row_sums_fit(rows) && reclaim_fits(rows),
            Msg::Scanned(ScanResult::Apps(apps)) => apps.len() <= isize::MAX as usize,
            Msg::Scanned(ScanResult::List(_, plan)) => plan.items.len() <= isize::MAX as usize,
            Msg::Planned(Ok(plan)) => checked_total(&plan.items).is_some(),
            Msg::Executed(report, _) => report.freed_fits(),
            _ => true,
        }
    }
}

/// Nothing is removed without confirmation: an action asks to remove a plan only when it
/// confirms a confirmation dialog holding that very plan, and a permanent removal only at
/// the dialog's second stage.
pub proof fn removal_needs_confirmation(old: App, action: Action, new: App, effects: Seq<Effect>, i: int)
    requires
        acted(old, action, new, effects),
        0 <= i < effects.len(),
        effects[i] is Execute,
    ensures
        action == Action::Confirm,
        old.dialog matches Some(Dialog::Confirm { plan, mode, apps, stage, .. }) && effects[i] == (Effect::Execute {
            plan,
            mode,
            apps,
        }) && (mode == Mode::Permanent ==> stage >= 1),
{
}

/// A second-stage confirmation only arises from confirming a first-stage confirmation of a
/// permanent removal, and it carries that dialog's plan.
pub proof fn second_stage_follows_first(old: App, action: Action, new: App, effects: Seq<Effect>)
    requires
        acted(old, action, new, effects),
        new.dialog matches Some(Dialog::Confirm { stage, .. }) && stage != 0,
        !(old.dialog matches Some(Dialog::Confirm { stage, .. }) && stage != 0),
    ensures
        action == Action::Confirm,
        old.dialog matches Some(Dialog::Confirm { plan, mode, stage, .. }) && stage == 0 && mode == Mode::Permanent
            && (new.dialog matches Some(Dialog::Confirm { plan: p2, mode: m2, .. }) && p2 == plan && m2 == mode),
{
}

/// A removal confirmed right after it was asked for removes exactly the items that were
/// ticked on the screen, with the list's warnings, and only when they go to the Trash
/// (a permanent removal first asks a second time).
pub proof fn removal_takes_what_was_ticked(s0: App, s1: App, e1: Seq<Effect>, s2: App, e2: Seq<Effect>)
    requires
        s0.screen != Screen::Dashboard && s0.screen != Screen::Apps,
        s0.current_list() is Some,
        acted(s0, Action::Primary, s1, e1),
        acted(s1, Action::Confirm, s2, e2),
        e2.len() > 0,
    ensures
        !s0.permanent,
        s0.current_list() matches Some(l) && e2 == seq![
            Effect::Execute { plan: e2[0]->Execute_plan, mode: Mode::Trash, apps: false },
        ] && e2[0]->Execute_plan.items@ == l.ticked_items() && e2[0]->Execute_plan.warnings@ == l.warnings@,
{
    let l = s0.current_list()->0;
    let d = s1.dialog->0;
    if l.ticked_items().len() == 0 {
        assert(is_info(d, "Nothing selected"@, seq!["Tick items with space or a click first."@]));
        assert(!(d is Confirm));
        assert(cancelled(s1, s2) && e2.len() == 0);
    } else {
        assert(is_confirm(d, l.ticked_items(), l.warnings@, mode_for(s0.permanent), false));
        if s0.permanent {
            assert(e2.len() == 0);
        }
    }
}

/// Cancelling never starts anything, and never dismisses a dialog that waits for work.
pub proof fn cancel_is_harmless(old: App, new: App, effects: Seq<Effect>)
    requires
        acted(old, Action::Cancel, new, effects),
    ensures
        effects.len() == 0,
        old.dialog matches Some(Dialog::Busy(_)) ==> new == old,
        !(old.dialog matches Some(Dialog::Busy(_))) ==> new.dialog is None,
{
}

/// A screen's scan starts on its first visit only: after a switch its scan is under way or
/// done, and switching to a screen whose scan is not idle starts nothing.
pub proof fn first_visit_scans_once(old: App, screen: Screen, new: App, effects: Seq<Effect>)
    requires
        switched(old, screen, new, effects),
    ensures
        !new.idle(screen.scan_kind()),
        !old.idle(screen.scan_kind()) ==> effects.len() == 0,
        old.idle(screen.scan_kind()) ==> effects == seq![Effect::Scan(screen.scan_kind())],
{
}

/// A refresh while the screen's scan is running changes nothing.
pub proof fn refresh_waits_for_scan(old: App, new: App, effects: Seq<Effect>)
    requires
        acted(old, Action::Refresh, new, effects),
        old.loading(old.screen.scan_kind()),
    ensures
        new == old,
        effects.len() == 0,
{
}

/// Cursor moves stay within the list: on a loaded, non-empty list the cursor ends on a row.
pub proof fn moves_stay_in_list(old: App, d: isize, new: App, effects: Seq<Effect>)
    requires
        acted(old, Action::Move(d), new, effects),
        old.screen != Screen::Apps,
        old.current_list() matches Some(l) && l.items@.len() > 0,
    ensures
        new.current_list() matches Some(l) && l.selected < l.items@.len(),
        effects.len() == 0,
{
}

/// The row an arrow key leads to from `sel` in a list of `len` rows: Down and `j` go one row
/// down (the last row stays put), Up and `k` one row up (the first row stays put).
pub open spec fn arrow_target(code: KeyCode, sel: int, len: int) -> int {
    if code == KeyCode::Down || code == KeyCode::Char('j') {
        if sel + 1 < len {
            sel + 1
        } else {
            len - 1
        }
    } else if sel > 0 {
        sel - 1
    } else {
        0
    }
}

/// With no dialog open, the arrow keys (and `j`, `k`) move the cursor of a loaded list one row:
/// Down and `j` to the next row, Up and `k` to the previous one, staying on the list.
pub proof fn arrow_keys_move_one_row(old: App, code: KeyCode, new: App, effects: Seq<Effect>)
    requires
        updated(old, Msg::Key(Key { code, ctrl: false }), new, effects),
        code == KeyCode::Down || code == KeyCode::Char('j') || code == KeyCode::Up || code == KeyCode::Char('k'),
        old.dialog is None,
        old.screen != Screen::Apps,
        old.rows_fit(),
        old.current_list() matches Some(l) && l.selected < l.items@.len(),
    ensures
        new.current_list() matches Some(n) && n.selected == arrow_target(
            code,
            old.current_list()->0.selected as int,
            old.current_list()->0.items@.len() as int,
        ),
        effects.len() == 0,
{
}

/// On the apps screen the arrow keys move the cursor over the apps in the same way.
pub proof fn arrow_keys_move_one_app(old: App, code: KeyCode, new: App, effects: Seq<Effect>)
    requires
        updated(old, Msg::Key(Key { code, ctrl: false }), new, effects),
        code == KeyCode::Down || code == KeyCode::Char('j') || code == KeyCode::Up || code == KeyCode::Char('k'),
        old.dialog is None,
        old.screen == Screen::Apps,
        old.rows_fit(),
        old.apps matches Load::Ready(v) && v.selected < v.apps@.len(),
    ensures
        new.apps matches Load::Ready(w) && w.selected == arrow_target(
            code,
            old.apps->Ready_0.selected as int,
            old.apps->Ready_0.apps@.len() as int,
        ),
        effects.len() == 0,
{
}

/// The documented keys, with no dialog open: `1` to `6` open the six screens in tab order,
/// tab and shift-tab step through them, space ticks the current row, `a` ticks all or none,
/// enter acts on the selection, `r` rescans, `s` sorts, `d` switches between the Trash and
/// permanent deletion, `?` shows help, and `q` or escape quits. With a dialog open only enter
/// or `y` (confirm) and escape, `n` or `q` (cancel) count, and control-C always quits.
pub proof fn documented_keys(app: App)
    ensures
        app.dialog is None ==> {
            let k = |c: KeyCode| key_spec(app, Key { code: c, ctrl: false });
            &&& k(KeyCode::Char('1')) == Some(Action::Tab(Screen::Dashboard))
            &&& k(KeyCode::Char('2')) == Some(Action::Tab(Screen::Apps))
            &&& k(KeyCode::Char('3')) == Some(Action::Tab(Screen::Cleanup))
            &&& k(KeyCode::Char('4')) == Some(Action::Tab(Screen::Leftovers))
            &&& k(KeyCode::Char('5')) == Some(Action::Tab(Screen::Large))
            &&& k(KeyCode::Char('6')) == Some(Action::Tab(Screen::Dupes))
            &&& k(KeyCode::Tab) == Some(Action::NextTab)
            &&& k(KeyCode::BackTab) == Some(Action::PrevTab)
            &&& k(KeyCode::Char(' ')) == Some(Action::ToggleCurrent)
            &&& k(KeyCode::Char('a')) == Some(Action::SelectAll)
            &&& k(KeyCode::Enter) == Some(Action::Primary)
            &&& k(KeyCode::Char('r')) == Some(Action::Refresh)
            &&& k(KeyCode::Char('s')) == Some(Action::Sort)
            &&& k(KeyCode::Char('d')) == Some(Action::TogglePermanent)
            &&& k(KeyCode::Char('?')) == Some(Action::Help)
            &&& k(KeyCode::Char('q')) == Some(Action::Quit)
            &&& k(KeyCode::Esc) == Some(Action::Quit)
            &&& k(KeyCode::Up) == Some(Action::Move(-1isize))
            &&& k(KeyCode::Char('k')) == Some(Action::Move(-1isize))
            &&& k(KeyCode::Down) == Some(Action::Move(1isize))
            &&& k(KeyCode::Char('j')) == Some(Action::Move(1isize))
        },
        app.dialog is Some ==> {
            let k = |c: KeyCode| key_spec(app, Key { code: c, ctrl: false });
            &&& k(KeyCode::Enter) == Some(Action::Confirm)
            &&& k(KeyCode::Char('y')) == Some(Action::Confirm)
            &&& k(KeyCode::Esc) == Some(Action::Cancel)
            &&& k(KeyCode::Char('n')) == Some(Action::Cancel)
            &&& k(KeyCode::Char('q')) == Some(Action::Cancel)
            &&& k(KeyCode::Char(' ')) == None::<Action>
        },
        key_spec(app, Key { code: KeyCode::Char('c'), ctrl: true }) == Some(Action::Quit),
{
}

/// A finished removal invalidates every screen and rescans the one shown.
pub proof fn removal_refreshes(old: App, report: Report, mode: Mode, new: App, effects: Seq<Effect>)
    requires
        updated(old, Msg::Executed(report, mode), new, effects),
    ensures
        effects == seq![Effect::Scan(old.screen.scan_kind())],
        new.screen == old.screen,
        forall|k: ScanKind| #[trigger] new.idle(k) <==> k != old.screen.scan_kind(),
        new.loading(old.screen.scan_kind()),
{
}

/// No message but a key press or a click starts a removal, and then only as a confirmation
/// of the dialog's own plan.
pub proof fn only_confirmation_removes(old: App, msg: Msg, new: App, effects: Seq<Effect>, i: int)
    requires
        updated(old, msg, new, effects),
        0 <= i < effects.len(),
        effects[i] is Execute,
    ensures
        msg is Key || msg is Mouse,
        old.dialog matches Some(Dialog::Confirm { plan, mode, apps, stage, .. }) && effects[i] == (Effect::Execute {
            plan,
            mode,
            apps,
        }) && (mode == Mode::Permanent ==> stage >= 1),
{
    match msg {
        Msg::Key(k) => {
            let a = key_spec(old, k)->0;
            removal_needs_confirmation(old, a, new, effects, i);
        },
        Msg::Mouse(m) => {
            match m {
                Mouse::LeftDown { column, row } => {
                    let a = topmost(old.hits.targets@, column, row)->0;
                    removal_needs_confirmation(old, a, new, effects, i);
                },
                Mouse::ScrollUp => {
                    removal_needs_confirmation(old, Action::Move(-3isize), new, effects, i);
                },
                Mouse::ScrollDown => {
                    removal_needs_confirmation(old, Action::Move(3isize), new, effects, i);
                },
                Mouse::Other => {},
            }
        },
        _ => {},
    }
}

} // verus!
