//! Data types shared by the state machine and the renderer.

use vstd::prelude::*;
use crate::apps::{sort_by_name, sort_by_size, name_le, size_ge, App as AppInfo};
use crate::executor::{Mode, Report};
use crate::plan::{checked_total, sum_sizes, Category, Item, Plan};
use crate::sort::stable_sort;

verus! {

#[derive(Clone, Copy, Debug, PartialEq, Eq, Structural)]
pub enum Screen {
    Dashboard,
    Apps,
    Cleanup,
    Leftovers,
    Large,
    Dupes,
}

#[derive(Clone, Copy, Debug, PartialEq, Eq, Structural)]
pub enum ScanKind {
    Cleanup,
    Apps,
    Leftovers,
    Large,
    Dupes,
}

/// The number of screens.
pub const SCREENS: usize = 6;

impl Screen {
    /// The screen at tab position `i` (0-based).
    pub open spec fn nth(i: int) -> Screen {
        if i == 0 {
            Screen::Dashboard
        } else if i == 1 {
            Screen::Apps
        } else if i == 2 {
            Screen::Cleanup
        } else if i == 3 {
            Screen::Leftovers
        } else if i == 4 {
            Screen::Large
        } else {
            Screen::Dupes
        }
    }

    /// The tab position of the screen.
    pub open spec fn position(self) -> int {
        match self {
            Screen::Dashboard => 0,
            Screen::Apps => 1,
            Screen::Cleanup => 2,
            Screen::Leftovers => 3,
            Screen::Large => 4,
            Screen::Dupes => 5,
        }
    }

    /// What scan a screen shows.
    pub open spec fn scan_kind(self) -> ScanKind {
        match self {
            Screen::Dashboard | Screen::Cleanup => ScanKind::Cleanup,
            Screen::Apps => ScanKind::Apps,
            Screen::Leftovers => ScanKind::Leftovers,
            Screen::Large => ScanKind::Large,
            Screen::Dupes => ScanKind::Dupes,
        }
    }

    pub open spec fn title_spec(self) -> Seq<char> {
        match self {
            Screen::Dashboard => "Dashboard"@,
            Screen::Apps => "Apps"@,
            Screen::Cleanup => "Cleanup"@,
            Screen::Leftovers => "Leftovers"@,
            Screen::Large => "Large files"@,
            Screen::Dupes => "Duplicates"@,
        }
    }

    /// The screen at tab position `i`.
    pub fn at(i: usize) -> (r: Screen)
        requires
            i < SCREENS,
        ensures
            r == Screen::nth(i as int),
            r.position() == i,
    {
        if i == 0 {
            Screen::Dashboard
        } else if i == 1 {
            Screen::Apps
        } else if i == 2 {
            Screen::Cleanup
        } else if i == 3 {
            Screen::Leftovers
        } else if i == 4 {
            Screen::Large
        } else {
            Screen::Dupes
        }
    }

    pub fn title(self) -> (r: &'static str)
        ensures
            r@ == self.title_spec(),
    {
        match self {
            Screen::Dashboard => "Dashboard",
            Screen::Apps => "Apps",
            Screen::Cleanup => "Cleanup",
            Screen::Leftovers => "Leftovers",
            Screen::Large => "Large files",
            Screen::Dupes => "Duplicates",
        }
    }

    pub fn kind(self) -> (r: ScanKind)
        ensures
            r == self.scan_kind(),
    {
        match self {
            Screen::Dashboard | Screen::Cleanup => ScanKind::Cleanup,
            Screen::Apps => ScanKind::Apps,
            Screen::Leftovers => ScanKind::Leftovers,
            Screen::Large => ScanKind::Large,
            Screen::Dupes => ScanKind::Dupes,
        }
    }

    pub fn index(self) -> (r: usize)
        ensures
            r == self.position(),
            Screen::nth(r as int) == self,
    {
        match self {
            Screen::Dashboard => 0,
            Screen::Apps => 1,
            Screen::Cleanup => 2,
            Screen::Leftovers => 3,
            Screen::Large => 4,
            Screen::Dupes => 5,
        }
    }
}

/// Something a key press or click asks for.
#[derive(Clone, Copy, Debug, PartialEq, Eq, Structural)]
pub enum Action {
    Quit,
    Tab(Screen),
    NextTab,
    PrevTab,
    Move(isize),
    /// Select the row at this index.
    Row(usize),
    /// Select and tick/untick the row at this index.
    Toggle(usize),
    ToggleCurrent,
    SelectAll,
    Refresh,
    Sort,
    /// The screen's main button: clean, remove or uninstall.
    Primary,
    TogglePermanent,
    Help,
    Confirm,
    Cancel,
}

/// Work for the runner; keeps `act` free of I/O.
#[derive(Debug)]
pub enum Effect {
    Scan(ScanKind),
    PlanUninstall(AppInfo),
    Execute { plan: Plan, mode: Mode, apps: bool },
}

/// One category's line on the dashboard.
pub struct CatRow {
    pub id: Category,
    pub size: u64,
    pub count: usize,
}

pub enum ScanResult {
    Cleanup(Vec<(Category, &'static str, Plan)>),
    Apps(Vec<AppInfo>),
    List(ScanKind, Plan),
}

/// A key, as far as the interface distinguishes keys.
#[derive(Clone, Copy, Debug, PartialEq, Eq, Structural)]
pub enum KeyCode {
    Char(char),
    Tab,
    BackTab,
    Up,
    Down,
    PageUp,
    PageDown,
    Home,
    End,
    Enter,
    Esc,
    Other,
}

/// A key press, with whether Control was held.
#[derive(Clone, Copy, Debug, PartialEq, Eq, Structural)]
pub struct Key {
    pub code: KeyCode,
    pub ctrl: bool,
}

/// A mouse event, as far as the interface distinguishes them.
#[derive(Clone, Copy, Debug, PartialEq, Eq, Structural)]
pub enum Mouse {
    /// Left button pressed at this cell.
    LeftDown { column: u16, row: u16 },
    ScrollUp,
    ScrollDown,
    Other,
}

pub enum Msg {
    Key(Key),
    Mouse(Mouse),
    Scanned(ScanResult),
    /// (used, total) bytes of the volume holding the home directory.
    Disk(Option<(u64, u64)>),
    Planned(Result<Plan, String>),
    Progress { done: usize, total: usize, name: String },
    Executed(Report, Mode),
    Tick,
}

pub enum Load<T> {
    Idle,
    Loading,
    Ready(T),
}

impl<T> Load<T> {
    pub fn ready_mut(&mut self) -> (r: Option<&mut T>)
        ensures
            (*old(self) is Ready) <==> r is Some,
            r matches Some(v) ==> *v == old(self)->Ready_0 && *final(self) == Load::Ready(*final(v)),
            r is None ==> *final(self) == *old(self),
    {
        match self {
            Load::Ready(v) => Some(v),
            _ => None,
        }
    }
}

/// A line of a dialog. Sizes stay numbers until they are shown.
#[derive(Debug, PartialEq, Eq)]
pub enum Line {
    Text(String),
    /// `"{count} item(s), {size}"`
    Summary { count: usize, bytes: u64 },
    /// `"{size:>9}  {path}"`
    Entry { bytes: u64, path: String },
    /// `"{verb}: {count} item(s), {size} freed"`
    Outcome { verb: String, count: usize, bytes: u64 },
}

/// The first `k` pairs' ticked items, in order.
pub open spec fn ticked_upto(items: Seq<Item>, checked: Seq<bool>, k: int) -> Seq<Item>
    decreases k,
{
    if k <= 0 {
        Seq::empty()
    } else {
        let prev = ticked_upto(items, checked, k - 1);
        if checked[k - 1] {
            prev.push(items[k - 1])
        } else {
            prev
        }
    }
}

/// The items whose box is ticked, in order (pairs beyond the shorter list are ignored).
pub open spec fn ticked(items: Seq<Item>, checked: Seq<bool>) -> Seq<Item> {
    ticked_upto(items, checked, if items.len() < checked.len() { items.len() as int } else { checked.len() as int })
}

/// Plan items with a tick box each and a cursor.
pub struct Checklist {
    pub items: Vec<Item>,
    pub checked: Vec<bool>,
    pub selected: usize,
    pub offset: usize,
    pub warnings: Vec<String>,
}

fn clone_strings(v: &Vec<String>) -> (r: Vec<String>)
    ensures
        r@ == v@,
{
    let mut out: Vec<String> = Vec::new();
    let mut i: usize = 0;
    while i < v.len()
        invariant
            i <= v@.len(),
            out@ == v@.take(i as int),
        decreases v@.len() - i,
    {
        out.push(v[i].clone());
        assert(v@.take(i + 1) =~= v@.take(i as int).push(v@[i as int]));
        i = i + 1;
    }
    assert(v@.take(v@.len() as int) =~= v@);
    out
}

proof fn lemma_ticked_upto_len(items: Seq<Item>, checked: Seq<bool>, i: int)
    requires
        0 <= i,
    ensures
        ticked_upto(items, checked, i).len() <= i,
    decreases i,
{
    if i > 0 {
        lemma_ticked_upto_len(items, checked, i - 1);
    }
}

proof fn lemma_ticked_upto_bounds(items: Seq<Item>, checked: Seq<bool>, i: int, n: int)
    requires
        0 <= i <= n,
    ensures
        sum_sizes(ticked_upto(items, checked, i)) <= sum_sizes(ticked_upto(items, checked, n)),
        ticked_upto(items, checked, i).len() <= i,
    decreases n - i,
{
    lemma_ticked_upto_len(items, checked, i);
    if i < n {
        lemma_ticked_upto_bounds(items, checked, i + 1, n);
        let p = ticked_upto(items, checked, i);
        if checked[i] {
            assert(p.push(items[i]).drop_last() =~= p);
        }
    }
}

impl Checklist {
    pub fn new(items: Vec<Item>, warnings: Vec<String>, checked: bool) -> (r: Self)
        ensures
            r.items == items,
            r.warnings == warnings,
            r.checked@ == Seq::new(items@.len(), |i: int| checked),
            r.selected == 0,
            r.offset == 0,
    {
        let n = items.len();
        let mut marks: Vec<bool> = Vec::new();
        let mut i: usize = 0;
        while i < n
            invariant
                i <= n,
                marks@ == Seq::new(i as nat, |k: int| checked),
            decreases n - i,
        {
            marks.push(checked);
            assert(marks@ =~= Seq::new((i + 1) as nat, |k: int| checked));
            i = i + 1;
        }
        Checklist { checked: marks, items, selected: 0, offset: 0, warnings }
    }

    /// The ticked items.
    pub open spec fn ticked_items(&self) -> Seq<Item> {
        ticked(self.items@, self.checked@)
    }

    /// Whether the ticked items' sizes sum to no more than `u64::MAX`, as `stats` needs.
    pub fn stats_fit(&self) -> (r: bool)
        ensures
            r == (sum_sizes(self.ticked_items()) <= u64::MAX),
    {
        let p = self.plan();
        checked_total(&p.items).is_some()
    }

    /// (ticked count, ticked bytes)
    pub fn stats(&self) -> (r: (usize, u64))
        requires
            sum_sizes(self.ticked_items()) <= u64::MAX,
        ensures
            r.0 == self.ticked_items().len(),
            r.1 == sum_sizes(self.ticked_items()),
    {
        let n = if self.items.len() < self.checked.len() { self.items.len() } else { self.checked.len() };
        let mut count: usize = 0;
        let mut bytes: u64 = 0;
        let mut i: usize = 0;
        while i < n
            invariant
                n <= self.items@.len(),
                n <= self.checked@.len(),
                n == (if self.items@.len() < self.checked@.len() { self.items@.len() } else { self.checked@.len() }),
                i <= n,
                count == ticked_upto(self.items@, self.checked@, i as int).len(),
                count <= i,
                bytes == sum_sizes(ticked_upto(self.items@, self.checked@, i as int)),
                sum_sizes(ticked_upto(self.items@, self.checked@, n as int)) <= u64::MAX,
            decreases n - i,
        {
            proof {
                lemma_ticked_upto_bounds(self.items@, self.checked@, i + 1, n as int);
                let p = ticked_upto(self.items@, self.checked@, i as int);
                assert(p.push(self.items@[i as int]).drop_last() =~= p);
            }
            if self.checked[i] {
                count = count + 1;
                bytes = bytes + self.items[i].size;
            }
            i = i + 1;
        }
        (count, bytes)
    }

    /// A plan of the ticked items and the list's warnings.
    pub fn plan(&self) -> (r: Plan)
        ensures
            r.items@ == self.ticked_items(),
            r.warnings@ == self.warnings@,
    {
        let n = if self.items.len() < self.checked.len() { self.items.len() } else { self.checked.len() };
        let mut items: Vec<Item> = Vec::new();
        let mut i: usize = 0;
        while i < n
            invariant
                n <= self.items@.len(),
                n <= self.checked@.len(),
                n == (if self.items@.len() < self.checked@.len() { self.items@.len() } else { self.checked@.len() }),
                i <= n,
                items@ == ticked_upto(self.items@, self.checked@, i as int),
            decreases n - i,
        {
            if self.checked[i] {
                items.push(self.items[i].clone());
            }
            i = i + 1;
        }
        Plan { items, warnings: clone_strings(&self.warnings) }
    }

    /// Ticks every box, or unticks every box when all are ticked.
    pub fn toggle_all(&mut self)
        ensures
            ({
                let all = forall|i: int| 0 <= i < old(self).checked@.len() ==> #[trigger] old(self).checked@[i];
                final(self).checked@ == Seq::new(old(self).checked@.len(), |i: int| !all)
            }),
            final(self).items == old(self).items,
            final(self).warnings == old(self).warnings,
            final(self).selected == old(self).selected,
            final(self).offset == old(self).offset,
    {
        let n = self.checked.len();
        let mut all = true;
        let mut i: usize = 0;
        while i < n
            invariant
                n == self.checked@.len(),
                i <= n,
                all == forall|k: int| 0 <= k < i ==> #[trigger] self.checked@[k],
            decreases n - i,
        {
            if !self.checked[i] {
                all = false;
            }
            i = i + 1;
        }
        let ghost old_len = n;
        let mut marks: Vec<bool> = Vec::new();
        let mut k: usize = 0;
        while k < n
            invariant
                k <= n,
                marks@ == Seq::new(k as nat, |j: int| !all),
            decreases n - k,
        {
            marks.push(!all);
            assert(marks@ =~= Seq::new((k + 1) as nat, |j: int| !all));
            k = k + 1;
        }
        self.checked = marks;
    }
}

pub struct Reclaim {
    pub rows: Vec<CatRow>,
    pub list: Checklist,
}

pub struct AppsView {
    pub apps: Vec<AppInfo>,
    pub selected: usize,
    pub offset: usize,
    pub by_size: bool,
}

impl AppsView {
    /// Sorts by size (largest first) or by name (case-insensitive), and moves to the top.
    pub fn sort(&mut self)
        ensures
            final(self).apps@ == if old(self).by_size {
                stable_sort(old(self).apps@, |a: AppInfo, b: AppInfo| size_ge(a, b))
            } else {
                stable_sort(old(self).apps@, |a: AppInfo, b: AppInfo| name_le(a, b))
            },
            final(self).by_size == old(self).by_size,
            final(self).selected == 0,
            final(self).offset == 0,
    {
        let mut apps = Vec::new();
        std::mem::swap(&mut apps, &mut self.apps);
        self.apps = if self.by_size { sort_by_size(apps) } else { sort_by_name(apps) };
        self.selected = 0;
        self.offset = 0;
    }
}

pub enum Dialog {
    Confirm { title: String, lines: Vec<Line>, plan: Plan, mode: Mode, apps: bool, stage: u8 },
    Result { title: String, lines: Vec<Line> },
    Busy(String),
    Help,
}

} // verus!
