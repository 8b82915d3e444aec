//! The decisions of the executor, the only part of the program that deletes anything.
//!
//! Each item is re-checked by the guard at execution time, so a stale or tampered plan cannot
//! bypass it. The caller resolves the item's path, asks `Report::vet` what to do, performs
//! the deletion it is told to perform, and hands the outcome to `Report::record`.

use vstd::prelude::*;
use crate::plan::{Category, Item};
use crate::safety::{opt_view, Guard, Violation};
use crate::text::{decimal, decimal_spec};

verus! {

#[derive(Clone, Copy, Debug, PartialEq, Eq, Structural)]
pub enum Mode {
    /// Report what would happen; touch nothing.
    DryRun,
    Trash,
    Permanent,
}

impl Mode {
    /// The name that the action log and JSON output use (`format!("{mode:?}")`).
    pub open spec fn name(self) -> Seq<char> {
        match self {
            Mode::DryRun => "DryRun"@,
            Mode::Trash => "Trash"@,
            Mode::Permanent => "Permanent"@,
        }
    }

    pub fn as_str(self) -> (r: &'static str)
        ensures
            r@ == self.name(),
    {
        match self {
            Mode::DryRun => "DryRun",
            Mode::Trash => "Trash",
            Mode::Permanent => "Permanent",
        }
    }
}

/// The mode a command runs in: a dry run unless `--yes` is given, then the Trash unless
/// `--permanent` is given too.
pub open spec fn mode_spec(yes: bool, permanent: bool) -> Mode {
    if !yes {
        Mode::DryRun
    } else if permanent {
        Mode::Permanent
    } else {
        Mode::Trash
    }
}

/// The mode a command runs in, from its `--yes` and `--permanent` flags.
pub fn mode_for(yes: bool, permanent: bool) -> (r: Mode)
    ensures
        r == mode_spec(yes, permanent),
{
    if !yes {
        Mode::DryRun
    } else if permanent {
        Mode::Permanent
    } else {
        Mode::Trash
    }
}

/// What the caller must do with an item that the guard admitted.
#[derive(Debug, PartialEq, Eq)]
pub enum Step {
    /// The item was refused and recorded as skipped; do nothing.
    Skip,
    /// Dry run: the item was recorded as removed; do nothing.
    Pretend,
    /// Move this resolved path to the Trash, then call `record`.
    MoveToTrash(String),
    /// Delete this resolved path for good, then call `record`.
    Remove(String),
}

/// What an execution did.
#[derive(Debug)]
pub struct Report {
    /// Resolved paths that were removed (or would be, in a dry run) and their sizes.
    pub removed: Vec<(String, u64)>,
    /// Paths that were not removed, and why.
    pub skipped: Vec<(String, String)>,
}

impl Default for Report {
    fn default() -> (r: Self)
        ensures
            r.removed@.len() == 0,
            r.skipped@.len() == 0,
    {
        Report { removed: Vec::new(), skipped: Vec::new() }
    }
}

/// Sum of the sizes of removed entries.
pub open spec fn sum_removed(v: Seq<(String, u64)>) -> nat
    decreases v.len(),
{
    if v.len() == 0 {
        0
    } else {
        sum_removed(v.drop_last()) + v.last().1 as nat
    }
}

/// The line appended to the action log after a real deletion.
pub open spec fn log_line(mode: Mode, path: Seq<char>, size: u64) -> Seq<char> {
    mode.name() + " "@ + path + " ("@ + decimal_spec(size as nat) + " bytes)"@
}

/// What vetting `item` did to a report (`old` before, `new` after): refused items are
/// recorded as skipped with the guard's reason, a dry run records an admitted item as
/// removed, and the other modes hand the resolved path on to be trashed or removed. App
/// bundles and app data (categories that do not allow permanent deletion) go to the Trash
/// even in permanent mode.
pub open spec fn vetted(
    old: Report,
    new: Report,
    guard: Guard,
    item: Item,
    resolved: Option<String>,
    mode: Mode,
    r: Step,
) -> bool {
    &&& match r {
        Step::Skip => {
            &&& (resolved is None || !guard.allows(resolved->0@))
            &&& new.removed@ == old.removed@
            &&& new.skipped@.len() == old.skipped@.len() + 1
            &&& new.skipped@.drop_last() == old.skipped@
            &&& new.skipped@.last().0 == item.path
        },
        Step::Pretend => {
            &&& mode == Mode::DryRun
            &&& resolved is Some && guard.allows(resolved->0@)
            &&& new.removed@ == old.removed@.push((resolved->0, item.size))
            &&& new.skipped@ == old.skipped@
        },
        Step::MoveToTrash(p) => {
            &&& (mode == Mode::Trash || (mode == Mode::Permanent && !item.category.permanent_ok()))
            &&& resolved == Some(p) && guard.allows(p@)
            &&& new.removed@ == old.removed@
            &&& new.skipped@ == old.skipped@
        },
        Step::Remove(p) => {
            &&& mode == Mode::Permanent
            &&& item.category.permanent_ok()
            &&& resolved == Some(p) && guard.allows(p@)
            &&& new.removed@ == old.removed@
            &&& new.skipped@ == old.skipped@
        },
    }
    &&& (resolved is Some && guard.allows(resolved->0@)) <==> !(r is Skip)
    &&& r is Skip ==> exists|v: Violation|
        guard.refuses_with(opt_view(resolved), v) && #[trigger] v.message_spec() == new.skipped@.last().1@
}

/// What recording the outcome of a step did to a report: a success adds the resolved path
/// and the item's size to what was removed, a failure adds the item's path and the error to
/// what was skipped.
pub open spec fn recorded(old: Report, new: Report, item: Item, resolved: String, outcome: Result<(), String>) -> bool {
    match outcome {
        Ok(()) => new.removed@ == old.removed@.push((resolved, item.size)) && new.skipped@ == old.skipped@,
        Err(e) => new.removed@ == old.removed@ && new.skipped@ == old.skipped@.push((item.path, e)),
    }
}

/// Every path a report lists as removed is one the guard allows.
pub open spec fn removed_allowed(r: Report, guard: Guard) -> bool {
    forall|i: int| 0 <= i < r.removed@.len() ==> guard.allows(#[trigger] r.removed@[i].0@)
}

/// Over a whole plan, a report lists as removed only paths the guard allows: vetting an item
/// keeps this, and so does recording the outcome of a path it handed on. Run from an empty
/// report, item after item, the executor therefore never reports removing anything else.
pub proof fn removed_paths_stay_allowed(
    r0: Report,
    r1: Report,
    r2: Report,
    guard: Guard,
    item: Item,
    resolved: Option<String>,
    mode: Mode,
    step: Step,
    outcome: Result<(), String>,
)
    requires
        removed_allowed(r0, guard),
        vetted(r0, r1, guard, item, resolved, mode, step),
        step is MoveToTrash || step is Remove ==> recorded(r1, r2, item, resolved->0, outcome),
        step is Skip || step is Pretend ==> r2 == r1,
    ensures
        removed_allowed(r1, guard),
        removed_allowed(r2, guard),
{
    assert forall|i: int| 0 <= i < r1.removed@.len() implies guard.allows(#[trigger] r1.removed@[i].0@) by {
        if i < r0.removed@.len() {
            assert(r1.removed@[i] == r0.removed@[i]);
        }
    }
    assert forall|i: int| 0 <= i < r2.removed@.len() implies guard.allows(#[trigger] r2.removed@[i].0@) by {
        if i < r1.removed@.len() {
            if step is MoveToTrash || step is Remove {
                assert(r2.removed@[i] == r1.removed@[i]);
            }
        }
    }
}

/// Nothing is deleted without `--yes`: the mode is then a dry run, in which vetting an item
/// only ever skips it or records it as what would be removed.
pub proof fn nothing_is_deleted_without_yes(
    old: Report,
    new: Report,
    guard: Guard,
    item: Item,
    resolved: Option<String>,
    permanent: bool,
    r: Step,
)
    requires
        vetted(old, new, guard, item, resolved, mode_spec(false, permanent), r),
    ensures
        r is Skip || r is Pretend,
{
}

/// Deletion goes to the Trash unless `--permanent` is given: no item is removed for good.
pub proof fn trash_by_default(old: Report, new: Report, guard: Guard, item: Item, resolved: Option<String>, yes: bool, r: Step)
    requires
        vetted(old, new, guard, item, resolved, mode_spec(yes, false), r),
    ensures
        !(r is Remove),
{
}

/// App bundles and their data cannot be regenerated, so even in permanent mode they go to
/// the Trash, where they can be restored: an item whose category does not allow permanent
/// deletion is never removed for good, and when the guard admits it, it is trashed.
pub proof fn app_data_goes_to_trash(old: Report, new: Report, guard: Guard, item: Item, resolved: Option<String>, r: Step)
    requires
        vetted(old, new, guard, item, resolved, Mode::Permanent, r),
        !item.category.permanent_ok(),
    ensures
        !(r is Remove),
        !(r is Skip) ==> (r matches Step::MoveToTrash(p) && resolved == Some(p)),
{
}

/// With `--permanent`, what may be regenerated or was picked by hand (caches, logs, the Trash,
/// Xcode, browser and developer data, large files, duplicates) is deleted for good once the
/// guard admits it, while app bundles and app data (uninstalled apps, leftovers, name-only
/// matches, orphans) go to the Trash.
pub proof fn permanent_mode_by_category(
    old: Report,
    new: Report,
    guard: Guard,
    item: Item,
    resolved: Option<String>,
    r: Step,
)
    requires
        vetted(old, new, guard, item, resolved, Mode::Permanent, r),
        resolved is Some,
        guard.allows(resolved->0@),
    ensures
        (item.category == Category::Caches || item.category == Category::Logs || item.category == Category::Trash
            || item.category == Category::Xcode || item.category == Category::Browsers || item.category
            == Category::Dev || item.category == Category::Large || item.category == Category::Dupes) ==> r
            == Step::Remove(resolved->0),
        (item.category == Category::App || item.category == Category::Leftover || item.category == Category::Fuzzy
            || item.category == Category::Orphaned) ==> r == Step::MoveToTrash(resolved->0),
{
}

/// Only what the guard allows is handed on for deletion, and at its resolved path.
pub proof fn only_allowed_paths_are_deleted(
    old: Report,
    new: Report,
    guard: Guard,
    item: Item,
    resolved: Option<String>,
    mode: Mode,
    r: Step,
)
    requires
        vetted(old, new, guard, item, resolved, mode, r),
    ensures
        r matches Step::MoveToTrash(p) ==> resolved == Some(p) && guard.allows(p@),
        r matches Step::Remove(p) ==> resolved == Some(p) && guard.allows(p@),
{
}

impl Report {
    /// Bytes removed.
    pub fn freed(&self) -> (r: u64)
        requires
            sum_removed(self.removed@) <= u64::MAX,
        ensures
            r == sum_removed(self.removed@),
    {
        let mut total: u64 = 0;
        let mut i: usize = 0;
        while i < self.removed.len()
            invariant
                i <= self.removed@.len(),
                total == sum_removed(self.removed@.take(i as int)),
                sum_removed(self.removed@) <= u64::MAX,
            decreases self.removed@.len() - i,
        {
            proof {
                assert(self.removed@.take(i + 1).drop_last() =~= self.removed@.take(i as int));
                lemma_sum_removed_prefix(self.removed@, i + 1);
            }
            total = total + self.removed[i].1;
            i = i + 1;
        }
        proof {
            assert(self.removed@.take(self.removed@.len() as int) =~= self.removed@);
        }
        total
    }

    /// Re-checks `item` against the guard, given its path resolved at execution time (`None`
    /// when it could not be resolved), and says what to do. A refusal is recorded as skipped
    /// with the guard's message; in a dry run an admitted item is recorded as removed at once.
    pub fn vet(&mut self, guard: &Guard, item: &Item, resolved: Option<String>, mode: Mode) -> (r: Step)
        ensures
            vetted(*old(self), *final(self), *guard, *item, resolved, mode, r),
    {
        let ghost before = *self;
        match guard.check(resolved) {
            Err(v) => {
                let msg = v.message();
                self.skipped.push((item.path.clone(), msg));
                proof {
                    assert(self.skipped@.drop_last() =~= before.skipped@);
                    assert(guard.refuses_with(opt_view(resolved), v) && v.message_spec() == self.skipped@.last().1@);
                }
                Step::Skip
            },
            Ok(p) => match mode {
                Mode::DryRun => {
                    self.removed.push((p, item.size));
                    Step::Pretend
                },
                Mode::Trash => Step::MoveToTrash(p),
                Mode::Permanent => if item.category.allows_permanent() {
                    Step::Remove(p)
                } else {
                    Step::MoveToTrash(p)
                },
            },
        }
    }
}

impl Report {
    /// Records the outcome of deleting `item` at its resolved path `resolved` in `mode`.
    /// Returns the line to append to the action log, if any.
    pub fn record(&mut self, item: &Item, resolved: String, mode: Mode, outcome: Result<(), String>) -> (log: Option<String>)
        ensures
            recorded(*old(self), *final(self), *item, resolved, outcome),
            outcome is Ok ==> {
                &&& final(self).removed@ == old(self).removed@.push((resolved, item.size))
                &&& final(self).skipped@ == old(self).skipped@
                &&& if mode == Mode::DryRun {
                    log is None
                } else {
                    log matches Some(l) && l@ == log_line(mode, resolved@, item.size)
                }
            },
            outcome matches Err(e) ==> {
                &&& final(self).removed@ == old(self).removed@
                &&& final(self).skipped@ == old(self).skipped@.push((item.path, e))
                &&& log is None
            },
    {
        match outcome {
            Ok(()) => {
                let line = if mode != Mode::DryRun {
                    let mut l = mode.as_str().to_owned();
                    l.append(" ");
                    l.append(resolved.as_str());
                    l.append(" (");
                    l.append(decimal(item.size).as_str());
                    l.append(" bytes)");
                    Some(l)
                } else {
                    None
                };
                self.removed.push((resolved, item.size));
                line
            },
            Err(e) => {
                self.skipped.push((item.path.clone(), e));
                None
            },
        }
    }
}

impl Report {
    /// Whether the sizes of the removed entries sum to no more than `u64::MAX`.
    pub fn freed_fits(&self) -> (r: bool)
        ensures
            r == (sum_removed(self.removed@) <= u64::MAX),
    {
        let mut total: u64 = 0;
        let mut i: usize = 0;
        while i < self.removed.len()
            invariant
                i <= self.removed@.len(),
                total == sum_removed(self.removed@.take(i as int)),
            decreases self.removed@.len() - i,
        {
            proof {
                assert(self.removed@.take(i + 1).drop_last() =~= self.removed@.take(i as int));
            }
            if total > u64::MAX - self.removed[i].1 {
                proof {
                    lemma_sum_removed_prefix(self.removed@, i + 1);
                }
                return false;
            }
            total = total + self.removed[i].1;
            i = i + 1;
        }
        proof {
            assert(self.removed@.take(self.removed@.len() as int) =~= self.removed@);
        }
        true
    }
}

/// A prefix of the removed entries never sums to more than all of them.
pub proof fn lemma_sum_removed_prefix(v: Seq<(String, u64)>, k: int)
    requires
        0 <= k <= v.len(),
    ensures
        sum_removed(v.take(k)) <= sum_removed(v),
    decreases v.len() - k,
{
    if k < v.len() {
        lemma_sum_removed_prefix(v, k + 1);
        assert(v.take(k + 1).drop_last() =~= v.take(k));
    } else {
        assert(v.take(k) =~= v);
    }
}

} // verus!
