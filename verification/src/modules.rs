//! The cleanup categories: which are selected, what each location contributes to a plan, and
//! how the plans of several categories merge.

use vstd::prelude::*;
use crate::path::{join, join_spec};
use crate::plan::{item_views, sum_sizes, Category, Item, ItemView, Plan};
use crate::targets::{categories, category_rows, cleanup_categories, target_rows, targets, Mode, Row, Target};
use crate::text::str_eq;

verus! {

broadcast use Seq::lemma_filter_push;

/// The registry: every cleanup category with its description, in order.
pub fn all() -> (r: Vec<(Category, &'static str)>)
    ensures
        r@.map_values(|c: (Category, &str)| (c.0, c.1@)) == category_rows(),
{
    categories()
}

/// Why a list of category names was rejected.
#[derive(Debug, PartialEq, Eq)]
pub enum CategoryError {
    /// No category was named.
    NoneGiven,
    /// This name is not a category.
    Unknown(String),
}

impl CategoryError {
    pub open spec fn message_spec(&self) -> Seq<char> {
        match self {
            CategoryError::NoneGiven => "no category given; choose from: caches, logs, trash, xcode, browsers, dev, or `all`"@,
            CategoryError::Unknown(n) => "unknown category `"@ + n@
                + "`; valid categories: caches, logs, trash, xcode, browsers, dev, all"@,
        }
    }

    pub fn message(&self) -> (r: String)
        ensures
            r@ == self.message_spec(),
    {
        match self {
            CategoryError::NoneGiven => "no category given; choose from: caches, logs, trash, xcode, browsers, dev, or `all`".to_owned(),
            CategoryError::Unknown(n) => {
                let mut s = "unknown category `".to_owned();
                s.append(n.as_str());
                s.append("`; valid categories: caches, logs, trash, xcode, browsers, dev, all");
                s
            },
        }
    }
}

/// A name that `clean` accepts: a cleanup category or `all`.
pub open spec fn valid_name(n: Seq<char>) -> bool {
    n == "all"@ || exists|k: int| 0 <= k < cleanup_categories().len() && #[trigger] cleanup_categories()[k].name() == n
}

/// `c` is asked for by one of `names`; `all` asks for every category except the Trash.
pub open spec fn requested(names: Seq<Seq<char>>, c: Category) -> bool {
    exists|i: int| 0 <= i < names.len() && (#[trigger] names[i] == c.name() || (names[i] == "all"@ && c != Category::Trash))
}

/// The views of a vector of strings.
pub open spec fn name_views(v: Seq<String>) -> Seq<Seq<char>> {
    v.map_values(|s: String| s@)
}

/// Which name, if any, `name` picks out among the cleanup categories.
fn match_category(name: &str) -> (r: Option<Category>)
    ensures
        r matches Some(c) ==> cleanup_categories().contains(c) && c.name() == name@,
        r is None ==> forall|k: int| 0 <= k < cleanup_categories().len() ==> #[trigger] cleanup_categories()[k].name() != name@,
{
    let cats = categories();
    let mut i: usize = 0;
    while i < cats.len()
        invariant
            i <= cats@.len(),
            cats@.map_values(|c: (Category, &str)| (c.0, c.1@)) == category_rows(),
            forall|k: int| 0 <= k < i ==> #[trigger] cleanup_categories()[k].name() != name@,
        decreases cats@.len() - i,
    {
        let c = cats[i].0;
        assert(cats@.map_values(|c: (Category, &str)| (c.0, c.1@))[i as int] == (c, cats@[i as int].1@));
        assert(c == cleanup_categories()[i as int]);
        if str_eq(c.as_str(), name) {
            return Some(c);
        }
        i = i + 1;
    }
    None
}

/// Resolves category names (`all` = every category except the Trash) to the selected
/// categories, in registry order.
pub fn select(names: &Vec<String>) -> (r: Result<Vec<Category>, CategoryError>)
    ensures
        names@.len() == 0 <==> r == Err::<Vec<Category>, CategoryError>(CategoryError::NoneGiven),
        r is Ok <==> (names@.len() > 0 && forall|i: int| 0 <= i < names@.len() ==> valid_name(#[trigger] names@[i]@)),
        r matches Err(CategoryError::Unknown(n)) ==> exists|i: int|
            0 <= i < names@.len() && names@[i] == n && !valid_name(n@) && forall|j: int|
                0 <= j < i ==> valid_name(#[trigger] names@[j]@),
        r matches Ok(v) ==> v@ == cleanup_categories().filter(|c: Category| requested(name_views(names@), c)),
{
    if names.len() == 0 {
        return Err(CategoryError::NoneGiven);
    }
    let mut i: usize = 0;
    while i < names.len()
        invariant
            i <= names@.len(),
            forall|j: int| 0 <= j < i ==> valid_name(#[trigger] names@[j]@),
        decreases names@.len() - i,
    {
        let n = names[i].as_str();
        if !str_eq(n, "all") {
            match match_category(n) {
                Some(c) => {
                    proof {
                        let k = choose|k: int| 0 <= k < cleanup_categories().len() && cleanup_categories()[k] == c;
                        assert(cleanup_categories()[k].name() == names@[i as int]@);
                    }
                },
                None => {
                    return Err(CategoryError::Unknown(names[i].clone()));
                },
            }
        }
        i = i + 1;
    }
    let cats = categories();
    let ghost nv = name_views(names@);
    let ghost pred = |c: Category| requested(nv, c);
    let mut out: Vec<Category> = Vec::new();
    let mut k: usize = 0;
    while k < cats.len()
        invariant
            k <= cats@.len(),
            cats@.map_values(|c: (Category, &str)| (c.0, c.1@)) == category_rows(),
            nv == name_views(names@),
            pred == (|c: Category| requested(nv, c)),
            out@ == cleanup_categories().take(k as int).filter(pred),
        decreases cats@.len() - k,
    {
        let c = cats[k].0;
        assert(cats@.map_values(|c: (Category, &str)| (c.0, c.1@))[k as int] == (c, cats@[k as int].1@));
        assert(c == cleanup_categories()[k as int]);
        let mut wanted = false;
        let mut j: usize = 0;
        while j < names.len()
            invariant
                j <= names@.len(),
                nv == name_views(names@),
                c == cleanup_categories()[k as int],
                wanted == exists|m: int| 0 <= m < j && (#[trigger] nv[m] == c.name() || (nv[m] == "all"@ && c != Category::Trash)),
            decreases names@.len() - j,
        {
            let n = names[j].as_str();
            assert(nv[j as int] == n@);
            if str_eq(n, c.as_str()) || (str_eq(n, "all") && c != Category::Trash) {
                wanted = true;
            }
            j = j + 1;
        }
        let ghost before = out@;
        if wanted {
            out.push(c);
        }
        proof {
            assert(cleanup_categories().take(k + 1) =~= cleanup_categories().take(k as int).push(c));
            assert(wanted == pred(c));
        }
        k = k + 1;
    }
    proof {
        assert(cleanup_categories().len() == cats@.len());
        assert(cleanup_categories().take(cats@.len() as int) =~= cleanup_categories());
    }
    Ok(out)
}

/// Items of the scans whose category is in `sel`, in scan order.
pub open spec fn merged_items(scanned: Seq<(Category, Plan)>, sel: Seq<Category>) -> Seq<Item>
    decreases scanned.len(),
{
    if scanned.len() == 0 {
        Seq::empty()
    } else {
        let prev = merged_items(scanned.drop_last(), sel);
        if sel.contains(scanned.last().0) {
            prev + scanned.last().1.items@
        } else {
            prev
        }
    }
}

/// Warnings of the scans whose category is in `sel`, in scan order.
pub open spec fn merged_warnings(scanned: Seq<(Category, Plan)>, sel: Seq<Category>) -> Seq<String>
    decreases scanned.len(),
{
    if scanned.len() == 0 {
        Seq::empty()
    } else {
        let prev = merged_warnings(scanned.drop_last(), sel);
        if sel.contains(scanned.last().0) {
            prev + scanned.last().1.warnings@
        } else {
            prev
        }
    }
}

fn contains_category(v: &Vec<Category>, c: Category) -> (r: bool)
    ensures
        r == v@.contains(c),
{
    let mut i: usize = 0;
    while i < v.len()
        invariant
            i <= v@.len(),
            forall|j: int| 0 <= j < i ==> v@[j] != c,
        decreases v@.len() - i,
    {
        if v[i] == c {
            return true;
        }
        i = i + 1;
    }
    false
}

/// Resolves `names` like `select` and merges the plans of the selected categories out of
/// `scanned` (one scan per category, in registry order), keeping their order.
pub fn build_plan(names: &Vec<String>, scanned: Vec<(Category, Plan)>) -> (r: Result<Plan, CategoryError>)
    ensures
        names@.len() == 0 <==> r matches Err(CategoryError::NoneGiven),
        r is Ok <==> (names@.len() > 0 && forall|i: int| 0 <= i < names@.len() ==> valid_name(#[trigger] names@[i]@)),
        r matches Err(CategoryError::Unknown(n)) ==> exists|i: int|
            0 <= i < names@.len() && names@[i] == n && !valid_name(n@) && forall|j: int|
                0 <= j < i ==> valid_name(#[trigger] names@[j]@),
        r matches Ok(p) ==> {
            let sel = cleanup_categories().filter(|c: Category| requested(name_views(names@), c));
            &&& p.items@ == merged_items(scanned@, sel)
            &&& p.warnings@ == merged_warnings(scanned@, sel)
        },
{
    let selected = match select(names) {
        Err(e) => return Err(e),
        Ok(s) => s,
    };
    let mut merged = Plan { items: Vec::new(), warnings: Vec::new() };
    let mut rest = scanned;
    let ghost all = rest@;
    let mut pending: Vec<(Category, Plan)> = Vec::new();
    let n = rest.len();
    while rest.len() > 0
        invariant
            pending@.len() + rest@.len() == n,
            n == all.len(),
            forall|k: int| 0 <= k < pending@.len() ==> pending@[k] == all[n - 1 - k],
            rest@ == all.take(rest@.len() as int),
        decreases rest@.len(),
    {
        let x = rest.pop().unwrap();
        pending.push(x);
        proof {
            assert(rest@ =~= all.take(rest@.len() as int));
        }
    }
    let mut done: usize = 0;
    proof {
        assert(all.take(0) =~= Seq::<(Category, Plan)>::empty());
    }
    while pending.len() > 0
        invariant
            pending@.len() + done == n,
            n == all.len(),
            forall|k: int| 0 <= k < pending@.len() ==> pending@[k] == all[n - 1 - k],
            merged.items@ == merged_items(all.take(done as int), selected@),
            merged.warnings@ == merged_warnings(all.take(done as int), selected@),
        decreases pending@.len(),
    {
        let (c, mut p) = pending.pop().unwrap();
        proof {
            assert(all.take(done + 1).drop_last() =~= all.take(done as int));
            assert(all.take(done + 1).last() == all[done as int]);
        }
        if contains_category(&selected, c) {
            merged.items.append(&mut p.items);
            merged.warnings.append(&mut p.warnings);
        }
        done = done + 1;
    }
    proof {
        assert(all.take(n as int) =~= all);
    }
    Ok(merged)
}

/// The cleanup locations of one category, in table order.
pub fn targets_for(category: Category) -> (r: Vec<Target>)
    ensures
        r@.map_values(|t: Target| t.row()) == target_rows().filter(|row: Row| row.0 == category),
{
    let all = targets();
    let mut rest = all;
    let ghost table = rest@;
    let mut pending: Vec<Target> = Vec::new();
    let n = rest.len();
    while rest.len() > 0
        invariant
            pending@.len() + rest@.len() == n,
            n == table.len(),
            forall|k: int| 0 <= k < pending@.len() ==> pending@[k] == table[n - 1 - k],
            rest@ == table.take(rest@.len() as int),
        decreases rest@.len(),
    {
        let x = rest.pop().unwrap();
        pending.push(x);
        proof {
            assert(rest@ =~= table.take(rest@.len() as int));
        }
    }
    let mut out: Vec<Target> = Vec::new();
    let mut done: usize = 0;
    let ghost rows = table.map_values(|t: Target| t.row());
    proof {
        assert(rows.take(0).filter(|row: Row| row.0 == category) =~= Seq::<Row>::empty());
        assert(out@.map_values(|t: Target| t.row()) =~= Seq::<Row>::empty());
    }
    while pending.len() > 0
        invariant
            pending@.len() + done == n,
            n == table.len(),
            rows == table.map_values(|t: Target| t.row()),
            forall|k: int| 0 <= k < pending@.len() ==> pending@[k] == table[n - 1 - k],
            out@.map_values(|t: Target| t.row()) == rows.take(done as int).filter(|row: Row| row.0 == category),
        decreases pending@.len(),
    {
        let x = pending.pop().unwrap();
        let ghost before = out@;
        proof {
            assert(rows.take(done + 1) =~= rows.take(done as int).push(x.row()));
        }
        if x.category == category {
            out.push(x);
            proof {
                assert(out@.map_values(|t: Target| t.row()) =~= before.map_values(|t: Target| t.row()).push(
                    x.row(),
                ));
            }
        }
        done = done + 1;
    }
    proof {
        assert(rows.take(n as int) =~= rows);
    }
    out
}

/// Where a target's location is: its relative path under `home`.
pub fn target_root(home: &str, target: &Target) -> (r: String)
    ensures
        r@ == join_spec(home@, target.rel_path@),
{
    join(home, target.rel_path)
}

/// A child of a scanned location.
pub struct Child {
    pub name: String,
    pub path: String,
    /// Bytes, counted without following symlinks (0 when unreadable).
    pub size: u64,
}

/// What was found at a target's location.
pub enum RootState {
    /// Nothing there, or unreadable for a reason other than permissions.
    Absent,
    /// A directory that could not be listed for lack of permission.
    Unreadable,
    /// The location exists and has this many bytes (for `Mode::Whole`).
    Found(u64),
    /// The children of the directory, in listing order (for `Mode::Contents`).
    Children(Vec<Child>),
}

/// The warning given for a location that needs Full Disk Access.
pub open spec fn access_warning(root: Seq<char>) -> Seq<char> {
    "cannot read "@ + root + ": grant your terminal Full Disk Access in System Settings > Privacy & Security"@
}

/// Whether `name` is claimed by another category.
pub open spec fn skipped(row: Row, name: Seq<char>) -> bool {
    row.3.contains(name)
}

/// The items that the children of a location become.
pub open spec fn child_items(row: Row, children: Seq<Child>) -> Seq<ItemView>
    decreases children.len(),
{
    if children.len() == 0 {
        Seq::empty()
    } else {
        let prev = child_items(row, children.drop_last());
        let c = children.last();
        if skipped(row, c.name@) {
            prev
        } else {
            prev.push((c.path@, c.size, row.0, row.4))
        }
    }
}

/// What `state` requires of its target's mode.
pub open spec fn state_fits(mode: Mode, state: RootState) -> bool {
    match state {
        RootState::Found(_) => mode == Mode::Whole,
        RootState::Children(_) | RootState::Unreadable => mode == Mode::Contents,
        RootState::Absent => true,
    }
}

fn is_skipped(target: &Target, name: &str) -> (r: bool)
    ensures
        r == skipped(target.row(), name@),
{
    let mut i: usize = 0;
    while i < target.skip.len()
        invariant
            i <= target.skip@.len(),
            forall|j: int| 0 <= j < i ==> target.skip@[j]@ != name@,
        decreases target.skip@.len() - i,
    {
        if str_eq(target.skip[i], name) {
            assert(target.row().3[i as int] == name@);
            return true;
        }
        i = i + 1;
    }
    proof {
        if target.row().3.contains(name@) {
            let j = choose|j: int| 0 <= j < target.row().3.len() && target.row().3[j] == name@;
            assert(target.skip@[j]@ == name@);
        }
    }
    false
}

/// Adds what one location contributes to `plan`: the location itself (whole mode), or each
/// child not claimed by another category (contents mode); a location that cannot be read
/// for lack of permission adds a warning; an absent one adds nothing.
pub fn scan_target(target: &Target, root: &str, state: &RootState, plan: &mut Plan)
    requires
        state_fits(target.mode, *state),
    ensures
        match *state {
            RootState::Found(size) => {
                &&& item_views(final(plan).items@) == item_views(old(plan).items@).push(
                    (root@, size, target.category, target.reason@),
                )
                &&& final(plan).warnings@ == old(plan).warnings@
            },
            RootState::Children(cs) => {
                &&& item_views(final(plan).items@) == item_views(old(plan).items@) + child_items(target.row(), cs@)
                &&& final(plan).warnings@ == old(plan).warnings@
            },
            RootState::Unreadable => {
                &&& final(plan).items@ == old(plan).items@
                &&& final(plan).warnings@.len() == old(plan).warnings@.len() + 1
                &&& final(plan).warnings@.drop_last() == old(plan).warnings@
                &&& final(plan).warnings@.last()@ == access_warning(root@)
            },
            RootState::Absent => {
                &&& final(plan).items@ == old(plan).items@
                &&& final(plan).warnings@ == old(plan).warnings@
            },
        },
{
    match state {
        RootState::Absent => {},
        RootState::Unreadable => {
            let mut w = "cannot read ".to_owned();
            w.append(root);
            w.append(": grant your terminal Full Disk Access in System Settings > Privacy & Security");
            plan.warnings.push(w);
        },
        RootState::Found(size) => {
            let ghost before = plan.items@;
            plan.items.push(
                Item { path: root.to_owned(), size: *size, category: target.category, reason: target.reason.to_owned() },
            );
            proof {
                assert(item_views(plan.items@) =~= item_views(before).push(
                    (root@, *size, target.category, target.reason@),
                ));
            }
        },
        RootState::Children(cs) => {
            let ghost start = item_views(plan.items@);
            let ghost warnings = plan.warnings@;
            let ghost all = cs@;
            let mut i: usize = 0;
            while i < cs.len()
                invariant
                    i <= cs@.len(),
                    cs@ == all,
                    plan.warnings@ == warnings,
                    item_views(plan.items@) == start + child_items(target.row(), all.take(i as int)),
                decreases cs@.len() - i,
            {
                let c = &cs[i];
                proof {
                    assert(all.take(i + 1).drop_last() =~= all.take(i as int));
                }
                let ghost before = plan.items@;
                if !is_skipped(target, c.name.as_str()) {
                    plan.items.push(
                        Item {
                            path: c.path.clone(),
                            size: c.size,
                            category: target.category,
                            reason: target.reason.to_owned(),
                        },
                    );
                    proof {
                        assert(item_views(plan.items@) =~= item_views(before).push(
                            (c.path@, c.size, target.category, target.reason@),
                        ));
                    }
                }
                i = i + 1;
            }
            proof {
                assert(all.take(all.len() as int) =~= all);
            }
        },
    }
}

} // verus!

verus! {

/// `all` asks for every cleanup category but the Trash, and the Trash is asked for only
/// by its own name.
pub proof fn all_means_every_category_but_trash(names: Seq<Seq<char>>, c: Category)
    ensures
        names.contains("all"@) && c != Category::Trash ==> requested(names, c),
        requested(names, Category::Trash) <==> names.contains("trash"@),
{
    if names.contains("all"@) && c != Category::Trash {
        let i = choose|i: int| 0 <= i < names.len() && names[i] == "all"@;
        assert(names[i] == c.name() || (names[i] == "all"@ && c != Category::Trash));
    }
    if names.contains("trash"@) {
        let i = choose|i: int| 0 <= i < names.len() && names[i] == "trash"@;
        assert(names[i] == Category::Trash.name());
    }
}

/// A merged plan holds only items of the selected categories, when every scan's items
/// carry the category of their scan.
pub proof fn merged_items_are_selected(scanned: Seq<(Category, Plan)>, sel: Seq<Category>, k: int)
    requires
        forall|j: int, m: int|
            0 <= j < scanned.len() && 0 <= m < scanned[j].1.items@.len() ==> (#[trigger] scanned[j].1.items@[m]).category
                == scanned[j].0,
        0 <= k < merged_items(scanned, sel).len(),
    ensures
        sel.contains(merged_items(scanned, sel)[k].category),
    decreases scanned.len(),
{
    let init = scanned.drop_last();
    let prev = merged_items(init, sel);
    assert forall|j: int, m: int|
        0 <= j < init.len() && 0 <= m < init[j].1.items@.len() implies (#[trigger] init[j].1.items@[m]).category
            == init[j].0 by {
        assert(init[j] == scanned[j]);
    }
    if k < prev.len() {
        merged_items_are_selected(init, sel, k);
    } else {
        let last = scanned.last();
        assert(sel.contains(last.0));
        let m = k - prev.len();
        assert(merged_items(scanned, sel)[k] == last.1.items@[m]);
        assert(scanned[scanned.len() - 1].1.items@[m].category == scanned[scanned.len() - 1].0);
    }
}

} // verus!

verus! {

/// Bytes that cleaning every scanned category but the Trash would reclaim.
pub open spec fn reclaimable_spec(rows: Seq<(Category, &'static str, Plan)>) -> nat
    decreases rows.len(),
{
    if rows.len() == 0 {
        0
    } else {
        let last = rows.last();
        reclaimable_spec(rows.drop_last()) + if last.0 == Category::Trash { 0 } else { sum_sizes(last.2.items@) }
    }
}

proof fn lemma_reclaimable_prefix(rows: Seq<(Category, &'static str, Plan)>, k: int)
    requires
        0 <= k <= rows.len(),
    ensures
        reclaimable_spec(rows.take(k)) <= reclaimable_spec(rows),
    decreases rows.len() - k,
{
    if k < rows.len() {
        lemma_reclaimable_prefix(rows, k + 1);
        assert(rows.take(k + 1).drop_last() =~= rows.take(k));
    } else {
        assert(rows.take(k) =~= rows);
    }
}

/// The space a scan found to reclaim, the Trash excluded.
pub fn reclaimable(rows: &Vec<(Category, &'static str, Plan)>) -> (r: u64)
    requires
        reclaimable_spec(rows@) <= u64::MAX,
    ensures
        r == reclaimable_spec(rows@),
{
    let mut total: u64 = 0;
    let mut i: usize = 0;
    while i < rows.len()
        invariant
            i <= rows@.len(),
            total == reclaimable_spec(rows@.take(i as int)),
            reclaimable_spec(rows@) <= u64::MAX,
        decreases rows@.len() - i,
    {
        proof {
            assert(rows@.take(i + 1).drop_last() =~= rows@.take(i as int));
            lemma_reclaimable_prefix(rows@, i + 1);
        }
        let row = &rows[i];
        if row.0 != Category::Trash {
            total = total + row.2.total_size();
        }
        i = i + 1;
    }
    proof {
        assert(rows@.take(i as int) =~= rows@);
    }
    total
}

} // verus!
