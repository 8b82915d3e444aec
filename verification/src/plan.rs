//! What a scan proposes to delete. Building a plan never touches the disk.

use vstd::prelude::*;
use crate::sort::{sort_stable, stable_sort, stable_sort_map};

verus! {

broadcast use Seq::lemma_filter_push;

/// What kind of thing an item is. The names are user-visible (CLI arguments and JSON output).
#[derive(Clone, Copy, Debug, PartialEq, Eq, Structural)]
pub enum Category {
    Caches,
    Logs,
    Trash,
    Xcode,
    Browsers,
    Dev,
    App,
    /// Data matched to an uninstalled app by exact bundle ID.
    Leftover,
    /// A folder that merely shares an app's name.
    Fuzzy,
    /// Data whose bundle ID matches no installed app.
    Orphaned,
    Large,
    Dupes,
}

impl Category {
    /// The user-visible name of the category.
    pub open spec fn name(self) -> Seq<char> {
        match self {
            Category::Caches => "caches"@,
            Category::Logs => "logs"@,
            Category::Trash => "trash"@,
            Category::Xcode => "xcode"@,
            Category::Browsers => "browsers"@,
            Category::Dev => "dev"@,
            Category::App => "app"@,
            Category::Leftover => "leftover"@,
            Category::Fuzzy => "fuzzy"@,
            Category::Orphaned => "leftovers"@,
            Category::Large => "large"@,
            Category::Dupes => "dupes"@,
        }
    }

    /// App bundles and their data cannot be regenerated, so they only ever go to the Trash.
    pub open spec fn permanent_ok(self) -> bool {
        !(self is App || self is Leftover || self is Fuzzy || self is Orphaned)
    }

    pub fn as_str(self) -> (r: &'static str)
        ensures
            r@ == self.name(),
    {
        match self {
            Category::Caches => "caches",
            Category::Logs => "logs",
            Category::Trash => "trash",
            Category::Xcode => "xcode",
            Category::Browsers => "browsers",
            Category::Dev => "dev",
            Category::App => "app",
            Category::Leftover => "leftover",
            Category::Fuzzy => "fuzzy",
            Category::Orphaned => "leftovers",
            Category::Large => "large",
            Category::Dupes => "dupes",
        }
    }

    /// Whether items of this kind may be deleted without going through the Trash.
    /// Caches, logs and files the user picked by hand are fine; app bundles and their data
    /// cannot be regenerated, so those always go to the Trash where they can be restored.
    pub fn allows_permanent(self) -> (r: bool)
        ensures
            r == self.permanent_ok(),
    {
        !matches!(self, Category::App | Category::Leftover | Category::Fuzzy | Category::Orphaned)
    }

    /// Emptying the Trash is irreversible, so bulk selections leave it out.
    pub fn is_trash(self) -> (r: bool)
        ensures
            r == (self == Category::Trash),
    {
        self == Category::Trash
    }
}

/// One thing a plan proposes to delete.
#[derive(Debug)]
pub struct Item {
    pub path: String,
    pub size: u64,
    pub category: Category,
    pub reason: String,
}

/// An item as plain values: path, size, category, reason.
pub type ItemView = (Seq<char>, u64, Category, Seq<char>);

impl View for Item {
    type V = ItemView;

    open spec fn view(&self) -> ItemView {
        (self.path@, self.size, self.category, self.reason@)
    }
}

/// The views of a sequence of items.
pub open spec fn item_views(s: Seq<Item>) -> Seq<ItemView> {
    s.map_values(|i: Item| i@)
}

impl Clone for Item {
    fn clone(&self) -> (r: Self)
        ensures
            r == *self,
    {
        Item {
            path: self.path.clone(),
            size: self.size,
            category: self.category,
            reason: self.reason.clone(),
        }
    }
}

impl Item {
    /// An item for `path`, whose size was measured without following symlinks;
    /// a path that could not be read (`None`) counts as 0 bytes.
    pub fn from_path(path: String, size: Option<u64>, category: Category, reason: String) -> (r: Item)
        ensures
            r.path == path,
            r.size == (match size {
                Some(s) => s,
                None => 0,
            }),
            r.category == category,
            r.reason == reason,
    {
        let size = match size {
            Some(s) => s,
            None => 0,
        };
        Item { path, size, category, reason }
    }
}

/// Total of the sizes of `items`.
pub open spec fn sum_sizes(items: Seq<Item>) -> nat
    decreases items.len(),
{
    if items.len() == 0 {
        0
    } else {
        sum_sizes(items.drop_last()) + items.last().size as nat
    }
}

/// Items that may only go to the Trash.
pub open spec fn trash_only_items(items: Seq<Item>) -> Seq<Item> {
    items.filter(|i: Item| !i.category.permanent_ok())
}

/// What a module proposes to delete. Building a plan never modifies the disk.
#[derive(Debug)]
pub struct Plan {
    pub items: Vec<Item>,
    /// Non-fatal problems found while scanning, e.g. a directory that needs Full Disk Access.
    pub warnings: Vec<String>,
}

impl Default for Plan {
    fn default() -> (r: Self)
        ensures
            r.items@.len() == 0,
            r.warnings@.len() == 0,
    {
        Plan { items: Vec::new(), warnings: Vec::new() }
    }
}

/// Sum of `sizes`, computed left to right in `u64` as long as it fits.
pub fn sum_of_sizes(items: &Vec<Item>) -> (r: u64)
    requires
        sum_sizes(items@) <= u64::MAX,
    ensures
        r == sum_sizes(items@),
{
    let mut total: u64 = 0;
    let mut i: usize = 0;
    while i < items.len()
        invariant
            i <= items@.len(),
            total == sum_sizes(items@.take(i as int)),
            sum_sizes(items@) <= u64::MAX,
        decreases items@.len() - i,
    {
        proof {
            assert(items@.take(i + 1).drop_last() =~= items@.take(i as int));
            lemma_sum_sizes_prefix(items@, i + 1);
        }
        total = total + items[i].size;
        i = i + 1;
    }
    proof {
        assert(items@.take(items@.len() as int) =~= items@);
    }
    total
}

/// The sum of the sizes of `items`, or `None` when it does not fit `u64`.
pub fn checked_total(items: &Vec<Item>) -> (r: Option<u64>)
    ensures
        match r {
            Some(t) => t == sum_sizes(items@),
            None => sum_sizes(items@) > u64::MAX,
        },
{
    let mut total: u64 = 0;
    let mut i: usize = 0;
    while i < items.len()
        invariant
            i <= items@.len(),
            total == sum_sizes(items@.take(i as int)),
        decreases items@.len() - i,
    {
        proof {
            assert(items@.take(i + 1).drop_last() =~= items@.take(i as int));
        }
        if total > u64::MAX - items[i].size {
            proof {
                lemma_sum_sizes_prefix(items@, i + 1);
            }
            return None;
        }
        total = total + items[i].size;
        i = i + 1;
    }
    proof {
        assert(items@.take(items@.len() as int) =~= items@);
    }
    Some(total)
}

/// A prefix never sums to more than the whole.
pub proof fn lemma_sum_sizes_prefix(items: Seq<Item>, k: int)
    requires
        0 <= k <= items.len(),
    ensures
        sum_sizes(items.take(k)) <= sum_sizes(items),
    decreases items.len() - k,
{
    if k < items.len() {
        lemma_sum_sizes_prefix(items, k + 1);
        assert(items.take(k + 1).drop_last() =~= items.take(k));
    } else {
        assert(items.take(k) =~= items);
    }
}

impl Plan {
    /// Items that may not be deleted permanently (see `Category::allows_permanent`).
    pub fn trash_only(&self) -> (r: Vec<&Item>)
        ensures
            r@.map_values(|i: &Item| *i) == trash_only_items(self.items@),
    {
        let mut out: Vec<&Item> = Vec::new();
        let mut i: usize = 0;
        while i < self.items.len()
            invariant
                i <= self.items@.len(),
                out@.map_values(|x: &Item| *x) == trash_only_items(self.items@.take(i as int)),
            decreases self.items@.len() - i,
        {
            let it = &self.items[i];
            let ghost prev = out@;
            proof {
                assert(self.items@.take(i + 1) =~= self.items@.take(i as int).push(*it));
            }
            if !it.category.allows_permanent() {
                out.push(it);
                proof {
                    assert(out@.map_values(|x: &Item| *x) =~= prev.map_values(|x: &Item| *x).push(*it));
                }
            }
            i = i + 1;
        }
        proof {
            assert(self.items@.take(self.items@.len() as int) =~= self.items@);
        }
        out
    }

    /// Total bytes of all items.
    pub fn total_size(&self) -> (r: u64)
        requires
            sum_sizes(self.items@) <= u64::MAX,
        ensures
            r == sum_sizes(self.items@),
    {
        sum_of_sizes(&self.items)
    }
}


/// Larger items first.
pub open spec fn larger_first(a: Item, b: Item) -> bool {
    a.size >= b.size
}

/// Larger items first, on views.
pub open spec fn larger_first_view(a: ItemView, b: ItemView) -> bool {
    a.1 >= b.1
}

fn is_not_smaller(a: &Item, b: &Item) -> (x: bool)
    ensures
        x == larger_first(*a, *b),
{
    a.size >= b.size
}

/// Sorts items largest first; items of equal size keep their order.
pub fn largest_first(items: Vec<Item>) -> (r: Vec<Item>)
    ensures
        r@ == stable_sort(items@, |a: Item, b: Item| larger_first(a, b)),
        item_views(r@) == stable_sort(item_views(items@), |a: ItemView, b: ItemView| larger_first_view(a, b)),
{
    let r = sort_stable(items, is_not_smaller, Ghost(|a: Item, b: Item| larger_first(a, b)));
    proof {
        stable_sort_map(
            items@,
            |a: Item, b: Item| larger_first(a, b),
            |i: Item| i@,
            |a: ItemView, b: ItemView| larger_first_view(a, b),
        );
    }
    r
}

} // verus!

verus! {

/// Sorting largest first yields the same items, each at least as large as the next.
pub proof fn largest_first_sorts(items: Seq<Item>)
    ensures
        crate::sort::sorted_by(stable_sort(items, |a: Item, b: Item| larger_first(a, b)), |a: Item, b: Item| larger_first(a, b)),
        stable_sort(items, |a: Item, b: Item| larger_first(a, b)).to_multiset() == items.to_multiset(),
{
    let le = |a: Item, b: Item| larger_first(a, b);
    assert(crate::sort::total_preorder(le));
    crate::sort::stable_sort_is_sorted(items, le);
    crate::sort::stable_sort_permutes(items, le);
}

} // verus!
