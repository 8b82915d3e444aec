//! Cleanup locations as data: macOS paths shift between versions, so they live in one table.

use vstd::prelude::*;
use crate::plan::Category;

verus! {

#[derive(Clone, Copy, Debug, PartialEq, Eq, Structural)]
pub enum Mode {
    /// Each child of the directory is an item; the directory itself is kept.
    Contents,
    /// The path itself is the item.
    Whole,
}

pub struct Target {
    pub category: Category,
    pub rel_path: &'static str,
    pub mode: Mode,
    /// Child names (Contents mode) claimed by another category, so nothing is counted twice.
    pub skip: Vec<&'static str>,
    pub reason: &'static str,
}

/// A table row as plain values: category, relative path, mode, skipped names, reason.
pub type Row = (Category, Seq<char>, Mode, Seq<Seq<char>>, Seq<char>);

impl Target {
    pub open spec fn row(&self) -> Row {
        (self.category, self.rel_path@, self.mode, self.skip@.map_values(|s: &str| s@), self.reason@)
    }
}

/// The cleanup categories in registry order, with their descriptions.
pub open spec fn category_rows() -> Seq<(Category, Seq<char>)> {
    seq![
        (Category::Caches, "Application caches in ~/Library/Caches"@),
        (Category::Logs, "Application and crash logs"@),
        (Category::Trash, "Files in the Trash (not recoverable)"@),
        (Category::Xcode, "Xcode derived data and simulator caches"@),
        (Category::Browsers, "Safari, Chrome and Firefox caches (never profiles or history)"@),
        (Category::Dev, "Package manager and build tool caches"@),
    ]
}

/// The cleanup categories, in registry order.
pub open spec fn cleanup_categories() -> Seq<Category> {
    category_rows().map_values(|r: (Category, Seq<char>)| r.0)
}

/// Every cleanup location.
pub open spec fn target_rows() -> Seq<Row> {
    seq![
        (
            Category::Caches,
            "Library/Caches"@,
            Mode::Contents,
            seq!["com.apple.Safari"@, "Google"@, "Firefox"@, "Yarn"@, "Homebrew"@],
            "application cache"@,
        ),
        (Category::Logs, "Library/Logs"@, Mode::Contents, Seq::empty(), "application log"@),
        (Category::Logs, "Library/Application Support/CrashReporter"@, Mode::Contents, Seq::empty(), "crash report"@),
        (Category::Trash, ".Trash"@, Mode::Contents, Seq::empty(), "in Trash"@),
        (Category::Xcode, "Library/Developer/Xcode/DerivedData"@, Mode::Contents, Seq::empty(), "Xcode derived data"@),
        (
            Category::Xcode,
            "Library/Developer/Xcode/iOS DeviceSupport"@,
            Mode::Contents,
            Seq::empty(),
            "iOS device support files"@,
        ),
        (Category::Xcode, "Library/Developer/CoreSimulator/Caches"@, Mode::Contents, Seq::empty(), "simulator cache"@),
        (Category::Browsers, "Library/Caches/com.apple.Safari"@, Mode::Whole, Seq::empty(), "Safari cache"@),
        (Category::Browsers, "Library/Caches/Google/Chrome"@, Mode::Whole, Seq::empty(), "Chrome cache"@),
        (Category::Browsers, "Library/Caches/Firefox"@, Mode::Whole, Seq::empty(), "Firefox cache"@),
        (Category::Dev, ".npm/_cacache"@, Mode::Whole, Seq::empty(), "npm cache"@),
        (Category::Dev, "Library/Caches/Yarn"@, Mode::Whole, Seq::empty(), "Yarn cache"@),
        (Category::Dev, ".cargo/registry/cache"@, Mode::Whole, Seq::empty(), "Cargo registry cache"@),
        (Category::Dev, "Library/Caches/Homebrew"@, Mode::Whole, Seq::empty(), "Homebrew download cache"@),
        (Category::Dev, ".gradle/caches"@, Mode::Whole, Seq::empty(), "Gradle cache"@),
    ]
}

/// A row with no skipped names.
fn t(category: Category, rel_path: &'static str, mode: Mode, reason: &'static str) -> (r: Target)
    ensures
        r.row() == (category, rel_path@, mode, Seq::<Seq<char>>::empty(), reason@),
{
    let r = Target { category, rel_path, mode, skip: Vec::new(), reason };
    assert(r.skip@.map_values(|s: &str| s@) =~= Seq::<Seq<char>>::empty());
    r
}

/// The cleanup categories and their descriptions, in registry order.
pub fn categories() -> (r: Vec<(Category, &'static str)>)
    ensures
        r@.map_values(|c: (Category, &str)| (c.0, c.1@)) == category_rows(),
{
    let r = vec![
        (Category::Caches, "Application caches in ~/Library/Caches"),
        (Category::Logs, "Application and crash logs"),
        (Category::Trash, "Files in the Trash (not recoverable)"),
        (Category::Xcode, "Xcode derived data and simulator caches"),
        (Category::Browsers, "Safari, Chrome and Firefox caches (never profiles or history)"),
        (Category::Dev, "Package manager and build tool caches"),
    ];
    assert(r@.map_values(|c: (Category, &str)| (c.0, c.1@)) =~= category_rows());
    r
}

/// Every cleanup location, in table order.
pub fn targets() -> (r: Vec<Target>)
    ensures
        r@.map_values(|t: Target| t.row()) == target_rows(),
{
    let caches = Target {
        category: Category::Caches,
        rel_path: "Library/Caches",
        mode: Mode::Contents,
        skip: vec!["com.apple.Safari", "Google", "Firefox", "Yarn", "Homebrew"],
        reason: "application cache",
    };
    assert(caches.skip@.map_values(|s: &str| s@) =~= seq![
        "com.apple.Safari"@,
        "Google"@,
        "Firefox"@,
        "Yarn"@,
        "Homebrew"@,
    ]);
    let r = vec![
        caches,
        t(Category::Logs, "Library/Logs", Mode::Contents, "application log"),
        t(Category::Logs, "Library/Application Support/CrashReporter", Mode::Contents, "crash report"),
        t(Category::Trash, ".Trash", Mode::Contents, "in Trash"),
        t(Category::Xcode, "Library/Developer/Xcode/DerivedData", Mode::Contents, "Xcode derived data"),
        t(Category::Xcode, "Library/Developer/Xcode/iOS DeviceSupport", Mode::Contents, "iOS device support files"),
        t(Category::Xcode, "Library/Developer/CoreSimulator/Caches", Mode::Contents, "simulator cache"),
        t(Category::Browsers, "Library/Caches/com.apple.Safari", Mode::Whole, "Safari cache"),
        t(Category::Browsers, "Library/Caches/Google/Chrome", Mode::Whole, "Chrome cache"),
        t(Category::Browsers, "Library/Caches/Firefox", Mode::Whole, "Firefox cache"),
        t(Category::Dev, ".npm/_cacache", Mode::Whole, "npm cache"),
        t(Category::Dev, "Library/Caches/Yarn", Mode::Whole, "Yarn cache"),
        t(Category::Dev, ".cargo/registry/cache", Mode::Whole, "Cargo registry cache"),
        t(Category::Dev, "Library/Caches/Homebrew", Mode::Whole, "Homebrew download cache"),
        t(Category::Dev, ".gradle/caches", Mode::Whole, "Gradle cache"),
    ];
    assert(r@.map_values(|t: Target| t.row()) =~= target_rows());
    r
}

} // verus!
