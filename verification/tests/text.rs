use klinit::config::{path as config_path, Config};
use klinit::path::{components_of, extension, file_name, file_stem, join, parent_is, same, starts_with};
use klinit::plan::{largest_first, Category, Item, Plan};
use klinit::text::{decimal, ends_with_str, starts_with_str, str_le, strip_suffix};

#[test]
fn decimal_formats_like_display() {
    assert_eq!(decimal(0), "0");
    assert_eq!(decimal(42), "42");
    assert_eq!(decimal(u64::MAX), u64::MAX.to_string());
}

#[test]
fn components_follow_std_path() {
    assert_eq!(components_of("/a//b/./c/"), vec!["/", "a", "b", "c"]);
    assert_eq!(components_of("./x/.."), vec![".", "x", ".."]);
    assert_eq!(components_of(""), Vec::<String>::new());
    assert!(same("/a/b/", "/a//b"));
    assert!(starts_with("/Users/x/Library", "/Users/x"));
    assert!(!starts_with("/Users/xy", "/Users/x"));
}

#[test]
fn join_and_names() {
    assert_eq!(join("/Users/x", "Library"), "/Users/x/Library");
    assert_eq!(join("/Users/x/", "Library"), "/Users/x/Library");
    assert_eq!(join("/Users/x", "/etc"), "/etc");
    assert_eq!(file_name("/Applications/Foo.app"), Some("Foo.app".to_string()));
    assert_eq!(file_name("/"), None);
    assert_eq!(extension("/a/Foo.app"), Some("app".to_string()));
    assert_eq!(extension("/a/.bashrc"), None);
    assert_eq!(file_stem("/a/Foo.app"), "Foo");
    assert!(parent_is("/Applications/Foo.app", "/Applications"));
    assert!(!parent_is("/Applications/Foo.app/Contents", "/Applications"));
}

#[test]
fn small_string_helpers() {
    assert_eq!(klinit::text::concat("ab", "cd"), "abcd");
    assert!(starts_with_str("com.apple.x", "com.apple."));
    assert!(ends_with_str("x.plist", ".plist"));
    assert_eq!(strip_suffix("a.plist", ".plist"), Some("a".to_string()));
    assert_eq!(strip_suffix("a", ".plist"), None);
    assert!(str_le("Apple", "apple"));
    assert!(!str_le("b", "a"));
}

#[test]
fn config_lives_under_dot_config_and_excludes_join_home() {
    assert_eq!(config_path("/Users/x"), "/Users/x/.config/klinit/config.toml");
    let c = Config { exclude: vec!["Projects".to_string(), "/abs".to_string()], default_categories: vec![] };
    assert_eq!(c.exclude_paths("/Users/x"), vec!["/Users/x/Projects".to_string(), "/abs".to_string()]);
    assert_eq!(Config::default(), Config { exclude: vec![], default_categories: vec![] });
}

#[test]
fn plan_sizes_and_order() {
    let item = |p: &str, s: u64, c: Category| Item { path: p.to_string(), size: s, category: c, reason: String::new() };
    let plan = Plan { items: vec![item("/a", 3, Category::Caches), item("/b", 7, Category::App), item("/c", 7, Category::Logs)], warnings: vec![] };
    assert_eq!(plan.total_size(), 17);
    let trash_only: Vec<&str> = plan.trash_only().iter().map(|i| i.path.as_str()).collect();
    assert_eq!(trash_only, ["/b"]);
    let sorted = largest_first(plan.items);
    let paths: Vec<&str> = sorted.iter().map(|i| i.path.as_str()).collect();
    assert_eq!(paths, ["/b", "/c", "/a"]);
    assert_eq!(Category::Caches.as_str(), "caches");
    assert!(!Category::App.allows_permanent());
    assert!(Category::Trash.allows_permanent());
}
