use klinit::apps::{
    app_bundles, exact_candidates, find, find_keyed, fuzzy_candidates, installed_ids, plan_uninstall, read_app, uninstall_plan, App,
    BundleInfo, FindError, UninstallError,
};
use klinit::leftovers::Entry;
use klinit::plan::Category;

const HOME: &str = "/Users/x";

fn bundle(path: &str, id: &str) -> App {
    read_app(
        path.to_string(),
        BundleInfo { display_name: None, bundle_name: None, identifier: Some(id.to_string()), short_version: Some("1.2".to_string()) },
        50,
    )
}

fn setup() -> Vec<App> {
    vec![bundle("/Applications/Foo.app", "com.acme.foo"), bundle("/Applications/Safari.app", "com.apple.Safari")]
}

/// Probe results for candidate paths: the size of each that exists.
fn probe(cands: &[String], present: &[&str]) -> Vec<Option<u64>> {
    cands.iter().map(|c| if present.iter().any(|p| c.ends_with(p)) { Some(10) } else { None }).collect()
}

#[test]
fn discovers_bundle_metadata() {
    let apps = setup();
    let foo = find(&apps, "foo").unwrap();
    assert_eq!(foo.bundle_id.as_deref(), Some("com.acme.foo"));
    assert_eq!(foo.version.as_deref(), Some("1.2"));
    assert_eq!(foo.name, "Foo");
    assert!(foo.size >= 50);
    assert!(find(&apps, "com.acme.foo").is_ok());
    assert!(find(&apps, "Foo.app").is_ok());
    assert_eq!(find(&apps, "SAFARI").unwrap().name, "Safari");
    assert_eq!(find(&apps, "COM.ACME.FOO").unwrap().name, "Foo");
    assert_eq!(find(&apps, "nope").err(), Some(FindError::NoMatch("nope".to_string())));
}

#[test]
fn ambiguous_queries_list_the_candidates() {
    let apps = vec![bundle("/Applications/Foo.app", "com.a.foo"), bundle("/Users/x/Applications/Foo.app", "com.b.foo")];
    let err = find(&apps, "foo").err().unwrap();
    assert_eq!(err.message(), "`foo` is ambiguous: /Applications/Foo.app, /Users/x/Applications/Foo.app");
}

#[test]
fn exact_leftovers_by_bundle_id_and_fuzzy_separate() {
    let apps = setup();
    let foo = find(&apps, "Foo").unwrap();
    let exact = exact_candidates(foo, HOME);
    let exact_probe = probe(&exact, &["Application Support/com.acme.foo", "Preferences/com.acme.foo.plist"]);
    let groups = vec![
        Entry { name: "ABCDE.com.acme.foo".to_string(), path: "/Users/x/Library/Group Containers/ABCDE.com.acme.foo".to_string(), size: Some(10) },
        Entry { name: "ABCDE.com.acme.foobar".to_string(), path: "/Users/x/Library/Group Containers/ABCDE.com.acme.foobar".to_string(), size: Some(10) },
    ];
    let fuzzy = fuzzy_candidates(foo, HOME);
    let fuzzy_probe = probe(&fuzzy, &["Application Support/Foo"]);
    let up = uninstall_plan(foo, HOME, Some(50), &exact_probe, &groups, &fuzzy_probe).ok().unwrap();
    let paths: Vec<&str> = up.plan.items.iter().map(|i| i.path.as_str()).collect();
    assert_eq!(paths.len(), 4); // bundle + 3 exact
    assert!(!paths.iter().any(|p| p.ends_with("com.acme.foobar")));
    assert_eq!(up.plan.items[0].category, Category::App);
    assert_eq!(up.fuzzy.len(), 1);
    assert!(up.fuzzy[0].path.ends_with("Application Support/Foo"));
}

#[test]
fn apple_apps_are_refused() {
    let apps = setup();
    let safari = find(&apps, "Safari").unwrap();
    let exact = vec![None; exact_candidates(safari, HOME).len()];
    let fuzzy = vec![None; fuzzy_candidates(safari, HOME).len()];
    let r = uninstall_plan(safari, HOME, Some(50), &exact, &Vec::new(), &fuzzy);
    assert_eq!(r.err(), Some(UninstallError::SystemApp("Safari".to_string())));
    assert_eq!(
        UninstallError::SystemApp("Safari".to_string()).message(),
        "Safari is a system app (com.apple.*) and is never uninstalled"
    );
}

#[test]
fn running_check_uses_bundle_path() {
    let apps = setup();
    let foo = find(&apps, "Foo").unwrap();
    assert!(foo.is_running(&vec!["/Applications/Foo.app/Contents/MacOS/bin".to_string()]));
    assert!(!foo.is_running(&vec!["/usr/bin/ssh".to_string()]));
    assert!(!foo.is_running(&vec!["/Applications/Foo.apple/bin".to_string()]));
}

#[test]
fn running_apps_are_not_uninstalled_and_name_matches_are_warnings() {
    let apps = setup();
    let foo = find(&apps, "Foo").unwrap();
    let exact = vec![None; exact_candidates(foo, HOME).len()];
    let fuzzy_c = fuzzy_candidates(foo, HOME);
    let fuzzy = probe(&fuzzy_c, &["Caches/Foo"]);
    let running = vec!["/Applications/Foo.app/Contents/MacOS/Foo".to_string()];
    let r = plan_uninstall(foo, HOME, &running, false, Some(50), &exact, &Vec::new(), &fuzzy);
    assert_eq!(r.err(), Some("Foo is running; quit it first.".to_string()));
    let p = plan_uninstall(foo, HOME, &Vec::new(), false, Some(50), &exact, &Vec::new(), &fuzzy).ok().unwrap();
    assert_eq!(p.items.len(), 1);
    assert_eq!(p.warnings, vec!["not removed (name match only): /Users/x/Library/Caches/Foo".to_string()]);
    let p = plan_uninstall(foo, HOME, &Vec::new(), true, Some(50), &exact, &Vec::new(), &fuzzy).ok().unwrap();
    assert_eq!(p.items.len(), 2);
    assert_eq!(p.items[1].category, Category::Fuzzy);
    assert!(p.warnings.is_empty());
}

#[test]
fn bundles_and_ids() {
    let listed = vec![
        ("/Applications/Foo.app".to_string(), true),
        ("/Applications/notes.txt".to_string(), false),
        ("/Applications/Fake.app".to_string(), false),
    ];
    assert_eq!(app_bundles(listed), vec!["/Applications/Foo.app".to_string()]);
    let mut apps = setup();
    apps[1].bundle_id = None;
    assert_eq!(installed_ids(&apps), vec!["com.acme.foo".to_string()]);
}

#[test]
fn name_falls_back_to_file_name() {
    let a = read_app(
        "/Applications/Bar Baz.app".to_string(),
        BundleInfo { display_name: None, bundle_name: None, identifier: None, short_version: None },
        3,
    );
    assert_eq!(a.name, "Bar Baz");
    let b = read_app(
        "/Applications/x.app".to_string(),
        BundleInfo { display_name: Some("Shown".to_string()), bundle_name: Some("Bundle".to_string()), identifier: None, short_version: None },
        3,
    );
    assert_eq!(b.name, "Shown");
}

#[test]
fn keyed_lookup_matches_any_key() {
    let apps = setup();
    let keys = vec![
        (Some("com.acme.foo".to_string()), "foo".to_string(), "foo".to_string()),
        (Some("com.apple.safari".to_string()), "safari".to_string(), "safari".to_string()),
    ];
    assert_eq!(find_keyed(&apps, &keys, "Safari", "safari").unwrap().name, "Safari");
    assert_eq!(find_keyed(&apps, &keys, "COM.ACME.FOO", "com.acme.foo").unwrap().name, "Foo");
    assert_eq!(find_keyed(&apps, &keys, "x", "x").err(), Some(FindError::NoMatch("x".to_string())));
}
