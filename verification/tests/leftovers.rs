use klinit::leftovers::{locations, looks_like_bundle_id, scan, Entry};

fn entry(dir: &str, name: &str, size: u64) -> Entry {
    Entry { name: name.to_string(), path: format!("/Users/x/{dir}/{name}"), size: Some(size) }
}

#[test]
fn reports_only_orphans() {
    let locs = locations();
    let mut listings: Vec<Vec<Entry>> = locs.iter().map(|_| Vec::new()).collect();
    listings[0].push(entry("Library/Application Support", "com.gone.app", 10));
    listings[2].push(entry("Library/Preferences", "com.gone.app.plist", 10));
    listings[1].push(entry("Library/Caches", "com.here.app", 10));
    listings[1].push(entry("Library/Caches", "com.here.app.helper", 10));
    listings[1].push(entry("Library/Caches", "com.apple.Safari", 10));
    listings[1].push(entry("Library/Caches", "Homebrew", 10));
    let installed = vec!["com.here.app".to_string()];
    let items = scan(&installed, &listings);
    let mut names: Vec<String> = items.iter().map(|i| i.path.rsplit('/').next().unwrap().to_string()).collect();
    names.sort();
    assert_eq!(names, ["com.gone.app", "com.gone.app.plist"]);
    assert_eq!(items[0].reason, "no installed app has bundle ID com.gone.app");
}

#[test]
fn orphans_come_largest_first_and_unreadable_ones_are_left_out() {
    let mut listings: Vec<Vec<Entry>> = locations().iter().map(|_| Vec::new()).collect();
    listings[0].push(entry("Library/Application Support", "com.a.small", 1));
    listings[0].push(entry("Library/Application Support", "com.b.big", 9));
    listings[0].push(Entry { name: "com.c.gone".to_string(), path: "/Users/x/c".to_string(), size: None });
    let items = scan(&Vec::new(), &listings);
    assert_eq!(items.len(), 2);
    assert_eq!(items[0].size, 9);
}

#[test]
fn bundle_ids_need_three_parts() {
    assert!(looks_like_bundle_id("com.foo.bar"));
    assert!(!looks_like_bundle_id("com.foo"));
    assert!(!looks_like_bundle_id("com..bar"));
    assert!(!looks_like_bundle_id("com.foo bar.baz"));
}
