use klinit::modules::{all, build_plan, scan_target, select, target_root, targets_for, CategoryError, Child, RootState};
use klinit::executor::{Mode as RunMode, Report, Step};
use klinit::plan::{Category, Plan};
use klinit::safety::Guard;
use klinit::targets::Mode;

const HOME: &str = "/Users/x";

/// What a fixture home holds at each location: `(relative path, children or size)`.
fn fixture_state(rel: &str, mode: Mode) -> RootState {
    let kids = |v: &[(&str, u64)]| {
        RootState::Children(
            v.iter()
                .map(|(n, s)| Child { name: n.to_string(), path: format!("{HOME}/{rel}/{n}"), size: *s })
                .collect(),
        )
    };
    match (rel, mode) {
        ("Library/Caches", Mode::Contents) => kids(&[("com.foo", 100), ("com.apple.Safari", 40), ("Homebrew", 30)]),
        ("Library/Logs", Mode::Contents) => kids(&[("app.log", 10)]),
        (".Trash", Mode::Contents) => kids(&[("old", 5)]),
        ("Library/Caches/com.apple.Safari", Mode::Whole) => RootState::Found(40),
        (".npm/_cacache", Mode::Whole) => RootState::Found(20),
        ("Library/Caches/Homebrew", Mode::Whole) => RootState::Found(30),
        _ => RootState::Absent,
    }
}

/// Every category scanned against a state function, in registry order.
fn scan_all(state: impl Fn(&str, Mode) -> RootState) -> Vec<(Category, Plan)> {
    all()
        .into_iter()
        .map(|(c, _)| {
            let mut plan = Plan::default();
            for t in targets_for(c) {
                let root = target_root(HOME, &t);
                scan_target(&t, &root, &state(t.rel_path, t.mode), &mut plan);
            }
            (c, plan)
        })
        .collect()
}

fn names(v: &[&str]) -> Vec<String> {
    v.iter().map(|s| s.to_string()).collect()
}

#[test]
fn finds_items_and_sizes() {
    let plan = build_plan(&names(&["caches"]), scan_all(fixture_state)).unwrap();
    assert_eq!(plan.items.len(), 1);
    assert_eq!(plan.total_size(), 100);
    assert_eq!(plan.items[0].path, "/Users/x/Library/Caches/com.foo");
    let dev = build_plan(&names(&["dev"]), scan_all(fixture_state)).unwrap();
    assert_eq!(dev.total_size(), 50);
}

#[test]
fn absent_paths_yield_empty_plan() {
    for (c, plan) in scan_all(|_, _| RootState::Absent) {
        assert!(plan.items.is_empty(), "{c:?}");
        assert!(plan.warnings.is_empty(), "{c:?}");
    }
}

#[test]
fn never_proposes_protected_paths() {
    let guard = Guard::new(HOME).unwrap();
    for (_, plan) in scan_all(fixture_state) {
        for item in plan.items {
            assert!(guard.check(Some(item.path.clone())).is_ok(), "{}", item.path);
        }
    }
}

#[test]
fn all_excludes_trash() {
    let plan = build_plan(&names(&["all"]), scan_all(fixture_state)).unwrap();
    assert!(plan.items.iter().all(|i| i.category != Category::Trash));
    assert!(!plan.items.is_empty());
    assert_eq!(select(&names(&["all"])).unwrap(), vec![Category::Caches, Category::Logs, Category::Xcode, Category::Browsers, Category::Dev]);
    assert_eq!(select(&names(&["trash", "caches", "trash"])).unwrap(), vec![Category::Caches, Category::Trash]);
}

#[test]
fn unknown_or_missing_category_errors() {
    let err = build_plan(&names(&["bogus"]), scan_all(fixture_state)).err().unwrap();
    assert_eq!(err, CategoryError::Unknown("bogus".to_string()));
    let msg = err.message();
    assert!(msg.contains("caches") && msg.contains("bogus"));
    assert!(matches!(build_plan(&Vec::new(), scan_all(fixture_state)), Err(CategoryError::NoneGiven)));
}

#[test]
fn unreadable_location_warns_about_disk_access() {
    let scanned = scan_all(|rel, mode| if rel == ".Trash" { RootState::Unreadable } else { fixture_state(rel, mode) });
    let trash = &scanned.iter().find(|(c, _)| *c == Category::Trash).unwrap().1;
    assert!(trash.items.is_empty());
    assert_eq!(
        trash.warnings,
        vec!["cannot read /Users/x/.Trash: grant your terminal Full Disk Access in System Settings > Privacy & Security".to_string()]
    );
}

#[test]
fn caches_skip_what_other_categories_claim() {
    let scanned = scan_all(fixture_state);
    let browsers = &scanned.iter().find(|(c, _)| *c == Category::Browsers).unwrap().1;
    assert_eq!(browsers.items.len(), 1);
    assert_eq!(browsers.items[0].path, "/Users/x/Library/Caches/com.apple.Safari");
    assert_eq!(browsers.items[0].reason, "Safari cache");
}

#[test]
fn dry_run_leaves_fixture_and_permanent_removes_planned_items() {
    let guard = Guard::new(HOME).unwrap();
    let plan = build_plan(&names(&["caches", "logs"]), scan_all(fixture_state)).unwrap();
    let mut dry = Report::default();
    for item in &plan.items {
        assert_eq!(dry.vet(&guard, item, Some(item.path.clone()), RunMode::DryRun), Step::Pretend);
    }
    assert_eq!(dry.removed.len(), plan.items.len());

    let mut r = Report::default();
    for item in &plan.items {
        match r.vet(&guard, item, Some(item.path.clone()), RunMode::Permanent) {
            Step::Remove(p) => {
                assert_eq!(p, item.path);
                let log = r.record(item, p, RunMode::Permanent, Ok(()));
                assert!(log.unwrap().starts_with("Permanent /Users/x/Library/"));
            }
            other => panic!("unexpected step {other:?}"),
        }
    }
    assert_eq!(r.removed.len(), plan.items.len());
    let removed: Vec<&str> = r.removed.iter().map(|(p, _)| p.as_str()).collect();
    assert_eq!(removed, ["/Users/x/Library/Caches/com.foo", "/Users/x/Library/Logs/app.log"]);
}
