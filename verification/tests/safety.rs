use klinit::executor::{mode_for, Mode, Report, Step};
use klinit::plan::{Category, Item};
use klinit::safety::{Guard, SetupError, Violation};

const HOME: &str = "/Users/x";

fn guard() -> Guard {
    Guard::new(HOME).unwrap()
}

fn resolved(p: &str) -> Option<String> {
    Some(p.to_string())
}

fn item(path: &str) -> Item {
    Item { path: path.to_string(), size: 1, category: Category::Caches, reason: "test".to_string() }
}

#[test]
fn allows_cache_dir() {
    assert_eq!(guard().check(resolved("/Users/x/Library/Caches/app")), Ok("/Users/x/Library/Caches/app".to_string()));
}

#[test]
fn rejects_home_itself() {
    assert_eq!(guard().check(resolved(HOME)), Err(Violation::IsHome));
    assert_eq!(guard().check(resolved("/Users/x/")), Err(Violation::IsHome));
}

#[test]
fn rejects_protected_dirs() {
    let g = guard();
    assert!(matches!(g.check(resolved("/Users/x/Documents")), Err(Violation::Protected(_))));
    assert!(matches!(g.check(resolved("/Users/x/.ssh")), Err(Violation::Protected(_))));
    assert_eq!(
        g.check(resolved("/Users/x/Library/Keychains/login.keychain")),
        Err(Violation::Protected("/Users/x/Library/Keychains".to_string()))
    );
}

#[test]
fn rejects_outside_home() {
    let g = guard();
    assert_eq!(g.check(resolved("/tmp")), Err(Violation::OutsideHome));
    assert_eq!(g.check(resolved("/")), Err(Violation::OutsideHome));
    assert_eq!(g.check(resolved("/Users/xy/Library")), Err(Violation::OutsideHome));
}

#[test]
fn app_dir_allows_only_direct_app_bundles() {
    let g = guard().allow_app_dir(resolved("/Applications"));
    assert!(g.check(resolved("/Applications/Foo.app")).is_ok());
    assert_eq!(g.check(resolved("/Applications/Foo.app/Contents")), Err(Violation::OutsideHome));
    assert_eq!(g.check(resolved("/Applications/Other")), Err(Violation::OutsideHome));
}

#[test]
fn configured_exclusions_are_protected() {
    let g = guard().protect(vec!["/Users/x/Projects".to_string()]);
    assert!(matches!(g.check(resolved("/Users/x/Projects/x")), Err(Violation::Protected(_))));
    assert!(g.check(resolved("/Users/x/Projectsx")).is_ok());
}

#[test]
fn rejects_missing() {
    assert_eq!(guard().check(None), Err(Violation::Missing));
}

#[test]
fn root_cannot_be_home() {
    assert!(matches!(Guard::new("/"), Err(SetupError::RootAsHome)));
    assert_eq!(SetupError::RootAsHome.message(), "refusing to use / as the home directory");
}

#[test]
fn violation_messages() {
    assert_eq!(Violation::Missing.message(), "path does not exist");
    assert_eq!(Violation::OutsideHome.message(), "path is outside the home directory");
    assert_eq!(Violation::IsHome.message(), "refusing to touch the home directory itself");
    assert_eq!(
        Violation::Protected("/Users/x/Documents".to_string()).message(),
        "path is inside protected location /Users/x/Documents"
    );
}

#[test]
fn dry_run_touches_nothing() {
    let g = guard();
    let mut r = Report::default();
    let it = item("/Users/x/Library/Caches/app");
    let step = r.vet(&g, &it, resolved("/Users/x/Library/Caches/app"), Mode::DryRun);
    assert_eq!(step, Step::Pretend);
    assert_eq!(r.removed.len(), 1);
    assert!(r.skipped.is_empty());
}

#[test]
fn protected_items_are_skipped_even_in_plan() {
    let g = guard();
    let mut r = Report::default();
    let it = item("/Users/x/Documents");
    let step = r.vet(&g, &it, resolved("/Users/x/Documents"), Mode::Permanent);
    assert_eq!(step, Step::Skip);
    assert!(r.removed.is_empty());
    assert_eq!(r.skipped.len(), 1);
    assert_eq!(r.skipped[0].1, "path is inside protected location /Users/x/Documents");
}

#[test]
fn permanent_removes_and_logs() {
    let g = guard();
    let mut r = Report::default();
    let it = item("/Users/x/Library/Caches/app");
    let step = r.vet(&g, &it, resolved("/Users/x/Library/Caches/app"), Mode::Permanent);
    assert_eq!(step, Step::Remove("/Users/x/Library/Caches/app".to_string()));
    let log = r.record(&it, "/Users/x/Library/Caches/app".to_string(), Mode::Permanent, Ok(()));
    assert_eq!(log.as_deref(), Some("Permanent /Users/x/Library/Caches/app (1 bytes)"));
    assert_eq!(r.removed.len(), 1);
    assert_eq!(r.freed(), 1);
}

#[test]
fn trash_mode_moves_and_failures_are_skipped() {
    let g = guard();
    let mut r = Report::default();
    let it = item("/Users/x/Library/Logs/a.log");
    let step = r.vet(&g, &it, resolved("/Users/x/Library/Logs/a.log"), Mode::Trash);
    assert_eq!(step, Step::MoveToTrash("/Users/x/Library/Logs/a.log".to_string()));
    let log = r.record(&it, "/Users/x/Library/Logs/a.log".to_string(), Mode::Trash, Err("busy".to_string()));
    assert_eq!(log, None);
    assert!(r.removed.is_empty());
    assert_eq!(r.skipped, vec![("/Users/x/Library/Logs/a.log".to_string(), "busy".to_string())]);
}

#[test]
fn missing_items_are_skipped() {
    let g = guard();
    let mut r = Report::default();
    let it = item("/Users/x/gone");
    assert_eq!(r.vet(&g, &it, None, Mode::Trash), Step::Skip);
    assert_eq!(r.skipped[0].1, "path does not exist");
}

#[test]
fn dry_run_unless_yes_and_trash_unless_permanent() {
    assert_eq!(mode_for(false, false), Mode::DryRun);
    assert_eq!(mode_for(false, true), Mode::DryRun);
    assert_eq!(mode_for(true, false), Mode::Trash);
    assert_eq!(mode_for(true, true), Mode::Permanent);
}

#[test]
fn exclusions_cover_app_bundles_too() {
    let g = guard().allow_app_dir(resolved("/Applications")).protect(vec!["/Applications/Foo.app".to_string()]);
    assert_eq!(
        g.check(resolved("/Applications/Foo.app")),
        Err(Violation::Protected("/Applications/Foo.app".to_string()))
    );
    assert!(g.check(resolved("/Applications/Bar.app")).is_ok());
}

#[test]
fn folders_holding_a_protected_location_are_refused() {
    let g = guard();
    let v = g.check(resolved("/Users/x/Library"));
    assert_eq!(v, Err(Violation::Contains("/Users/x/Library/Keychains".to_string())));
    assert_eq!(v.unwrap_err().message(), "path contains protected location /Users/x/Library/Keychains");
    assert!(g.check(resolved("/Users/x/Library/Caches")).is_ok());
    let g = guard().allow_app_dir(resolved("/Applications")).protect(vec!["/Applications/Foo.app/Contents/keep".to_string()]);
    assert_eq!(
        g.check(resolved("/Applications/Foo.app")),
        Err(Violation::Contains("/Applications/Foo.app/Contents/keep".to_string()))
    );
}

#[test]
fn app_data_goes_to_the_trash_even_when_permanent() {
    let g = guard().allow_app_dir(resolved("/Applications"));
    let mut r = Report::default();
    for (path, category) in [
        ("/Applications/Foo.app", Category::App),
        ("/Users/x/Library/Application Support/com.foo", Category::Leftover),
        ("/Users/x/Library/Application Support/Foo", Category::Fuzzy),
        ("/Users/x/Library/Caches/com.gone", Category::Orphaned),
    ] {
        let it = Item { path: path.to_string(), size: 1, category, reason: "test".to_string() };
        assert_eq!(r.vet(&g, &it, resolved(path), Mode::Permanent), Step::MoveToTrash(path.to_string()));
    }
    let it = Item { path: "/Users/x/Library/Logs/a.log".to_string(), size: 1, category: Category::Logs, reason: "t".to_string() };
    assert_eq!(
        r.vet(&g, &it, resolved("/Users/x/Library/Logs/a.log"), Mode::Permanent),
        Step::Remove("/Users/x/Library/Logs/a.log".to_string())
    );
}

#[test]
fn outside_home_comes_before_exclusions() {
    let g = guard().protect(vec!["/opt/x".to_string()]);
    assert_eq!(g.check(resolved("/opt/x/y")), Err(Violation::OutsideHome));
    assert!(matches!(g.check(resolved("/Users/x/Library/Caches")), Ok(_)));
}
