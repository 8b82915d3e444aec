use klinit::apps::App as AppInfo;
use klinit::executor::{Mode, Report};
use klinit::plan::{Category, Item, Plan};
use klinit::tui::app::App;
use klinit::tui::hit::Rect;
use klinit::tui::layout::{
    apps_buttons, badge_label, button_rects, category_targets, checklist_columns, dialog_area, dialog_buttons,
    list_verb, row_targets, scroll, status_badge, tab_targets,
};
use klinit::tui::model::{
    Action, AppsView, Dialog, Effect, Key, KeyCode, Line, Load, Mouse, Msg, ScanKind, ScanResult, Screen,
};
use klinit::tui::picker::{pick_key, picked, picker, Pick};
use klinit::tui::theme::Theme;

fn item(name: &str, size: u64, category: Category) -> Item {
    Item { path: format!("/Users/x/{name}"), size, category, reason: "r".to_string() }
}

fn plan(n: usize) -> Plan {
    Plan {
        items: (0..n).map(|i| item(&format!("f{i}"), 1000 * (i as u64 + 1), Category::Caches)).collect(),
        warnings: vec!["needs Full Disk Access".to_string()],
    }
}

fn foo_app(bundle: &str) -> AppInfo {
    AppInfo {
        path: "/Applications/Foo.app".to_string(),
        name: "Foo".to_string(),
        bundle_id: Some(bundle.to_string()),
        version: Some("1.0".to_string()),
        size: 5_000_000,
    }
}

fn text(l: &Line) -> &str {
    match l {
        Line::Text(s) => s.as_str(),
        _ => panic!("not a text line"),
    }
}

#[test]
fn control_c_quits_even_in_a_dialog() {
    let mut app = App::new(Theme { truecolor: false });
    app.dialog = Some(Dialog::Help);
    app.update(Msg::Key(Key { code: KeyCode::Char('q'), ctrl: false }));
    assert!(app.dialog.is_none());
    assert!(!app.quit);
    app.dialog = Some(Dialog::Help);
    app.update(Msg::Key(Key { code: KeyCode::Char('c'), ctrl: true }));
    assert!(app.quit);
}

#[test]
fn page_keys_move_by_the_visible_rows() {
    let mut app = App::new(Theme { truecolor: false });
    app.screen = Screen::Large;
    app.update(Msg::Scanned(ScanResult::List(ScanKind::Large, plan(30))));
    app.view_rows = 7;
    app.update(Msg::Key(Key { code: KeyCode::PageDown, ctrl: false }));
    assert_eq!(app.checklist().unwrap().selected, 7);
    app.update(Msg::Key(Key { code: KeyCode::End, ctrl: false }));
    assert_eq!(app.checklist().unwrap().selected, 29);
    app.update(Msg::Key(Key { code: KeyCode::PageUp, ctrl: false }));
    assert_eq!(app.checklist().unwrap().selected, 22);
    app.update(Msg::Key(Key { code: KeyCode::Home, ctrl: false }));
    assert_eq!(app.checklist().unwrap().selected, 0);
}

#[test]
fn wheel_is_ignored_under_a_dialog() {
    let mut app = App::new(Theme { truecolor: false });
    app.screen = Screen::Large;
    app.update(Msg::Scanned(ScanResult::List(ScanKind::Large, plan(10))));
    app.update(Msg::Mouse(Mouse::ScrollDown));
    assert_eq!(app.checklist().unwrap().selected, 3);
    app.dialog = Some(Dialog::Help);
    app.update(Msg::Mouse(Mouse::ScrollDown));
    assert_eq!(app.checklist().unwrap().selected, 3);
}

#[test]
fn clicking_a_registered_tab_switches_screen() {
    let mut app = App::new(Theme { truecolor: false });
    for (r, a) in tab_targets(Rect { x: 1, y: 1, width: 118, height: 1 }) {
        app.hits.add(r, a);
    }
    let fx = app.update(Msg::Mouse(Mouse::LeftDown { column: 16, row: 1 }));
    assert_eq!(app.screen, Screen::Apps);
    assert!(matches!(fx.as_slice(), [Effect::Scan(ScanKind::Apps)]));
}

#[test]
fn clicking_a_box_ticks_and_clicking_a_row_selects() {
    let mut app = App::new(Theme { truecolor: false });
    app.screen = Screen::Leftovers;
    app.update(Msg::Scanned(ScanResult::List(ScanKind::Leftovers, plan(5))));
    for (r, a) in row_targets(Rect { x: 1, y: 2, width: 60, height: 10 }, 0, 5, true) {
        app.hits.add(r, a);
    }
    app.update(Msg::Mouse(Mouse::LeftDown { column: 2, row: 4 }));
    assert_eq!(app.checklist().unwrap().stats(), (1, 3000));
    assert_eq!(app.checklist().unwrap().selected, 2);
    app.update(Msg::Mouse(Mouse::LeftDown { column: 30, row: 5 }));
    assert_eq!(app.checklist().unwrap().selected, 3);
    assert_eq!(app.checklist().unwrap().stats(), (1, 3000));
}

#[test]
fn cleanup_scan_leaves_the_trash_out_and_ticks_the_rest() {
    let mut app = App::new(Theme { truecolor: false });
    let caches = Plan { items: vec![item("a", 5, Category::Caches), item("b", 50, Category::Caches)], warnings: vec![] };
    let trash = Plan { items: vec![item("t", 500, Category::Trash)], warnings: vec!["w".to_string()] };
    app.update(Msg::Scanned(ScanResult::Cleanup(vec![(Category::Caches, "caches", caches), (Category::Trash, "trash", trash)])));
    match &app.cleanup {
        Load::Ready(r) => {
            assert_eq!(r.rows.len(), 2);
            assert_eq!((r.rows[0].size, r.rows[0].count), (55, 2));
            assert_eq!((r.rows[1].id, r.rows[1].size, r.rows[1].count), (Category::Trash, 500, 1));
            assert_eq!(r.list.items.len(), 2);
            assert_eq!(r.list.items[0].size, 50);
            assert_eq!(r.list.checked, vec![true, true]);
            assert_eq!(r.list.warnings, vec!["w".to_string()]);
        }
        _ => panic!("cleanup not loaded"),
    }
}

#[test]
fn confirmation_lists_six_items_and_counts_the_rest() {
    let mut app = App::new(Theme { truecolor: false });
    app.screen = Screen::Large;
    app.update(Msg::Scanned(ScanResult::List(ScanKind::Large, plan(8))));
    app.act(Action::SelectAll);
    app.act(Action::Primary);
    match &app.dialog {
        Some(Dialog::Confirm { title, lines, plan, mode, apps, stage }) => {
            assert_eq!(title, "Confirm");
            assert_eq!((*mode, *apps, *stage), (Mode::Trash, false, 0));
            assert_eq!(plan.items.len(), 8);
            assert_eq!(lines.len(), 11);
            assert_eq!(lines[0], Line::Summary { count: 8, bytes: 36000 });
            assert_eq!(text(&lines[1]), "Items are moved to the Trash.");
            assert_eq!(text(&lines[2]), "");
            assert_eq!(lines[3], Line::Entry { bytes: 1000, path: "/Users/x/f0".to_string() });
            assert_eq!(text(&lines[9]), "…and 2 more");
            assert_eq!(text(&lines[10]), "note: needs Full Disk Access");
        }
        _ => panic!("no confirmation"),
    }
}

#[test]
fn permanent_second_stage_asks_again() {
    let mut app = App::new(Theme { truecolor: false });
    app.screen = Screen::Large;
    app.update(Msg::Scanned(ScanResult::List(ScanKind::Large, plan(3))));
    app.act(Action::SelectAll);
    app.act(Action::TogglePermanent);
    app.act(Action::Primary);
    match &app.dialog {
        Some(Dialog::Confirm { lines, .. }) => {
            assert_eq!(text(&lines[1]), "PERMANENT: items are deleted and cannot be recovered.");
        }
        _ => panic!("no confirmation"),
    }
    app.act(Action::Confirm);
    match &app.dialog {
        Some(Dialog::Confirm { title, lines, stage, .. }) => {
            assert_eq!(title, "Are you sure?");
            assert_eq!(*stage, 1);
            assert_eq!(text(&lines[0]), "Delete 3 item(s) permanently?");
            assert_eq!(text(&lines[1]), "PERMANENT: this cannot be undone.");
        }
        _ => panic!("no second confirmation"),
    }
}

#[test]
fn uninstall_asks_for_a_plan_then_confirms_it() {
    let mut app = App::new(Theme { truecolor: false });
    app.screen = Screen::Apps;
    app.update(Msg::Scanned(ScanResult::Apps(vec![foo_app("com.foo")])));
    let fx = app.act(Action::Primary);
    match fx.as_slice() {
        [Effect::PlanUninstall(a)] => assert_eq!(a.name, "Foo"),
        other => panic!("unexpected effects: {other:?}"),
    }
    assert!(matches!(&app.dialog, Some(Dialog::Busy(m)) if m == "Checking Foo…"));
    app.update(Msg::Planned(Ok(Plan { items: vec![item("Foo.app", 7, Category::App)], warnings: vec![] })));
    assert!(matches!(&app.dialog, Some(Dialog::Confirm { apps: true, stage: 0, .. })));
    let fx = app.act(Action::Confirm);
    assert!(matches!(fx.as_slice(), [Effect::Execute { apps: true, mode: Mode::Trash, .. }]));
    assert!(matches!(&app.dialog, Some(Dialog::Busy(m)) if m == "Removing…"));
}

#[test]
fn refused_uninstall_is_reported() {
    let mut app = App::new(Theme { truecolor: false });
    app.update(Msg::Planned(Err("Foo is running; quit it first.".to_string())));
    match &app.dialog {
        Some(Dialog::Result { title, lines }) => {
            assert_eq!(title, "Cannot uninstall");
            assert_eq!(text(&lines[0]), "Foo is running; quit it first.");
        }
        _ => panic!("no result dialog"),
    }
}

#[test]
fn done_dialog_reports_removed_and_skipped() {
    let mut app = App::new(Theme { truecolor: false });
    let report = Report {
        removed: vec![("/Users/x/a".to_string(), 10), ("/Users/x/b".to_string(), 32)],
        skipped: vec![("/Users/x/Documents".to_string(), "path is inside protected location".to_string())],
    };
    let fx = app.update(Msg::Executed(report, Mode::Permanent));
    assert!(matches!(fx.as_slice(), [Effect::Scan(ScanKind::Cleanup)]));
    match &app.dialog {
        Some(Dialog::Result { title, lines }) => {
            assert_eq!(title, "Done");
            assert_eq!(lines[0], Line::Outcome { verb: "Deleted".to_string(), count: 2, bytes: 42 });
            assert_eq!(text(&lines[1]), "1 skipped:");
            assert_eq!(text(&lines[2]), "  /Users/x/Documents: path is inside protected location");
        }
        _ => panic!("no result dialog"),
    }
}

#[test]
fn sorting_apps_flips_between_name_and_size() {
    let mut app = App::new(Theme { truecolor: false });
    let mut big = foo_app("com.big");
    big.name = "zeta".to_string();
    big.size = 9;
    let mut small = foo_app("com.small");
    small.name = "Alpha".to_string();
    small.size = 1;
    app.update(Msg::Scanned(ScanResult::Apps(vec![big, small])));
    match &app.apps {
        Load::Ready(v) => assert_eq!((v.apps[0].name.as_str(), v.by_size), ("Alpha", false)),
        _ => panic!("apps not loaded"),
    }
    app.act(Action::Sort);
    match &app.apps {
        Load::Ready(v) => assert_eq!((v.apps[0].name.as_str(), v.by_size), ("zeta", true)),
        _ => panic!("apps not loaded"),
    }
}

#[test]
fn scrolling_keeps_the_selection_in_view() {
    assert_eq!(scroll(0, 5, 20, 4), 0);
    assert_eq!(scroll(9, 0, 20, 4), 6);
    assert_eq!(scroll(3, 2, 20, 4), 2);
    assert_eq!(scroll(19, 18, 20, 4), 16);
    assert_eq!(scroll(1, 3, 2, 10), 0);
}

#[test]
fn buttons_stop_at_the_right_edge() {
    let area = Rect { x: 2, y: 5, width: 30, height: 3 };
    let r = button_rects(area, &vec![10, 5, 20]);
    assert_eq!(r, vec![Rect { x: 2, y: 5, width: 14, height: 3 }, Rect { x: 17, y: 5, width: 9, height: 3 }]);
}

#[test]
fn status_badge_sits_at_the_right_end() {
    let (badge, left) = status_badge(Rect { x: 0, y: 29, width: 120, height: 1 }, true);
    assert_eq!(badge, Rect { x: 102, y: 29, width: 18, height: 1 });
    assert_eq!(left, 101);
    assert_eq!(badge_label(false), " Trash ");
    let (badge, _) = status_badge(Rect { x: 0, y: 0, width: 5, height: 1 }, false);
    assert_eq!(badge, Rect { x: 0, y: 0, width: 5, height: 1 });
}

#[test]
fn dialogs_are_centred_and_bounded() {
    let r = dialog_area(Rect { x: 0, y: 0, width: 120, height: 30 }, 4, true);
    assert_eq!(r, Rect { x: 22, y: 10, width: 76, height: 10 });
    let r = dialog_area(Rect { x: 0, y: 0, width: 12, height: 4 }, 4, false);
    assert_eq!(r, Rect { x: 2, y: 1, width: 8, height: 2 });
}

#[test]
fn dialog_buttons_follow_the_stage() {
    let confirm = |mode, stage| Dialog::Confirm {
        title: String::new(),
        lines: vec![],
        plan: Plan { items: vec![], warnings: vec![] },
        mode,
        apps: false,
        stage,
    };
    assert_eq!(dialog_buttons(&confirm(Mode::Permanent, 0))[0], ("Continue  (enter)", Action::Confirm));
    assert_eq!(dialog_buttons(&confirm(Mode::Permanent, 1))[0], ("Delete forever  (enter)", Action::Confirm));
    assert_eq!(dialog_buttons(&confirm(Mode::Trash, 0)), vec![("Confirm  (enter)", Action::Confirm), ("Cancel (esc)", Action::Cancel)]);
    assert!(dialog_buttons(&Dialog::Busy("x".to_string())).is_empty());
    assert_eq!(dialog_buttons(&Dialog::Help), vec![("Close  (esc)", Action::Cancel)]);
}

#[test]
fn apple_apps_get_no_uninstall_button() {
    let v = AppsView { apps: vec![foo_app("com.apple.Safari")], selected: 0, offset: 0, by_size: false };
    assert_eq!(apps_buttons(&v), vec![("Sort (s)", Action::Sort), ("Rescan (r)", Action::Refresh)]);
    let v = AppsView { apps: vec![foo_app("com.foo")], selected: 0, offset: 0, by_size: false };
    assert_eq!(apps_buttons(&v)[0], ("Uninstall  (enter)", Action::Primary));
}

#[test]
fn verbs_and_columns() {
    assert_eq!(list_verb(Screen::Cleanup, true), "Clean");
    assert_eq!(list_verb(Screen::Dupes, false), "Remove extras");
    assert_eq!(list_verb(Screen::Large, true), "Delete");
    assert_eq!(checklist_columns(80), (true, 47));
    assert_eq!(checklist_columns(20), (false, 6));
    assert_eq!(checklist_columns(3), (false, 0));
    let t = category_targets(Rect { x: 3, y: 4, width: 40, height: 2 }, 6);
    assert_eq!(t.len(), 2);
    assert_eq!(t[1], (Rect { x: 3, y: 5, width: 40, height: 1 }, Action::Tab(Screen::Cleanup)));
}

#[test]
fn disk_message_is_stored() {
    let mut app = App::new(Theme { truecolor: false });
    assert!(app.update(Msg::Disk(Some((1, 2)))).is_empty());
    assert_eq!(app.disk, Some((1, 2)));
    app.update(Msg::Tick);
    assert_eq!(app.tick, 1);
}

#[test]
fn picker_moves_ticks_and_confirms() {
    let mut list = picker(plan(3).items, true);
    assert_eq!(pick_key(&mut list, KeyCode::Up), Pick::Open);
    assert_eq!(list.selected, 0);
    pick_key(&mut list, KeyCode::Down);
    pick_key(&mut list, KeyCode::Char('j'));
    pick_key(&mut list, KeyCode::Down);
    assert_eq!(list.selected, 2);
    assert_eq!(pick_key(&mut list, KeyCode::Char(' ')), Pick::Open);
    assert_eq!(list.checked, vec![true, true, false]);
    assert_eq!(pick_key(&mut list, KeyCode::Char('x')), Pick::Open);
    let outcome = pick_key(&mut list, KeyCode::Enter);
    assert_eq!(outcome, Pick::Confirm);
    let chosen = picked(&list, outcome);
    assert_eq!(chosen.len(), 2);
    assert_eq!(pick_key(&mut list, KeyCode::Char('a')), Pick::Open);
    assert_eq!(list.checked, vec![true, true, true]);
    assert_eq!(pick_key(&mut list, KeyCode::Esc), Pick::Cancel);
    assert!(picked(&list, Pick::Cancel).is_empty());
}
