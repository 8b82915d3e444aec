use klinit::executor::{Mode, Report};
use klinit::plan::{Category, Item, Plan};
use klinit::text::{fit, tail};
use klinit::tui::app::App;
use klinit::tui::hit::{HitMap, Rect};
use klinit::tui::layout::tab_targets;
use klinit::tui::model::{Action, Dialog, Effect, Key, KeyCode, Load, Mouse, Msg, ScanKind, ScanResult, Screen};
use klinit::tui::theme::Theme;

fn item(name: &str, size: u64) -> Item {
    Item { path: format!("/tmp/{name}"), size, category: Category::Caches, reason: "r".to_string() }
}

fn key(c: KeyCode) -> Msg {
    Msg::Key(Key { code: c, ctrl: false })
}

fn with_leftovers() -> App {
    let mut app = App::new(Theme { truecolor: false });
    app.screen = Screen::Leftovers;
    app.leftovers = Load::Loading;
    let plan = Plan { items: vec![item("a", 10), item("b", 20)], warnings: vec![] };
    app.update(Msg::Scanned(ScanResult::List(ScanKind::Leftovers, plan)));
    app
}

#[test]
fn first_visit_scans_once() {
    let mut app = App::new(Theme { truecolor: false });
    assert!(matches!(app.start().as_slice(), [Effect::Scan(ScanKind::Cleanup)]));
    assert!(matches!(app.act(Action::Tab(Screen::Apps)).as_slice(), [Effect::Scan(ScanKind::Apps)]));
    assert!(app.act(Action::Tab(Screen::Dashboard)).is_empty());
    assert!(app.act(Action::Tab(Screen::Apps)).is_empty());
}

#[test]
fn number_keys_and_tab_switch_screens() {
    let mut app = App::new(Theme { truecolor: false });
    app.update(key(KeyCode::Char('4')));
    assert_eq!(app.screen, Screen::Leftovers);
    app.update(key(KeyCode::Tab));
    assert_eq!(app.screen, Screen::Large);
    app.update(key(KeyCode::BackTab));
    app.update(key(KeyCode::BackTab));
    assert_eq!(app.screen, Screen::Cleanup);
}

#[test]
fn toggle_select_all_and_stats() {
    let mut app = with_leftovers();
    app.act(Action::Toggle(1));
    assert_eq!(app.checklist().unwrap().stats(), (1, 20));
    app.act(Action::SelectAll);
    assert_eq!(app.checklist().unwrap().stats(), (2, 30));
    app.act(Action::SelectAll);
    assert_eq!(app.checklist().unwrap().stats(), (0, 0));
}

#[test]
fn nothing_selected_does_not_execute() {
    let mut app = with_leftovers();
    assert!(app.act(Action::Primary).is_empty());
    assert!(matches!(app.dialog, Some(Dialog::Result { .. })));
}

#[test]
fn trash_confirm_executes_selected_only() {
    let mut app = with_leftovers();
    app.act(Action::Toggle(0));
    assert!(app.act(Action::Primary).is_empty());
    let fx = app.act(Action::Confirm);
    match fx.as_slice() {
        [Effect::Execute { plan, mode: Mode::Trash, apps: false }] => {
            assert_eq!(plan.items.len(), 1);
            assert_eq!(plan.items[0].path.as_str(), "/tmp/a");
        }
        other => panic!("unexpected effects: {other:?}"),
    }
    assert!(matches!(app.dialog, Some(Dialog::Busy(_))));
}

#[test]
fn permanent_needs_two_confirmations() {
    let mut app = with_leftovers();
    app.act(Action::SelectAll);
    app.act(Action::TogglePermanent);
    app.act(Action::Primary);
    assert!(app.act(Action::Confirm).is_empty(), "first confirm only escalates");
    assert!(matches!(app.dialog, Some(Dialog::Confirm { stage: 1, .. })));
    assert!(matches!(app.act(Action::Confirm).as_slice(), [Effect::Execute { mode: Mode::Permanent, .. }]));
}

#[test]
fn cancel_never_executes_and_busy_cannot_be_dismissed() {
    let mut app = with_leftovers();
    app.act(Action::SelectAll);
    app.act(Action::Primary);
    assert!(app.act(Action::Cancel).is_empty());
    assert!(app.dialog.is_none());
    app.dialog = Some(Dialog::Busy("x".to_string()));
    app.act(Action::Cancel);
    assert!(app.dialog.is_some());
}

#[test]
fn executed_invalidates_and_rescans_current_screen() {
    let mut app = with_leftovers();
    let fx = app.update(Msg::Executed(Report::default(), Mode::Trash));
    assert!(matches!(fx.as_slice(), [Effect::Scan(ScanKind::Leftovers)]));
    assert!(matches!(app.dialog, Some(Dialog::Result { .. })));
}

#[test]
fn moves_are_clamped() {
    let mut app = with_leftovers();
    app.act(Action::Move(100));
    assert_eq!(app.checklist().unwrap().selected, 1);
    app.act(Action::Move(isize::MIN / 2));
    assert_eq!(app.checklist().unwrap().selected, 0);
}

#[test]
fn refresh_ignored_while_loading() {
    let mut app = App::new(Theme { truecolor: false });
    app.start();
    assert!(app.act(Action::Refresh).is_empty());
}

#[test]
fn topmost_target_wins() {
    let mut h = HitMap::default();
    h.add(Rect { x: 0, y: 0, width: 10, height: 10 }, Action::Row(1));
    h.add(Rect { x: 0, y: 0, width: 3, height: 1 }, Action::Toggle(1));
    assert_eq!(h.at(1, 0), Some(Action::Toggle(1)));
    assert_eq!(h.at(5, 0), Some(Action::Row(1)));
    assert_eq!(h.at(20, 20), None);
    h.clear();
    assert_eq!(h.at(1, 0), None);
}

#[test]
fn view_fit_and_tail_handle_edges() {
    assert_eq!(fit("abc", 5), "abc  ");
    assert_eq!(fit("abcdef", 4), "abc…");
    assert_eq!(fit("abc", 0), "");
    assert_eq!(tail("/a/b/c/d", 4), "…c/d");
    assert_eq!(tail("ab", 0), "…");
}

#[test]
fn mod_fit_and_tail_handle_edges() {
    assert_eq!(fit("abc", 5), "abc  ");
    assert_eq!(fit("abcdef", 4), "abc…");
    assert_eq!(fit("abc", 0), "");
    assert_eq!(tail("/a/b/c/d", 4), "…c/d");
    assert_eq!(tail("ab", 0), "…");
}

/// The screen behind a dialog at 120x30: its tabs are registered first, then the dialog's
/// drawing clears the targets and registers only its own buttons (Help has none).
fn dialog_over_tabs() -> App {
    let mut app = with_leftovers();
    app.dialog = Some(Dialog::Help);
    for (r, a) in tab_targets(Rect { x: 1, y: 1, width: 118, height: 1 }) {
        app.hits.add(r, a);
    }
    app.hits.clear();
    app
}

#[test]
fn view_dialog_swallows_clicks_meant_for_the_screen_behind_it() {
    let mut app = dialog_over_tabs();
    app.update(Msg::Mouse(Mouse::LeftDown { column: 16, row: 1 }));
    assert_eq!(app.screen, Screen::Leftovers);
}

#[test]
fn mod_dialog_swallows_clicks_meant_for_the_screen_behind_it() {
    let mut app = dialog_over_tabs();
    app.update(Msg::Mouse(Mouse::LeftDown { column: 16, row: 1 }));
    assert_eq!(app.screen, Screen::Leftovers);
    assert!(matches!(app.dialog, Some(Dialog::Help)));
}

#[test]
fn oversized_sums_are_not_taken() {
    let app = App::new(Theme { truecolor: false });
    assert!(app.fits());
    let big = Plan { items: vec![item("a", u64::MAX), item("b", 1)], warnings: vec![] };
    assert!(!app.takes_msg(&Msg::Planned(Ok(big))));
    let fine = Plan { items: vec![item("a", u64::MAX - 1), item("b", 1)], warnings: vec![] };
    assert!(app.takes_msg(&Msg::Planned(Ok(fine))));
    let mut report = Report::default();
    report.removed = vec![("/a".to_string(), u64::MAX), ("/b".to_string(), 1)];
    assert!(!app.takes_msg(&Msg::Executed(report, Mode::Trash)));
    assert!(app.takes_msg(&key(KeyCode::Char('q'))));
}
