use susum::app::{App, ExitAction, Handoff, LoadStatus};
use susum::aws::{fuzzy_search_instances, Instance, Tag};
use susum::handler::{handle_event, handle_key_events, Event, KeyCode, KeyEvent};

fn inst(id: &str, tags: &[(&str, &str)]) -> Instance {
    Instance {
        instance_id: id.to_string(),
        tags: tags
            .iter()
            .map(|(k, v)| Tag::new(k.to_string(), v.to_string()))
            .collect(),
    }
}

fn ids(v: &[Instance]) -> Vec<String> {
    v.iter().map(|i| i.instance_id.clone()).collect()
}

fn key(code: KeyCode) -> KeyEvent {
    KeyEvent { code, ctrl: false }
}

fn loaded_app(records: Vec<Instance>) -> App {
    let mut app = App::new(None);
    app.load(Ok(records));
    app
}

fn type_str(app: &mut App, s: &str) {
    for ch in s.chars() {
        app.push_char(ch);
    }
}

#[test]
fn new_session_defaults() {
    let app = App::new(None);
    assert!(app.running);
    assert_eq!(app.exit_action, ExitAction::Continue);
    assert!(matches!(app.instances, LoadStatus::Pending));
    assert_eq!(app.query, "");
    assert!(app.filtered.is_empty());
    assert_eq!(app.selected, None);
    assert_eq!(app.profile, "NOT SET");
    assert_eq!(app.port, None);
    let named = App::new(Some("prod".to_string()));
    assert_eq!(named.profile, "prod");
}

#[test]
fn load_then_query_web_then_clear() {
    let mut app = loaded_app(vec![inst("i-1", &[("Name", "web")]), inst("i-2", &[])]);
    assert_eq!(ids(&app.filtered), vec!["i-1", "i-2"]);
    assert_eq!(app.selected, Some(0));
    type_str(&mut app, "web");
    assert_eq!(ids(&app.filtered), vec!["i-1"]);
    assert_eq!(app.selected, Some(0));
    for _ in 0..3 {
        app.backspace();
    }
    assert_eq!(app.query, "");
    assert_eq!(ids(&app.filtered), vec!["i-1", "i-2"]);
    assert_eq!(app.selected, Some(0));
}

#[test]
fn failed_load_shows_nothing_and_enter_does_nothing() {
    let mut app = App::new(None);
    app.load(Err("AccessDenied".to_string()));
    assert!(matches!(&app.instances, LoadStatus::Failed(e) if e == "AccessDenied"));
    assert!(app.filtered.is_empty());
    assert_eq!(app.selected, None);
    type_str(&mut app, "i-1");
    assert!(app.filtered.is_empty());
    assert_eq!(app.selected, None);
    handle_key_events(key(KeyCode::Enter), &mut app);
    assert!(app.running);
    assert_eq!(app.exit_action, ExitAction::Continue);
    assert!(matches!(app.handoff(), Handoff::Exit));
}

#[test]
fn escape_while_pending_quits_without_launch() {
    let mut app = App::new(None);
    handle_key_events(key(KeyCode::Esc), &mut app);
    assert!(!app.running);
    assert_eq!(app.exit_action, ExitAction::Quit);
    assert!(matches!(app.instances, LoadStatus::Pending));
    assert!(matches!(app.handoff(), Handoff::Exit));
}

#[test]
fn ctrl_c_quits_and_leaves_query() {
    let mut app = loaded_app(vec![inst("i-1", &[])]);
    handle_key_events(KeyEvent { code: KeyCode::Char('c'), ctrl: true }, &mut app);
    assert!(!app.running);
    assert_eq!(app.exit_action, ExitAction::Quit);
    assert_eq!(app.query, "");
}

#[test]
fn ctrl_other_char_is_ignored() {
    let mut app = loaded_app(vec![inst("i-1", &[])]);
    handle_key_events(KeyEvent { code: KeyCode::Char('x'), ctrl: true }, &mut app);
    assert!(app.running);
    assert_eq!(app.query, "");
    handle_key_events(key(KeyCode::Other), &mut app);
    assert!(app.running);
    assert_eq!(app.selected, Some(0));
}

#[test]
fn typed_chars_and_backspace_edit_query() {
    let mut app = loaded_app(vec![inst("i-abc", &[]), inst("i-xyz", &[])]);
    handle_key_events(key(KeyCode::Char('x')), &mut app);
    assert_eq!(app.query, "x");
    assert_eq!(ids(&app.filtered), vec!["i-xyz"]);
    handle_key_events(key(KeyCode::Backspace), &mut app);
    assert_eq!(app.query, "");
    assert_eq!(ids(&app.filtered), vec!["i-abc", "i-xyz"]);
    handle_key_events(key(KeyCode::Backspace), &mut app);
    assert_eq!(app.query, "");
    assert_eq!(app.selected, Some(0));
}

#[test]
fn empty_query_keeps_full_list_in_order() {
    let records = vec![inst("i-3", &[]), inst("i-1", &[("env", "prod")]), inst("i-2", &[])];
    let app = loaded_app(records);
    assert_eq!(ids(&app.filtered), vec!["i-3", "i-1", "i-2"]);
}

#[test]
fn filter_twice_gives_same_view_and_resets_selection() {
    let mut app = loaded_app(vec![inst("i-1", &[]), inst("i-2", &[]), inst("i-3", &[])]);
    app.scroll_down();
    app.scroll_down();
    assert_eq!(app.selected, Some(2));
    app.filter();
    let first = ids(&app.filtered);
    assert_eq!(app.selected, Some(0));
    app.scroll_down();
    app.filter();
    assert_eq!(ids(&app.filtered), first);
    assert_eq!(app.selected, Some(0));
}

#[test]
fn scrolling_stays_in_bounds() {
    let mut app = loaded_app(vec![inst("i-1", &[]), inst("i-2", &[])]);
    app.scroll_up();
    assert_eq!(app.selected, Some(0));
    app.scroll_down();
    assert_eq!(app.selected, Some(1));
    app.scroll_down();
    assert_eq!(app.selected, Some(1));
    handle_key_events(key(KeyCode::Up), &mut app);
    assert_eq!(app.selected, Some(0));
    handle_key_events(key(KeyCode::Down), &mut app);
    assert_eq!(app.selected, Some(1));
}

#[test]
fn scrolling_empty_view_is_noop() {
    let mut app = loaded_app(vec![]);
    assert_eq!(app.selected, None);
    app.scroll_down();
    assert_eq!(app.selected, None);
    app.scroll_up();
    assert_eq!(app.selected, None);
    let mut none_match = loaded_app(vec![inst("i-1", &[])]);
    type_str(&mut none_match, "zzz");
    assert!(none_match.filtered.is_empty());
    none_match.scroll_down();
    assert_eq!(none_match.selected, None);
}

#[test]
fn enter_with_selection_connects_on_reserved_port() {
    let mut app = loaded_app(vec![inst("i-1", &[]), inst("i-2", &[("Name", "db")])]);
    app.port = Some(3390);
    app.scroll_down();
    handle_key_events(key(KeyCode::Enter), &mut app);
    assert!(!app.running);
    assert_eq!(app.exit_action, ExitAction::QuitAndConnect);
    match app.handoff() {
        Handoff::Connect { target, port } => {
            assert_eq!(target.instance_id, "i-2");
            assert_eq!(target.display(), "i-2 Name: db");
            assert_eq!(port, 3390);
        }
        _ => panic!("expected a connection"),
    }
}

#[test]
fn enter_without_free_port_is_refused() {
    let mut app = loaded_app(vec![inst("i-1", &[])]);
    app.start();
    assert_eq!(app.exit_action, ExitAction::QuitAndConnect);
    assert!(matches!(app.handoff(), Handoff::NoFreePort));
}

#[test]
fn second_load_outcome_is_dropped() {
    let mut app = App::new(None);
    handle_event(Event::Loaded(Ok(vec![inst("i-1", &[])])), &mut app);
    assert_eq!(ids(&app.filtered), vec!["i-1"]);
    handle_event(Event::Loaded(Err("late".to_string())), &mut app);
    assert!(matches!(app.instances, LoadStatus::Loaded(_)));
    assert_eq!(ids(&app.filtered), vec!["i-1"]);
}

#[test]
fn tick_and_other_events_change_nothing_visible() {
    let mut app = loaded_app(vec![inst("i-1", &[]), inst("i-2", &[])]);
    app.scroll_down();
    handle_event(Event::Tick, &mut app);
    app.tick();
    handle_event(Event::Other, &mut app);
    assert_eq!(app.selected, Some(1));
    assert!(app.running);
    assert_eq!(ids(&app.filtered), vec!["i-1", "i-2"]);
    handle_event(Event::Key(key(KeyCode::Esc)), &mut app);
    assert_eq!(app.exit_action, ExitAction::Quit);
}

#[test]
fn quit_ends_session() {
    let mut app = App::new(None);
    app.quit();
    assert!(!app.running);
    assert_eq!(app.exit_action, ExitAction::Quit);
}

#[test]
fn search_matches_tags_and_ids() {
    let records = vec![
        inst("i-0aa", &[("Name", "web"), ("env", "prod")]),
        inst("i-0bb", &[("Name", "db")]),
        inst("i-0cc", &[("team", "payments")]),
    ];
    assert_eq!(ids(&fuzzy_search_instances(&records, "prod")), vec!["i-0aa"]);
    assert_eq!(ids(&fuzzy_search_instances(&records, "team")), vec!["i-0cc"]);
    assert_eq!(ids(&fuzzy_search_instances(&records, "0bb")), vec!["i-0bb"]);
    assert_eq!(ids(&fuzzy_search_instances(&records, "pmts")), vec!["i-0cc"]);
    assert!(fuzzy_search_instances(&records, "qqq").is_empty());
    assert_eq!(fuzzy_search_instances(&records, "").len(), 3);
}

#[test]
fn subsequence_query_keeps_record_and_others_drop() {
    let records = vec![
        inst("i-1", &[("Name", "web-frontend")]),
        inst("i-2", &[("Name", "database")]),
    ];
    let mut app = loaded_app(records);
    type_str(&mut app, "wfr");
    assert_eq!(ids(&app.filtered), vec!["i-1"]);
    assert_eq!(app.selected, Some(0));
    app.backspace();
    app.backspace();
    app.backspace();
    type_str(&mut app, "Name");
    assert_eq!(ids(&app.filtered), vec!["i-1", "i-2"]);
}

#[test]
fn tick_advances_indicator_and_saturates() {
    let mut app = loaded_app(vec![inst("i-1", &[])]);
    assert_eq!(app.throbber_frame, 0);
    app.tick();
    assert_eq!(app.throbber_frame, 1);
    handle_event(Event::Tick, &mut app);
    assert_eq!(app.throbber_frame, 2);
    assert_eq!(ids(&app.filtered), vec!["i-1"]);
    app.throbber_frame = 126;
    app.tick();
    assert_eq!(app.throbber_frame, 127);
    app.tick();
    assert_eq!(app.throbber_frame, 127);
}

#[test]
fn ignored_keys_leave_state_unchanged() {
    let mut app = loaded_app(vec![inst("i-1", &[]), inst("i-2", &[])]);
    app.scroll_down();
    for k in [KeyEvent { code: KeyCode::Other, ctrl: false }, KeyEvent { code: KeyCode::Char('z'), ctrl: true }] {
        handle_key_events(k, &mut app);
        assert!(app.running);
        assert_eq!(app.exit_action, ExitAction::Continue);
        assert_eq!(app.query, "");
        assert_eq!(app.selected, Some(1));
        assert_eq!(ids(&app.filtered), vec!["i-1", "i-2"]);
        assert_eq!(app.profile, "NOT SET");
    }
}

#[test]
fn navigation_keys_keep_session_running() {
    let mut app = loaded_app(vec![inst("i-1", &[]), inst("i-2", &[])]);
    for code in [KeyCode::Down, KeyCode::Up, KeyCode::Backspace, KeyCode::Char('i')] {
        handle_key_events(key(code), &mut app);
        assert!(app.running);
        assert_eq!(app.exit_action, ExitAction::Continue);
    }
    assert_eq!(app.query, "i");
}
