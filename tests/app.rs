use cal_tui::app::App;
use cal_tui::event::{CalendarEvent, EventCommand};
use cal_tui::focus::{Focus, Key};

const MIN: i64 = 60_000;

fn ev(id: &str, start: i64, end: i64) -> CalendarEvent {
    CalendarEvent {
        id: id.to_string(),
        is_cancelled: false,
        end_time: end,
        start_time: start,
        organizer: "Ada".to_string(),
        subject: format!("subject {id}"),
        location: String::new(),
        body: String::new(),
        teams_meeting: None,
        response: None,
    }
}

fn ids(app: &App) -> Vec<String> {
    app.events().events().iter().map(|e| e.id.clone()).collect()
}

#[test]
fn new_event_arms_one_timer_update_arms_none() {
    let mut app = App::new();
    let now = 0;
    let t1 = app.tick(vec![EventCommand::Upsert(ev("e", 10 * MIN, 20 * MIN))], 0, now, 2);
    assert_eq!(t1.timer_delays, vec![8 * MIN as u64]);
    let mut updated = ev("e", 10 * MIN, 25 * MIN);
    updated.subject = "moved".to_string();
    let t2 = app.tick(vec![EventCommand::Upsert(updated)], 0, now, 2);
    assert!(t2.timer_delays.is_empty());
    assert_eq!(app.events().len(), 1);
    assert_eq!(app.events().events()[0].subject, "moved");
}

#[test]
fn add_event_reports_new_start_only() {
    let mut app = App::new();
    assert_eq!(app.add_event(ev("a", 10 * MIN, 20 * MIN)), Some(10 * MIN));
    assert_eq!(app.add_event(ev("b", 10 * MIN, 20 * MIN)), None);
    assert_eq!(app.apply(EventCommand::Upsert(ev("c", 5 * MIN, 6 * MIN))), Some(5 * MIN));
    assert_eq!(app.apply(EventCommand::Remove(ev("c", 5 * MIN, 6 * MIN))), None);
    assert_eq!(ids(&app), vec!["b"]);
}

#[test]
fn selection_wraparound() {
    let mut app = App::new();
    app.next();
    assert_eq!(app.selected(), None);
    app.previous();
    assert_eq!(app.selected(), None);
    for (id, s) in [("a", 1), ("b", 2), ("c", 3)] {
        app.add_event(ev(id, s * MIN, (s + 100) * MIN));
    }
    assert_eq!(app.selected(), Some(0));
    app.next();
    app.next();
    assert_eq!(app.selected(), Some(2));
    app.next();
    assert_eq!(app.selected(), Some(0));
    app.previous();
    assert_eq!(app.selected(), Some(2));
    assert_eq!(app.selected_event().map(|e| e.id.as_str()), Some("c"));
}

#[test]
fn cursor_follows_shrinking_list() {
    let mut app = App::new();
    for (id, s) in [("a", 1), ("b", 2), ("c", 3)] {
        app.add_event(ev(id, s * MIN, (s + 1) * MIN));
    }
    app.previous();
    assert_eq!(app.selected(), Some(2));
    app.sweep(3 * MIN + 1);
    assert_eq!(ids(&app), vec!["c"]);
    assert_eq!(app.selected(), Some(0));
    app.sweep(10 * MIN);
    assert_eq!(app.selected(), None);
    assert!(app.selected_event().is_none());
}

#[test]
fn alert_coalescing() {
    let mut app = App::new();
    app.add_event(ev("a", 10 * MIN, 20 * MIN));
    let t = app.tick(Vec::new(), 3, 0, 2);
    assert!(t.alert);
    assert_eq!(app.focus(), Focus::Popup);
    app.handle_key(Key::Back);
    assert_eq!(app.focus(), Focus::Table);
    let t = app.tick(Vec::new(), 0, 0, 2);
    assert!(!t.alert);
    assert_eq!(app.focus(), Focus::Table);
    assert!(!app.raise_alert(0));
    assert!(app.raise_alert(1));
    assert_eq!(app.focus(), Focus::Popup);
}

#[test]
fn end_to_end_scenario() {
    let day = 24 * 60 * MIN;
    let at = |h: i64, m: i64| day + h * 60 * MIN + m * MIN;
    let mut app = App::new();
    let cmds = vec![
        EventCommand::Upsert(ev("e1", at(10, 0), at(10, 30))),
        EventCommand::Upsert(ev("e2", at(9, 0), at(9, 30))),
    ];
    let t = app.tick(cmds, 0, at(8, 0), 2);
    assert_eq!(ids(&app), vec!["e2", "e1"]);
    assert_eq!(t.timer_delays, vec![118 * MIN as u64, 58 * MIN as u64]);
    let t = app.tick(Vec::new(), 0, at(9, 31), 2);
    assert!(t.timer_delays.is_empty());
    assert_eq!(ids(&app), vec!["e1"]);
    assert_eq!(app.first_event().map(|e| e.id.as_str()), Some("e1"));
}

#[test]
fn keys_move_between_views() {
    let mut app = App::new();
    app.add_event(ev("a", 1 * MIN, 2 * MIN));
    app.add_event(ev("b", 3 * MIN, 4 * MIN));
    assert!(!app.handle_key(Key::Down));
    assert_eq!(app.selected(), Some(1));
    app.handle_key(Key::Open);
    assert_eq!(app.focus(), Focus::Selected);
    app.handle_key(Key::Down);
    assert_eq!(app.selected(), Some(1));
    app.handle_key(Key::Back);
    assert_eq!(app.focus(), Focus::Table);
    app.handle_key(Key::Up);
    assert_eq!(app.selected(), Some(0));
    app.popup();
    app.handle_key(Key::Other);
    assert_eq!(app.focus(), Focus::Popup);
    app.handle_key(Key::Down);
    assert_eq!(app.focus(), Focus::Table);
    assert_eq!(app.selected(), Some(0));
    app.set_focus(Focus::Selected);
    assert_eq!(app.focus(), Focus::Selected);
    assert!(app.handle_key(Key::Quit));
}
