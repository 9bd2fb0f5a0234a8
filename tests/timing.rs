use cal_tui::config::{bearer_header, calendar_view_url, refresh_due, window_end};
use cal_tui::focus::{clamp_selection, next_focus, select_next, select_previous, Focus, Key};
use cal_tui::instant::fire_delay;

#[test]
fn lead_time_clamp() {
    // starts before now + lead: fires at once
    assert_eq!(fire_delay(60_000, 2, 0), 0);
    assert_eq!(fire_delay(0, 2, 1_000_000), 0);
    // exactly at the lead
    assert_eq!(fire_delay(120_000, 2, 0), 0);
    assert_eq!(fire_delay(600_000, 2, 100_000), 380_000);
    assert_eq!(fire_delay(i64::MAX, i64::MIN, i64::MIN), u64::MAX);
    assert_eq!(fire_delay(i64::MIN, i64::MAX, i64::MAX), 0);
}

#[test]
fn selection_steps() {
    assert_eq!(select_next(Some(2), 3), Some(0));
    assert_eq!(select_previous(Some(0), 3), Some(2));
    assert_eq!(select_next(None, 0), None);
    assert_eq!(select_previous(None, 0), None);
    assert_eq!(select_next(Some(0), 3), Some(1));
    assert_eq!(select_previous(Some(2), 3), Some(1));
    assert_eq!(select_next(None, 3), Some(0));
    assert_eq!(clamp_selection(Some(5), 3), Some(2));
    assert_eq!(clamp_selection(None, 3), Some(0));
    assert_eq!(clamp_selection(Some(1), 0), None);
}

#[test]
fn focus_transitions() {
    assert_eq!(next_focus(Focus::Table, Key::Open), Focus::Selected);
    assert_eq!(next_focus(Focus::Table, Key::Back), Focus::Table);
    assert_eq!(next_focus(Focus::Selected, Key::Back), Focus::Table);
    assert_eq!(next_focus(Focus::Selected, Key::Down), Focus::Selected);
    assert_eq!(next_focus(Focus::Popup, Key::Up), Focus::Table);
    assert_eq!(next_focus(Focus::Popup, Key::Open), Focus::Table);
    assert_eq!(next_focus(Focus::Popup, Key::Other), Focus::Popup);
}

#[test]
fn calendar_addresses() {
    assert_eq!(
        calendar_view_url("https://graph.microsoft.com/v1.0", "2024-05-01T00:00:00Z", "2024-05-08T00:00:00Z"),
        "https://graph.microsoft.com/v1.0/me/calendarView?startDateTime=2024-05-01T00:00:00Z&endDateTime=2024-05-08T00:00:00Z"
    );
    assert_eq!(bearer_header("abc"), "Bearer abc");
}

#[test]
fn window_and_refresh() {
    assert_eq!(window_end(1_000, 7), 1_000 + 7 * 86_400_000);
    assert_eq!(window_end(i64::MAX - 5, 1), i64::MAX);
    assert_eq!(window_end(i64::MIN, u64::MAX), i64::MAX);
    assert!(refresh_due(None, 0, 10));
    assert!(!refresh_due(Some(1_000), 10_999, 10));
    assert!(refresh_due(Some(1_000), 11_000, 10));
}
