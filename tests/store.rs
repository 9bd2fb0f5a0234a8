use cal_tui::event::{CalendarEvent, EventCommand};
use cal_tui::store::EventStore;

const MIN: i64 = 60_000;

fn ev(id: &str, start: i64, end: i64) -> CalendarEvent {
    CalendarEvent {
        id: id.to_string(),
        is_cancelled: false,
        end_time: end,
        start_time: start,
        organizer: "Ada".to_string(),
        subject: format!("subject {id}"),
        location: String::new(),
        body: String::new(),
        teams_meeting: None,
        response: None,
    }
}

fn ids(store: &EventStore) -> Vec<String> {
    store.events().iter().map(|e| e.id.clone()).collect()
}

#[test]
fn dedup_on_identical_key() {
    let mut store = EventStore::new();
    assert!(store.upsert(ev("a", 10 * MIN, 20 * MIN)));
    assert!(!store.upsert(ev("b", 10 * MIN, 30 * MIN)));
    assert_eq!(store.len(), 1);
    assert_eq!(ids(&store), vec!["b".to_string()]);
    assert_eq!(store.events()[0].end_time, 30 * MIN);
}

#[test]
fn ascending_after_arbitrary_order() {
    let mut store = EventStore::new();
    for (id, start) in [("c", 30), ("a", 10), ("e", 50), ("b", 20), ("d", 40), ("a2", 10)] {
        store.upsert(ev(id, start * MIN, (start + 5) * MIN));
    }
    let starts: Vec<i64> = store.events().iter().map(|e| e.start_time).collect();
    assert_eq!(starts, vec![10 * MIN, 20 * MIN, 30 * MIN, 40 * MIN, 50 * MIN]);
    assert_eq!(ids(&store), vec!["a2", "b", "c", "d", "e"]);
}

#[test]
fn expiry_sweep_keeps_events_not_yet_ended() {
    let t: i64 = 1_000_000;
    let mut store = EventStore::new();
    store.upsert(ev("before", t - 3_600_000, t - 1_000));
    store.upsert(ev("at", t - 1_800_000, t));
    store.upsert(ev("after", t - 900_000, t + 1_000));
    store.sweep(t);
    // An event is removed once its end lies before the sweep time; one that
    // ends exactly at it is still kept.
    assert_eq!(ids(&store), vec!["at", "after"]);
    store.sweep(t + 1);
    assert_eq!(ids(&store), vec!["after"]);
    store.sweep(t + 1_001);
    assert_eq!(store.len(), 0);
}

#[test]
fn remove_by_identifier() {
    let mut store = EventStore::new();
    store.upsert(ev("a", 10 * MIN, 20 * MIN));
    store.upsert(ev("b", 30 * MIN, 40 * MIN));
    store.remove(&ev("a", 99 * MIN, 100 * MIN));
    assert_eq!(ids(&store), vec!["b"]);
    store.remove(&ev("zzz", 30 * MIN, 40 * MIN));
    assert_eq!(ids(&store), vec!["b"]);
}

#[test]
fn get_by_position() {
    let mut store = EventStore::new();
    assert!(store.get(0).is_none());
    store.upsert(ev("b", 20 * MIN, 25 * MIN));
    store.upsert(ev("a", 10 * MIN, 15 * MIN));
    assert_eq!(store.get(0).map(|e| e.id.as_str()), Some("a"));
    assert_eq!(store.get(1).map(|e| e.id.as_str()), Some("b"));
    assert!(store.get(2).is_none());
}

#[test]
fn command_upsert_then_remove() {
    let mut store = EventStore::new();
    let cmds = vec![
        EventCommand::Upsert(ev("a", 10 * MIN, 20 * MIN)),
        EventCommand::Remove(ev("a", 10 * MIN, 20 * MIN)),
    ];
    for c in cmds {
        match c {
            EventCommand::Upsert(e) => {
                store.upsert(e);
            }
            EventCommand::Remove(e) => store.remove(&e),
        }
    }
    assert_eq!(store.len(), 0);
}
