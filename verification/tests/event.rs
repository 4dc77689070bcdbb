use rocket_tycoon::calendar::GameDate;
use rocket_tycoon::event::{EventImportance, EventLog};

fn date(day: u32) -> GameDate {
    GameDate::new(2001, 1, day)
}

#[test]
fn test_push_and_recent() {
    let mut log = EventLog::new(100);
    log.push(date(1), "started");
    log.push(date(1), "day");
    log.push(date(2), "day");

    assert_eq!(log.len(), 3);

    let recent = log.recent(2);
    assert_eq!(recent.len(), 2);
    assert_eq!(recent[0].0, date(2));
    assert_eq!(recent[1].0, date(1));
}

#[test]
fn test_ring_buffer() {
    let mut log = EventLog::new(3);
    for d in 1..=5 {
        log.push(date(d), "day");
    }
    assert_eq!(log.len(), 3);
    let all: Vec<_> = log.iter().collect();
    assert_eq!(all[0].0, date(3));
    assert_eq!(all[2].0, date(5));
}

#[test]
fn test_recent_more_than_available() {
    let mut log = EventLog::new(100);
    log.push(date(1), "started");
    let recent = log.recent(10);
    assert_eq!(recent.len(), 1);
}

#[test]
fn test_empty_log() {
    let log: EventLog<&str> = EventLog::new(10);
    assert!(log.is_empty());
    assert_eq!(log.len(), 0);
    assert!(log.recent(5).is_empty());
}

#[test]
fn test_zero_capacity_keeps_latest() {
    let mut log = EventLog::new(0);
    log.push(date(1), 1);
    log.push(date(2), 2);
    assert_eq!(log.len(), 1);
    assert_eq!(log.recent(1)[0].1, 2);
}

#[test]
fn test_importance_order() {
    assert!(EventImportance::Routine < EventImportance::Notable);
}
