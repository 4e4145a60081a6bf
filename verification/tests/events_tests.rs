use bingo::events::{self, EventType};

#[test]
fn new_at_keeps_kind_duration_and_start() {
    let e = events::new_at(EventType::RoundWin, 16, 123_456_789);
    assert_eq!(e.event_type(), EventType::RoundWin);
    assert_eq!(e.duration(), 16);
    assert_eq!(e.start_time(), 123_456_789);
}

#[test]
fn new_stamps_the_current_wall_clock() {
    let before = chrono::Utc::now().timestamp_millis();
    let e = events::new(EventType::EndOfGame, 16);
    let after = chrono::Utc::now().timestamp_millis();
    assert_eq!(e.event_type(), EventType::EndOfGame);
    assert_eq!(e.duration(), 16);
    assert!(e.start_time() >= before && e.start_time() <= after);
}
