use audio_friend::activity::{push_activity, push_entry, ActivityEntry, MAX_ACTIVITY};
use audio_friend::time::Timestamp;
use std::collections::VecDeque;

#[test]
fn the_newest_entry_stands_first() {
    let mut log = VecDeque::new();
    for message in ["one", "two", "three"] {
        push_activity(&mut log, message.to_string());
    }
    let messages: Vec<&str> = log.iter().map(|e: &ActivityEntry| e.message.as_str()).collect();
    assert_eq!(messages, vec!["three", "two", "one"]);
}

#[test]
fn the_log_keeps_a_hundred_entries() {
    let mut log = VecDeque::new();
    for i in 0..250 {
        push_activity(&mut log, i.to_string());
        assert_eq!(log.len(), if i < 100 { i + 1 } else { 100 });
    }
    assert_eq!(MAX_ACTIVITY, 100);
    for (i, entry) in log.iter().enumerate() {
        assert_eq!(entry.message, (249 - i).to_string());
    }
}

#[test]
fn entries_are_dated_by_the_clock() {
    let before = Timestamp::now().secs();
    let entry = ActivityEntry::new("hello".to_string());
    assert_eq!(entry.message, "hello");
    assert!(before <= entry.timestamp.secs());
    assert!(entry.timestamp.secs() <= Timestamp::now().secs());
}

#[test]
fn entries_keep_their_date() {
    let mut log = VecDeque::new();
    let timestamp = Timestamp::new(5, 6).unwrap();
    push_entry(&mut log, ActivityEntry { timestamp, message: "x".to_string() });
    push_activity(&mut log, "y".to_string());
    let copy = log[1].clone();
    assert_eq!(copy.timestamp, timestamp);
    assert_eq!(copy.message, "x");
}
