use audio_friend::time::{
    elapsed_since, format_clip_timestamp, has_lasted, Timestamp, DISPLAY_PATTERN, FIRST_SECOND,
    KEY_PATTERN, LAST_SECOND, NANOS_PER_SEC,
};
use chrono::{DateTime, Local, Utc};

fn local(secs: i64, nanos: u32) -> String {
    DateTime::<Utc>::from_timestamp(secs, nanos)
        .unwrap()
        .with_timezone(&Local)
        .format("%b %-d, %Y at %-I:%M:%S %p")
        .to_string()
}

#[test]
fn elapsed_time_is_never_negative() {
    assert_eq!(elapsed_since(7, 3), 4);
    assert_eq!(elapsed_since(3, 3), 0);
    assert_eq!(elapsed_since(3, 7), 0);
    assert_eq!(elapsed_since(u64::MAX, 0), u64::MAX);
}

#[test]
fn durations_last_from_the_last_nanosecond_on() {
    assert!(has_lasted(0, 0));
    assert!(!has_lasted(2 * NANOS_PER_SEC - 1, 2));
    assert!(has_lasted(2 * NANOS_PER_SEC, 2));
    assert!(has_lasted(u64::MAX, 18_446_744_073));
    assert!(!has_lasted(u64::MAX, 18_446_744_074));
    assert!(!has_lasted(u64::MAX, u64::MAX));
}

#[test]
fn timestamps_are_those_a_clock_can_show() {
    let t = Timestamp::new(1_000_000_000, 5).unwrap();
    assert_eq!((t.secs(), t.nanos()), (1_000_000_000, 5));
    assert!(Timestamp::new(0, 0).is_some());
    assert!(Timestamp::new(LAST_SECOND, 999_999_999).is_some());
    assert!(Timestamp::new(-1, 0).is_none());
    assert!(Timestamp::new(LAST_SECOND + 1, 0).is_none());
    assert!(Timestamp::new(0, 1_000_000_000).is_none());
}

#[test]
fn the_calendar_is_that_of_chrono() {
    assert_eq!(LAST_SECOND, DateTime::<Utc>::MAX_UTC.timestamp());
    assert_eq!(FIRST_SECOND, DateTime::<Utc>::MIN_UTC.timestamp());
    assert_eq!(KEY_PATTERN, "%Y%m%dT%H%M%S%.3fZ");
    assert_eq!(DISPLAY_PATTERN, "%b %-d, %Y at %-I:%M:%S %p");
}

#[test]
fn now_is_what_the_clock_says() {
    let before = Utc::now().timestamp();
    let now = Timestamp::now();
    let after = Utc::now().timestamp();
    assert!(before <= now.secs() && now.secs() <= after);
    assert!((now.nanos() as u64) < NANOS_PER_SEC);
}

#[test]
fn timestamps_are_written_in_rfc_3339() {
    let t = Timestamp::new(1_000_000_000, 0).unwrap();
    assert_eq!(t.to_rfc3339(), "2001-09-09T01:46:40+00:00");
    let t = Timestamp::new(1_000_000_000, 123_000_000).unwrap();
    assert_eq!(t.to_rfc3339(), "2001-09-09T01:46:40.123+00:00");
    let t = Timestamp::new(0, 1).unwrap();
    assert_eq!(t.to_rfc3339(), "1970-01-01T00:00:00.000000001+00:00");
}

#[test]
fn key_stamps_have_milliseconds() {
    let t = Timestamp::new(1_000_000_000, 123_999_999).unwrap();
    assert_eq!(t.key_stamp(), "20010909T014640.123Z");
    let t = Timestamp::new(1_700_000_000, 0).unwrap();
    assert_eq!(t.key_stamp(), "20231114T221320.000Z");
}

#[test]
fn timestamps_are_shown_in_local_time() {
    for secs in [0i64, 1_000_000_000, 1_700_000_000, 1_720_000_000] {
        let t = Timestamp::new(secs, 5).unwrap();
        assert_eq!(t.to_local_text(), local(secs, 5));
    }
}

#[test]
fn the_ends_of_the_calendar_can_be_shown() {
    for secs in [0, LAST_SECOND] {
        let t = Timestamp::new(secs, 999_999_999).unwrap();
        assert_eq!(t.to_local_text(), local(secs, 999_999_999));
        assert!(!t.to_rfc3339().is_empty());
        assert!(!t.key_stamp().is_empty());
    }
}

#[test]
fn clip_times_are_shown_in_local_time() {
    assert_eq!(format_clip_timestamp("2001-09-09T01:46:40.000Z"), local(1_000_000_000, 0));
    assert_eq!(format_clip_timestamp("2001-09-09T03:46:40+02:00"), local(1_000_000_000, 0));
    assert_eq!(format_clip_timestamp("1969-12-31T23:59:59.5Z"), local(-1, 500_000_000));
    assert_eq!(
        format_clip_timestamp("2016-12-31T23:59:60.5Z"),
        local(1_483_228_799, 1_500_000_000)
    );
}

#[test]
fn other_clip_times_are_shown_as_they_are() {
    for text in ["", "yesterday", "2001-09-09", "2001-13-09T01:46:40Z", "2001-09-09T01:46:40"] {
        assert_eq!(format_clip_timestamp(text), text);
    }
}
