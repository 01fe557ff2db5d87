use audio_friend::clips::ClipSource;
use audio_friend::config::AppConfig;
use audio_friend::detector::{
    drain_texts, finish_event_text, Detector, DEFAULT_SAMPLE_RATE, MAX_CLIP_SECS,
};
use audio_friend::level::Level;
use audio_friend::time::{Timestamp, NANOS_PER_SEC};
use audio_friend::wav::encode_wav;
use std::collections::VecDeque;

const SEC: u64 = NANOS_PER_SEC;

fn level(value: f32) -> Level {
    Level { bits: value.to_bits() }
}

fn loud() -> Level {
    level(0.5)
}

fn quiet() -> Level {
    level(0.01)
}

fn at(secs: i64) -> Timestamp {
    Timestamp::new(secs, 0).unwrap()
}

/// A detector that keeps one second of four samples and ends a clip after two seconds.
fn small() -> Detector {
    let config = AppConfig {
        ring_buffer_secs: "1".to_string(),
        keepalive_secs: "2".to_string(),
        ..AppConfig::default()
    };
    let mut detector = Detector::new(&config);
    detector.set_sample_rate(4);
    detector
}

/// The samples of the clip that a detector is recording: it is ended by silence.
fn recorded(detector: &mut Detector, now: u64) -> Vec<u8> {
    detector.process_silence_tick(now + 100 * SEC, at(0));
    detector.take_finished_clip().unwrap().bytes
}

#[test]
fn the_ring_is_as_large_as_the_settings_say() {
    let detector = Detector::new(&AppConfig::default());
    assert_eq!(detector.ring_capacity(), 3 * 48_000);
    assert_eq!(DEFAULT_SAMPLE_RATE, 48_000);
    assert_eq!(MAX_CLIP_SECS, 60);
    let mut detector = Detector::new(&AppConfig {
        ring_buffer_secs: "no number".to_string(),
        ..AppConfig::default()
    });
    detector.set_sample_rate(10);
    assert_eq!(detector.ring_capacity(), 30);
}

#[test]
fn a_clip_starts_with_what_was_heard_before() {
    let mut detector = small();
    detector.process_at(&[1, 2, 3], quiet(), 0, at(0));
    detector.process_at(&[4, 5], quiet(), SEC, at(1));
    assert!(!detector.has_clip());
    detector.process_at(&[6], loud(), 10 * SEC, at(10));
    assert!(detector.has_clip());
    let clip = detector.clip_snapshot(11 * SEC + SEC / 2, at(11)).unwrap();
    assert_eq!(clip.key, "In-memory clip (1.5s)");
    assert_eq!(clip.last_modified, "1970-01-01T00:00:11+00:00");
    assert_eq!(clip.last_modified_display, "Recording now");
    assert_eq!(clip.size_bytes, 10);
    assert_eq!(clip.source, ClipSource::InMemoryActive);
    assert_eq!(detector.take_activity_events(), vec!["Clip recording started"]);
    assert_eq!(recorded(&mut detector, 10 * SEC), encode_wav(&vec![3, 4, 5, 6, 6], 4));
}

#[test]
fn silence_starts_no_clip() {
    let mut detector = small();
    for i in 0..100u64 {
        detector.process_at(&[i as i16], quiet(), i * SEC, at(0));
    }
    assert!(!detector.has_clip());
    assert!(detector.clip_snapshot(0, at(0)).is_none());
    assert!(detector.take_finished_clip().is_none());
    assert!(detector.take_activity_events().is_empty());
}

#[test]
fn a_clip_ends_after_a_while_of_silence() {
    let mut detector = small();
    detector.process_at(&[1], loud(), 10 * SEC, at(10));
    detector.process_at(&[2], quiet(), 11 * SEC, at(11));
    detector.process_at(&[3], quiet(), 12 * SEC - 1, at(11));
    assert!(detector.take_finished_clip().is_none());
    detector.process_at(&[4], quiet(), 12 * SEC, at(12));
    let clip = detector.take_finished_clip().unwrap();
    assert_eq!(clip.bytes, encode_wav(&vec![1, 1, 2, 3, 4], 4));
    assert_eq!(clip.size_bytes, 54);
    assert_eq!(clip.duration, 2 * SEC);
    assert_eq!(clip.captured_at, at(12));
    assert_eq!(
        detector.take_activity_events(),
        vec!["Clip recording started", "Clip recording finished: 2.0s (0 KB)"]
    );
    assert!(detector.take_finished_clip().is_none());
    assert!(!detector.has_clip());
}

#[test]
fn sound_keeps_a_clip_alive() {
    let mut detector = small();
    detector.process_at(&[1], loud(), 0, at(0));
    for i in 1..50u64 {
        detector.process_at(&[i as i16], loud(), i * SEC, at(0));
        detector.process_at(&[], quiet(), i * SEC + SEC / 2, at(0));
    }
    assert!(detector.take_finished_clip().is_none());
    detector.process_at(&[], quiet(), 51 * SEC, at(0));
    assert!(detector.take_finished_clip().is_some());
}

#[test]
fn a_clip_is_split_after_a_minute() {
    let mut detector = small();
    detector.process_at(&[1], loud(), SEC, at(1));
    detector.process_at(&[2], loud(), 61 * SEC - 1, at(60));
    assert!(detector.take_finished_clip().is_none());
    detector.process_at(&[3], loud(), 61 * SEC, at(61));
    let clip = detector.take_finished_clip().unwrap();
    assert_eq!(clip.bytes, encode_wav(&vec![1, 1, 2, 3], 4));
    assert_eq!(clip.duration, 60 * SEC);
    assert_eq!(
        detector.take_activity_events(),
        vec![
            "Clip recording started",
            "Clip reached 60 second limit; starting a new clip: 60.0s (0 KB)",
            "Clip recording started",
        ]
    );
    assert_eq!(recorded(&mut detector, 61 * SEC), encode_wav(&vec![1, 2, 3, 3], 4));
}

#[test]
fn silence_splits_no_clip() {
    let mut detector = Detector::new(&AppConfig {
        keepalive_secs: "100".to_string(),
        ..AppConfig::default()
    });
    detector.process_at(&[1], loud(), 0, at(0));
    detector.process_at(&[2], quiet(), 99 * SEC, at(0));
    assert!(detector.take_finished_clip().is_none());
    detector.process_at(&[3], loud(), 99 * SEC, at(0));
    assert!(detector.take_finished_clip().is_some());
    assert!(detector.has_clip());
}

#[test]
fn a_clip_that_is_not_taken_gives_way_to_the_next() {
    let mut detector = small();
    detector.process_at(&[1], loud(), 0, at(0));
    detector.process_at(&[2], quiet(), 2 * SEC, at(2));
    let pending = detector.clip_snapshot(3 * SEC, at(3)).unwrap();
    assert_eq!(pending.key, "Pending upload");
    assert_eq!(pending.last_modified, "1970-01-01T00:00:03+00:00");
    assert_eq!(pending.last_modified_display, "Waiting to upload");
    assert_eq!(pending.size_bytes, 44 + 6);
    assert_eq!(pending.source, ClipSource::InMemoryPendingUpload);
    detector.process_at(&[3], loud(), 3 * SEC, at(3));
    detector.process_at(&[4], quiet(), 5 * SEC, at(5));
    let clip = detector.take_finished_clip().unwrap();
    assert_eq!(clip.captured_at, at(5));
    assert_eq!(clip.bytes, encode_wav(&vec![1, 2, 3, 3, 4], 4));
}

#[test]
fn a_tick_ends_a_clip_after_a_while() {
    let mut detector = small();
    detector.process_silence_tick(0, at(0));
    detector.process_at(&[1], loud(), SEC, at(1));
    detector.process_silence_tick(3 * SEC - 1, at(2));
    assert!(detector.take_finished_clip().is_none());
    detector.process_silence_tick(3 * SEC, at(3));
    let clip = detector.take_finished_clip().unwrap();
    assert_eq!(clip.bytes, encode_wav(&vec![1, 1], 4));
    assert_eq!(clip.captured_at, at(3));
    assert_eq!(
        detector.take_activity_events(),
        vec![
            "Clip recording started",
            "Clip recording finished after monitoring stopped: 2.0s (0 KB)",
        ]
    );
}

#[test]
fn a_smaller_ring_keeps_the_newest_samples() {
    let mut detector = small();
    detector.process_at(&[1, 2, 3, 4], quiet(), 0, at(0));
    detector.set_sample_rate(2);
    detector.process_at(&[], loud(), 0, at(0));
    assert_eq!(recorded(&mut detector, 0), encode_wav(&vec![3, 4], 2));
}

#[test]
fn a_ring_without_room_keeps_the_last_sample() {
    let mut detector = Detector::new(&AppConfig {
        ring_buffer_secs: "0".to_string(),
        ..AppConfig::default()
    });
    assert_eq!(detector.ring_capacity(), 0);
    detector.process_at(&[1, 2, 3], quiet(), 0, at(0));
    detector.process_at(&[], loud(), 0, at(0));
    assert_eq!(recorded(&mut detector, 0), encode_wav(&vec![3], 48_000));
}

#[test]
fn the_ring_does_not_depend_on_how_samples_come() {
    for cut in 0..=9usize {
        let samples: Vec<i16> = (0..9).collect();
        let mut detector = small();
        detector.process_at(&samples[..cut], quiet(), 0, at(0));
        detector.process_at(&samples[cut..], quiet(), 0, at(0));
        detector.process_at(&[], loud(), 0, at(0));
        assert_eq!(recorded(&mut detector, 0), encode_wav(&vec![5, 6, 7, 8], 4));
    }
}

#[test]
fn a_level_that_is_no_number_is_silence() {
    let mut detector = small();
    detector.process_at(&[1], level(f32::NAN), 0, at(0));
    assert!(!detector.has_clip());
}

#[test]
fn the_clock_dates_a_clip() {
    let mut detector = small();
    let before = Timestamp::now().secs();
    detector.process(&[1], loud(), 0);
    detector.process(&[2], quiet(), 2 * SEC);
    let clip = detector.take_finished_clip().unwrap();
    assert!(before <= clip.captured_at.secs());
    assert!(clip.captured_at.secs() <= Timestamp::now().secs());
    assert_eq!(clip.bytes, encode_wav(&vec![1, 1, 2], 4));
}

#[test]
fn what_does_not_fit_is_known_before() {
    let mut detector = Detector::new(&AppConfig {
        ring_buffer_secs: usize::MAX.to_string(),
        ..AppConfig::default()
    });
    assert!(detector.accepts_rate(0));
    assert!(detector.accepts_rate(1));
    assert!(!detector.accepts_rate(2));
    assert!(!detector.accepts_input(1, quiet(), 0));
    assert!(detector.accepts_input(0, quiet(), 0));
    detector.set_sample_rate(1);
    assert!(detector.accepts_input(1, quiet(), 0));
    assert!(detector.accepts_tick(0));

    let mut detector = small();
    detector.set_sample_rate(u32::MAX);
    detector.process_at(&[1], loud(), 0, at(0));
    assert!(detector.accepts_input(1, quiet(), 2 * SEC - 1));
    assert!(!detector.accepts_input(1, quiet(), 2 * SEC));
    assert!(detector.accepts_input(1, loud(), 2 * SEC));
    assert!(!detector.accepts_input(1, loud(), 60 * SEC));
    assert!(detector.accepts_tick(2 * SEC - 1));
    assert!(!detector.accepts_tick(2 * SEC));
}

#[test]
fn a_detector_can_start_at_a_rate() {
    let detector = Detector::at_sample_rate(&AppConfig::default(), 10);
    assert_eq!(detector.samples_per_second(), 10);
    assert_eq!(detector.ring_capacity(), 30);
    assert!(!detector.has_clip());
    assert_eq!(Detector::new(&AppConfig::default()).samples_per_second(), 48_000);
}

#[test]
fn finished_clips_are_told_of_in_kilobytes() {
    assert_eq!(finish_event_text("Done", "1.5", 2047), "Done: 1.5s (1 KB)");
    assert_eq!(finish_event_text("Done", "0.0", 2048), "Done: 0.0s (2 KB)");
}

#[test]
fn queues_are_emptied_from_the_front() {
    let mut queue: VecDeque<String> = VecDeque::new();
    queue.push_back("a".to_string());
    queue.push_back("b".to_string());
    queue.push_front("c".to_string());
    assert_eq!(drain_texts(&mut queue), vec!["c", "a", "b"]);
    assert!(queue.is_empty());
    assert!(drain_texts(&mut queue).is_empty());
}

#[test]
fn a_clip_has_every_block_in_order() {
    let mut detector = small();
    detector.process_at(&[0, 1], loud(), SEC, at(1));
    let mut expected: Vec<i16> = vec![0, 1, 0, 1];
    for i in 2..40i16 {
        let rms = if i % 3 == 0 { loud() } else { quiet() };
        let block = vec![i; (i % 4) as usize];
        detector.process_at(&block, rms, SEC + i as u64 * SEC / 2, at(1));
        expected.extend(block);
    }
    assert_eq!(detector.ring_capacity(), 4);
    assert!(detector.take_finished_clip().is_none());
    assert_eq!(detector.take_activity_events(), vec!["Clip recording started"]);
    assert_eq!(recorded(&mut detector, 21 * SEC), encode_wav(&expected, 4));
}
