use audio_friend::clips::UploadOutcome;
use audio_friend::config::{AppConfig, S3Config};
use audio_friend::engine::{
    capture_event_text, kept_uploads, AudioEngine, SampleFormat, StartAction, StartEvent, UploadPoll,
};
use audio_friend::level::Level;
use audio_friend::time::{Timestamp, NANOS_PER_SEC};
use audio_friend::wav::encode_wav;

const SEC: u64 = NANOS_PER_SEC;

fn level(value: f32) -> Level {
    Level { bits: value.to_bits() }
}

fn at(secs: i64) -> Timestamp {
    Timestamp::new(secs, 0).unwrap()
}

fn settings() -> AppConfig {
    AppConfig {
        input_device: "__default__".to_string(),
        ring_buffer_secs: "1".to_string(),
        keepalive_secs: "2".to_string(),
        ..AppConfig::default()
    }
}

fn with_bucket() -> AppConfig {
    AppConfig {
        s3: S3Config {
            endpoint_url: "u".to_string(),
            bucket: "b".to_string(),
            access_key: "a".to_string(),
            secret_key: "s".to_string(),
        },
        ..settings()
    }
}

fn devices() -> StartEvent {
    StartEvent::DevicesListed(Ok(vec![None, Some("Mic".to_string())]))
}

/// Starts listening with four samples per second.
fn listening(config: AppConfig) -> AudioEngine {
    let mut engine = AudioEngine::new(config);
    assert!(matches!(engine.start(StartEvent::Requested), StartAction::ListDevices));
    assert!(matches!(engine.start(devices()), StartAction::QueryConfig(_)));
    assert!(matches!(
        engine.start(StartEvent::ConfigQueried(Ok((SampleFormat::F32, 4)))),
        StartAction::BuildStream(SampleFormat::F32)
    ));
    assert!(matches!(
        engine.start(StartEvent::StreamPlaying(Ok(()))),
        StartAction::Done(Ok(()))
    ));
    assert_eq!(engine.take_activity_events(), vec!["Monitoring started"]);
    engine
}

fn uploaded(key: &str, size_bytes: usize) -> UploadPoll {
    UploadPoll::Done(UploadOutcome::Uploaded { key: key.to_string(), size_bytes })
}

#[test]
fn an_engine_starts_with_nothing() {
    let mut engine = AudioEngine::new(settings());
    assert_eq!(engine.current_amplitude().bits, 0);
    assert_eq!(engine.status_text(), None);
    assert!(engine.take_activity_events().is_empty());
    assert!(!engine.has_pending_uploads());
    assert!(engine.clip_snapshot(0, at(0)).is_none());
}

#[test]
fn the_default_device_is_the_first() {
    let mut engine = AudioEngine::new(settings());
    assert!(matches!(engine.start(devices()), StartAction::QueryConfig(0)));
    let mut engine = AudioEngine::new(AppConfig {
        input_device: "Mic".to_string(),
        ..settings()
    });
    assert!(matches!(engine.start(devices()), StartAction::QueryConfig(1)));
}

#[test]
fn starting_fails_without_the_device() {
    let mut engine = AudioEngine::new(AppConfig {
        input_device: "Other".to_string(),
        ..settings()
    });
    match engine.start(devices()) {
        StartAction::Done(Err(e)) => assert_eq!(e, "configured input device not found"),
        other => panic!("{other:?}"),
    }
    let mut engine = AudioEngine::new(settings());
    match engine.start(StartEvent::DevicesListed(Ok(Vec::new()))) {
        StartAction::Done(Err(e)) => assert_eq!(e, "configured input device not found"),
        other => panic!("{other:?}"),
    }
}

#[test]
fn starting_fails_as_the_outside_does() {
    let events = [
        StartEvent::DevicesListed(Err("no host".to_string())),
        StartEvent::ConfigQueried(Err("no host".to_string())),
        StartEvent::StreamPlaying(Err("no host".to_string())),
    ];
    for event in events {
        let mut engine = AudioEngine::new(settings());
        match engine.start(event) {
            StartAction::Done(Err(e)) => assert_eq!(e, "no host"),
            other => panic!("{other:?}"),
        }
        assert!(engine.take_activity_events().is_empty());
        assert!(matches!(engine.start(StartEvent::Requested), StartAction::ListDevices));
    }
}

#[test]
fn only_three_formats_are_supported() {
    for format in [SampleFormat::F32, SampleFormat::I16, SampleFormat::U16] {
        let mut engine = AudioEngine::new(settings());
        match engine.start(StartEvent::ConfigQueried(Ok((format, 8_000)))) {
            StartAction::BuildStream(f) => assert_eq!(f, format),
            other => panic!("{other:?}"),
        }
    }
    let mut engine = AudioEngine::new(settings());
    match engine.start(StartEvent::ConfigQueried(Ok((SampleFormat::Other, 8_000)))) {
        StartAction::Done(Err(e)) => assert_eq!(e, "unsupported sample format"),
        other => panic!("{other:?}"),
    }
}

#[test]
fn a_running_stream_is_not_started_again() {
    let mut engine = listening(settings());
    assert!(matches!(engine.start(StartEvent::Requested), StartAction::Done(Ok(()))));
    assert!(engine.take_activity_events().is_empty());
    engine.stop();
    assert!(matches!(engine.start(StartEvent::Requested), StartAction::ListDevices));
}

#[test]
fn rates_that_are_too_high_are_known_before() {
    let engine = AudioEngine::new(AppConfig {
        ring_buffer_secs: usize::MAX.to_string(),
        ..settings()
    });
    assert!(engine.accepts_start(&StartEvent::Requested));
    assert!(engine.accepts_start(&StartEvent::ConfigQueried(Ok((SampleFormat::F32, 1)))));
    assert!(!engine.accepts_start(&StartEvent::ConfigQueried(Ok((SampleFormat::F32, 2)))));
    assert!(engine.accepts_start(&StartEvent::ConfigQueried(Err("e".to_string()))));
}

#[test]
fn a_clip_is_handed_over_once() {
    let mut engine = listening(with_bucket());
    engine.process_input_at(&[1, 2], level(0.5), SEC, at(1));
    assert_eq!(engine.current_amplitude().bits, 0.5f32.to_bits());
    engine.process_input_at(&[3], level(0.0), 3 * SEC, at(3));
    let job = engine.poll_uploads(&Vec::new(), 3 * SEC, at(3)).unwrap().unwrap();
    assert_eq!(job.clip.bytes, encode_wav(&vec![1, 2, 1, 2, 3], 4));
    assert_eq!(job.clip.captured_at, at(3));
    assert_eq!(job.config.bucket, "b");
    assert!(engine.has_pending_uploads());
    assert_eq!(engine.status_text(), Some("Uploading clip".to_string()));
    assert_eq!(engine.status_text(), None);
    assert_eq!(
        engine.take_activity_events(),
        vec![
            "Clip recording started",
            "Clip recording finished: 2.0s (0 KB)",
            "Clip captured: 2.0s (0 KB)",
            "Uploading clip",
        ]
    );
    let polls = vec![UploadPoll::Running];
    assert!(engine.poll_uploads(&polls, 4 * SEC, at(4)).unwrap().is_none());
    assert!(engine.take_activity_events().is_empty());
    assert_eq!(engine.status_text(), None);
    let polls = vec![uploaded("recordings/x.wav", 5_000)];
    assert!(engine.poll_uploads(&polls, 5 * SEC, at(5)).unwrap().is_none());
    assert_eq!(engine.status_text(), Some("Uploaded clip".to_string()));
    assert_eq!(
        engine.take_activity_events(),
        vec!["Uploaded clip: recordings/x.wav (4 KB)"]
    );
    assert!(!engine.has_pending_uploads());
}

#[test]
fn a_clip_without_a_bucket_is_kept_locally() {
    let mut engine = listening(settings());
    engine.process_input_at(&[1], level(0.5), 0, at(0));
    engine.process_input_at(&[2], level(0.0), 2 * SEC, at(2));
    assert!(engine.poll_uploads(&Vec::new(), 2 * SEC, at(2)).unwrap().is_some());
    assert_eq!(engine.status_text(), Some("Captured clip locally".to_string()));
    let events = engine.take_activity_events();
    assert_eq!(events.last().map(|e| e.as_str()), Some("Upload skipped; S3 not configured"));
    assert!(engine.has_pending_uploads());
    let polls = vec![UploadPoll::Done(UploadOutcome::Skipped { size_bytes: 1_024 })];
    assert!(engine.poll_uploads(&polls, 3 * SEC, at(3)).unwrap().is_none());
    assert_eq!(engine.status_text(), Some("Captured clip locally".to_string()));
    assert_eq!(
        engine.take_activity_events(),
        vec!["Captured clip locally; upload skipped (1 KB)"]
    );
}

#[test]
fn a_failed_upload_ends_all_of_them() {
    let mut engine = listening(with_bucket());
    for i in 0..3u64 {
        engine.process_input_at(&[1], level(0.5), 10 * i * SEC, at(0));
        engine.process_input_at(&[2], level(0.0), (10 * i + 2) * SEC, at(0));
        let mut polls = Vec::new();
        for _ in 0..i {
            polls.push(UploadPoll::Running);
        }
        assert!(engine.poll_uploads(&polls, (10 * i + 2) * SEC, at(0)).unwrap().is_some());
    }
    engine.take_activity_events();
    engine.status_text();
    engine.process_input_at(&[1], level(0.5), 40 * SEC, at(0));
    engine.process_input_at(&[2], level(0.0), 42 * SEC, at(0));
    let polls = vec![
        uploaded("k", 2_048),
        UploadPoll::Failed("out of space".to_string()),
        UploadPoll::Failed("too late".to_string()),
    ];
    assert_eq!(kept_uploads(&polls), vec![false, false, false]);
    match engine.poll_uploads(&polls, 42 * SEC, at(0)) {
        Err(e) => assert_eq!(e, "out of space"),
        Ok(_) => panic!("the failure was lost"),
    }
    assert!(!engine.has_pending_uploads());
    assert_eq!(
        engine.take_activity_events(),
        vec![
            "Clip recording started",
            "Clip recording finished: 2.0s (0 KB)",
            "Uploaded clip: k (2 KB)",
        ]
    );
    assert!(engine.poll_uploads(&Vec::new(), 43 * SEC, at(0)).unwrap().is_some());
}

#[test]
fn uploads_that_run_are_kept() {
    let polls = vec![
        UploadPoll::Running,
        uploaded("k", 1),
        UploadPoll::Running,
        UploadPoll::Done(UploadOutcome::Skipped { size_bytes: 1 }),
    ];
    assert_eq!(kept_uploads(&polls), vec![true, false, true, false]);
    assert!(kept_uploads(&Vec::new()).is_empty());
    let polls = vec![UploadPoll::Running, UploadPoll::Failed("e".to_string())];
    assert_eq!(kept_uploads(&polls), vec![false, false]);
}

#[test]
fn a_stopped_engine_waits_for_its_clip() {
    let mut engine = listening(with_bucket());
    engine.process_input_at(&[7], level(0.5), SEC, at(1));
    engine.stop();
    assert!(engine.poll_uploads(&Vec::new(), 2 * SEC, at(2)).unwrap().is_none());
    assert_eq!(engine.status_text(), None);
    let job = engine.poll_uploads(&Vec::new(), 3 * SEC, at(3)).unwrap().unwrap();
    assert_eq!(job.clip.bytes, encode_wav(&vec![7, 7], 4));
    assert_eq!(
        engine.take_activity_events(),
        vec![
            "Monitoring stopped; waiting for keepalive to finish current clip",
            "Clip recording started",
            "Clip recording finished after monitoring stopped: 2.0s (0 KB)",
            "Clip captured: 2.0s (0 KB)",
            "Uploading clip",
        ]
    );
    let polls = vec![uploaded("k", 1)];
    assert!(engine.poll_uploads(&polls, 4 * SEC, at(4)).unwrap().is_none());
    assert_eq!(engine.status_text(), Some("Idle".to_string()));
    assert!(engine.poll_uploads(&Vec::new(), 5 * SEC, at(5)).unwrap().is_none());
    assert_eq!(engine.status_text(), None);
}

#[test]
fn a_stopped_engine_without_a_clip_is_idle() {
    let mut engine = listening(settings());
    engine.stop();
    assert!(engine.poll_uploads(&Vec::new(), 0, at(0)).unwrap().is_none());
    assert_eq!(engine.status_text(), Some("Idle".to_string()));
}

#[test]
fn time_ends_no_clip_while_listening() {
    let mut engine = listening(settings());
    engine.process_input_at(&[7], level(0.5), 0, at(0));
    assert!(engine.poll_uploads(&Vec::new(), 1_000 * SEC, at(0)).unwrap().is_none());
    assert_eq!(
        engine.clip_snapshot(1_000 * SEC, at(0)).unwrap().key,
        "In-memory clip (1000.0s)"
    );
}

#[test]
fn new_settings_hold_for_a_running_stream() {
    let mut engine = listening(settings());
    engine.process_input_at(&[7], level(0.5), 0, at(0));
    engine.apply_config(AppConfig { input_threshold: level(0.7), ..settings() });
    assert!(engine.clip_snapshot(0, at(0)).is_none());
    engine.process_input_at(&[8], level(0.6), 0, at(0));
    assert!(engine.clip_snapshot(0, at(0)).is_none());
    engine.process_input_at(&[9], level(0.75), SEC, at(1));
    assert_eq!(engine.current_amplitude().bits, 0.75f32.to_bits());
    assert!(engine.clip_snapshot(SEC, at(1)).is_some());
    assert!(matches!(engine.start(StartEvent::Requested), StartAction::Done(Ok(()))));
    engine.process_input_at(&[10], level(0.0), 3 * SEC, at(3));
    let job = engine.poll_uploads(&Vec::new(), 3 * SEC, at(3)).unwrap().unwrap();
    assert_eq!(job.clip.bytes, encode_wav(&vec![8, 9, 9, 10], 4));
}

#[test]
fn new_settings_start_no_stream() {
    let mut engine = AudioEngine::new(settings());
    engine.apply_config(settings());
    engine.process_input_at(&[9], level(0.75), 0, at(0));
    assert!(engine.clip_snapshot(0, at(0)).is_none());
}

#[test]
fn samples_count_from_when_the_stream_is_built() {
    let mut engine = AudioEngine::new(settings());
    engine.process_input_at(&[1], level(0.5), 0, at(0));
    assert!(engine.clip_snapshot(0, at(0)).is_none());
    engine.start(StartEvent::ConfigQueried(Ok((SampleFormat::F32, 4))));
    engine.process_input_at(&[2], level(0.5), 0, at(0));
    assert_eq!(engine.clip_snapshot(0, at(0)).unwrap().size_bytes, 4);
    let mut engine = AudioEngine::new(settings());
    engine.start(StartEvent::ConfigQueried(Ok((SampleFormat::F32, 4))));
    engine.start(StartEvent::StreamPlaying(Err("busy".to_string())));
    engine.process_input_at(&[2], level(0.5), 0, at(0));
    assert!(engine.clip_snapshot(0, at(0)).is_none());
}

#[test]
fn the_clock_dates_the_clips_of_a_stream() {
    let mut engine = listening(settings());
    let before = Timestamp::now().secs();
    engine.process_input(&[7], level(0.5), 0);
    engine.process_input(&[8], level(0.0), 2 * SEC);
    let job = engine.poll_uploads(&Vec::new(), 2 * SEC, at(0)).unwrap().unwrap();
    assert!(before <= job.clip.captured_at.secs());
    assert!(job.clip.captured_at.secs() <= Timestamp::now().secs());
}

#[test]
fn reports_have_to_be_on_the_uploads_that_run() {
    let mut engine = listening(settings());
    assert!(engine.accepts_polls(0, 0));
    assert!(!engine.accepts_polls(1, 0));
    assert!(engine.accepts_input(1, level(0.5), 0));
    engine.process_input_at(&[1], level(0.5), 0, at(0));
    engine.process_input_at(&[1], level(0.0), 2 * SEC, at(0));
    assert!(engine.poll_uploads(&Vec::new(), 2 * SEC, at(0)).unwrap().is_some());
    assert!(!engine.accepts_polls(0, 0));
    assert!(engine.accepts_polls(1, 0));
}

#[test]
fn captured_clips_are_told_of_in_kilobytes() {
    assert_eq!(capture_event_text("1.5", 1_023), "Clip captured: 1.5s (0 KB)");
    assert_eq!(capture_event_text("60.0", 10_240), "Clip captured: 60.0s (10 KB)");
}
