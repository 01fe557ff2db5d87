use audio_friend::app::{
    accepts_message, initial_state, title, update, update_at, view, AudioFriend, Effect, Message,
    Page,
};
use audio_friend::clips::{ClipInfo, ClipSource, DownloadedClip};
use audio_friend::config::{AppConfig, S3Config};
use audio_friend::devices::DeviceOption;
use audio_friend::engine::{SampleFormat, StartAction, StartEvent, UploadPoll};
use audio_friend::level::Level;
use audio_friend::time::{Timestamp, NANOS_PER_SEC};

const SEC: u64 = NANOS_PER_SEC;
const MAIN: u64 = 1;

fn at(secs: i64) -> Timestamp {
    Timestamp::new(secs, 0).unwrap()
}

fn level(value: f32) -> Level {
    Level { bits: value.to_bits() }
}

fn settings() -> AppConfig {
    AppConfig {
        ring_buffer_secs: "1".to_string(),
        keepalive_secs: "2".to_string(),
        s3: S3Config {
            endpoint_url: "u".to_string(),
            bucket: "b".to_string(),
            access_key: "a".to_string(),
            secret_key: "s".to_string(),
        },
        ..AppConfig::default()
    }
}

fn state() -> AudioFriend {
    initial_state(Some(settings()), MAIN, Vec::new(), Vec::new())
}

fn send(state: &mut AudioFriend, message: Message) -> Effect {
    assert!(accepts_message(state, &message));
    update_at(state, message, at(0))
}

fn log(state: &AudioFriend) -> Vec<&str> {
    state.activity_log.iter().map(|e| e.message.as_str()).collect()
}

fn device(name: &str) -> DeviceOption {
    DeviceOption { label: name.to_uppercase(), raw_name: name.to_string() }
}

fn clip(key: &str, source: ClipSource) -> ClipInfo {
    ClipInfo {
        key: key.to_string(),
        last_modified: String::new(),
        last_modified_display: String::new(),
        size_bytes: 0,
        source,
    }
}

fn tick(uploads: Vec<UploadPoll>, now: u64) -> Message {
    Message::Tick { uploads, now }
}

/// Lets the engine listen, with four samples per second.
fn listen(state: &mut AudioFriend) {
    assert!(matches!(send(state, Message::ToggleEnabled), Effect::StartAudio));
    state.audio.start(StartEvent::ConfigQueried(Ok((SampleFormat::F32, 4))));
    assert!(matches!(
        state.audio.start(StartEvent::StreamPlaying(Ok(()))),
        StartAction::Done(Ok(()))
    ));
    assert!(matches!(send(state, Message::StartFinished(Ok(()))), Effect::Nothing));
}

#[test]
fn the_application_starts_idle() {
    let state = initial_state(None, MAIN, vec![device("in")], vec![device("out")]);
    assert!(!state.enabled);
    assert_eq!(state.amplitude.bits, 0);
    assert_eq!(state.config.input_device, "__default__");
    assert_eq!(state.status, "Idle");
    assert_eq!(state.main_window, MAIN);
    assert_eq!(
        (state.settings_window, state.activity_window, state.clips_window),
        (None, None, None)
    );
    assert_eq!(state.settings_error, None);
    assert_eq!(state.input_devices, vec![device("in")]);
    assert_eq!(state.output_devices, vec![device("out")]);
    assert!(state.activity_log.is_empty());
    assert!(state.clips.is_empty());
    assert_eq!(state.clips_status, "Not loaded");
    assert!(state.active_clip.is_none());
    assert_eq!(state.player.now_playing(), None);
}

#[test]
fn listening_is_switched_on_and_off() {
    let mut state = state();
    listen(&mut state);
    assert!(state.enabled);
    assert_eq!(state.status, "Monitoring");
    assert_eq!(log(&state), vec!["Monitoring started"]);
    assert!(matches!(send(&mut state, Message::ToggleEnabled), Effect::StopAudio));
    assert!(!state.enabled);
    assert_eq!(state.status, "Stopping after keepalive");
    send(&mut state, tick(Vec::new(), 0));
    assert_eq!(state.status, "Idle");
    assert_eq!(
        log(&state),
        vec![
            "Monitoring stopped; waiting for keepalive to finish current clip",
            "Monitoring started",
            "Monitoring stopped; waiting for current clip to finish",
            "Monitoring started",
        ]
    );
}

#[test]
fn a_start_that_fails_is_told() {
    let mut state = state();
    send(&mut state, Message::ToggleEnabled);
    send(&mut state, Message::StartFinished(Err("no device".to_string())));
    assert!(!state.enabled);
    assert_eq!(state.status, "Error: no device");
    assert_eq!(log(&state), vec!["Monitoring failed: no device"]);
}

#[test]
fn ticks_bring_clips_to_the_bucket() {
    let mut state = state();
    listen(&mut state);
    state.audio.process_input_at(&[5], level(0.5), SEC, at(1));
    assert!(matches!(send(&mut state, tick(Vec::new(), 2 * SEC)), Effect::Nothing));
    assert_eq!(state.amplitude.bits, 0.5f32.to_bits());
    assert_eq!(state.status, "Monitoring");
    let shown = state.active_clip.as_ref().unwrap();
    assert_eq!(shown.key, "In-memory clip (1.0s)");
    assert_eq!(shown.source, ClipSource::InMemoryActive);
    state.audio.process_input_at(&[6], level(0.0), 3 * SEC, at(3));
    match send(&mut state, tick(Vec::new(), 3 * SEC)) {
        Effect::Upload(job) => {
            assert_eq!(job.config.bucket, "b");
            assert_eq!(job.clip.size_bytes, 44 + 6);
        }
        other => panic!("{other:?}"),
    }
    assert_eq!(state.status, "Uploading clip");
    assert!(state.active_clip.is_none());
    assert!(!accepts_message(&state, &tick(Vec::new(), 4 * SEC)));
    send(&mut state, tick(vec![UploadPoll::Running], 4 * SEC));
    assert_eq!(
        log(&state),
        vec![
            "Uploading clip",
            "Clip captured: 2.0s (0 KB)",
            "Clip recording finished: 2.0s (0 KB)",
            "Clip recording started",
            "Monitoring started",
            "Monitoring started",
        ]
    );
}

#[test]
fn an_upload_that_fails_is_told() {
    let mut state = state();
    listen(&mut state);
    state.audio.process_input_at(&[5], level(0.5), 0, at(0));
    state.audio.process_input_at(&[6], level(0.0), 2 * SEC, at(2));
    send(&mut state, tick(Vec::new(), 2 * SEC));
    let failed = UploadPoll::Failed("S3 upload failed with status 403".to_string());
    assert!(matches!(send(&mut state, tick(vec![failed], 3 * SEC)), Effect::Nothing));
    assert_eq!(state.status, "Upload error: S3 upload failed with status 403");
    assert_eq!(log(&state)[0], "Upload error: S3 upload failed with status 403");
    assert_eq!(log(&state)[1], "Uploading clip");
    assert!(!state.audio.has_pending_uploads());
}

#[test]
fn the_settings_window_opens_once() {
    let mut state = state();
    state.settings_error = Some("old".to_string());
    assert!(matches!(send(&mut state, Message::OpenSettings), Effect::OpenSettingsWindow));
    assert_eq!(state.settings_error, None);
    send(
        &mut state,
        Message::SettingsOpened {
            window: 7,
            input_devices: vec![device("a")],
            output_devices: vec![device("b")],
        },
    );
    assert_eq!(state.settings_window, Some(7));
    assert_eq!(state.input_devices, vec![device("a")]);
    assert_eq!(state.output_devices, vec![device("b")]);
    assert!(matches!(send(&mut state, Message::OpenSettings), Effect::Nothing));
    assert_eq!(view(&state, 7), Page::Settings);
    assert_eq!(title(&state, 7), "Audio Friend Settings");
    assert!(matches!(send(&mut state, Message::CloseSettings), Effect::CloseWindow(7)));
    assert_eq!(state.settings_window, None);
    assert!(matches!(send(&mut state, Message::CloseSettings), Effect::Nothing));
    assert_eq!(view(&state, 7), Page::Main);
}

#[test]
fn the_activity_window_opens_once() {
    let mut state = state();
    assert!(matches!(send(&mut state, Message::OpenActivity), Effect::OpenActivityWindow));
    send(&mut state, Message::ActivityOpened { window: 8 });
    assert!(matches!(send(&mut state, Message::OpenActivity), Effect::Nothing));
    assert_eq!(view(&state, 8), Page::Activity);
    assert_eq!(title(&state, 8), "Audio Friend Activity");
    assert!(matches!(send(&mut state, Message::CloseActivity), Effect::CloseWindow(8)));
    assert!(matches!(send(&mut state, Message::CloseActivity), Effect::Nothing));
}

#[test]
fn the_clips_window_is_refreshed() {
    let mut state = state();
    assert!(matches!(send(&mut state, Message::OpenClips), Effect::OpenClipsWindow));
    assert!(matches!(
        send(&mut state, Message::ClipsOpened { window: 9 }),
        Effect::Refresh
    ));
    assert_eq!(state.clips_status, "Loading clips...");
    assert!(matches!(send(&mut state, Message::OpenClips), Effect::Refresh));
    assert_eq!(view(&state, 9), Page::Clips);
    assert_eq!(title(&state, 9), "Audio Friend Clips");
    assert_eq!(title(&state, MAIN), "Audio Friend");
    match send(&mut state, Message::RefreshClips) {
        Effect::ListClips(config) => assert_eq!(config.bucket, "b"),
        other => panic!("{other:?}"),
    }
    assert!(matches!(send(&mut state, Message::CloseClips), Effect::CloseWindow(9)));
    assert!(matches!(send(&mut state, Message::CloseClips), Effect::Nothing));
}

#[test]
fn listed_clips_are_shown() {
    let mut state = state();
    let clips = vec![clip("a", ClipSource::Uploaded), clip("b", ClipSource::Uploaded)];
    send(&mut state, Message::ClipsLoaded(Ok(clips)));
    assert_eq!(state.clips_status, "Loaded 2 uploaded clips");
    assert_eq!(state.clips.len(), 2);
    assert_eq!(log(&state), vec!["Clip history refreshed"]);
    send(&mut state, Message::ClipsLoaded(Err("no network".to_string())));
    assert_eq!(state.clips_status, "Failed to load clips: no network");
    assert_eq!(state.clips.len(), 2);
    assert_eq!(log(&state)[0], "Clip history load failed: no network");
}

#[test]
fn a_clip_in_memory_is_not_opened() {
    let mut state = state();
    state.active_clip = Some(clip("x", ClipSource::InMemoryPendingUpload));
    assert!(matches!(send(&mut state, Message::OpenClip("x".to_string())), Effect::Nothing));
    assert_eq!(
        state.clips_status,
        "This clip is still local/in memory and cannot be opened yet"
    );
    match send(&mut state, Message::OpenClip("y".to_string())) {
        Effect::DownloadClip { config, key } => {
            assert_eq!(config.bucket, "b");
            assert_eq!(key, "y");
        }
        other => panic!("{other:?}"),
    }
    assert_eq!(state.clips_status, "Opening y...");
    state.active_clip = Some(clip("x", ClipSource::Uploaded));
    assert!(matches!(
        send(&mut state, Message::OpenClip("x".to_string())),
        Effect::DownloadClip { .. }
    ));
}

#[test]
fn a_downloaded_clip_is_opened() {
    let mut state = state();
    let downloaded = DownloadedClip { file_path: "/tmp/a".to_string(), key: "r/a".to_string() };
    match send(&mut state, Message::ClipOpened(Ok(downloaded.clone()))) {
        Effect::OpenWithSystemPlayer { path, key } => {
            assert_eq!((path.as_str(), key.as_str()), ("/tmp/a", "r/a"))
        }
        other => panic!("{other:?}"),
    }
    assert_eq!(state.clips_status, "Opened r/a");
    assert_eq!(log(&state), vec!["Downloaded clip to /tmp/a"]);
    send(
        &mut state,
        Message::SystemPlayerStarted { key: downloaded.key.clone(), result: Ok(()) },
    );
    assert_eq!(log(&state)[0], "Opened clip in system player: r/a");
    assert_eq!(state.clips_status, "Opened r/a");
    send(
        &mut state,
        Message::SystemPlayerStarted { key: downloaded.key, result: Err("none".to_string()) },
    );
    assert_eq!(state.clips_status, "Downloaded clip, but failed to open: none");
    assert_eq!(log(&state)[0], "Clip open failed: none");
}

#[test]
fn a_download_that_fails_is_told() {
    let mut state = state();
    let failed = Message::ClipOpened(Err("gone".to_string()));
    assert!(matches!(send(&mut state, failed), Effect::Nothing));
    assert_eq!(state.clips_status, "Failed to open clip: gone");
    assert_eq!(log(&state), vec!["Clip open failed: gone"]);
}

#[test]
fn playing_can_be_stopped() {
    let mut state = state();
    state.player.play("a".to_string(), "/tmp/a".to_string());
    assert!(matches!(send(&mut state, Message::StopPlayback), Effect::Nothing));
    assert_eq!(state.player.now_playing(), None);
}

#[test]
fn closing_windows_is_noticed() {
    let mut state = state();
    state.settings_window = Some(2);
    state.activity_window = Some(3);
    state.clips_window = Some(4);
    state.settings_error = Some("e".to_string());
    assert!(matches!(
        send(&mut state, Message::WindowCloseRequested(9)),
        Effect::Nothing
    ));
    for id in [2u64, 3, 4] {
        match send(&mut state, Message::WindowCloseRequested(id)) {
            Effect::CloseWindow(closed) => assert_eq!(closed, id),
            other => panic!("{other:?}"),
        }
        assert_eq!(view(&state, id), Page::Main);
    }
    assert_eq!(state.settings_error, None);
    assert!(matches!(
        send(&mut state, Message::WindowCloseRequested(MAIN)),
        Effect::Exit
    ));
    state.settings_window = Some(2);
    state.activity_window = Some(2);
    state.clips_window = Some(5);
    state.settings_error = Some("e".to_string());
    assert!(matches!(send(&mut state, Message::WindowClosed(2)), Effect::Nothing));
    assert_eq!(
        (state.settings_window, state.activity_window, state.clips_window),
        (None, None, Some(5))
    );
    assert_eq!(state.settings_error, None);
    state.settings_error = Some("e".to_string());
    send(&mut state, Message::WindowClosed(5));
    assert_eq!(state.clips_window, None);
    assert_eq!(state.settings_error, Some("e".to_string()));
}

#[test]
fn every_setting_can_be_changed() {
    let mut state = state();
    let messages = vec![
        Message::InputDeviceChanged(device("in")),
        Message::OutputDeviceChanged(device("out")),
        Message::InputThresholdChanged(level(0.25)),
        Message::OutputThresholdChanged(level(0.75)),
        Message::RingSecondsChanged("4".to_string()),
        Message::KeepaliveSecondsChanged("5".to_string()),
        Message::S3UrlChanged("url".to_string()),
        Message::S3BucketChanged("bucket".to_string()),
        Message::S3AccessKeyChanged("access".to_string()),
        Message::S3SecretKeyChanged("secret".to_string()),
    ];
    for message in messages {
        assert!(matches!(send(&mut state, message), Effect::Nothing));
    }
    let config = &state.config;
    assert_eq!(config.input_device, "in");
    assert_eq!(config.output_device, "out");
    assert_eq!(config.input_threshold, level(0.25));
    assert_eq!(config.output_threshold, level(0.75));
    assert_eq!(config.ring_buffer_secs, "4");
    assert_eq!(config.keepalive_secs, "5");
    assert_eq!(config.s3.endpoint_url, "url");
    assert_eq!(config.s3.bucket, "bucket");
    assert_eq!(config.s3.access_key, "access");
    assert_eq!(config.s3.secret_key, "secret");
}

#[test]
fn settings_with_a_problem_are_not_saved() {
    let mut state = state();
    state.config.ring_buffer_secs = "none".to_string();
    assert!(matches!(send(&mut state, Message::SaveSettings), Effect::Nothing));
    assert_eq!(
        state.settings_error,
        Some("Ring buffer seconds must be a whole number greater than 0".to_string())
    );
    assert_eq!(state.status, "Idle");
}

#[test]
fn saved_settings_reach_the_engine() {
    let mut state = state();
    state.settings_window = Some(2);
    state.settings_error = Some("old".to_string());
    state.config.s3.bucket = "other".to_string();
    match send(&mut state, Message::SaveSettings) {
        Effect::SaveConfig(config) => assert_eq!(config.s3.bucket, "other"),
        other => panic!("{other:?}"),
    }
    assert_eq!(state.settings_error, None);
    assert!(matches!(
        send(&mut state, Message::SettingsSaved(Ok(()))),
        Effect::CloseWindow(2)
    ));
    assert_eq!(state.settings_window, None);
    assert_eq!(state.status, "Settings saved");
    assert_eq!(log(&state), vec!["Settings saved"]);
    assert!(matches!(send(&mut state, Message::SettingsSaved(Ok(()))), Effect::Nothing));
    listen(&mut state);
    state.audio.process_input_at(&[5], level(0.5), 0, at(0));
    state.audio.process_input_at(&[6], level(0.0), 2 * SEC, at(2));
    match send(&mut state, tick(Vec::new(), 2 * SEC)) {
        Effect::Upload(job) => assert_eq!(job.config.bucket, "other"),
        other => panic!("{other:?}"),
    }
}

#[test]
fn settings_that_cannot_be_saved_are_told() {
    let mut state = state();
    state.settings_window = Some(2);
    send(&mut state, Message::SaveSettings);
    assert!(matches!(
        send(&mut state, Message::SettingsSaved(Err("read only".to_string()))),
        Effect::Nothing
    ));
    assert_eq!(state.status, "Config save failed: read only");
    assert_eq!(state.settings_error, Some("Save failed: read only".to_string()));
    assert_eq!(state.settings_window, Some(2));
    assert!(state.activity_log.is_empty());
}

#[test]
fn the_clock_dates_the_log() {
    let mut state = state();
    let before = Timestamp::now().secs();
    update(&mut state, Message::StartFinished(Ok(())));
    let entry = &state.activity_log[0];
    assert!(before <= entry.timestamp.secs());
    assert!(entry.timestamp.secs() <= Timestamp::now().secs());
    update_at(&mut state, Message::StartFinished(Ok(())), at(77));
    assert_eq!(state.activity_log[0].timestamp, at(77));
}

#[test]
fn what_is_shown_from_memory_cannot_be_opened() {
    let mut state = state();
    listen(&mut state);
    state.audio.process_input_at(&[5], level(0.5), SEC, at(1));
    send(&mut state, tick(Vec::new(), 2 * SEC));
    let key = state.active_clip.as_ref().unwrap().key.clone();
    assert!(matches!(send(&mut state, Message::OpenClip(key)), Effect::Nothing));
}
