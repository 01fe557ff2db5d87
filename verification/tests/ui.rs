use audio_friend::activity::{push_entry, ActivityEntry};
use audio_friend::app::{initial_state, AudioFriend};
use audio_friend::clips::{ClipInfo, ClipSource};
use audio_friend::devices::DeviceOption;
use audio_friend::level::Level;
use audio_friend::time::Timestamp;
use audio_friend::ui::{
    activity_view, clip_source_label, clips_view, format_activity_timestamp, main_view,
    settings_view,
};

fn state() -> AudioFriend {
    initial_state(None, 1, Vec::new(), Vec::new())
}

fn device(name: &str) -> DeviceOption {
    DeviceOption { label: name.to_uppercase(), raw_name: name.to_string() }
}

fn clip(key: &str, size_bytes: u64, source: ClipSource) -> ClipInfo {
    ClipInfo {
        key: key.to_string(),
        last_modified: "m".to_string(),
        last_modified_display: "Today".to_string(),
        size_bytes,
        source,
    }
}

#[test]
fn the_main_page_shows_the_state() {
    let mut state = state();
    state.amplitude = Level { bits: 0.5f32.to_bits() };
    let page = main_view(&state, 15);
    assert_eq!(page.toggle_label, "Off");
    assert_eq!(page.amplitude.bits, 0.5f32.to_bits());
    assert_eq!((page.before_line, page.after_line), (15, 85));
    assert_eq!(page.status, "Idle");
    state.enabled = true;
    assert_eq!(main_view(&state, 15).toggle_label, "On");
}

#[test]
fn the_meter_is_never_without_a_side() {
    let state = state();
    for line in 0..=100u16 {
        let page = main_view(&state, line);
        assert_eq!(page.before_line, line.max(1));
        assert_eq!(page.after_line, (100 - line).max(1));
    }
}

#[test]
fn the_settings_page_shows_the_selection() {
    let mut state = state();
    state.input_devices = vec![device("a"), device("b")];
    state.output_devices = vec![device("c")];
    state.config.input_device = "b".to_string();
    let page = settings_view(&state);
    assert_eq!(page.input_devices, vec![device("a"), device("b")]);
    assert_eq!(page.selected_input, Some(device("b")));
    assert_eq!(page.output_devices, vec![device("c")]);
    assert_eq!(page.selected_output, None);
    assert_eq!(page.config.input_device, "b");
    assert_eq!(page.error_label, "");
    state.settings_error = Some("wrong".to_string());
    assert_eq!(settings_view(&state).error_label, "wrong");
}

#[test]
fn the_activity_page_shows_the_log() {
    let mut state = state();
    let page = activity_view(&state);
    assert_eq!(page.placeholder, Some("No activity yet.".to_string()));
    assert!(page.cards.is_empty());
    for (secs, message) in [(1_000_000_000, "first"), (1_700_000_000, "second")] {
        let timestamp = Timestamp::new(secs, 0).unwrap();
        push_entry(
            &mut state.activity_log,
            ActivityEntry { timestamp, message: message.to_string() },
        );
    }
    let page = activity_view(&state);
    assert_eq!(page.placeholder, None);
    assert_eq!(page.cards.len(), 2);
    assert_eq!(page.cards[0].message, "second");
    assert_eq!(page.cards[1].message, "first");
    let shown = chrono::DateTime::<chrono::Utc>::from_timestamp(1_000_000_000, 0)
        .unwrap()
        .with_timezone(&chrono::Local)
        .format("%b %-d, %Y at %-I:%M:%S %p")
        .to_string();
    assert_eq!(page.cards[1].time, shown);
    assert_eq!(
        format_activity_timestamp(Timestamp::new(1_000_000_000, 0).unwrap()),
        shown
    );
}

#[test]
fn sources_have_labels() {
    assert_eq!(clip_source_label(&ClipSource::InMemoryActive), "Recording in memory");
    assert_eq!(clip_source_label(&ClipSource::InMemoryPendingUpload), "Pending upload");
    assert_eq!(clip_source_label(&ClipSource::Uploaded), "Uploaded to S3");
}

#[test]
fn without_clips_the_status_is_shown() {
    let state = state();
    let page = clips_view(&state);
    assert_eq!(page.status, "Not loaded");
    assert_eq!(page.placeholder, Some("Not loaded".to_string()));
    assert!(page.active.is_none());
    assert!(page.rows.is_empty());
}

#[test]
fn the_clip_in_memory_is_shown() {
    let mut state = state();
    state.active_clip = Some(clip("now", 2_048, ClipSource::InMemoryActive));
    let page = clips_view(&state);
    assert_eq!(page.placeholder, None);
    let card = page.active.unwrap();
    assert_eq!(card.key, "now");
    assert_eq!(card.state, "State: Recording in memory");
    assert_eq!(card.changed, "Updated: Today");
    assert_eq!(card.size, "Size: 2 KB");
}

#[test]
fn the_clip_that_plays_can_be_stopped() {
    let mut state = state();
    state.clips = vec![
        clip("a", 1_023, ClipSource::Uploaded),
        clip("b", 10_240, ClipSource::Uploaded),
    ];
    state.player.play("b".to_string(), "/tmp/b".to_string());
    let page = clips_view(&state);
    assert_eq!(page.placeholder, None);
    assert!(page.active.is_none());
    assert_eq!(page.rows.len(), 2);
    assert_eq!(page.rows[0].card.key, "a");
    assert_eq!(page.rows[0].card.state, "State: Uploaded to S3");
    assert_eq!(page.rows[0].card.changed, "Modified: Today");
    assert_eq!(page.rows[0].card.size, "Size: 0 KB");
    assert!(!page.rows[0].playing);
    assert_eq!(page.rows[1].card.size, "Size: 10 KB");
    assert!(page.rows[1].playing);
}
