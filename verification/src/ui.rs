//! What the windows show, as text and numbers; drawing it is left to the outside.

use vstd::prelude::*;

use crate::activity::ActivityView;
use crate::app::{AudioFriend, AudioFriendView};
use crate::clips::{ClipInfo, ClipInfoView, ClipSource};
use crate::config::{optional_text, AppConfig, AppConfigView};
use crate::devices::{
    first_named, option_views, optional_device, selected_input_device, selected_output_device,
    DeviceOption, DeviceOptionView,
};
use crate::level::Level;
use crate::text::{decimal, decimal_text, join2};
use crate::time::{local_display, Timestamp};

verus! {

// ---------------------------------------------------------------------------
// The main window
// ---------------------------------------------------------------------------

/// What the main window shows.
#[derive(Debug)]
pub struct MainPage {
    /// Whether listening is on.
    pub toggle_label: String,
    /// The level heard last.
    pub amplitude: Level,
    /// The share of the meter before the line of the threshold.
    pub before_line: u16,
    /// The share of the meter behind the line of the threshold.
    pub after_line: u16,
    pub status: String,
}

/// What a `MainPage` holds.
#[verifier::ext_equal]
pub struct MainPageView {
    pub toggle_label: Seq<char>,
    pub amplitude: Level,
    pub before_line: u16,
    pub after_line: u16,
    pub status: Seq<char>,
}

impl View for MainPage {
    type V = MainPageView;

    open spec fn view(&self) -> MainPageView {
        MainPageView {
            toggle_label: self.toggle_label@,
            amplitude: self.amplitude,
            before_line: self.before_line,
            after_line: self.after_line,
            status: self.status@,
        }
    }
}

/// A share of the meter that is at least one.
pub open spec fn share(n: int) -> u16 {
    if n < 1 {
        1
    } else {
        n as u16
    }
}

/// What the main window shows in a state, with the threshold in percent.
pub open spec fn main_page(state: AudioFriendView, threshold_line: u16) -> MainPageView {
    MainPageView {
        toggle_label: if state.enabled {
            "On"@
        } else {
            "Off"@
        },
        amplitude: state.amplitude,
        before_line: share(threshold_line as int),
        after_line: share(100 - threshold_line),
        status: state.status,
    }
}

/// What the main window shows, given the threshold in percent.
pub fn main_view(state: &AudioFriend, threshold_line: u16) -> (page: MainPage)
    requires
        threshold_line <= 100,
    ensures
        page@ == main_page(state@, threshold_line),
{
    let rest: u16 = 100 - threshold_line;
    MainPage {
        toggle_label: if state.enabled {
            "On".to_owned()
        } else {
            "Off".to_owned()
        },
        amplitude: state.amplitude,
        before_line: if threshold_line < 1 {
            1
        } else {
            threshold_line
        },
        after_line: if rest < 1 {
            1
        } else {
            rest
        },
        status: state.status.clone(),
    }
}

// ---------------------------------------------------------------------------
// The settings window
// ---------------------------------------------------------------------------

/// What the settings window shows.
#[derive(Debug)]
pub struct SettingsPage {
    pub input_devices: Vec<DeviceOption>,
    pub selected_input: Option<DeviceOption>,
    pub output_devices: Vec<DeviceOption>,
    pub selected_output: Option<DeviceOption>,
    pub config: AppConfig,
    pub error_label: String,
}

/// What a `SettingsPage` holds.
#[verifier::ext_equal]
pub struct SettingsPageView {
    pub input_devices: Seq<DeviceOptionView>,
    pub selected_input: Option<DeviceOptionView>,
    pub output_devices: Seq<DeviceOptionView>,
    pub selected_output: Option<DeviceOptionView>,
    pub config: AppConfigView,
    pub error_label: Seq<char>,
}

impl View for SettingsPage {
    type V = SettingsPageView;

    open spec fn view(&self) -> SettingsPageView {
        SettingsPageView {
            input_devices: option_views(self.input_devices@),
            selected_input: optional_device(self.selected_input),
            output_devices: option_views(self.output_devices@),
            selected_output: optional_device(self.selected_output),
            config: self.config@,
            error_label: self.error_label@,
        }
    }
}

/// What the settings window shows in a state: the devices, those of them that the settings
/// name, the settings, and what is wrong with them.
pub open spec fn settings_page(state: AudioFriendView) -> SettingsPageView {
    SettingsPageView {
        input_devices: state.input_devices,
        selected_input: first_named(state.input_devices, state.config.input_device),
        output_devices: state.output_devices,
        selected_output: first_named(state.output_devices, state.config.output_device),
        config: state.config,
        error_label: match state.settings_error {
            Some(message) => message,
            None => Seq::empty(),
        },
    }
}

/// Copies a list of options.
fn copy_options(options: &Vec<DeviceOption>) -> (copy: Vec<DeviceOption>)
    ensures
        copy@ == options@,
{
    let mut copy: Vec<DeviceOption> = Vec::new();
    for i in 0..options.len()
        invariant
            copy@ == options@.take(i as int),
    {
        copy.push(options[i].clone());
        assert(options@.take(i + 1) =~= options@.take(i as int).push(options@[i as int]));
    }
    assert(options@.take(options@.len() as int) =~= options@);
    copy
}

/// What the settings window shows.
pub fn settings_view(state: &AudioFriend) -> (page: SettingsPage)
    ensures
        page@ == settings_page(state@),
{
    let selected_input = selected_input_device(
        state.config.input_device.as_str(),
        state.input_devices.as_slice(),
    );
    let selected_output = selected_output_device(
        state.config.output_device.as_str(),
        state.output_devices.as_slice(),
    );
    let error_label = match &state.settings_error {
        Some(message) => message.clone(),
        None => String::new(),
    };
    SettingsPage {
        input_devices: copy_options(&state.input_devices),
        selected_input,
        output_devices: copy_options(&state.output_devices),
        selected_output,
        config: state.config.clone(),
        error_label,
    }
}

// ---------------------------------------------------------------------------
// The activity window
// ---------------------------------------------------------------------------

/// An entry of the log as it is shown.
#[derive(Debug)]
pub struct ActivityCard {
    pub time: String,
    pub message: String,
}

/// What the activity window shows: a text in place of the entries where there are none.
#[derive(Debug)]
pub struct ActivityPage {
    pub placeholder: Option<String>,
    pub cards: Vec<ActivityCard>,
}

/// Whether an entry is shown with its message and its point in time in some time zone.
pub open spec fn shows_entry(card: ActivityCard, entry: ActivityView) -> bool {
    &&& card.message@ == entry.message
    &&& local_display(entry.timestamp.whole_secs(), entry.timestamp.extra_nanos(), card.time@)
}

/// When something happened as the user reads it, in the machine's time zone.
pub fn format_activity_timestamp(timestamp: Timestamp) -> (text: String)
    ensures
        local_display(timestamp.whole_secs(), timestamp.extra_nanos(), text@),
{
    timestamp.to_local_text()
}

/// What the activity window shows.
pub fn activity_view(state: &AudioFriend) -> (page: ActivityPage)
    ensures
        optional_text(page.placeholder) == (if state@.log.len() == 0 {
            Some("No activity yet."@)
        } else {
            None
        }),
        page.cards@.len() == state@.log.len(),
        forall|i: int|
            0 <= i < page.cards@.len() ==> shows_entry(#[trigger] page.cards@[i], state@.log[i]),
{
    let mut cards: Vec<ActivityCard> = Vec::new();
    let placeholder = if state.activity_log.len() == 0 {
        Some("No activity yet.".to_owned())
    } else {
        None
    };
    for i in 0..state.activity_log.len()
        invariant
            cards@.len() == i,
            forall|k: int|
                0 <= k < i ==> shows_entry(#[trigger] cards@[k], state.activity_log@[k]@),
    {
        let entry = &state.activity_log[i];
        cards.push(
            ActivityCard {
                time: format_activity_timestamp(entry.timestamp),
                message: entry.message.clone(),
            },
        );
    }
    ActivityPage { placeholder, cards }
}

// ---------------------------------------------------------------------------
// The clips window
// ---------------------------------------------------------------------------

/// Where a clip is, in words.
pub open spec fn source_label(source: ClipSource) -> Seq<char> {
    match source {
        ClipSource::InMemoryActive => "Recording in memory"@,
        ClipSource::InMemoryPendingUpload => "Pending upload"@,
        ClipSource::Uploaded => "Uploaded to S3"@,
    }
}

/// Where a clip is, in words.
pub fn clip_source_label(source: &ClipSource) -> (label: &'static str)
    ensures
        label@ == source_label(*source),
{
    match source {
        ClipSource::InMemoryActive => "Recording in memory",
        ClipSource::InMemoryPendingUpload => "Pending upload",
        ClipSource::Uploaded => "Uploaded to S3",
    }
}

/// The four lines that are shown of a clip.
#[derive(Debug)]
pub struct ClipCard {
    pub key: String,
    pub state: String,
    pub changed: String,
    pub size: String,
}

/// What a `ClipCard` holds.
#[verifier::ext_equal]
pub struct ClipCardView {
    pub key: Seq<char>,
    pub state: Seq<char>,
    pub changed: Seq<char>,
    pub size: Seq<char>,
}

impl View for ClipCard {
    type V = ClipCardView;

    open spec fn view(&self) -> ClipCardView {
        ClipCardView {
            key: self.key@,
            state: self.state@,
            changed: self.changed@,
            size: self.size@,
        }
    }
}

/// The four lines that are shown of a clip, with a word for its time of change.
pub open spec fn card_of(clip: ClipInfoView, changed: Seq<char>) -> ClipCardView {
    ClipCardView {
        key: clip.key,
        state: "State: "@ + source_label(clip.source),
        changed: changed + clip.last_modified_display,
        size: "Size: "@ + decimal(clip.size_bytes as nat / 1024) + " KB"@,
    }
}

fn clip_card(clip: &ClipInfo, changed: &str) -> (card: ClipCard)
    ensures
        card@ == card_of(clip@, changed@),
{
    let mut size = join2("Size: ", decimal_text(clip.size_bytes / 1024).as_str());
    size.append(" KB");
    ClipCard {
        key: clip.key.clone(),
        state: join2("State: ", clip_source_label(&clip.source)),
        changed: join2(changed, clip.last_modified_display.as_str()),
        size,
    }
}

/// An uploaded clip as it is shown: one that plays can be stopped, any other played.
#[derive(Debug)]
pub struct ClipRow {
    pub card: ClipCard,
    pub playing: bool,
}

/// What a `ClipRow` holds.
#[verifier::ext_equal]
pub struct ClipRowView {
    pub card: ClipCardView,
    pub playing: bool,
}

impl View for ClipRow {
    type V = ClipRowView;

    open spec fn view(&self) -> ClipRowView {
        ClipRowView { card: self.card@, playing: self.playing }
    }
}

/// What some rows hold.
pub open spec fn row_views(rows: Seq<ClipRow>) -> Seq<ClipRowView> {
    rows.map_values(|r: ClipRow| r@)
}

/// What the clips window shows: the clip in memory, then the uploaded ones; the status in
/// their place where there is no clip at all.
#[derive(Debug)]
pub struct ClipsPage {
    pub status: String,
    pub active: Option<ClipCard>,
    pub placeholder: Option<String>,
    pub rows: Vec<ClipRow>,
}

/// What a `ClipsPage` holds.
#[verifier::ext_equal]
pub struct ClipsPageView {
    pub status: Seq<char>,
    pub active: Option<ClipCardView>,
    pub placeholder: Option<Seq<char>>,
    pub rows: Seq<ClipRowView>,
}

impl View for ClipsPage {
    type V = ClipsPageView;

    open spec fn view(&self) -> ClipsPageView {
        ClipsPageView {
            status: self.status@,
            active: match self.active {
                Some(card) => Some(card@),
                None => None,
            },
            placeholder: optional_text(self.placeholder),
            rows: row_views(self.rows@),
        }
    }
}

/// What the clips window shows in a state.
pub open spec fn clips_page(state: AudioFriendView) -> ClipsPageView {
    ClipsPageView {
        status: state.clips_status,
        active: match state.active_clip {
            Some(clip) => Some(card_of(clip, "Updated: "@)),
            None => None,
        },
        placeholder: if state.clips.len() == 0 && state.active_clip is None {
            Some(state.clips_status)
        } else {
            None
        },
        rows: state.clips.map_values(
            |clip: ClipInfoView|
                ClipRowView {
                    card: card_of(clip, "Modified: "@),
                    playing: state.player.shown() == Some(clip.key),
                },
        ),
    }
}

/// What the clips window shows.
pub fn clips_view(state: &AudioFriend) -> (page: ClipsPage)
    ensures
        page@ == clips_page(state@),
{
    let active = match &state.active_clip {
        Some(clip) => Some(clip_card(clip, "Updated: ")),
        None => None,
    };
    let placeholder = if state.clips.len() == 0 && state.active_clip.is_none() {
        Some(state.clips_status.clone())
    } else {
        None
    };
    let now_playing = state.player.now_playing();
    let mut rows: Vec<ClipRow> = Vec::new();
    let ghost expected = clips_page(state@).rows;
    for i in 0..state.clips.len()
        invariant
            expected == clips_page(state@).rows,
            optional_text(now_playing) == state@.player.shown(),
            row_views(rows@) == expected.take(i as int),
    {
        let clip = &state.clips[i];
        let playing = match &now_playing {
            Some(key) => *key == clip.key,
            None => false,
        };
        let ghost before = row_views(rows@);
        let row = ClipRow { card: clip_card(clip, "Modified: "), playing };
        let ghost view = row@;
        rows.push(row);
        assert(expected[i as int] == view);
        assert(row_views(rows@) =~= before.push(view));
        assert(expected.take(i + 1) =~= expected.take(i as int).push(expected[i as int]));
    }
    assert(expected.take(state.clips@.len() as int) =~= expected);
    ClipsPage { status: state.clips_status.clone(), active, placeholder, rows }
}

// ---------------------------------------------------------------------------
// Laws
// ---------------------------------------------------------------------------

/// Both shares of the meter can be seen, whatever the threshold, and off its ends they add
/// up to the whole.
pub proof fn meter_is_divided_by_the_threshold(state: AudioFriendView, threshold_line: u16)
    requires
        threshold_line <= 100,
    ensures
        main_page(state, threshold_line).before_line >= 1,
        main_page(state, threshold_line).after_line >= 1,
        0 < threshold_line < 100 ==> main_page(state, threshold_line).before_line + main_page(
            state,
            threshold_line,
        ).after_line == 100,
{
}

/// Every uploaded clip has a row, in the order of the list, and only the rows of the clip
/// that is shown as playing can be stopped.
pub proof fn every_clip_has_a_row(state: AudioFriendView)
    ensures
        clips_page(state).rows.len() == state.clips.len(),
        forall|i: int|
            0 <= i < state.clips.len() ==> {
                let row = #[trigger] clips_page(state).rows[i];
                &&& row.card.key == state.clips[i].key
                &&& row.playing <==> state.player.shown() == Some(state.clips[i].key)
            },
{
}

/// The main page shows whether listening is on, the level, the status, and the threshold as
/// the line that divides the meter.
pub proof fn the_main_page_shows_the_state(state: AudioFriendView, threshold_line: u16)
    requires
        threshold_line <= 100,
    ensures
        ({
            let page = main_page(state, threshold_line);
            &&& state.enabled ==> page.toggle_label == "On"@
            &&& !state.enabled ==> page.toggle_label == "Off"@
            &&& page.amplitude == state.amplitude
            &&& page.status == state.status
            &&& threshold_line > 0 ==> page.before_line == threshold_line
            &&& threshold_line == 0 ==> page.before_line == 1
            &&& threshold_line < 100 ==> page.after_line == 100 - threshold_line
            &&& threshold_line == 100 ==> page.after_line == 1
        }),
{
}

/// The settings page shows the devices and the settings as they are, the problem where there
/// is one and nothing in its place where there is none, and as chosen the devices that the
/// settings name, each among its own kind.
pub proof fn the_settings_page_shows_the_settings(state: AudioFriendView)
    ensures
        ({
            let page = settings_page(state);
            &&& page.input_devices == state.input_devices
            &&& page.output_devices == state.output_devices
            &&& page.config == state.config
            &&& state.settings_error matches Some(problem) ==> page.error_label == problem
            &&& state.settings_error is None ==> page.error_label.len() == 0
            &&& page.selected_input == first_named(state.input_devices, state.config.input_device)
            &&& page.selected_output == first_named(
                state.output_devices,
                state.config.output_device,
            )
        }),
{
}

/// A clip is shown with its name, where it is, when it changed and its size in kilobytes.
pub proof fn a_clip_is_shown_in_four_lines(clip: ClipInfoView, changed: Seq<char>)
    ensures
        ({
            let card = card_of(clip, changed);
            &&& card.key == clip.key
            &&& card.changed == changed + clip.last_modified_display
            &&& card.size == "Size: "@ + decimal(clip.size_bytes as nat / 1024) + " KB"@
            &&& clip.source is InMemoryActive ==> card.state == "State: "@
                + "Recording in memory"@
            &&& clip.source is InMemoryPendingUpload ==> card.state == "State: "@
                + "Pending upload"@
            &&& clip.source is Uploaded ==> card.state == "State: "@ + "Uploaded to S3"@
        }),
{
}

/// The clips page shows the status, the clip in memory where there is one, and each uploaded
/// clip; the status stands in their place only where there is neither.
pub proof fn the_clips_page_shows_every_clip(state: AudioFriendView)
    ensures
        ({
            let page = clips_page(state);
            &&& page.status == state.clips_status
            &&& state.active_clip matches Some(clip) ==> page.active == Some(
                card_of(clip, "Updated: "@),
            )
            &&& state.active_clip is None ==> page.active is None
            &&& state.clips.len() == 0 && state.active_clip is None ==> page.placeholder == Some(
                state.clips_status,
            )
            &&& state.clips.len() > 0 || state.active_clip is Some ==> page.placeholder is None
            &&& page.rows.len() == state.clips.len()
            &&& forall|i: int|
                0 <= i < state.clips.len() ==> (#[trigger] page.rows[i]).card == card_of(
                    state.clips[i],
                    "Modified: "@,
                )
        }),
{
}

/// An entry of the log is shown with its own message and its own time.
pub proof fn an_entry_is_shown_as_it_is(card: ActivityCard, entry: ActivityView)
    requires
        shows_entry(card, entry),
    ensures
        card.message@ == entry.message,
        exists|offset: int|
            -86_400 < offset < 86_400 && card.time@ == #[trigger] crate::time::zoned(
                entry.timestamp.whole_secs(),
                entry.timestamp.extra_nanos(),
                "%b %-d, %Y at %-I:%M:%S %p"@,
                offset,
            ),
{
}

/// Rows are seen one by one, in order.
pub proof fn rows_are_seen_one_by_one(rows: Seq<ClipRow>)
    ensures
        row_views(rows).len() == rows.len(),
        forall|i: int| 0 <= i < rows.len() ==> #[trigger] row_views(rows)[i] == rows[i]@,
{
}

} // verus!
