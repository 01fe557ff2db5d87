//! The application as a state machine: a message changes the state and may ask for
//! something that only the outside can do.

use std::collections::VecDeque;
use vstd::prelude::*;

use crate::activity::{log_view, noted, push_entry, ActivityEntry, ActivityView, MAX_ACTIVITY};
use crate::clips::{
    clip_views, optional_clip, ClipInfo, ClipInfoView, ClipSource, DownloadedClip,
};
use crate::config::{
    initial_config, optional_config, optional_text, settings_problem, starting_config,
    validate_settings, AppConfig, AppConfigView, S3Config, S3ConfigView,
};
use crate::detector::texts;
use crate::devices::{option_views, DeviceOption, DeviceOptionView};
use crate::engine::{AudioEngine, EngineView, UploadJob, UploadJobView, UploadPoll};
use crate::level::Level;
use crate::playback::{Player, PlayerView};
use crate::text::{decimal, decimal_text, join2, join3};
use crate::time::Timestamp;

verus! {

/// What the application is told. A window goes by a number that the outside gives it.
#[derive(Debug)]
pub enum Message {
    ToggleEnabled,
    /// Listening started, or could not.
    StartFinished(Result<(), String>),
    /// Time has passed; how each upload is doing.
    Tick { uploads: Vec<UploadPoll>, now: u64 },
    OpenSettings,
    /// The settings window is open; the devices to choose from.
    SettingsOpened {
        window: u64,
        input_devices: Vec<DeviceOption>,
        output_devices: Vec<DeviceOption>,
    },
    CloseSettings,
    OpenActivity,
    /// The activity window is open.
    ActivityOpened { window: u64 },
    CloseActivity,
    OpenClips,
    /// The clips window is open.
    ClipsOpened { window: u64 },
    CloseClips,
    RefreshClips,
    OpenClip(String),
    ClipOpened(Result<DownloadedClip, String>),
    /// The system's player was told to open a clip.
    SystemPlayerStarted { key: String, result: Result<(), String> },
    ClipsLoaded(Result<Vec<ClipInfo>, String>),
    StopPlayback,
    WindowCloseRequested(u64),
    WindowClosed(u64),
    InputDeviceChanged(DeviceOption),
    OutputDeviceChanged(DeviceOption),
    InputThresholdChanged(Level),
    OutputThresholdChanged(Level),
    RingSecondsChanged(String),
    KeepaliveSecondsChanged(String),
    S3UrlChanged(String),
    S3BucketChanged(String),
    S3AccessKeyChanged(String),
    S3SecretKeyChanged(String),
    SaveSettings,
    /// The settings were saved, or could not be.
    SettingsSaved(Result<(), String>),
}

/// What the application asks for.
#[derive(Debug)]
pub enum Effect {
    Nothing,
    /// Start listening and say how it went.
    StartAudio,
    /// Let go of the stream.
    StopAudio,
    /// List the devices and open the settings window.
    OpenSettingsWindow,
    OpenActivityWindow,
    OpenClipsWindow,
    CloseWindow(u64),
    Exit,
    /// Ask for the clips to be listed again.
    Refresh,
    /// List the clips in the bucket.
    ListClips(S3Config),
    /// Download a clip from the bucket.
    DownloadClip { config: S3Config, key: String },
    /// Open a file with the system's player.
    OpenWithSystemPlayer { path: String, key: String },
    /// Upload a clip.
    Upload(UploadJob),
    /// Save the settings.
    SaveConfig(AppConfig),
}

/// What an `Effect` holds.
#[verifier::ext_equal]
pub enum EffectView {
    Nothing,
    StartAudio,
    StopAudio,
    OpenSettingsWindow,
    OpenActivityWindow,
    OpenClipsWindow,
    CloseWindow(u64),
    Exit,
    Refresh,
    ListClips(S3ConfigView),
    DownloadClip { config: S3ConfigView, key: Seq<char> },
    OpenWithSystemPlayer { path: Seq<char>, key: Seq<char> },
    Upload(UploadJobView),
    SaveConfig(AppConfigView),
}

impl View for Effect {
    type V = EffectView;

    open spec fn view(&self) -> EffectView {
        match *self {
            Effect::Nothing => EffectView::Nothing,
            Effect::StartAudio => EffectView::StartAudio,
            Effect::StopAudio => EffectView::StopAudio,
            Effect::OpenSettingsWindow => EffectView::OpenSettingsWindow,
            Effect::OpenActivityWindow => EffectView::OpenActivityWindow,
            Effect::OpenClipsWindow => EffectView::OpenClipsWindow,
            Effect::CloseWindow(id) => EffectView::CloseWindow(id),
            Effect::Exit => EffectView::Exit,
            Effect::Refresh => EffectView::Refresh,
            Effect::ListClips(config) => EffectView::ListClips(config@),
            Effect::DownloadClip { config, key } => EffectView::DownloadClip {
                config: config@,
                key: key@,
            },
            Effect::OpenWithSystemPlayer { path, key } => EffectView::OpenWithSystemPlayer {
                path: path@,
                key: key@,
            },
            Effect::Upload(job) => EffectView::Upload(job@),
            Effect::SaveConfig(config) => EffectView::SaveConfig(config@),
        }
    }
}

/// The state of the application.
#[derive(Debug)]
pub struct AudioFriend {
    pub enabled: bool,
    pub amplitude: Level,
    pub config: AppConfig,
    pub status: String,
    pub audio: AudioEngine,
    pub main_window: u64,
    pub settings_window: Option<u64>,
    pub activity_window: Option<u64>,
    pub clips_window: Option<u64>,
    pub settings_error: Option<String>,
    pub input_devices: Vec<DeviceOption>,
    pub output_devices: Vec<DeviceOption>,
    pub activity_log: VecDeque<ActivityEntry>,
    pub clips: Vec<ClipInfo>,
    pub clips_status: String,
    pub active_clip: Option<ClipInfo>,
    pub player: Player,
}

/// What an `AudioFriend` holds.
#[verifier::ext_equal]
pub struct AudioFriendView {
    pub enabled: bool,
    pub amplitude: Level,
    pub config: AppConfigView,
    pub status: Seq<char>,
    pub audio: EngineView,
    pub main_window: u64,
    pub settings_window: Option<u64>,
    pub activity_window: Option<u64>,
    pub clips_window: Option<u64>,
    pub settings_error: Option<Seq<char>>,
    pub input_devices: Seq<DeviceOptionView>,
    pub output_devices: Seq<DeviceOptionView>,
    pub log: Seq<ActivityView>,
    pub clips: Seq<ClipInfoView>,
    pub clips_status: Seq<char>,
    pub active_clip: Option<ClipInfoView>,
    pub player: PlayerView,
}

impl View for AudioFriend {
    type V = AudioFriendView;

    open spec fn view(&self) -> AudioFriendView {
        AudioFriendView {
            enabled: self.enabled,
            amplitude: self.amplitude,
            config: self.config@,
            status: self.status@,
            audio: self.audio@,
            main_window: self.main_window,
            settings_window: self.settings_window,
            activity_window: self.activity_window,
            clips_window: self.clips_window,
            settings_error: optional_text(self.settings_error),
            input_devices: option_views(self.input_devices@),
            output_devices: option_views(self.output_devices@),
            log: log_view(self.activity_log@),
            clips: clip_views(self.clips@),
            clips_status: self.clips_status@,
            active_clip: optional_clip(self.active_clip),
            player: self.player@,
        }
    }
}

/// A log with several messages in front that are dated as given, the last one foremost.
pub open spec fn all_noted(
    log: Seq<ActivityView>,
    messages: Seq<Seq<char>>,
    utc: Timestamp,
) -> Seq<ActivityView>
    decreases messages.len(),
{
    if messages.len() == 0 {
        log
    } else {
        noted(all_noted(log, messages.drop_last(), utc), messages.last(), utc)
    }
}

impl AudioFriendView {
    /// The engine is well-formed and the log is not too long.
    pub open spec fn wf(self) -> bool {
        self.audio.wf() && self.log.len() <= MAX_ACTIVITY
    }

    /// The state when the application starts.
    pub open spec fn initial(
        loaded: Option<AppConfigView>,
        main_window: u64,
        input_devices: Seq<DeviceOptionView>,
        output_devices: Seq<DeviceOptionView>,
    ) -> AudioFriendView {
        let config = starting_config(loaded);
        AudioFriendView {
            enabled: false,
            amplitude: Level { bits: 0 },
            config,
            status: "Idle"@,
            audio: EngineView::fresh(config),
            main_window,
            settings_window: None,
            activity_window: None,
            clips_window: None,
            settings_error: None,
            input_devices,
            output_devices,
            log: Seq::empty(),
            clips: Seq::empty(),
            clips_status: "Not loaded"@,
            active_clip: None,
            player: PlayerView::fresh(),
        }
    }

    /// A message is put in front of the log.
    pub open spec fn note(self, message: Seq<char>, utc: Timestamp) -> AudioFriendView {
        AudioFriendView { log: noted(self.log, message, utc), ..self }
    }

    /// Other settings.
    pub open spec fn with_config(self, config: AppConfigView) -> AudioFriendView {
        AudioFriendView { config, ..self }
    }

    /// Another bucket.
    pub open spec fn with_s3(self, s3: S3ConfigView) -> AudioFriendView {
        self.with_config(AppConfigView { s3, ..self.config })
    }

    /// The level, the events so far, the uploads, the status and the clip in memory are
    /// brought up to date, in this order.
    pub open spec fn ticked(
        self,
        uploads: Seq<UploadPoll>,
        now: u64,
        utc: Timestamp,
    ) -> (AudioFriendView, EffectView) {
        let log = all_noted(self.log, self.audio.events, utc);
        let quiet = EngineView { events: Seq::empty(), ..self.audio };
        let (engine, result) = quiet.polled(uploads, now, utc);
        let current = AudioFriendView {
            amplitude: self.audio.amplitude,
            log,
            active_clip: engine.detector.snapshot(now, utc),
            ..self
        };
        match result {
            Err(e) => (
                AudioFriendView { audio: engine, status: "Upload error: "@ + e, ..current }.note(
                    "Upload error: "@ + e,
                    utc,
                ),
                EffectView::Nothing,
            ),
            Ok(job) => (
                AudioFriendView {
                    audio: EngineView { status: None, ..engine },
                    status: match engine.status {
                        Some(status) => status,
                        None => self.status,
                    },
                    ..current
                },
                match job {
                    Some(j) => EffectView::Upload(j),
                    None => EffectView::Nothing,
                },
            ),
        }
    }

    /// Whether the clip of the given name is the one in memory.
    pub open spec fn is_in_memory(self, key: Seq<char>) -> bool {
        match self.active_clip {
            Some(clip) => clip.key == key && clip.source != ClipSource::Uploaded,
            None => false,
        }
    }

    /// What becomes of the state on a message, and what is asked for.
    pub open spec fn updated(
        self,
        message: Message,
        utc: Timestamp,
    ) -> (AudioFriendView, EffectView) {
        match message {
            Message::ToggleEnabled => if self.enabled {
                (
                    AudioFriendView {
                        enabled: false,
                        audio: self.audio.stopped(),
                        status: "Stopping after keepalive"@,
                        ..self
                    }.note("Monitoring stopped; waiting for current clip to finish"@, utc),
                    EffectView::StopAudio,
                )
            } else {
                (AudioFriendView { enabled: true, ..self }, EffectView::StartAudio)
            },
            Message::StartFinished(result) => (
                match result {
                    Ok(_) => AudioFriendView { status: "Monitoring"@, ..self }.note(
                        "Monitoring started"@,
                        utc,
                    ),
                    Err(e) => AudioFriendView {
                        status: "Error: "@ + e@,
                        enabled: false,
                        ..self
                    }.note("Monitoring failed: "@ + e@, utc),
                },
                EffectView::Nothing,
            ),
            Message::Tick { uploads, now } => self.ticked(uploads@, now, utc),
            Message::OpenSettings => if self.settings_window is Some {
                (self, EffectView::Nothing)
            } else {
                (
                    AudioFriendView { settings_error: None, ..self },
                    EffectView::OpenSettingsWindow,
                )
            },
            Message::SettingsOpened { window, input_devices, output_devices } => (
                AudioFriendView {
                    settings_window: Some(window),
                    input_devices: option_views(input_devices@),
                    output_devices: option_views(output_devices@),
                    ..self
                },
                EffectView::Nothing,
            ),
            Message::CloseSettings => match self.settings_window {
                Some(id) => (
                    AudioFriendView { settings_window: None, settings_error: None, ..self },
                    EffectView::CloseWindow(id),
                ),
                None => (self, EffectView::Nothing),
            },
            Message::OpenActivity => if self.activity_window is Some {
                (self, EffectView::Nothing)
            } else {
                (self, EffectView::OpenActivityWindow)
            },
            Message::ActivityOpened { window } => (
                AudioFriendView { activity_window: Some(window), ..self },
                EffectView::Nothing,
            ),
            Message::CloseActivity => match self.activity_window {
                Some(id) => (
                    AudioFriendView { activity_window: None, ..self },
                    EffectView::CloseWindow(id),
                ),
                None => (self, EffectView::Nothing),
            },
            Message::OpenClips => if self.clips_window is Some {
                (self, EffectView::Refresh)
            } else {
                (self, EffectView::OpenClipsWindow)
            },
            Message::ClipsOpened { window } => (
                AudioFriendView {
                    clips_window: Some(window),
                    clips_status: "Loading clips..."@,
                    ..self
                },
                EffectView::Refresh,
            ),
            Message::CloseClips => match self.clips_window {
                Some(id) => (
                    AudioFriendView { clips_window: None, ..self },
                    EffectView::CloseWindow(id),
                ),
                None => (self, EffectView::Nothing),
            },
            Message::RefreshClips => (
                AudioFriendView { clips_status: "Loading clips..."@, ..self },
                EffectView::ListClips(self.config.s3),
            ),
            Message::OpenClip(key) => if self.is_in_memory(key@) {
                (
                    AudioFriendView {
                        clips_status:
                            "This clip is still local/in memory and cannot be opened yet"@,
                        ..self
                    },
                    EffectView::Nothing,
                )
            } else {
                (
                    AudioFriendView { clips_status: "Opening "@ + key@ + "..."@, ..self },
                    EffectView::DownloadClip { config: self.config.s3, key: key@ },
                )
            },
            Message::ClipOpened(result) => match result {
                Ok(clip) => (
                    AudioFriendView { clips_status: "Opened "@ + clip.key@, ..self }.note(
                        "Downloaded clip to "@ + clip.file_path@,
                        utc,
                    ),
                    EffectView::OpenWithSystemPlayer { path: clip.file_path@, key: clip.key@ },
                ),
                Err(e) => (
                    AudioFriendView { clips_status: "Failed to open clip: "@ + e@, ..self }.note(
                        "Clip open failed: "@ + e@,
                        utc,
                    ),
                    EffectView::Nothing,
                ),
            },
            Message::SystemPlayerStarted { key, result } => (
                match result {
                    Ok(_) => self.note("Opened clip in system player: "@ + key@, utc),
                    Err(e) => AudioFriendView {
                        clips_status: "Downloaded clip, but failed to open: "@ + e@,
                        ..self
                    }.note("Clip open failed: "@ + e@, utc),
                },
                EffectView::Nothing,
            ),
            Message::ClipsLoaded(result) => (
                match result {
                    Ok(clips) => AudioFriendView {
                        clips_status: "Loaded "@ + decimal(clips@.len()) + " uploaded clips"@,
                        clips: clip_views(clips@),
                        ..self
                    }.note("Clip history refreshed"@, utc),
                    Err(e) => AudioFriendView {
                        clips_status: "Failed to load clips: "@ + e@,
                        ..self
                    }.note("Clip history load failed: "@ + e@, utc),
                },
                EffectView::Nothing,
            ),
            Message::StopPlayback => (
                AudioFriendView { player: self.player.stopped(), ..self },
                EffectView::Nothing,
            ),
            Message::WindowCloseRequested(id) => if id == self.main_window {
                (self, EffectView::Exit)
            } else if self.settings_window == Some(id) {
                (
                    AudioFriendView { settings_window: None, settings_error: None, ..self },
                    EffectView::CloseWindow(id),
                )
            } else if self.activity_window == Some(id) {
                (
                    AudioFriendView { activity_window: None, ..self },
                    EffectView::CloseWindow(id),
                )
            } else if self.clips_window == Some(id) {
                (AudioFriendView { clips_window: None, ..self }, EffectView::CloseWindow(id))
            } else {
                (self, EffectView::Nothing)
            },
            Message::WindowClosed(id) => (
                AudioFriendView {
                    settings_window: without(self.settings_window, id),
                    settings_error: if self.settings_window == Some(id) {
                        None
                    } else {
                        self.settings_error
                    },
                    activity_window: without(self.activity_window, id),
                    clips_window: without(self.clips_window, id),
                    ..self
                },
                EffectView::Nothing,
            ),
            Message::InputDeviceChanged(device) => (
                self.with_config(
                    AppConfigView { input_device: device.raw_name@, ..self.config },
                ),
                EffectView::Nothing,
            ),
            Message::OutputDeviceChanged(device) => (
                self.with_config(
                    AppConfigView { output_device: device.raw_name@, ..self.config },
                ),
                EffectView::Nothing,
            ),
            Message::InputThresholdChanged(level) => (
                self.with_config(AppConfigView { input_threshold: level, ..self.config }),
                EffectView::Nothing,
            ),
            Message::OutputThresholdChanged(level) => (
                self.with_config(AppConfigView { output_threshold: level, ..self.config }),
                EffectView::Nothing,
            ),
            Message::RingSecondsChanged(text) => (
                self.with_config(AppConfigView { ring_buffer_secs: text@, ..self.config }),
                EffectView::Nothing,
            ),
            Message::KeepaliveSecondsChanged(text) => (
                self.with_config(AppConfigView { keepalive_secs: text@, ..self.config }),
                EffectView::Nothing,
            ),
            Message::S3UrlChanged(text) => (
                self.with_s3(S3ConfigView { endpoint_url: text@, ..self.config.s3 }),
                EffectView::Nothing,
            ),
            Message::S3BucketChanged(text) => (
                self.with_s3(S3ConfigView { bucket: text@, ..self.config.s3 }),
                EffectView::Nothing,
            ),
            Message::S3AccessKeyChanged(text) => (
                self.with_s3(S3ConfigView { access_key: text@, ..self.config.s3 }),
                EffectView::Nothing,
            ),
            Message::S3SecretKeyChanged(text) => (
                self.with_s3(S3ConfigView { secret_key: text@, ..self.config.s3 }),
                EffectView::Nothing,
            ),
            Message::SaveSettings => match settings_problem(self.config) {
                Some(problem) => (
                    AudioFriendView { settings_error: Some(problem), ..self },
                    EffectView::Nothing,
                ),
                None => (
                    AudioFriendView { settings_error: None, ..self },
                    EffectView::SaveConfig(self.config),
                ),
            },
            Message::SettingsSaved(result) => match result {
                Err(e) => (
                    AudioFriendView {
                        status: "Config save failed: "@ + e@,
                        settings_error: Some("Save failed: "@ + e@),
                        ..self
                    },
                    EffectView::Nothing,
                ),
                Ok(_) => {
                    let saved = AudioFriendView {
                        status: "Settings saved"@,
                        audio: self.audio.configured(self.config),
                        ..self
                    }.note("Settings saved"@, utc);
                    match self.settings_window {
                        Some(id) => (
                            AudioFriendView {
                                settings_window: None,
                                settings_error: None,
                                ..saved
                            },
                            EffectView::CloseWindow(id),
                        ),
                        None => (saved, EffectView::Nothing),
                    }
                },
            },
        }
    }

    /// Whether a message reports on the uploads that run, and the sound file of a clip that
    /// ends with it fits in memory.
    pub open spec fn accepts(self, message: Message) -> bool {
        match message {
            Message::Tick { uploads, now } => self.audio.can_poll(uploads@.len(), now),
            _ => true,
        }
    }
}

/// A window, unless it is the one with the given number.
pub open spec fn without(window: Option<u64>, id: u64) -> Option<u64> {
    if window == Some(id) {
        None
    } else {
        window
    }
}

/// Whether a window is the one with the given number.
fn is_window(window: Option<u64>, id: u64) -> (yes: bool)
    ensures
        yes == (window == Some(id)),
{
    match window {
        Some(w) => w == id,
        None => false,
    }
}

/// The state when the application starts, given the settings that could be loaded.
pub fn initial_state(
    loaded: Option<AppConfig>,
    main_window: u64,
    input_devices: Vec<DeviceOption>,
    output_devices: Vec<DeviceOption>,
) -> (state: AudioFriend)
    ensures
        state@ == AudioFriendView::initial(
            optional_config(loaded),
            main_window,
            option_views(input_devices@),
            option_views(output_devices@),
        ),
        state@.wf(),
{
    let config = initial_config(loaded);
    let audio = AudioEngine::new(config.clone());
    let state = AudioFriend {
        enabled: false,
        amplitude: Level { bits: 0 },
        config,
        status: "Idle".to_owned(),
        audio,
        main_window,
        settings_window: None,
        activity_window: None,
        clips_window: None,
        settings_error: None,
        input_devices,
        output_devices,
        activity_log: VecDeque::new(),
        clips: Vec::new(),
        clips_status: "Not loaded".to_owned(),
        active_clip: None,
        player: Player::new(),
    };
    assert(state@.log =~= Seq::empty());
    assert(state@.clips =~= Seq::empty());
    state
}

impl AudioFriend {
    /// Puts a message in front of the log.
    fn note(&mut self, message: String, utc: Timestamp)
        ensures
            final(self)@ == old(self)@.note(message@, utc),
    {
        push_entry(&mut self.activity_log, ActivityEntry { timestamp: utc, message });
    }

    /// Puts several messages in front of the log.
    fn note_all(&mut self, messages: &Vec<String>, utc: Timestamp)
        ensures
            final(self)@ == (AudioFriendView {
                log: all_noted(old(self)@.log, texts(messages@), utc),
                ..old(self)@
            }),
    {
        let ghost views = texts(messages@);
        for i in 0..messages.len()
            invariant
                views == texts(messages@),
                self@ == (AudioFriendView {
                    log: all_noted(old(self)@.log, views.take(i as int), utc),
                    ..old(self)@
                }),
        {
            self.note(messages[i].clone(), utc);
            assert(views.take(i + 1).drop_last() =~= views.take(i as int));
            assert(views.take(i + 1).last() == messages@[i as int]@);
        }
        assert(views.take(messages@.len() as int) =~= views);
    }

    /// Brings everything up to date.
    fn tick(&mut self, uploads: &Vec<UploadPoll>, now: u64, utc: Timestamp) -> (effect: Effect)
        requires
            old(self)@.audio.wf(),
            old(self)@.audio.can_poll(uploads@.len(), now),
        ensures
            final(self)@ == old(self)@.ticked(uploads@, now, utc).0,
            effect@ == old(self)@.ticked(uploads@, now, utc).1,
            final(self)@.audio.wf(),
    {
        self.amplitude = self.audio.current_amplitude();
        let events = self.audio.take_activity_events();
        self.note_all(&events, utc);
        let ghost noted_log = self@.log;
        let effect = match self.audio.poll_uploads(uploads, now, utc) {
            Err(e) => {
                self.status = join2("Upload error: ", e.as_str());
                self.note(join2("Upload error: ", e.as_str()), utc);
                Effect::Nothing
            },
            Ok(job) => {
                if let Some(status) = self.audio.status_text() {
                    self.status = status;
                }
                match job {
                    Some(j) => Effect::Upload(j),
                    None => Effect::Nothing,
                }
            },
        };
        self.active_clip = self.audio.clip_snapshot(now, utc);
        assert(self@ =~= old(self)@.ticked(uploads@, now, utc).0);
        effect
    }
}

/// Whether a message reports on the uploads that run, and the sound file of a clip that ends
/// with it fits in memory.
pub fn accepts_message(state: &AudioFriend, message: &Message) -> (yes: bool)
    ensures
        yes == state@.accepts(*message),
{
    match message {
        Message::Tick { uploads, now } => state.audio.accepts_polls(uploads.len(), *now),
        _ => true,
    }
}

/// Changes the state on a message that comes at a point in time.
pub fn update_at(state: &mut AudioFriend, message: Message, utc: Timestamp) -> (effect: Effect)
    requires
        old(state)@.wf(),
        old(state)@.accepts(message),
    ensures
        final(state)@ == old(state)@.updated(message, utc).0,
        effect@ == old(state)@.updated(message, utc).1,
        final(state)@.wf(),
{
    proof {
        lemma_updates_keep_wf(state@, message, utc);
    }
    match message {
        Message::ToggleEnabled => {
            state.enabled = !state.enabled;
            if state.enabled {
                Effect::StartAudio
            } else {
                state.audio.stop();
                state.status = "Stopping after keepalive".to_owned();
                state.note(
                    "Monitoring stopped; waiting for current clip to finish".to_owned(),
                    utc,
                );
                Effect::StopAudio
            }
        },
        Message::StartFinished(result) => {
            match result {
                Ok(_) => {
                    state.status = "Monitoring".to_owned();
                    state.note("Monitoring started".to_owned(), utc);
                },
                Err(e) => {
                    state.status = join2("Error: ", e.as_str());
                    state.enabled = false;
                    state.note(join2("Monitoring failed: ", e.as_str()), utc);
                },
            }
            Effect::Nothing
        },
        Message::Tick { uploads, now } => state.tick(&uploads, now, utc),
        Message::OpenSettings => {
            if state.settings_window.is_some() {
                return Effect::Nothing;
            }
            state.settings_error = None;
            Effect::OpenSettingsWindow
        },
        Message::SettingsOpened { window, input_devices, output_devices } => {
            state.input_devices = input_devices;
            state.output_devices = output_devices;
            state.settings_window = Some(window);
            Effect::Nothing
        },
        Message::CloseSettings => {
            if let Some(id) = state.settings_window.take() {
                state.settings_error = None;
                return Effect::CloseWindow(id);
            }
            Effect::Nothing
        },
        Message::OpenActivity => {
            if state.activity_window.is_some() {
                return Effect::Nothing;
            }
            Effect::OpenActivityWindow
        },
        Message::ActivityOpened { window } => {
            state.activity_window = Some(window);
            Effect::Nothing
        },
        Message::CloseActivity => {
            if let Some(id) = state.activity_window.take() {
                return Effect::CloseWindow(id);
            }
            Effect::Nothing
        },
        Message::OpenClips => {
            if state.clips_window.is_some() {
                return Effect::Refresh;
            }
            Effect::OpenClipsWindow
        },
        Message::ClipsOpened { window } => {
            state.clips_window = Some(window);
            state.clips_status = "Loading clips...".to_owned();
            Effect::Refresh
        },
        Message::CloseClips => {
            if let Some(id) = state.clips_window.take() {
                return Effect::CloseWindow(id);
            }
            Effect::Nothing
        },
        Message::RefreshClips => {
            state.clips_status = "Loading clips...".to_owned();
            Effect::ListClips(state.config.s3.clone())
        },
        Message::OpenClip(key) => {
            let in_memory = match &state.active_clip {
                Some(clip) => clip.key == key && clip.source != ClipSource::Uploaded,
                None => false,
            };
            if in_memory {
                state.clips_status =
                "This clip is still local/in memory and cannot be opened yet".to_owned();
                return Effect::Nothing;
            }
            state.clips_status = join3("Opening ", key.as_str(), "...");
            Effect::DownloadClip { config: state.config.s3.clone(), key }
        },
        Message::ClipOpened(result) => match result {
            Ok(clip) => {
                state.clips_status = join2("Opened ", clip.key.as_str());
                state.note(join2("Downloaded clip to ", clip.file_path.as_str()), utc);
                Effect::OpenWithSystemPlayer { path: clip.file_path, key: clip.key }
            },
            Err(e) => {
                state.clips_status = join2("Failed to open clip: ", e.as_str());
                state.note(join2("Clip open failed: ", e.as_str()), utc);
                Effect::Nothing
            },
        },
        Message::SystemPlayerStarted { key, result } => {
            match result {
                Ok(_) => {
                    state.note(join2("Opened clip in system player: ", key.as_str()), utc);
                },
                Err(e) => {
                    state.clips_status = join2("Downloaded clip, but failed to open: ", e.as_str());
                    state.note(join2("Clip open failed: ", e.as_str()), utc);
                },
            }
            Effect::Nothing
        },
        Message::ClipsLoaded(result) => {
            match result {
                Ok(clips) => {
                    let count = decimal_text(clips.len() as u64);
                    state.clips_status = join3("Loaded ", count.as_str(), " uploaded clips");
                    state.clips = clips;
                    state.note("Clip history refreshed".to_owned(), utc);
                },
                Err(e) => {
                    state.clips_status = join2("Failed to load clips: ", e.as_str());
                    state.note(join2("Clip history load failed: ", e.as_str()), utc);
                },
            }
            Effect::Nothing
        },
        Message::StopPlayback => {
            state.player.stop();
            Effect::Nothing
        },
        Message::WindowCloseRequested(id) => {
            if id == state.main_window {
                return Effect::Exit;
            }
            if is_window(state.settings_window, id) {
                state.settings_window = None;
                state.settings_error = None;
                return Effect::CloseWindow(id);
            }
            if is_window(state.activity_window, id) {
                state.activity_window = None;
                return Effect::CloseWindow(id);
            }
            if is_window(state.clips_window, id) {
                state.clips_window = None;
                return Effect::CloseWindow(id);
            }
            Effect::Nothing
        },
        Message::WindowClosed(id) => {
            if is_window(state.settings_window, id) {
                state.settings_window = None;
                state.settings_error = None;
            }
            if is_window(state.activity_window, id) {
                state.activity_window = None;
            }
            if is_window(state.clips_window, id) {
                state.clips_window = None;
            }
            Effect::Nothing
        },
        Message::InputDeviceChanged(device) => {
            state.config.input_device = device.raw_name;
            Effect::Nothing
        },
        Message::OutputDeviceChanged(device) => {
            state.config.output_device = device.raw_name;
            Effect::Nothing
        },
        Message::InputThresholdChanged(level) => {
            state.config.input_threshold = level;
            Effect::Nothing
        },
        Message::OutputThresholdChanged(level) => {
            state.config.output_threshold = level;
            Effect::Nothing
        },
        Message::RingSecondsChanged(text) => {
            state.config.ring_buffer_secs = text;
            Effect::Nothing
        },
        Message::KeepaliveSecondsChanged(text) => {
            state.config.keepalive_secs = text;
            Effect::Nothing
        },
        Message::S3UrlChanged(text) => {
            state.config.s3.endpoint_url = text;
            Effect::Nothing
        },
        Message::S3BucketChanged(text) => {
            state.config.s3.bucket = text;
            Effect::Nothing
        },
        Message::S3AccessKeyChanged(text) => {
            state.config.s3.access_key = text;
            Effect::Nothing
        },
        Message::S3SecretKeyChanged(text) => {
            state.config.s3.secret_key = text;
            Effect::Nothing
        },
        Message::SaveSettings => {
            if let Some(problem) = validate_settings(&state.config) {
                state.settings_error = Some(problem);
                return Effect::Nothing;
            }
            state.settings_error = None;
            Effect::SaveConfig(state.config.clone())
        },
        Message::SettingsSaved(result) => match result {
            Err(e) => {
                state.status = join2("Config save failed: ", e.as_str());
                state.settings_error = Some(join2("Save failed: ", e.as_str()));
                Effect::Nothing
            },
            Ok(_) => {
                state.status = "Settings saved".to_owned();
                state.note("Settings saved".to_owned(), utc);
                state.audio.apply_config(state.config.clone());
                if let Some(id) = state.settings_window.take() {
                    state.settings_error = None;
                    Effect::CloseWindow(id)
                } else {
                    Effect::Nothing
                }
            },
        },
    }
}

/// Changes the state on a message that comes now. When that is, the clock says.
pub fn update(state: &mut AudioFriend, message: Message) -> (effect: Effect)
    requires
        old(state)@.wf(),
        old(state)@.accepts(message),
    ensures
        exists|utc: Timestamp|
            (final(state)@, effect@) == #[trigger] old(state)@.updated(message, utc),
        final(state)@.wf(),
{
    let utc = Timestamp::now();
    let effect = update_at(state, message, utc);
    assert((state@, effect@) == old(state)@.updated(message, utc));
    effect
}

/// A log never becomes too long by messages.
proof fn lemma_all_noted(log: Seq<ActivityView>, messages: Seq<Seq<char>>, utc: Timestamp)
    requires
        log.len() <= MAX_ACTIVITY,
    ensures
        all_noted(log, messages, utc).len() <= MAX_ACTIVITY,
    decreases messages.len(),
{
    if messages.len() > 0 {
        lemma_all_noted(log, messages.drop_last(), utc);
    }
}

/// No message makes the log too long.
proof fn lemma_updates_keep_wf(state: AudioFriendView, message: Message, utc: Timestamp)
    requires
        state.wf(),
    ensures
        state.updated(message, utc).0.log.len() <= MAX_ACTIVITY,
{
    lemma_all_noted(state.log, state.audio.events, utc);
}

// ---------------------------------------------------------------------------
// What a window shows
// ---------------------------------------------------------------------------

/// What a window can show.
#[derive(Clone, Copy, Debug, PartialEq, Eq, Structural)]
pub enum Page {
    Main,
    Settings,
    Activity,
    Clips,
}

impl AudioFriendView {
    /// What a window shows: the main page, unless it is one of the other windows.
    pub open spec fn page(self, id: u64) -> Page {
        if self.settings_window == Some(id) {
            Page::Settings
        } else if self.activity_window == Some(id) {
            Page::Activity
        } else if self.clips_window == Some(id) {
            Page::Clips
        } else {
            Page::Main
        }
    }
}

/// The title of a window that shows the given page.
pub open spec fn page_title(page: Page) -> Seq<char> {
    match page {
        Page::Settings => "Audio Friend Settings"@,
        Page::Activity => "Audio Friend Activity"@,
        Page::Clips => "Audio Friend Clips"@,
        Page::Main => "Audio Friend"@,
    }
}

/// What a window shows.
pub fn view(state: &AudioFriend, id: u64) -> (page: Page)
    ensures
        page == state@.page(id),
{
    if is_window(state.settings_window, id) {
        Page::Settings
    } else if is_window(state.activity_window, id) {
        Page::Activity
    } else if is_window(state.clips_window, id) {
        Page::Clips
    } else {
        Page::Main
    }
}

/// The title of a window.
pub fn title(state: &AudioFriend, id: u64) -> (text: String)
    ensures
        text@ == page_title(state@.page(id)),
{
    match view(state, id) {
        Page::Settings => "Audio Friend Settings".to_owned(),
        Page::Activity => "Audio Friend Activity".to_owned(),
        Page::Clips => "Audio Friend Clips".to_owned(),
        Page::Main => "Audio Friend".to_owned(),
    }
}

// ---------------------------------------------------------------------------
// Laws
// ---------------------------------------------------------------------------

/// Settings are saved only where nothing is wrong with them, and then as they stand. Where
/// something is wrong, all that changes is that the user is told.
pub proof fn only_valid_settings_are_saved(state: AudioFriendView, utc: Timestamp)
    ensures
        ({
            let (after, effect) = state.updated(Message::SaveSettings, utc);
            match settings_problem(state.config) {
                None => effect == EffectView::SaveConfig(state.config),
                Some(problem) => {
                    &&& effect == EffectView::Nothing
                    &&& after == AudioFriendView { settings_error: Some(problem), ..state }
                },
            }
        }),
{
}

/// No other message saves settings.
pub proof fn settings_are_saved_on_demand(state: AudioFriendView, message: Message, utc: Timestamp)
    requires
        !(message is SaveSettings),
    ensures
        !(state.updated(message, utc).1 is SaveConfig),
{
}

/// The engine works with the settings that were saved last: it takes those that the user
/// sees when they are saved, and keeps its own otherwise.
pub proof fn the_engine_takes_saved_settings(
    state: AudioFriendView,
    message: Message,
    utc: Timestamp,
)
    ensures
        ({
            let after = state.updated(message, utc).0;
            if message matches Message::SettingsSaved(Ok(_)) {
                after.audio.config == state.config
            } else {
                after.audio.config == state.audio.config
            }
        }),
{
    if let Message::Tick { uploads, now } = message {
        let quiet = EngineView { events: Seq::empty(), ..state.audio };
        crate::engine::lemma_settled(quiet.gathered(now, utc), uploads@, uploads@.len() as int);
    }
}

/// Of the settings window, the activity window and the clips window there is never more
/// than one: none is opened while it is open.
pub proof fn windows_open_once(state: AudioFriendView, message: Message, utc: Timestamp)
    ensures
        state.updated(message, utc).1 is OpenSettingsWindow ==> state.settings_window is None,
        state.updated(message, utc).1 is OpenActivityWindow ==> state.activity_window is None,
        state.updated(message, utc).1 is OpenClipsWindow ==> state.clips_window is None,
        state.settings_window is Some ==> state.updated(Message::OpenSettings, utc) == (
            state,
            EffectView::Nothing,
        ),
        state.activity_window is Some ==> state.updated(Message::OpenActivity, utc) == (
            state,
            EffectView::Nothing,
        ),
        state.clips_window is Some ==> state.updated(Message::OpenClips, utc) == (
            state,
            EffectView::Refresh,
        ),
{
}

/// A window that was closed is forgotten: it is none of the other windows any more.
pub proof fn a_closed_window_is_forgotten(state: AudioFriendView, id: u64, utc: Timestamp)
    ensures
        state.updated(Message::WindowClosed(id), utc).0.page(id) == Page::Main,
        state.updated(Message::CloseSettings, utc).0.settings_window is None,
        state.updated(Message::CloseActivity, utc).0.activity_window is None,
        state.updated(Message::CloseClips, utc).0.clips_window is None,
{
}

/// The application ends when the main window is to be closed, and only then.
pub proof fn closing_the_main_window_ends_it(
    state: AudioFriendView,
    message: Message,
    utc: Timestamp,
)
    ensures
        state.updated(message, utc).1 is Exit <==> message == Message::WindowCloseRequested(
            state.main_window,
        ),
{
}

/// A clip that is still in memory is not downloaded; any other is.
pub proof fn a_clip_in_memory_is_not_downloaded(
    state: AudioFriendView,
    key: String,
    utc: Timestamp,
)
    ensures
        state.updated(Message::OpenClip(key), utc).1 is DownloadClip <==> !state.is_in_memory(
            key@,
        ),
{
}

/// The clip that is shown from memory can never be opened before it is uploaded.
pub proof fn a_snapshot_cannot_be_opened(
    state: AudioFriendView,
    uploads: Seq<UploadPoll>,
    now: u64,
    utc: Timestamp,
)
    ensures
        state.ticked(uploads, now, utc).0.active_clip matches Some(clip) ==> state.ticked(
            uploads,
            now,
            utc,
        ).0.is_in_memory(clip.key),
{
}

/// Switching listening on and off again leaves it off, with the engine on its way to rest.
pub proof fn switching_twice_stops(state: AudioFriendView, utc: Timestamp)
    requires
        !state.enabled,
    ensures
        ({
            let (on, start) = state.updated(Message::ToggleEnabled, utc);
            let (off, stop) = on.updated(Message::ToggleEnabled, utc);
            &&& on.enabled
            &&& start == EffectView::StartAudio
            &&& !off.enabled
            &&& stop == EffectView::StopAudio
            &&& off.audio.stopping
            &&& !off.audio.streaming
        }),
{
}

/// Where listening cannot start, it is switched off again and the user is told why.
pub proof fn a_failed_start_is_reported(state: AudioFriendView, error: String, utc: Timestamp)
    ensures
        ({
            let after = state.updated(Message::StartFinished(Err(error)), utc).0;
            &&& !after.enabled
            &&& after.status == "Error: "@ + error@
            &&& after.log == noted(state.log, "Monitoring failed: "@ + error@, utc)
        }),
{
}

/// A failed upload is shown to the user and is the newest entry of the log; what the engine
/// had to say before stands behind it.
pub proof fn a_failed_upload_is_reported(
    state: AudioFriendView,
    uploads: Seq<UploadPoll>,
    now: u64,
    utc: Timestamp,
)
    requires
        crate::engine::any_failed(uploads),
    ensures
        ({
            let (after, effect) = state.ticked(uploads, now, utc);
            &&& effect == EffectView::Nothing
            &&& after.audio.pending == 0
            &&& exists|error: Seq<char>|
                {
                    &&& after.status == "Upload error: "@ + error
                    &&& after.log == #[trigger] noted(
                        all_noted(state.log, state.audio.events, utc),
                        "Upload error: "@ + error,
                        utc,
                    )
                }
        }),
{
    let quiet = EngineView { events: Seq::empty(), ..state.audio };
    crate::engine::uploads_are_looked_after(quiet, uploads, now, utc);
    let error = quiet.polled(uploads, now, utc).1->Err_0;
    let after = state.ticked(uploads, now, utc).0;
    assert(after.log == noted(
        all_noted(state.log, state.audio.events, utc),
        "Upload error: "@ + error,
        utc,
    ));
}

/// All that the engine has to say when time has passed is in the log, and is said once.
pub proof fn a_tick_logs_every_event(
    state: AudioFriendView,
    uploads: Seq<UploadPoll>,
    now: u64,
    utc: Timestamp,
)
    requires
        !crate::engine::any_failed(uploads),
    ensures
        state.ticked(uploads, now, utc).0.log == all_noted(state.log, state.audio.events, utc),
        ({
            let quiet = EngineView { events: Seq::empty(), ..state.audio };
            state.ticked(uploads, now, utc).0.audio.events == quiet.polled(
                uploads,
                now,
                utc,
            ).0.events
        }),
{
    let quiet = EngineView { events: Seq::empty(), ..state.audio };
    crate::engine::uploads_are_looked_after(quiet, uploads, now, utc);
}

/// Several messages are noted one after the other: the last one is the newest entry, each has
/// its own text and the time at which they were noted, behind them stand the older entries,
/// and a hundred entries are kept.
pub proof fn messages_are_noted_in_order(
    log: Seq<ActivityView>,
    messages: Seq<Seq<char>>,
    utc: Timestamp,
)
    requires
        log.len() <= 100,
    ensures
        ({
            let after = all_noted(log, messages, utc);
            &&& after.len() == (if log.len() + messages.len() < 100 {
                log.len() + messages.len()
            } else {
                100
            })
            &&& forall|i: int|
                0 <= i < after.len() && i < messages.len() ==> (#[trigger] after[i]).message
                    == messages[messages.len() - 1 - i] && after[i].timestamp == utc
            &&& forall|i: int|
                messages.len() <= i < after.len() ==> #[trigger] after[i] == log[i
                    - messages.len()]
        }),
    decreases messages.len(),
{
    if messages.len() > 0 {
        let before = all_noted(log, messages.drop_last(), utc);
        messages_are_noted_in_order(log, messages.drop_last(), utc);
        let after = all_noted(log, messages, utc);
        crate::activity::log_keeps_the_newest(
            before,
            ActivityView { timestamp: utc, message: messages.last() },
        );
        assert forall|i: int| 0 <= i < after.len() && i < messages.len() implies (
        #[trigger] after[i]).message == messages[messages.len() - 1 - i] && after[i].timestamp
            == utc by {
            if i > 0 {
                assert(after[i] == before[i - 1]);
            }
        }
        assert forall|i: int| messages.len() <= i < after.len() implies #[trigger] after[i]
            == log[i - messages.len()] by {
            assert(after[i] == before[i - 1]);
        }
    }
}

/// An application starts idle, with the settings that were saved, its main window and
/// devices, and nothing else.
pub proof fn an_application_starts_idle(
    loaded: Option<AppConfigView>,
    main_window: u64,
    input_devices: Seq<DeviceOptionView>,
    output_devices: Seq<DeviceOptionView>,
)
    ensures
        ({
            let state = AudioFriendView::initial(
                loaded,
                main_window,
                input_devices,
                output_devices,
            );
            &&& !state.enabled
            &&& state.amplitude.bits == 0
            &&& state.config == starting_config(loaded)
            &&& state.status == "Idle"@
            &&& state.audio == EngineView::fresh(starting_config(loaded))
            &&& state.main_window == main_window
            &&& state.settings_window is None
            &&& state.activity_window is None
            &&& state.clips_window is None
            &&& state.settings_error is None
            &&& state.input_devices == input_devices
            &&& state.output_devices == output_devices
            &&& state.log.len() == 0
            &&& state.clips.len() == 0
            &&& state.clips_status == "Not loaded"@
            &&& state.active_clip is None
            &&& state.player == PlayerView::fresh()
        }),
{
}

/// Switching listening on asks for the start and changes nothing else. Switching it off stops
/// the engine, says so, notes it and asks for the stream to be let go of.
pub proof fn listening_is_switched(state: AudioFriendView, utc: Timestamp)
    ensures
        !state.enabled ==> state.updated(Message::ToggleEnabled, utc) == (
            AudioFriendView { enabled: true, ..state },
            EffectView::StartAudio,
        ),
        state.enabled ==> state.updated(Message::ToggleEnabled, utc) == (
            AudioFriendView {
                enabled: false,
                audio: state.audio.stopped(),
                status: "Stopping after keepalive"@,
                log: noted(
                    state.log,
                    "Monitoring stopped; waiting for current clip to finish"@,
                    utc,
                ),
                ..state
            },
            EffectView::StopAudio,
        ),
{
}

/// A start that succeeded is shown and noted; one that failed besides switches listening off.
/// Nothing else changes and nothing is asked for.
pub proof fn the_end_of_a_start_is_shown(state: AudioFriendView, error: String, utc: Timestamp)
    ensures
        state.updated(Message::StartFinished(Ok(())), utc) == (
            AudioFriendView {
                status: "Monitoring"@,
                log: noted(state.log, "Monitoring started"@, utc),
                ..state
            },
            EffectView::Nothing,
        ),
        state.updated(Message::StartFinished(Err(error)), utc) == (
            AudioFriendView {
                enabled: false,
                status: "Error: "@ + error@,
                log: noted(state.log, "Monitoring failed: "@ + error@, utc),
                ..state
            },
            EffectView::Nothing,
        ),
{
}

/// As time passes the level and the clip in memory that are shown are those of the engine,
/// the engine's status is shown once, its next clip is asked to be uploaded, and what the
/// user has set or opened stays.
pub proof fn a_tick_shows_the_engine(
    state: AudioFriendView,
    uploads: Vec<UploadPoll>,
    now: u64,
    utc: Timestamp,
)
    ensures
        ({
            let quiet = EngineView { events: Seq::empty(), ..state.audio };
            let (engine, result) = quiet.polled(uploads@, now, utc);
            let (after, effect) = state.updated(Message::Tick { uploads, now }, utc);
            &&& after.amplitude == state.audio.amplitude
            &&& after.active_clip == engine.detector.snapshot(now, utc)
            &&& after == AudioFriendView {
                amplitude: after.amplitude,
                active_clip: after.active_clip,
                audio: after.audio,
                status: after.status,
                log: after.log,
                ..state
            }
            &&& match result {
                Ok(job) => {
                    &&& after.audio == EngineView { status: None, ..engine }
                    &&& engine.status is Some ==> after.status == engine.status->0
                    &&& engine.status is None ==> after.status == state.status
                    &&& after.log == all_noted(state.log, state.audio.events, utc)
                    &&& job is Some ==> effect == EffectView::Upload(job->0)
                    &&& job is None ==> effect == EffectView::Nothing
                },
                Err(error) => {
                    &&& after.audio == engine
                    &&& after.status == "Upload error: "@ + error
                    &&& after.log == noted(
                        all_noted(state.log, state.audio.events, utc),
                        "Upload error: "@ + error,
                        utc,
                    )
                    &&& effect == EffectView::Nothing
                },
            }
        }),
{
}

/// The clip to be uploaded that a tick asks for is the one that the engine gives away, and
/// nothing else asks for an upload.
pub proof fn only_ticks_upload(state: AudioFriendView, message: Message, utc: Timestamp)
    ensures
        state.updated(message, utc).1 is Upload ==> message is Tick,
{
}

/// Opening the settings forgets an old problem and asks for the window; once it is open, it
/// and the devices are known. Closing forgets both the window and the problem.
pub proof fn the_settings_window_comes_and_goes(
    state: AudioFriendView,
    window: u64,
    input_devices: Vec<DeviceOption>,
    output_devices: Vec<DeviceOption>,
    utc: Timestamp,
)
    ensures
        state.settings_window is None ==> state.updated(Message::OpenSettings, utc) == (
            AudioFriendView { settings_error: None, ..state },
            EffectView::OpenSettingsWindow,
        ),
        state.updated(
            Message::SettingsOpened { window, input_devices, output_devices },
            utc,
        ) == (
            AudioFriendView {
                settings_window: Some(window),
                input_devices: option_views(input_devices@),
                output_devices: option_views(output_devices@),
                ..state
            },
            EffectView::Nothing,
        ),
        state.settings_window matches Some(id) ==> state.updated(Message::CloseSettings, utc) == (
            AudioFriendView { settings_window: None, settings_error: None, ..state },
            EffectView::CloseWindow(id),
        ),
        state.settings_window is None ==> state.updated(Message::CloseSettings, utc) == (
            state,
            EffectView::Nothing,
        ),
{
}

/// The activity window is asked for, known once it is open, and forgotten when it is closed.
pub proof fn the_activity_window_comes_and_goes(
    state: AudioFriendView,
    window: u64,
    utc: Timestamp,
)
    ensures
        state.activity_window is None ==> state.updated(Message::OpenActivity, utc) == (
            state,
            EffectView::OpenActivityWindow,
        ),
        state.updated(Message::ActivityOpened { window }, utc) == (
            AudioFriendView { activity_window: Some(window), ..state },
            EffectView::Nothing,
        ),
        state.activity_window matches Some(id) ==> state.updated(Message::CloseActivity, utc) == (
            AudioFriendView { activity_window: None, ..state },
            EffectView::CloseWindow(id),
        ),
        state.activity_window is None ==> state.updated(Message::CloseActivity, utc) == (
            state,
            EffectView::Nothing,
        ),
{
}

/// The clips window is asked for, filled once it is open, and forgotten when it is closed.
pub proof fn the_clips_window_comes_and_goes(state: AudioFriendView, window: u64, utc: Timestamp)
    ensures
        state.clips_window is None ==> state.updated(Message::OpenClips, utc) == (
            state,
            EffectView::OpenClipsWindow,
        ),
        state.updated(Message::ClipsOpened { window }, utc) == (
            AudioFriendView {
                clips_window: Some(window),
                clips_status: "Loading clips..."@,
                ..state
            },
            EffectView::Refresh,
        ),
        state.clips_window matches Some(id) ==> state.updated(Message::CloseClips, utc) == (
            AudioFriendView { clips_window: None, ..state },
            EffectView::CloseWindow(id),
        ),
        state.clips_window is None ==> state.updated(Message::CloseClips, utc) == (
            state,
            EffectView::Nothing,
        ),
{
}

/// The clips that are listed are those of the bucket in the settings that the user sees; what
/// was listed is shown in place of the clips before, and a failure keeps these.
pub proof fn clips_are_listed_from_the_settings(
    state: AudioFriendView,
    clips: Vec<ClipInfo>,
    error: String,
    utc: Timestamp,
)
    ensures
        state.updated(Message::RefreshClips, utc) == (
            AudioFriendView { clips_status: "Loading clips..."@, ..state },
            EffectView::ListClips(state.config.s3),
        ),
        state.updated(Message::ClipsLoaded(Ok(clips)), utc) == (
            AudioFriendView {
                clips_status: "Loaded "@ + decimal(clips@.len()) + " uploaded clips"@,
                clips: clip_views(clips@),
                log: noted(state.log, "Clip history refreshed"@, utc),
                ..state
            },
            EffectView::Nothing,
        ),
        state.updated(Message::ClipsLoaded(Err(error)), utc) == (
            AudioFriendView {
                clips_status: "Failed to load clips: "@ + error@,
                log: noted(state.log, "Clip history load failed: "@ + error@, utc),
                ..state
            },
            EffectView::Nothing,
        ),
{
}

/// A clip that is opened is downloaded by exactly the name by which it is listed, from the
/// bucket in the settings that the user sees, unless it is the clip in memory; then the user
/// is told so and nothing is downloaded.
pub proof fn a_clip_is_downloaded_by_its_name(state: AudioFriendView, key: String, utc: Timestamp)
    ensures
        ({
            let in_memory = state.active_clip is Some && state.active_clip->0.key == key@
                && !(state.active_clip->0.source is Uploaded);
            &&& !in_memory ==> state.updated(Message::OpenClip(key), utc) == (
                AudioFriendView { clips_status: "Opening "@ + key@ + "..."@, ..state },
                EffectView::DownloadClip { config: state.config.s3, key: key@ },
            )
            &&& in_memory ==> state.updated(Message::OpenClip(key), utc) == (
                AudioFriendView {
                    clips_status: "This clip is still local/in memory and cannot be opened yet"@,
                    ..state
                },
                EffectView::Nothing,
            )
        }),
{
}

/// Whatever clip is listed, opening it asks for the object of that name and no other, and
/// two clips of different names ask for different objects.
pub proof fn different_clips_are_different_downloads(
    state: AudioFriendView,
    a: String,
    b: String,
    utc: Timestamp,
)
    requires
        state.active_clip is None,
        a@ != b@,
    ensures
        state.updated(Message::OpenClip(a), utc).1 != state.updated(Message::OpenClip(b), utc).1,
{
}

/// A downloaded clip is opened from where it was put, and that is shown and noted under its
/// name; how that went is noted too. A failure is shown and noted.
pub proof fn a_downloaded_clip_is_opened(
    state: AudioFriendView,
    clip: DownloadedClip,
    error: String,
    utc: Timestamp,
)
    ensures
        state.updated(Message::ClipOpened(Ok(clip)), utc) == (
            AudioFriendView {
                clips_status: "Opened "@ + clip.key@,
                log: noted(state.log, "Downloaded clip to "@ + clip.file_path@, utc),
                ..state
            },
            EffectView::OpenWithSystemPlayer { path: clip.file_path@, key: clip.key@ },
        ),
        state.updated(Message::ClipOpened(Err(error)), utc) == (
            AudioFriendView {
                clips_status: "Failed to open clip: "@ + error@,
                log: noted(state.log, "Clip open failed: "@ + error@, utc),
                ..state
            },
            EffectView::Nothing,
        ),
        state.updated(
            Message::SystemPlayerStarted { key: clip.key, result: Ok(()) },
            utc,
        ) == (
            AudioFriendView {
                log: noted(state.log, "Opened clip in system player: "@ + clip.key@, utc),
                ..state
            },
            EffectView::Nothing,
        ),
        state.updated(
            Message::SystemPlayerStarted { key: clip.key, result: Err(error) },
            utc,
        ) == (
            AudioFriendView {
                clips_status: "Downloaded clip, but failed to open: "@ + error@,
                log: noted(state.log, "Clip open failed: "@ + error@, utc),
                ..state
            },
            EffectView::Nothing,
        ),
{
}

/// Stopping what plays stops the player and changes nothing else.
pub proof fn playback_is_stopped(state: AudioFriendView, utc: Timestamp)
    ensures
        state.updated(Message::StopPlayback, utc) == (
            AudioFriendView { player: state.player.stopped(), ..state },
            EffectView::Nothing,
        ),
        state.updated(Message::StopPlayback, utc).0.player.shown() is None,
{
}

/// A window that is to be closed is closed and forgotten, the settings' problem with the
/// settings' window; a window that is none of the application's is left alone, and the main
/// window changes nothing.
pub proof fn a_window_is_closed_on_request(state: AudioFriendView, id: u64, utc: Timestamp)
    ensures
        ({
            let (after, effect) = state.updated(Message::WindowCloseRequested(id), utc);
            &&& id == state.main_window ==> after == state && effect == EffectView::Exit
            &&& id != state.main_window && state.page(id) is Settings ==> after
                == AudioFriendView { settings_window: None, settings_error: None, ..state }
                && effect == EffectView::CloseWindow(id)
            &&& id != state.main_window && state.page(id) is Activity ==> after
                == AudioFriendView { activity_window: None, ..state } && effect
                == EffectView::CloseWindow(id)
            &&& id != state.main_window && state.page(id) is Clips ==> after
                == AudioFriendView { clips_window: None, ..state } && effect
                == EffectView::CloseWindow(id)
            &&& id != state.main_window && state.page(id) is Main ==> after == state && effect
                == EffectView::Nothing
        }),
{
}

/// That a window was closed forgets that window only, and the settings' problem where it was
/// the settings' window.
pub proof fn a_closed_window_takes_nothing_along(state: AudioFriendView, id: u64, utc: Timestamp)
    ensures
        ({
            let (after, effect) = state.updated(Message::WindowClosed(id), utc);
            &&& effect == EffectView::Nothing
            &&& after == AudioFriendView {
                settings_window: after.settings_window,
                settings_error: after.settings_error,
                activity_window: after.activity_window,
                clips_window: after.clips_window,
                ..state
            }
            &&& state.settings_window == Some(id) ==> after.settings_window is None
                && after.settings_error is None
            &&& state.settings_window != Some(id) ==> after.settings_window
                == state.settings_window && after.settings_error == state.settings_error
            &&& state.activity_window == Some(id) ==> after.activity_window is None
            &&& state.activity_window != Some(id) ==> after.activity_window
                == state.activity_window
            &&& state.clips_window == Some(id) ==> after.clips_window is None
            &&& state.clips_window != Some(id) ==> after.clips_window == state.clips_window
        }),
{
}

/// Changing a device or a threshold changes that setting to the value that was chosen, and
/// nothing else.
pub proof fn a_chosen_value_is_set(
    state: AudioFriendView,
    device: DeviceOption,
    level: Level,
    utc: Timestamp,
)
    ensures
        state.updated(Message::InputDeviceChanged(device), utc) == (
            AudioFriendView {
                config: AppConfigView { input_device: device.raw_name@, ..state.config },
                ..state
            },
            EffectView::Nothing,
        ),
        state.updated(Message::OutputDeviceChanged(device), utc) == (
            AudioFriendView {
                config: AppConfigView { output_device: device.raw_name@, ..state.config },
                ..state
            },
            EffectView::Nothing,
        ),
        state.updated(Message::InputThresholdChanged(level), utc) == (
            AudioFriendView {
                config: AppConfigView { input_threshold: level, ..state.config },
                ..state
            },
            EffectView::Nothing,
        ),
        state.updated(Message::OutputThresholdChanged(level), utc) == (
            AudioFriendView {
                config: AppConfigView { output_threshold: level, ..state.config },
                ..state
            },
            EffectView::Nothing,
        ),
{
}

/// Typing into a field of the settings changes that setting to what was typed, and nothing
/// else.
pub proof fn a_typed_value_is_set(state: AudioFriendView, text: String, utc: Timestamp)
    ensures
        state.updated(Message::RingSecondsChanged(text), utc) == (
            AudioFriendView {
                config: AppConfigView { ring_buffer_secs: text@, ..state.config },
                ..state
            },
            EffectView::Nothing,
        ),
        state.updated(Message::KeepaliveSecondsChanged(text), utc) == (
            AudioFriendView {
                config: AppConfigView { keepalive_secs: text@, ..state.config },
                ..state
            },
            EffectView::Nothing,
        ),
        state.updated(Message::S3UrlChanged(text), utc) == (
            AudioFriendView {
                config: AppConfigView {
                    s3: S3ConfigView { endpoint_url: text@, ..state.config.s3 },
                    ..state.config
                },
                ..state
            },
            EffectView::Nothing,
        ),
        state.updated(Message::S3BucketChanged(text), utc) == (
            AudioFriendView {
                config: AppConfigView {
                    s3: S3ConfigView { bucket: text@, ..state.config.s3 },
                    ..state.config
                },
                ..state
            },
            EffectView::Nothing,
        ),
        state.updated(Message::S3AccessKeyChanged(text), utc) == (
            AudioFriendView {
                config: AppConfigView {
                    s3: S3ConfigView { access_key: text@, ..state.config.s3 },
                    ..state.config
                },
                ..state
            },
            EffectView::Nothing,
        ),
        state.updated(Message::S3SecretKeyChanged(text), utc) == (
            AudioFriendView {
                config: AppConfigView {
                    s3: S3ConfigView { secret_key: text@, ..state.config.s3 },
                    ..state.config
                },
                ..state
            },
            EffectView::Nothing,
        ),
{
}

/// Saving valid settings forgets an old problem. Once they are saved, that is shown and noted,
/// the engine takes them and the settings' window is closed; where they could not be saved,
/// that is shown and the engine keeps its own.
pub proof fn saving_settings_ends_in_one_of_two_ways(
    state: AudioFriendView,
    error: String,
    utc: Timestamp,
)
    ensures
        settings_problem(state.config) is None ==> state.updated(Message::SaveSettings, utc) == (
            AudioFriendView { settings_error: None, ..state },
            EffectView::SaveConfig(state.config),
        ),
        state.updated(Message::SettingsSaved(Err(error)), utc) == (
            AudioFriendView {
                status: "Config save failed: "@ + error@,
                settings_error: Some("Save failed: "@ + error@),
                ..state
            },
            EffectView::Nothing,
        ),
        ({
            let (after, effect) = state.updated(Message::SettingsSaved(Ok(())), utc);
            &&& after == AudioFriendView {
                status: "Settings saved"@,
                log: noted(state.log, "Settings saved"@, utc),
                audio: state.audio.configured(state.config),
                settings_window: None,
                settings_error: if state.settings_window is Some {
                    None
                } else {
                    state.settings_error
                },
                ..state
            }
            &&& state.settings_window matches Some(id) ==> effect == EffectView::CloseWindow(id)
            &&& state.settings_window is None ==> effect == EffectView::Nothing
        }),
{
}

/// The settings that the user sees change only by choosing or typing, and the clips that are
/// shown only by a new listing.
pub proof fn settings_and_clips_change_on_demand(
    state: AudioFriendView,
    message: Message,
    utc: Timestamp,
)
    ensures
        !(message is InputDeviceChanged || message is OutputDeviceChanged || message is
            InputThresholdChanged || message is OutputThresholdChanged || message is
            RingSecondsChanged || message is KeepaliveSecondsChanged || message is S3UrlChanged
            || message is S3BucketChanged || message is S3AccessKeyChanged || message is
            S3SecretKeyChanged) ==> state.updated(message, utc).0.config == state.config,
        !(message is ClipsLoaded) ==> state.updated(message, utc).0.clips == state.clips,
        !(message is ToggleEnabled || message is StartFinished) ==> state.updated(
            message,
            utc,
        ).0.enabled == state.enabled,
        state.updated(message, utc).0.main_window == state.main_window,
{
}

/// A window shows the page for which it was opened, under that page's title; any other window
/// shows the main page.
pub proof fn a_window_shows_its_page(state: AudioFriendView, id: u64)
    ensures
        state.settings_window == Some(id) ==> state.page(id) is Settings,
        state.settings_window != Some(id) && state.activity_window == Some(id) ==> state.page(
            id,
        ) is Activity,
        state.settings_window != Some(id) && state.activity_window != Some(id)
            && state.clips_window == Some(id) ==> state.page(id) is Clips,
        state.settings_window != Some(id) && state.activity_window != Some(id)
            && state.clips_window != Some(id) ==> state.page(id) is Main,
        page_title(Page::Settings) == "Audio Friend Settings"@,
        page_title(Page::Activity) == "Audio Friend Activity"@,
        page_title(Page::Clips) == "Audio Friend Clips"@,
        page_title(Page::Main) == "Audio Friend"@,
{
}

/// Every message is taken, but for a tick that does not report on the uploads that run or
/// that ends a clip too large for a file.
pub proof fn messages_are_taken(state: AudioFriendView, message: Message)
    ensures
        !(message is Tick) ==> state.accepts(message),
        message matches Message::Tick { uploads, now } ==> (state.accepts(message) <==> uploads@.len()
            == state.audio.pending && uploads@.len() < usize::MAX && (state.audio.stopping
            ==> state.audio.detector.can_tick(now))),
{
}

} // verus!
