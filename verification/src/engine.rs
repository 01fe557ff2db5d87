//! The audio engine: it starts and stops listening, feeds the detector and looks after
//! the uploads. What only the outside can do it asks for, and is told how it went.

use std::collections::VecDeque;
use vstd::prelude::*;

use crate::clips::{optional_clip, ClipInfo, UploadOutcome, UploadOutcomeView};
use crate::config::{optional_text, AppConfig, AppConfigView, S3Config, S3ConfigView};
use crate::detector::{
    drain_texts, texts, Detector, DetectorView, FinishedClip, FinishedClipView,
};
use crate::devices::{name_views, resolve_input_device, resolved_device};
use crate::level::Level;
use crate::text::{decimal, decimal_text};
use crate::time::{tenths, tenths_text, Timestamp};

verus! {

/// How samples come from a device.
#[derive(Clone, Copy, Debug, PartialEq, Eq, Structural)]
pub enum SampleFormat {
    F32,
    I16,
    U16,
    Other,
}

/// What happens on the way to a running stream.
#[derive(Debug)]
pub enum StartEvent {
    /// Listening is to start.
    Requested,
    /// The input devices, each with its name where it has one.
    DevicesListed(Result<Vec<Option<String>>, String>),
    /// The chosen device's format and samples per second.
    ConfigQueried(Result<(SampleFormat, u32), String>),
    /// The stream was built and plays.
    StreamPlaying(Result<(), String>),
}

/// What is to be done next on the way to a running stream.
#[derive(Debug)]
pub enum StartAction {
    /// Nothing: listening runs, or it cannot start.
    Done(Result<(), String>),
    /// List the input devices.
    ListDevices,
    /// Ask the device at this position for its format.
    QueryConfig(usize),
    /// Build a stream of this format and play it.
    BuildStream(SampleFormat),
}

/// What a `StartAction` holds.
#[verifier::ext_equal]
pub enum StartActionView {
    Done(Result<(), Seq<char>>),
    ListDevices,
    QueryConfig(int),
    BuildStream(SampleFormat),
}

/// What the result of an operation holds, its error as text.
pub open spec fn unit_result(result: Result<(), String>) -> Result<(), Seq<char>> {
    match result {
        Ok(u) => Ok(u),
        Err(e) => Err(e@),
    }
}

impl View for StartAction {
    type V = StartActionView;

    open spec fn view(&self) -> StartActionView {
        match *self {
            StartAction::Done(r) => StartActionView::Done(unit_result(r)),
            StartAction::ListDevices => StartActionView::ListDevices,
            StartAction::QueryConfig(i) => StartActionView::QueryConfig(i as int),
            StartAction::BuildStream(f) => StartActionView::BuildStream(f),
        }
    }
}

/// How an upload is doing.
#[derive(Debug)]
pub enum UploadPoll {
    Running,
    Done(UploadOutcome),
    Failed(String),
}

/// A clip that is to be uploaded, and where to.
#[derive(Debug)]
pub struct UploadJob {
    pub config: S3Config,
    pub clip: FinishedClip,
}

/// What an `UploadJob` holds.
#[verifier::ext_equal]
pub struct UploadJobView {
    pub config: S3ConfigView,
    pub clip: FinishedClipView,
}

impl View for UploadJob {
    type V = UploadJobView;

    open spec fn view(&self) -> UploadJobView {
        UploadJobView { config: self.config@, clip: self.clip@ }
    }
}

/// What the result of looking after the uploads holds.
pub open spec fn poll_result(
    result: Result<Option<UploadJob>, String>,
) -> Result<Option<UploadJobView>, Seq<char>> {
    match result {
        Ok(Some(job)) => Ok(Some(job@)),
        Ok(None) => Ok(None),
        Err(e) => Err(e@),
    }
}

/// The audio engine.
#[derive(Debug)]
pub struct AudioEngine {
    config: AppConfig,
    streaming: bool,
    feeding: bool,
    amplitude: Level,
    detector: Detector,
    pending_uploads: usize,
    last_status: Option<String>,
    activity_events: VecDeque<String>,
    stopping: bool,
}

/// What an `AudioEngine` holds.
#[verifier::ext_equal]
pub struct EngineView {
    pub config: AppConfigView,
    /// A stream runs.
    pub streaming: bool,
    /// A stream was built, and its samples reach the detector.
    pub feeding: bool,
    /// The level heard last.
    pub amplitude: Level,
    pub detector: DetectorView,
    /// How many uploads run.
    pub pending: nat,
    /// The status to be shown next.
    pub status: Option<Seq<char>>,
    /// What happened and was not taken yet.
    pub events: Seq<Seq<char>>,
    /// Listening was stopped and the last clip is still on its way.
    pub stopping: bool,
}

impl View for AudioEngine {
    type V = EngineView;

    closed spec fn view(&self) -> EngineView {
        EngineView {
            config: self.config@,
            streaming: self.streaming,
            feeding: self.feeding,
            amplitude: self.amplitude,
            detector: self.detector@,
            pending: self.pending_uploads as nat,
            status: optional_text(self.last_status),
            events: texts(self.activity_events@),
            stopping: self.stopping,
        }
    }
}

/// The event of an upload that ended.
pub open spec fn outcome_event(outcome: UploadOutcomeView) -> Seq<char> {
    match outcome {
        UploadOutcomeView::Uploaded { key, size_bytes } => "Uploaded clip: "@ + key + " ("@
            + decimal(size_bytes as nat / 1024) + " KB)"@,
        UploadOutcomeView::Skipped { size_bytes } => "Captured clip locally; upload skipped ("@
            + decimal(size_bytes as nat / 1024) + " KB)"@,
    }
}

/// The status after an upload that ended.
pub open spec fn outcome_status(outcome: UploadOutcomeView) -> Seq<char> {
    match outcome {
        UploadOutcomeView::Uploaded { .. } => "Uploaded clip"@,
        UploadOutcomeView::Skipped { .. } => "Captured clip locally"@,
    }
}

/// The event of a clip that is taken from the detector.
pub open spec fn capture_event(seconds: Seq<char>, size: nat) -> Seq<char> {
    "Clip captured: "@ + seconds + "s ("@ + decimal(size / 1024) + " KB)"@
}

/// Writes the event of a clip that is taken from the detector.
pub fn capture_event_text(seconds: &str, size: usize) -> (text: String)
    ensures
        text@ == capture_event(seconds@, size as nat),
{
    let mut text = "Clip captured: ".to_owned();
    text.append(seconds);
    text.append("s (");
    text.append(decimal_text((size / 1024) as u64).as_str());
    text.append(" KB)");
    text
}

/// What is known after some of the uploads were looked at: the engine, how many of them
/// still run, and the first failure.
#[verifier::ext_equal]
pub struct Settled {
    pub engine: EngineView,
    pub running: nat,
    pub failure: Option<Seq<char>>,
}

impl EngineView {
    /// The detector is well-formed.
    pub open spec fn wf(self) -> bool {
        self.detector.wf()
    }

    /// An engine that has not started.
    pub open spec fn fresh(config: AppConfigView) -> EngineView {
        EngineView {
            config,
            streaming: false,
            feeding: false,
            amplitude: Level { bits: 0 },
            detector: DetectorView::fresh(config),
            pending: 0,
            status: None,
            events: Seq::empty(),
            stopping: false,
        }
    }

    /// New settings come with a new detector. A stream that runs feeds it from now on, at
    /// its own rate.
    pub open spec fn configured(self, config: AppConfigView) -> EngineView {
        EngineView {
            config,
            detector: if self.feeding {
                DetectorView::fresh(config).at_rate(self.detector.sample_rate)
            } else {
                DetectorView::fresh(config)
            },
            ..self
        }
    }

    /// Listening stops; the clip that is being recorded may still end.
    pub open spec fn stopped(self) -> EngineView {
        EngineView {
            streaming: false,
            feeding: false,
            stopping: true,
            events: self.events.push(
                "Monitoring stopped; waiting for keepalive to finish current clip"@,
            ),
            ..self
        }
    }

    /// What becomes of an engine on the way to a running stream, and what is next.
    pub open spec fn on_start(self, event: StartEvent) -> (EngineView, StartActionView) {
        match event {
            StartEvent::Requested => if self.streaming {
                (self, StartActionView::Done(Ok(())))
            } else {
                (self, StartActionView::ListDevices)
            },
            StartEvent::DevicesListed(Err(e)) => (self, StartActionView::Done(Err(e@))),
            StartEvent::DevicesListed(Ok(names)) => match resolved_device(
                self.config.input_device,
                name_views(names@),
            ) {
                Some(i) => (self, StartActionView::QueryConfig(i)),
                None => (
                    self,
                    StartActionView::Done(Err("configured input device not found"@)),
                ),
            },
            StartEvent::ConfigQueried(Err(e)) => (self, StartActionView::Done(Err(e@))),
            StartEvent::ConfigQueried(Ok((format, rate))) => {
                let engine = EngineView { detector: self.detector.at_rate(rate), ..self };
                if format == SampleFormat::Other {
                    (engine, StartActionView::Done(Err("unsupported sample format"@)))
                } else {
                    (
                        EngineView { feeding: true, ..engine },
                        StartActionView::BuildStream(format),
                    )
                }
            },
            StartEvent::StreamPlaying(Err(e)) => (
                EngineView { feeding: false, ..self },
                StartActionView::Done(Err(e@)),
            ),
            StartEvent::StreamPlaying(Ok(())) => (
                EngineView {
                    streaming: true,
                    feeding: true,
                    stopping: false,
                    events: self.events.push("Monitoring started"@),
                    ..self
                },
                StartActionView::Done(Ok(())),
            ),
        }
    }

    /// Whether the ring's size fits in memory at the rate that a device reports.
    pub open spec fn can_start(self, event: StartEvent) -> bool {
        match event {
            StartEvent::ConfigQueried(Ok((_, rate))) => rate as nat
                * self.detector.ring_seconds as nat <= usize::MAX,
            _ => true,
        }
    }

    /// What becomes of an engine whose stream delivers samples.
    pub open spec fn input_processed(
        self,
        samples: Seq<i16>,
        rms: Level,
        now: u64,
        utc: Timestamp,
    ) -> EngineView {
        EngineView {
            amplitude: rms,
            detector: if self.feeding {
                self.detector.processed(samples, rms, now, utc)
            } else {
                self.detector
            },
            ..self
        }
    }

    /// Whether so many samples more can be taken.
    pub open spec fn can_process_input(self, count: nat, rms: Level, now: u64) -> bool {
        self.feeding ==> self.detector.can_process(count, rms, now)
    }

    /// What the detector has to say comes first, after it has noticed the silence where
    /// listening was stopped.
    pub open spec fn gathered(self, now: u64, utc: Timestamp) -> EngineView {
        let detector = if self.stopping {
            self.detector.ticked(now, utc)
        } else {
            self.detector
        };
        EngineView {
            detector: DetectorView { events: Seq::empty(), ..detector },
            events: self.events + detector.events,
            ..self
        }
    }

    /// An upload has ended while so many before it still run.
    pub open spec fn upload_ended(self, outcome: UploadOutcomeView, running: nat) -> EngineView {
        EngineView {
            status: if self.stopping && running == 0 {
                Some("Idle"@)
            } else {
                Some(outcome_status(outcome))
            },
            events: self.events.push(outcome_event(outcome)),
            ..self
        }
    }

    /// What is known after the first `n` uploads were looked at. A failure ends it.
    pub open spec fn settled(self, polls: Seq<UploadPoll>, n: int) -> Settled
        decreases n,
    {
        if n <= 0 {
            Settled { engine: self, running: 0, failure: None }
        } else {
            let before = self.settled(polls, n - 1);
            if before.failure is Some {
                before
            } else {
                match polls[n - 1] {
                    UploadPoll::Running => Settled { running: before.running + 1, ..before },
                    UploadPoll::Done(outcome) => Settled {
                        engine: before.engine.upload_ended(outcome@, before.running),
                        ..before
                    },
                    UploadPoll::Failed(e) => Settled { failure: Some(e@), ..before },
                }
            }
        }
    }

    /// Once listening was stopped and nothing is left to do, the engine is idle.
    pub open spec fn rested(self) -> EngineView {
        if self.stopping && self.pending == 0 && self.detector.recording is None
            && self.detector.finished_clip is None {
            EngineView { stopping: false, status: Some("Idle"@), ..self }
        } else {
            self
        }
    }

    /// A completed clip is taken from the detector and given away to be uploaded.
    pub open spec fn handed_over(self) -> (EngineView, Option<UploadJobView>) {
        match self.detector.finished_clip {
            Some(clip) => {
                let captured = self.events.push(
                    capture_event(tenths(clip.duration), clip.size_bytes as nat),
                );
                let uploads = self.config.s3.uploads();
                (
                    EngineView {
                        detector: DetectorView { finished_clip: None, ..self.detector },
                        status: Some(
                            if uploads {
                                "Uploading clip"@
                            } else {
                                "Captured clip locally"@
                            },
                        ),
                        events: captured.push(
                            if uploads {
                                "Uploading clip"@
                            } else {
                                "Upload skipped; S3 not configured"@
                            },
                        ),
                        pending: self.pending + 1,
                        ..self
                    },
                    Some(UploadJobView { config: self.config.s3, clip }),
                )
            },
            None => (self, None),
        }
    }

    /// What becomes of an engine that looks after its uploads, and the clip to be uploaded
    /// next or the failure. After a failure no upload is looked after any more.
    pub open spec fn polled(
        self,
        polls: Seq<UploadPoll>,
        now: u64,
        utc: Timestamp,
    ) -> (EngineView, Result<Option<UploadJobView>, Seq<char>>) {
        let settled = self.gathered(now, utc).settled(polls, polls.len() as int);
        match settled.failure {
            Some(e) => (EngineView { pending: 0, ..settled.engine }, Err(e)),
            None => {
                let rested = EngineView { pending: settled.running, ..settled.engine }.rested();
                let (engine, job) = rested.handed_over();
                (engine, Ok(job))
            },
        }
    }

    /// Whether the uploads that are reported on are those that run, and the sound file of
    /// a clip that ends now fits in memory.
    pub open spec fn can_poll(self, count: nat, now: u64) -> bool {
        &&& count == self.pending
        &&& count < usize::MAX
        &&& self.stopping ==> self.detector.can_tick(now)
    }
}

impl AudioEngine {
    /// An engine with the given settings.
    pub fn new(config: AppConfig) -> (engine: Self)
        ensures
            engine@ == EngineView::fresh(config@),
            engine@.wf(),
    {
        let detector = Detector::new(&config);
        let engine = AudioEngine {
            config,
            streaming: false,
            feeding: false,
            amplitude: Level { bits: 0 },
            detector,
            pending_uploads: 0,
            last_status: None,
            activity_events: VecDeque::new(),
            stopping: false,
        };
        assert(engine@ =~= EngineView::fresh(config@));
        engine
    }

    /// Takes new settings.
    pub fn apply_config(&mut self, config: AppConfig)
        ensures
            final(self)@ == old(self)@.configured(config@),
            final(self)@.wf(),
    {
        self.detector = if self.feeding {
            Detector::at_sample_rate(&config, self.detector.samples_per_second())
        } else {
            Detector::new(&config)
        };
        self.config = config;
        assert(self@ =~= old(self)@.configured(config@));
    }

    /// Whether the ring's size fits in memory at the rate that a device reports.
    pub fn accepts_start(&self, event: &StartEvent) -> (yes: bool)
        ensures
            yes == self@.can_start(*event),
    {
        match event {
            StartEvent::ConfigQueried(Ok((_, rate))) => self.detector.accepts_rate(*rate),
            _ => true,
        }
    }

    /// Takes one step on the way to a running stream.
    pub fn start(&mut self, event: StartEvent) -> (action: StartAction)
        requires
            old(self)@.wf(),
            old(self)@.can_start(event),
        ensures
            final(self)@ == old(self)@.on_start(event).0,
            action@ == old(self)@.on_start(event).1,
            final(self)@.wf(),
    {
        match event {
            StartEvent::Requested => {
                if self.streaming {
                    StartAction::Done(Ok(()))
                } else {
                    StartAction::ListDevices
                }
            },
            StartEvent::DevicesListed(result) => match result {
                Err(e) => StartAction::Done(Err(e)),
                Ok(names) => match resolve_input_device(
                    self.config.input_device.as_str(),
                    &names,
                ) {
                    Some(i) => StartAction::QueryConfig(i),
                    None => StartAction::Done(
                        Err("configured input device not found".to_owned()),
                    ),
                },
            },
            StartEvent::ConfigQueried(result) => match result {
                Err(e) => StartAction::Done(Err(e)),
                Ok((format, rate)) => {
                    self.detector.set_sample_rate(rate);
                    if format == SampleFormat::Other {
                        StartAction::Done(Err("unsupported sample format".to_owned()))
                    } else {
                        self.feeding = true;
                        StartAction::BuildStream(format)
                    }
                },
            },
            StartEvent::StreamPlaying(result) => match result {
                Err(e) => {
                    self.feeding = false;
                    StartAction::Done(Err(e))
                },
                Ok(()) => {
                    self.streaming = true;
                    self.feeding = true;
                    self.stopping = false;
                    self.activity_events.push_back("Monitoring started".to_owned());
                    assert(self@ =~= old(self)@.on_start(event).0);
                    StartAction::Done(Ok(()))
                },
            },
        }
    }

    /// Stops listening.
    pub fn stop(&mut self)
        ensures
            final(self)@ == old(self)@.stopped(),
            old(self)@.wf() ==> final(self)@.wf(),
    {
        self.streaming = false;
        self.feeding = false;
        self.stopping = true;
        self.activity_events.push_back(
            "Monitoring stopped; waiting for keepalive to finish current clip".to_owned(),
        );
        assert(self@ =~= old(self)@.stopped());
    }

    /// The level heard last.
    pub fn current_amplitude(&self) -> (amplitude: Level)
        ensures
            amplitude == self@.amplitude,
    {
        self.amplitude
    }

    /// Takes the status to be shown next.
    pub fn status_text(&mut self) -> (status: Option<String>)
        ensures
            optional_text(status) == old(self)@.status,
            final(self)@ == (EngineView { status: None, ..old(self)@ }),
    {
        self.last_status.take()
    }

    /// Takes what happened, the oldest first.
    pub fn take_activity_events(&mut self) -> (events: Vec<String>)
        ensures
            texts(events@) == old(self)@.events,
            final(self)@ == (EngineView { events: Seq::empty(), ..old(self)@ }),
    {
        let events = drain_texts(&mut self.activity_events);
        assert(texts(self.activity_events@) =~= Seq::empty());
        assert(self@ =~= (EngineView { events: Seq::empty(), ..old(self)@ }));
        events
    }

    /// What is shown of the clip in memory, if there is one.
    pub fn clip_snapshot(&self, now: u64, utc: Timestamp) -> (clip: Option<ClipInfo>)
        ensures
            optional_clip(clip) == self@.detector.snapshot(now, utc),
    {
        self.detector.clip_snapshot(now, utc)
    }

    /// Whether uploads run.
    pub fn has_pending_uploads(&self) -> (yes: bool)
        ensures
            yes == (self@.pending > 0),
    {
        self.pending_uploads > 0
    }

    /// Whether so many samples more can be taken.
    pub fn accepts_input(&self, count: usize, rms: Level, now: u64) -> (yes: bool)
        ensures
            yes == self@.can_process_input(count as nat, rms, now),
    {
        !self.feeding || self.detector.accepts_input(count, rms, now)
    }

    /// Takes samples from the stream, whose level is given, at a moment and a point in time.
    pub fn process_input_at(&mut self, samples: &[i16], rms: Level, now: u64, utc: Timestamp)
        requires
            old(self)@.wf(),
            old(self)@.can_process_input(samples@.len(), rms, now),
        ensures
            final(self)@ == old(self)@.input_processed(samples@, rms, now, utc),
            final(self)@.wf(),
    {
        self.amplitude = rms;
        if self.feeding {
            self.detector.process_at(samples, rms, now, utc);
        }
    }

    /// Takes samples from the stream, whose level is given, at a moment; the clock says when
    /// a clip that they complete was captured.
    pub fn process_input(&mut self, samples: &[i16], rms: Level, now: u64)
        requires
            old(self)@.wf(),
            old(self)@.can_process_input(samples@.len(), rms, now),
        ensures
            exists|utc: Timestamp|
                final(self)@ == #[trigger] old(self)@.input_processed(samples@, rms, now, utc),
            final(self)@.wf(),
    {
        self.process_input_at(samples, rms, now, Timestamp::now())
    }

    /// Whether so many uploads run, and the sound file of a clip that ends now fits in memory.
    pub fn accepts_polls(&self, count: usize, now: u64) -> (yes: bool)
        ensures
            yes == self@.can_poll(count as nat, now),
    {
        count == self.pending_uploads && count < usize::MAX && (!self.stopping
            || self.detector.accepts_tick(now))
    }

    /// Takes the outcome of an upload while so many before it still run.
    fn end_upload(&mut self, outcome: &UploadOutcome, running: usize)
        ensures
            final(self)@ == old(self)@.upload_ended(outcome@, running as nat),
    {
        let mut event: String;
        let size: u64;
        match outcome {
            UploadOutcome::Uploaded { key, size_bytes } => {
                self.last_status = Some("Uploaded clip".to_owned());
                event = "Uploaded clip: ".to_owned();
                event.append(key.as_str());
                event.append(" (");
                size = (*size_bytes / 1024) as u64;
            },
            UploadOutcome::Skipped { size_bytes } => {
                self.last_status = Some("Captured clip locally".to_owned());
                event = "Captured clip locally; upload skipped (".to_owned();
                size = (*size_bytes / 1024) as u64;
            },
        }
        event.append(decimal_text(size).as_str());
        event.append(" KB)");
        assert(event@ == outcome_event(outcome@));
        self.activity_events.push_back(event);
        if self.stopping && running == 0 {
            self.last_status = Some("Idle".to_owned());
        }
        assert(self@ =~= old(self)@.upload_ended(outcome@, running as nat));
    }

    /// Takes over what the detector has to say.
    fn gather(&mut self, now: u64, utc: Timestamp)
        requires
            old(self)@.wf(),
            old(self)@.stopping ==> old(self)@.detector.can_tick(now),
        ensures
            final(self)@ == old(self)@.gathered(now, utc),
            final(self)@.wf(),
    {
        if self.stopping {
            self.detector.process_silence_tick(now, utc);
        }
        let ghost before = texts(self.activity_events@);
        let ghost detector = self.detector@;
        let events = self.detector.take_activity_events();
        let ghost rest = self@;
        assert(texts(events@.take(0)) =~= Seq::empty());
        for i in 0..events.len()
            invariant
                texts(events@) == detector.events,
                self@ == (EngineView { events: before + texts(events@.take(i as int)), ..rest }),
        {
            let ghost queue = self.activity_events@;
            self.activity_events.push_back(events[i].clone());
            assert(texts(self.activity_events@) =~= texts(queue).push(events@[i as int]@));
            assert(texts(events@.take(i + 1)) =~= texts(events@.take(i as int)).push(
                events@[i as int]@,
            ));
            assert(self@ =~= (EngineView { events: before + texts(events@.take(i + 1)), ..rest }));
        }
        assert(events@.take(events@.len() as int) =~= events@);
        assert(self@ =~= old(self)@.gathered(now, utc));
    }

    /// Gives away the clip that the detector has completed, if there is one.
    fn hand_over(&mut self) -> (job: Option<UploadJob>)
        requires
            old(self)@.wf(),
            old(self)@.pending < usize::MAX,
        ensures
            final(self)@ == old(self)@.handed_over().0,
            job is Some == old(self)@.handed_over().1 is Some,
            job matches Some(j) ==> Some(j@) == old(self)@.handed_over().1,
            final(self)@.wf(),
    {
        match self.detector.take_finished_clip() {
            Some(clip) => {
                let seconds = tenths_text(clip.duration);
                self.activity_events.push_back(
                    capture_event_text(seconds.as_str(), clip.size_bytes),
                );
                if self.config.s3.uploads_enabled() {
                    self.last_status = Some("Uploading clip".to_owned());
                    self.activity_events.push_back("Uploading clip".to_owned());
                } else {
                    self.last_status = Some("Captured clip locally".to_owned());
                    self.activity_events.push_back("Upload skipped; S3 not configured".to_owned());
                }
                self.pending_uploads = self.pending_uploads + 1;
                assert(self@ =~= old(self)@.handed_over().0);
                Some(UploadJob { config: self.config.s3.clone(), clip })
            },
            None => {
                assert(self@ =~= old(self)@);
                None
            },
        }
    }

    /// Looks after the uploads, each of which is reported on, in the order in which they
    /// started, and gives away the next clip to be uploaded.
    pub fn poll_uploads(
        &mut self,
        polls: &Vec<UploadPoll>,
        now: u64,
        utc: Timestamp,
    ) -> (result: Result<Option<UploadJob>, String>)
        requires
            old(self)@.wf(),
            old(self)@.can_poll(polls@.len(), now),
        ensures
            final(self)@ == old(self)@.polled(polls@, now, utc).0,
            poll_result(result) == old(self)@.polled(polls@, now, utc).1,
            final(self)@.wf(),
    {
        self.gather(now, utc);
        let ghost gathered = self@;
        let mut running: usize = 0;
        for i in 0..polls.len()
            invariant
                gathered == old(self)@.gathered(now, utc),
                gathered.wf(),
                gathered.settled(polls@, i as int) == (Settled {
                    engine: self@,
                    running: running as nat,
                    failure: None,
                }),
                running <= i,
                self@.detector == gathered.detector,
        {
            match &polls[i] {
                UploadPoll::Running => {
                    running = running + 1;
                },
                UploadPoll::Done(outcome) => {
                    self.end_upload(outcome, running);
                },
                UploadPoll::Failed(e) => {
                    self.pending_uploads = 0;
                    proof {
                        lemma_first_failure(gathered, polls@, i as int + 1, polls@.len() as int);
                        let last = gathered.settled(polls@, polls@.len() as int);
                        assert(self@ =~= (EngineView { pending: 0, ..last.engine }));
                    }
                    return Err(e.clone());
                },
            }
        }
        let ghost settled = self@;
        self.pending_uploads = running;
        assert(self@ =~= (EngineView { pending: running as nat, ..settled }));
        if self.stopping && self.pending_uploads == 0 && !self.detector.has_clip() {
            self.stopping = false;
            self.last_status = Some("Idle".to_owned());
        }
        assert(self@ =~= (EngineView { pending: running as nat, ..settled }).rested());
        Ok(self.hand_over())
    }
}

/// Whether one of the uploads has failed.
pub open spec fn any_failed(polls: Seq<UploadPoll>) -> bool {
    exists|i: int| 0 <= i < polls.len() && #[trigger] polls[i] is Failed
}

/// Which of the uploads that are reported on are still to be looked after: those that run,
/// or none of them where one has failed.
pub fn kept_uploads(polls: &Vec<UploadPoll>) -> (kept: Vec<bool>)
    ensures
        kept@.len() == polls@.len(),
        forall|i: int|
            0 <= i < polls@.len() ==> (#[trigger] kept@[i] <==> !any_failed(polls@)
                && polls@[i] is Running),
{
    let mut failed = false;
    for i in 0..polls.len()
        invariant
            failed ==> any_failed(polls@),
            !failed ==> forall|k: int| 0 <= k < i ==> !(#[trigger] polls@[k] is Failed),
    {
        if let UploadPoll::Failed(_) = &polls[i] {
            assert(polls@[i as int] is Failed);
            failed = true;
        }
    }
    let mut kept: Vec<bool> = Vec::new();
    for i in 0..polls.len()
        invariant
            failed == any_failed(polls@),
            kept@.len() == i,
            forall|k: int|
                0 <= k < i ==> (#[trigger] kept@[k] <==> !any_failed(polls@)
                    && polls@[k] is Running),
    {
        let running = match &polls[i] {
            UploadPoll::Running => true,
            _ => false,
        };
        kept.push(!failed && running);
    }
    kept
}

/// Once an upload has failed, the uploads behind it change nothing.
proof fn lemma_first_failure(engine: EngineView, polls: Seq<UploadPoll>, n: int, m: int)
    requires
        n <= m,
        engine.settled(polls, n).failure is Some,
    ensures
        engine.settled(polls, m) == engine.settled(polls, n),
    decreases m - n,
{
    if n < m {
        lemma_first_failure(engine, polls, n, m - 1);
    }
}

// ---------------------------------------------------------------------------
// Laws
// ---------------------------------------------------------------------------

/// How many of the first `n` uploads run.
pub open spec fn running_uploads(polls: Seq<UploadPoll>, n: int) -> nat
    decreases n,
{
    if n <= 0 {
        0
    } else if polls[n - 1] is Running {
        running_uploads(polls, n - 1) + 1
    } else {
        running_uploads(polls, n - 1)
    }
}

/// Looking at the uploads changes the status and the events alone, adds to the events only,
/// fails where one of the uploads has failed and counts those that run.
pub proof fn lemma_settled(engine: EngineView, polls: Seq<UploadPoll>, n: int)
    requires
        0 <= n <= polls.len(),
    ensures
        ({
            let s = engine.settled(polls, n);
            &&& s.engine == EngineView {
                status: s.engine.status,
                events: s.engine.events,
                ..engine
            }
            &&& engine.events.is_prefix_of(s.engine.events)
            &&& s.failure is Some <==> exists|i: int|
                0 <= i < n && #[trigger] polls[i] is Failed
            &&& s.failure is None ==> s.running == running_uploads(polls, n)
        }),
    decreases n,
{
    if n > 0 {
        lemma_settled(engine, polls, n - 1);
        let before = engine.settled(polls, n - 1);
        let s = engine.settled(polls, n);
        if before.failure is Some {
            let i = choose|i: int| 0 <= i < n - 1 && #[trigger] polls[i] is Failed;
            assert(0 <= i < n && polls[i] is Failed);
        } else {
            assert(polls[n - 1] is Failed ==> s.failure is Some);
        }
    }
}

/// Looking after the uploads fails exactly where one of them has failed, and then none of
/// them is looked after any more. Otherwise those that run are, and the clip that is given
/// away to be uploaded.
pub proof fn uploads_are_looked_after(
    engine: EngineView,
    polls: Seq<UploadPoll>,
    now: u64,
    utc: Timestamp,
)
    ensures
        ({
            let (after, result) = engine.polled(polls, now, utc);
            &&& result is Err <==> any_failed(polls)
            &&& result is Err ==> after.pending == 0
            &&& result matches Ok(job) ==> after.pending == running_uploads(
                polls,
                polls.len() as int,
            ) + (if job is Some {
                1nat
            } else {
                0nat
            })
        }),
{
    lemma_settled(engine.gathered(now, utc), polls, polls.len() as int);
}

/// The clip that the detector holds completed is given away to be uploaded, once, with the
/// bucket that the settings name. A failed upload does not lose it: it is given away later.
pub proof fn every_clip_is_handed_over_once(
    engine: EngineView,
    polls: Seq<UploadPoll>,
    now: u64,
    utc: Timestamp,
)
    ensures
        ({
            let clip = engine.gathered(now, utc).detector.finished_clip;
            let (after, result) = engine.polled(polls, now, utc);
            &&& result matches Ok(job) ==> {
                &&& after.detector.finished_clip is None
                &&& clip matches Some(c) ==> job == Some(
                    UploadJobView { config: engine.config.s3, clip: c },
                )
                &&& clip is None ==> job is None
            }
            &&& result is Err ==> after.detector.finished_clip == clip
        }),
{
    lemma_settled(engine.gathered(now, utc), polls, polls.len() as int);
}

/// No event is lost: what the engine had to say comes first, then what the detector had to
/// say, then what is new; the detector has nothing more to say.
pub proof fn events_are_passed_on(
    engine: EngineView,
    polls: Seq<UploadPoll>,
    now: u64,
    utc: Timestamp,
)
    ensures
        (engine.events + engine.detector.events).is_prefix_of(
            engine.polled(polls, now, utc).0.events,
        ),
        engine.polled(polls, now, utc).0.detector.events.len() == 0,
{
    let gathered = engine.gathered(now, utc);
    lemma_settled(gathered, polls, polls.len() as int);
    let settled = gathered.settled(polls, polls.len() as int).engine;
    let after = engine.polled(polls, now, utc).0;
    let said = engine.events + engine.detector.events;
    assert(said.is_prefix_of(gathered.events)) by {
        let detector = if engine.stopping {
            engine.detector.ticked(now, utc)
        } else {
            engine.detector
        };
        assert(engine.detector.events =~= detector.events.take(
            engine.detector.events.len() as int,
        ));
        assert(said =~= gathered.events.take(said.len() as int));
    }
    assert(settled.events.is_prefix_of(after.events)) by {
        assert(settled.events =~= after.events.take(settled.events.len() as int));
    }
    assert(said =~= after.events.take(said.len() as int));
}

/// After listening has stopped, the clip that was being recorded ends once it has been
/// silent long enough, with all that was recorded, and is given away to be uploaded.
pub proof fn stopping_waits_for_the_clip(
    engine: EngineView,
    polls: Seq<UploadPoll>,
    now: u64,
    utc: Timestamp,
)
    requires
        engine.stopping,
        engine.detector.recording is Some,
        !any_failed(polls),
    ensures
        ({
            let rec = engine.detector.recording->0;
            let (after, result) = engine.polled(polls, now, utc);
            if engine.detector.is_over(now) {
                &&& after.detector.recording is None
                &&& result is Ok
                &&& result->Ok_0 is Some
                &&& result->Ok_0->0.clip.bytes == crate::wav::wav_file(
                    rec.data,
                    engine.detector.sample_rate,
                )
            } else {
                &&& after.detector.recording == Some(rec)
                &&& after.stopping
            }
        }),
{
    lemma_settled(engine.gathered(now, utc), polls, polls.len() as int);
}

/// After listening has stopped, the engine is idle as soon as there is neither a clip nor an
/// upload left, and says so.
pub proof fn stopping_ends_in_idleness(
    engine: EngineView,
    polls: Seq<UploadPoll>,
    now: u64,
    utc: Timestamp,
)
    requires
        engine.stopping,
        engine.detector.recording is None,
        engine.detector.finished_clip is None,
        !any_failed(polls),
        running_uploads(polls, polls.len() as int) == 0,
    ensures
        !engine.polled(polls, now, utc).0.stopping,
        engine.polled(polls, now, utc).0.status == Some("Idle"@),
        engine.polled(polls, now, utc).1 == Ok::<Option<UploadJobView>, Seq<char>>(None),
{
    lemma_settled(engine.gathered(now, utc), polls, polls.len() as int);
}

/// While listening, time alone ends no clip.
pub proof fn time_alone_ends_no_clip(
    engine: EngineView,
    polls: Seq<UploadPoll>,
    now: u64,
    utc: Timestamp,
)
    requires
        !engine.stopping,
    ensures
        engine.polled(polls, now, utc).0.detector.recording == engine.detector.recording,
        engine.polled(polls, now, utc).0.detector.ring == engine.detector.ring,
{
    lemma_settled(engine.gathered(now, utc), polls, polls.len() as int);
}

/// Starting to listen twice changes nothing the second time.
pub proof fn a_running_stream_is_left_alone(engine: EngineView)
    requires
        engine.streaming,
    ensures
        engine.on_start(StartEvent::Requested) == (engine, StartActionView::Done(Ok(()))),
{
}

/// A stream feeds the detector from when it is built until it is stopped or turns out not
/// to play, whether the settings change or not; samples that do not reach the detector
/// change the level alone.
pub proof fn a_stream_feeds_the_detector(
    engine: EngineView,
    config: AppConfigView,
    format: SampleFormat,
    rate: u32,
    error: String,
    samples: Seq<i16>,
    rms: Level,
    now: u64,
    utc: Timestamp,
)
    ensures
        engine.on_start(StartEvent::ConfigQueried(Ok((format, rate)))).1 is BuildStream
            ==> engine.on_start(StartEvent::ConfigQueried(Ok((format, rate)))).0.feeding,
        engine.on_start(StartEvent::StreamPlaying(Ok(()))).0.feeding,
        !engine.on_start(StartEvent::StreamPlaying(Err(error))).0.feeding,
        !engine.stopped().feeding,
        engine.configured(config).feeding == engine.feeding,
        engine.input_processed(samples, rms, now, utc).amplitude == rms,
        engine.feeding ==> engine.input_processed(samples, rms, now, utc).detector
            == engine.detector.processed(samples, rms, now, utc),
        !engine.feeding ==> engine.input_processed(samples, rms, now, utc) == (EngineView {
            amplitude: rms,
            ..engine
        }),
{
}

/// New settings hold for a stream that runs: it goes on at its rate, and the first sound
/// that reaches the new threshold starts a clip.
pub proof fn new_settings_hold_at_once(
    engine: EngineView,
    config: AppConfigView,
    samples: Seq<i16>,
    rms: Level,
    now: u64,
    utc: Timestamp,
)
    requires
        engine.feeding,
    ensures
        ({
            let changed = engine.configured(config);
            let after = changed.input_processed(samples, rms, now, utc);
            &&& changed.streaming == engine.streaming
            &&& changed.detector.sample_rate == engine.detector.sample_rate
            &&& changed.detector.threshold == config.input_threshold
            &&& after.detector.recording is Some <==> rms.at_least(config.input_threshold)
        }),
{
}

/// Every upload that ended is told of with where it went and its size in kilobytes, and the
/// status says whether it was uploaded.
pub proof fn an_ended_upload_is_told_of_so(key: Seq<char>, size: usize)
    ensures
        ({
            let done = UploadOutcomeView::Uploaded { key, size_bytes: size };
            &&& outcome_event(done) == "Uploaded clip: "@ + key + " ("@ + decimal(
                size as nat / 1024,
            ) + " KB)"@
            &&& outcome_status(done) == "Uploaded clip"@
        }),
        ({
            let skipped = UploadOutcomeView::Skipped { size_bytes: size };
            &&& outcome_event(skipped) == "Captured clip locally; upload skipped ("@ + decimal(
                size as nat / 1024,
            ) + " KB)"@
            &&& outcome_status(skipped) == "Captured clip locally"@
        }),
        capture_event(key, size as nat) == "Clip captured: "@ + key + "s ("@ + decimal(
            size as nat / 1024,
        ) + " KB)"@,
{
}

/// The events of the uploads that have ended, in the order of the uploads, one for each.
pub open spec fn ended_events(polls: Seq<UploadPoll>) -> Seq<Seq<char>> {
    polls.filter(|p: UploadPoll| p is Done).map_values(
        |p: UploadPoll| outcome_event(p->Done_0@),
    )
}

proof fn lemma_ended_events(polls: Seq<UploadPoll>)
    requires
        polls.len() > 0,
    ensures
        ended_events(polls) == (match polls.last() {
            UploadPoll::Done(outcome) => ended_events(polls.drop_last()).push(
                outcome_event(outcome@),
            ),
            _ => ended_events(polls.drop_last()),
        }),
{
    reveal(Seq::filter);
    let pred = |p: UploadPoll| p is Done;
    let text = |p: UploadPoll| outcome_event(p->Done_0@);
    let before = polls.drop_last().filter(pred);
    assert(polls.filter(pred) == if pred(polls.last()) {
        before.push(polls.last())
    } else {
        before
    });
    if polls.last() is Done {
        assert(before.push(polls.last()).map_values(text) =~= before.map_values(text).push(
            text(polls.last()),
        ));
    }
}

proof fn lemma_settled_events(engine: EngineView, polls: Seq<UploadPoll>, n: int)
    requires
        0 <= n <= polls.len(),
        forall|i: int| 0 <= i < n ==> !(#[trigger] polls[i] is Failed),
    ensures
        engine.settled(polls, n).failure is None,
        engine.settled(polls, n).engine.events == engine.events + ended_events(polls.take(n)),
    decreases n,
{
    lemma_settled(engine, polls, n);
    if n == 0 {
        reveal(Seq::filter);
        assert(ended_events(polls.take(0)) =~= Seq::empty());
        assert(engine.events + Seq::<Seq<char>>::empty() =~= engine.events);
    } else {
        lemma_settled_events(engine, polls, n - 1);
        lemma_ended_events(polls.take(n));
        assert(polls.take(n).drop_last() =~= polls.take(n - 1));
        assert(polls.take(n).last() == polls[n - 1]);
        assert(!(polls[n - 1] is Failed));
        if let UploadPoll::Done(outcome) = polls[n - 1] {
            assert(engine.events + ended_events(polls.take(n - 1)).push(outcome_event(outcome@))
                =~= (engine.events + ended_events(polls.take(n - 1))).push(
                outcome_event(outcome@),
            ));
        }
    }
}

/// Where no upload has failed, what is told when the uploads are looked after is: what the
/// engine and the detector had to say, then one event for every upload that has ended, in
/// their order and however many still run, and then that the next clip was captured and is
/// uploaded or is not.
pub proof fn every_ended_upload_is_told_of(
    engine: EngineView,
    polls: Seq<UploadPoll>,
    now: u64,
    utc: Timestamp,
)
    requires
        forall|i: int| 0 <= i < polls.len() ==> !(#[trigger] polls[i] is Failed),
    ensures
        ({
            let detector = if engine.stopping {
                engine.detector.ticked(now, utc)
            } else {
                engine.detector
            };
            let captured = match detector.finished_clip {
                Some(clip) => seq![
                    capture_event(tenths(clip.duration), clip.size_bytes as nat),
                    if engine.config.s3.uploads() {
                        "Uploading clip"@
                    } else {
                        "Upload skipped; S3 not configured"@
                    },
                ],
                None => Seq::empty(),
            };
            engine.polled(polls, now, utc).0.events == engine.events + detector.events
                + ended_events(polls) + captured
        }),
        ended_events(polls).len() == polls.filter(|p: UploadPoll| p is Done).len(),
{
    let gathered = engine.gathered(now, utc);
    let n = polls.len() as int;
    lemma_settled(gathered, polls, n);
    lemma_settled_events(gathered, polls, n);
    assert(polls.take(n) =~= polls);
    let after = engine.polled(polls, now, utc).0;
    let said = gathered.events + ended_events(polls);
    if let Some(clip) = gathered.detector.finished_clip {
        let a = capture_event(tenths(clip.duration), clip.size_bytes as nat);
        let b = if engine.config.s3.uploads() {
            "Uploading clip"@
        } else {
            "Upload skipped; S3 not configured"@
        };
        assert(after.events == said.push(a).push(b));
        assert(said.push(a).push(b) =~= said + seq![a, b]);
    } else {
        assert(said + Seq::<Seq<char>>::empty() =~= said);
    }
}

/// An upload that has ended is told of, wherever it stands among those that run.
pub proof fn an_ended_upload_is_told_of(
    engine: EngineView,
    polls: Seq<UploadPoll>,
    now: u64,
    utc: Timestamp,
    i: int,
)
    requires
        0 <= i < polls.len(),
        forall|k: int| 0 <= k < polls.len() ==> !(#[trigger] polls[k] is Failed),
        polls[i] is Done,
    ensures
        engine.polled(polls, now, utc).0.events.contains(outcome_event(polls[i]->Done_0@)),
{
    every_ended_upload_is_told_of(engine, polls, now, utc);
    let pred = |p: UploadPoll| p is Done;
    let text = |p: UploadPoll| outcome_event(p->Done_0@);
    let ended = polls.filter(pred);
    assert(ended.contains(polls[i])) by {
        polls.lemma_filter_contains(pred, i);
    }
    let k = choose|k: int| 0 <= k < ended.len() && ended[k] == polls[i];
    assert(ended_events(polls)[k] == text(ended[k]));
    let detector = if engine.stopping {
        engine.detector.ticked(now, utc)
    } else {
        engine.detector
    };
    let all = engine.polled(polls, now, utc).0.events;
    assert(all[(engine.events + detector.events).len() + k] == ended_events(polls)[k]);
}

proof fn lemma_no_running(polls: Seq<UploadPoll>, n: int)
    requires
        0 <= n <= polls.len(),
    ensures
        running_uploads(polls, n) == 0 <==> forall|k: int|
            0 <= k < n ==> !(#[trigger] polls[k] is Running),
    decreases n,
{
    if n > 0 {
        lemma_no_running(polls, n - 1);
        if running_uploads(polls, n) == 0 {
            assert forall|k: int| 0 <= k < n implies !(#[trigger] polls[k] is Running) by {}
        }
    }
}

proof fn lemma_settled_status(engine: EngineView, polls: Seq<UploadPoll>, last: int, n: int)
    requires
        -1 <= last < n <= polls.len(),
        0 < n,
        forall|i: int| 0 <= i < n ==> !(#[trigger] polls[i] is Failed),
        last >= 0 ==> polls[last] is Done,
        forall|i: int| last < i < n ==> !(#[trigger] polls[i] is Done),
    ensures
        engine.settled(polls, n).engine.status == if last < 0 {
            engine.status
        } else if engine.stopping && running_uploads(polls, last) == 0 {
            Some("Idle"@)
        } else {
            Some(outcome_status(polls[last]->Done_0@))
        },
    decreases n,
{
    lemma_settled(engine, polls, n);
    lemma_settled(engine, polls, n - 1);
    assert(!(polls[n - 1] is Failed));
    if n - 1 > last {
        if n - 1 > 0 {
            lemma_settled_status(engine, polls, last, n - 1);
        }
        assert(!(polls[n - 1] is Done));
    } else {
        assert(engine.settled(polls, n - 1).failure is None);
    }
}

/// While listening, and without a new clip, the status after the uploads were looked after is
/// that of the last one that ended, however many still run; where none has ended, it stays.
pub proof fn the_last_ended_upload_sets_the_status(
    engine: EngineView,
    polls: Seq<UploadPoll>,
    now: u64,
    utc: Timestamp,
    last: int,
)
    requires
        !engine.stopping,
        engine.detector.finished_clip is None,
        -1 <= last < polls.len(),
        forall|i: int| 0 <= i < polls.len() ==> !(#[trigger] polls[i] is Failed),
        last >= 0 ==> polls[last] is Done,
        forall|i: int| last < i < polls.len() ==> !(#[trigger] polls[i] is Done),
    ensures
        last >= 0 ==> engine.polled(polls, now, utc).0.status == Some(
            outcome_status(polls[last]->Done_0@),
        ),
        last < 0 ==> engine.polled(polls, now, utc).0.status == engine.status,
{
    let n = polls.len() as int;
    let gathered = engine.gathered(now, utc);
    lemma_settled(gathered, polls, n);
    if n > 0 {
        lemma_settled_status(gathered, polls, last, n);
    }
}

/// After listening has stopped, the status is that the engine is idle where no upload runs
/// before the last one that ended; otherwise it is that of this upload. A new clip, or that
/// nothing is left to do, comes before that.
pub proof fn the_status_while_stopping(
    engine: EngineView,
    polls: Seq<UploadPoll>,
    now: u64,
    utc: Timestamp,
    last: int,
)
    requires
        engine.stopping,
        -1 <= last < polls.len(),
        forall|i: int| 0 <= i < polls.len() ==> !(#[trigger] polls[i] is Failed),
        last >= 0 ==> polls[last] is Done,
        forall|i: int| last < i < polls.len() ==> !(#[trigger] polls[i] is Done),
    ensures
        ({
            let detector = engine.detector.ticked(now, utc);
            let after = engine.polled(polls, now, utc).0;
            let none_runs = forall|k: int|
                0 <= k < polls.len() ==> !(#[trigger] polls[k] is Running);
            let none_before = forall|k: int| 0 <= k < last ==> !(#[trigger] polls[k] is Running);
            let nothing_left = none_runs && detector.recording is None
                && detector.finished_clip is None;
            &&& after.stopping == !nothing_left
            &&& detector.finished_clip is Some ==> after.status == Some(
                if engine.config.s3.uploads() {
                    "Uploading clip"@
                } else {
                    "Captured clip locally"@
                },
            )
            &&& nothing_left ==> after.status == Some("Idle"@)
            &&& detector.finished_clip is None && !nothing_left ==> after.status == if last < 0 {
                engine.status
            } else if none_before {
                Some("Idle"@)
            } else {
                Some(outcome_status(polls[last]->Done_0@))
            }
        }),
{
    let n = polls.len() as int;
    let gathered = engine.gathered(now, utc);
    lemma_settled(gathered, polls, n);
    lemma_no_running(polls, n);
    if last >= 0 {
        lemma_no_running(polls, last);
    }
    if n > 0 {
        lemma_settled_status(gathered, polls, last, n);
    }
}

/// While listening, a new clip sets the status: that it is uploaded, or that it was captured
/// only.
pub proof fn a_new_clip_sets_the_status(
    engine: EngineView,
    polls: Seq<UploadPoll>,
    now: u64,
    utc: Timestamp,
)
    requires
        engine.detector.finished_clip is Some,
        !engine.stopping,
        forall|i: int| 0 <= i < polls.len() ==> !(#[trigger] polls[i] is Failed),
    ensures
        engine.polled(polls, now, utc).0.status == Some(
            if engine.config.s3.uploads() {
                "Uploading clip"@
            } else {
                "Captured clip locally"@
            },
        ),
{
    lemma_settled(engine.gathered(now, utc), polls, polls.len() as int);
}

/// The failure that is reported is that of the first upload that failed. The uploads before
/// it that have ended are told of, those behind it are not, and no clip is given away.
pub proof fn the_first_failure_is_reported(
    engine: EngineView,
    polls: Seq<UploadPoll>,
    now: u64,
    utc: Timestamp,
    first: int,
)
    requires
        0 <= first < polls.len(),
        polls[first] is Failed,
        forall|i: int| 0 <= i < first ==> !(#[trigger] polls[i] is Failed),
    ensures
        ({
            let detector = if engine.stopping {
                engine.detector.ticked(now, utc)
            } else {
                engine.detector
            };
            let (after, result) = engine.polled(polls, now, utc);
            &&& result == Err::<Option<UploadJobView>, Seq<char>>(polls[first]->Failed_0@)
            &&& after.pending == 0
            &&& after.events == engine.events + detector.events + ended_events(
                polls.take(first),
            )
            &&& after.stopping == engine.stopping
            &&& after.detector.finished_clip == detector.finished_clip
            &&& after.detector.recording == detector.recording
        }),
{
    let gathered = engine.gathered(now, utc);
    lemma_settled_events(gathered, polls, first);
    lemma_settled(gathered, polls, first);
    assert(gathered.settled(polls, first + 1).failure == Some(polls[first]->Failed_0@));
    lemma_first_failure(gathered, polls, first + 1, polls.len() as int);
    lemma_settled(gathered, polls, polls.len() as int);
}

/// Looking after the uploads leaves the settings, the level and the stream alone, and the
/// detector but for a clip that ends or is given away and for what it had to say.
pub proof fn polling_leaves_the_rest_alone(
    engine: EngineView,
    polls: Seq<UploadPoll>,
    now: u64,
    utc: Timestamp,
)
    ensures
        ({
            let after = engine.polled(polls, now, utc).0;
            let detector = if engine.stopping {
                engine.detector.ticked(now, utc)
            } else {
                engine.detector
            };
            &&& after.config == engine.config
            &&& after.amplitude == engine.amplitude
            &&& after.streaming == engine.streaming
            &&& after.feeding == engine.feeding
            &&& !engine.stopping ==> !after.stopping
            &&& after.detector.ring == detector.ring
            &&& after.detector.recording == detector.recording
            &&& after.detector.threshold == detector.threshold
            &&& after.detector.keepalive == detector.keepalive
            &&& after.detector.max_clip_duration == detector.max_clip_duration
            &&& after.detector.sample_rate == detector.sample_rate
            &&& after.detector.ring_seconds == detector.ring_seconds
            &&& after.detector.events.len() == 0
        }),
{
    lemma_settled(engine.gathered(now, utc), polls, polls.len() as int);
}

/// One of the uploads has failed exactly where one of the reports says so, and those that
/// run are counted one by one.
pub proof fn uploads_are_counted(polls: Seq<UploadPoll>)
    ensures
        any_failed(polls) <==> exists|i: int| 0 <= i < polls.len() && #[trigger] polls[i] is Failed,
        running_uploads(polls, polls.len() as int) == polls.filter(
            |p: UploadPoll| p is Running,
        ).len(),
    decreases polls.len(),
{
    reveal(Seq::filter);
    if polls.len() > 0 {
        let before = polls.drop_last();
        uploads_are_counted(before);
        lemma_running_prefix(polls, before.len() as int);
    }
}

proof fn lemma_running_prefix(polls: Seq<UploadPoll>, n: int)
    requires
        0 <= n < polls.len(),
    ensures
        running_uploads(polls, n) == running_uploads(polls.drop_last(), n),
    decreases n,
{
    if n > 0 {
        lemma_running_prefix(polls, n - 1);
    }
}

/// A new engine does not listen, has heard nothing, uploads nothing and has nothing to say.
pub proof fn a_new_engine_is_at_rest(config: AppConfigView)
    ensures
        ({
            let engine = EngineView::fresh(config);
            &&& engine.config == config
            &&& !engine.streaming
            &&& !engine.feeding
            &&& !engine.stopping
            &&& engine.amplitude.bits == 0
            &&& engine.detector == DetectorView::fresh(config)
            &&& engine.pending == 0
            &&& engine.status is None
            &&& engine.events.len() == 0
        }),
{
}

/// Stopping ends the stream and says so; the clip that is being recorded, the uploads and
/// all else stay.
pub proof fn stopping_keeps_the_clip(engine: EngineView)
    ensures
        engine.stopped() == (EngineView {
            streaming: false,
            feeding: false,
            stopping: true,
            events: engine.events.push(
                "Monitoring stopped; waiting for keepalive to finish current clip"@,
            ),
            ..engine
        }),
{
}

/// New settings replace the settings and the detector, at the rate of the stream where one
/// feeds it, and leave the stream, the uploads and what there is to say alone.
pub proof fn new_settings_replace_the_detector(engine: EngineView, config: AppConfigView)
    ensures
        ({
            let after = engine.configured(config);
            &&& after.config == config
            &&& after.streaming == engine.streaming
            &&& after.feeding == engine.feeding
            &&& after.amplitude == engine.amplitude
            &&& after.pending == engine.pending
            &&& after.status == engine.status
            &&& after.events == engine.events
            &&& after.stopping == engine.stopping
            &&& engine.feeding ==> after.detector == DetectorView::fresh(config).at_rate(
                engine.detector.sample_rate,
            )
            &&& !engine.feeding ==> after.detector == DetectorView::fresh(config)
        }),
{
}

/// Starting lists the devices, asks the one that the settings mean, and builds a stream of
/// its format; a step that fails ends it with that failure and changes nothing.
pub proof fn starting_takes_its_steps(
    engine: EngineView,
    names: Vec<Option<String>>,
    error: String,
)
    ensures
        !engine.streaming ==> engine.on_start(StartEvent::Requested) == (
            engine,
            StartActionView::ListDevices,
        ),
        engine.on_start(StartEvent::DevicesListed(Err(error))) == (
            engine,
            StartActionView::Done(Err(error@)),
        ),
        engine.on_start(StartEvent::ConfigQueried(Err(error))) == (
            engine,
            StartActionView::Done(Err(error@)),
        ),
        ({
            let (after, action) = engine.on_start(StartEvent::DevicesListed(Ok(names)));
            &&& after == engine
            &&& match resolved_device(engine.config.input_device, name_views(names@)) {
                Some(at) => action == StartActionView::QueryConfig(at),
                None => action == StartActionView::Done(
                    Err("configured input device not found"@),
                ),
            }
        }),
{
}

/// What a device reports sets the rate; a stream of its format is built and feeds the
/// detector, unless the format is none of the three that are understood.
pub proof fn a_stream_is_built_as_the_device_reports(
    engine: EngineView,
    format: SampleFormat,
    rate: u32,
)
    ensures
        ({
            let (after, action) = engine.on_start(StartEvent::ConfigQueried(Ok((format, rate))));
            &&& after.detector == engine.detector.at_rate(rate)
            &&& after == EngineView { detector: after.detector, feeding: after.feeding, ..engine }
            &&& format is Other ==> action == StartActionView::Done(
                Err("unsupported sample format"@),
            ) && after.feeding == engine.feeding
            &&& !(format is Other) ==> action == StartActionView::BuildStream(format)
                && after.feeding
        }),
{
}

/// A stream that plays is listened to and that is said; one that does not is given up.
pub proof fn a_stream_that_plays_is_listened_to(engine: EngineView, error: String)
    ensures
        engine.on_start(StartEvent::StreamPlaying(Ok(()))) == (
            EngineView {
                streaming: true,
                feeding: true,
                stopping: false,
                events: engine.events.push("Monitoring started"@),
                ..engine
            },
            StartActionView::Done(Ok(())),
        ),
        engine.on_start(StartEvent::StreamPlaying(Err(error))) == (
            EngineView { feeding: false, ..engine },
            StartActionView::Done(Err(error@)),
        ),
{
}

/// Samples set the level and reach the detector; all else stays.
pub proof fn samples_change_level_and_detector_only(
    engine: EngineView,
    samples: Seq<i16>,
    rms: Level,
    now: u64,
    utc: Timestamp,
)
    ensures
        engine.input_processed(samples, rms, now, utc) == (EngineView {
            amplitude: rms,
            detector: engine.input_processed(samples, rms, now, utc).detector,
            ..engine
        }),
        engine.feeding ==> engine.input_processed(samples, rms, now, utc).detector
            == engine.detector.processed(samples, rms, now, utc),
        !engine.feeding ==> engine.input_processed(samples, rms, now, utc).detector
            == engine.detector,
{
}

/// What stands for the result of an operation holds what the result holds.
pub proof fn results_are_seen_as_they_are(error: String, job: UploadJob)
    ensures
        unit_result(Ok(())) == Ok::<(), Seq<char>>(()),
        unit_result(Err(error)) == Err::<(), Seq<char>>(error@),
        poll_result(Ok(Some(job))) == Ok::<Option<UploadJobView>, Seq<char>>(Some(job@)),
        poll_result(Ok(None)) == Ok::<Option<UploadJobView>, Seq<char>>(None),
        poll_result(Err(error)) == Err::<Option<UploadJobView>, Seq<char>>(error@),
{
}

/// A start, samples and reports can always be taken but for what the detector cannot take,
/// and the reports have to be on the uploads that run.
pub proof fn an_engine_takes_what_its_detector_can(
    engine: EngineView,
    event: StartEvent,
    count: nat,
    rms: Level,
    now: u64,
)
    ensures
        !(event is ConfigQueried) ==> engine.can_start(event),
        event matches StartEvent::ConfigQueried(Err(_)) ==> engine.can_start(event),
        event matches StartEvent::ConfigQueried(Ok(answer)) ==> (engine.can_start(event) <==> answer.1
            * engine.detector.ring_seconds <= usize::MAX),
        engine.can_process_input(count, rms, now) <==> !engine.feeding
            || engine.detector.can_process(count, rms, now),
        engine.can_poll(count, now) <==> count == engine.pending && count < usize::MAX && (
        !engine.stopping || engine.detector.can_tick(now)),
{
}

} // verus!
