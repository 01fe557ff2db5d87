//! Cutting clips out of a stream of samples: a clip starts when the level reaches the
//! threshold, with what was heard just before, and ends after a while of silence.

use std::collections::VecDeque;
use vstd::prelude::*;

use crate::clips::{optional_clip, ClipInfo, ClipInfoView, ClipSource};
use crate::config::{keepalive, ring_secs, AppConfig, AppConfigView};
use crate::level::Level;
use crate::text::{decimal, decimal_text};
use crate::time::{elapsed, elapsed_since, has_lasted, lasts, tenths, tenths_text, Timestamp};
use crate::wav::{encode_wav, fits_wav, lemma_wav_len, wav_file, wav_fits};

verus! {

/// Samples per second until a stream says otherwise.
pub const DEFAULT_SAMPLE_RATE: u32 = 48_000;

/// Seconds after which a clip ends and another one starts.
pub const MAX_CLIP_SECS: u64 = 60;

/// What some texts hold.
pub open spec fn texts(strings: Seq<String>) -> Seq<Seq<char>> {
    strings.map_values(|s: String| s@)
}

/// A clip that is being recorded.
#[derive(Debug)]
pub struct RecordingSession {
    pub data: Vec<i16>,
    pub last_activity: u64,
    pub started_at: u64,
}

/// What a `RecordingSession` holds.
#[verifier::ext_equal]
pub struct RecordingView {
    pub data: Seq<i16>,
    pub last_activity: u64,
    pub started_at: u64,
}

impl View for RecordingSession {
    type V = RecordingView;

    open spec fn view(&self) -> RecordingView {
        RecordingView {
            data: self.data@,
            last_activity: self.last_activity,
            started_at: self.started_at,
        }
    }
}

/// A clip that is complete: a sound file, its length in nanoseconds and in bytes, and when
/// it was captured.
#[derive(Debug)]
pub struct FinishedClip {
    pub bytes: Vec<u8>,
    pub duration: u64,
    pub size_bytes: usize,
    pub captured_at: Timestamp,
}

/// What a `FinishedClip` holds.
#[verifier::ext_equal]
pub struct FinishedClipView {
    pub bytes: Seq<u8>,
    pub duration: u64,
    pub size_bytes: usize,
    pub captured_at: Timestamp,
}

impl View for FinishedClip {
    type V = FinishedClipView;

    open spec fn view(&self) -> FinishedClipView {
        FinishedClipView {
            bytes: self.bytes@,
            duration: self.duration,
            size_bytes: self.size_bytes,
            captured_at: self.captured_at,
        }
    }
}

/// What a finished clip holds, where there is one.
pub open spec fn optional_finished(clip: Option<FinishedClip>) -> Option<FinishedClipView> {
    match clip {
        Some(c) => Some(c@),
        None => None,
    }
}

/// What a recording holds, where there is one.
pub open spec fn optional_recording(rec: Option<RecordingSession>) -> Option<RecordingView> {
    match rec {
        Some(r) => Some(r@),
        None => None,
    }
}

/// Cuts clips out of a stream of samples.
#[derive(Debug)]
pub struct Detector {
    ring: VecDeque<i16>,
    recording: Option<RecordingSession>,
    finished_clip: Option<FinishedClip>,
    threshold: Level,
    keepalive: u64,
    max_clip_duration: u64,
    sample_rate: u32,
    ring_seconds: usize,
    activity_events: VecDeque<String>,
}

/// What a `Detector` holds.
#[verifier::ext_equal]
pub struct DetectorView {
    /// The samples heard last.
    pub ring: Seq<i16>,
    /// The clip that is being recorded.
    pub recording: Option<RecordingView>,
    /// The clip that was completed last and not taken yet.
    pub finished_clip: Option<FinishedClipView>,
    /// The level that starts a clip and keeps it alive.
    pub threshold: Level,
    /// Seconds of silence that end a clip.
    pub keepalive: u64,
    /// Seconds after which a clip ends while there is sound.
    pub max_clip_duration: u64,
    /// Samples per second.
    pub sample_rate: u32,
    /// Seconds of sound kept before a clip starts.
    pub ring_seconds: usize,
    /// What happened and was not taken yet.
    pub events: Seq<Seq<char>>,
}

impl View for Detector {
    type V = DetectorView;

    closed spec fn view(&self) -> DetectorView {
        DetectorView {
            ring: self.ring@,
            recording: optional_recording(self.recording),
            finished_clip: optional_finished(self.finished_clip),
            threshold: self.threshold,
            keepalive: self.keepalive,
            max_clip_duration: self.max_clip_duration,
            sample_rate: self.sample_rate,
            ring_seconds: self.ring_seconds,
            events: texts(self.activity_events@),
        }
    }
}

/// The last `n` of some samples, all of them where there are no more.
pub open spec fn newest(samples: Seq<i16>, n: nat) -> Seq<i16> {
    if samples.len() <= n {
        samples
    } else {
        samples.skip(samples.len() - n)
    }
}

/// The event of a completed clip: why it ended, how long it is and how large.
pub open spec fn finish_event(reason: Seq<char>, seconds: Seq<char>, size: nat) -> Seq<char> {
    reason + ": "@ + seconds + "s ("@ + decimal(size / 1024) + " KB)"@
}

/// Writes the event of a completed clip.
pub fn finish_event_text(reason: &str, seconds: &str, size: usize) -> (text: String)
    ensures
        text@ == finish_event(reason@, seconds@, size as nat),
{
    let mut text = reason.to_owned();
    text.append(": ");
    text.append(seconds);
    text.append("s (");
    text.append(decimal_text((size / 1024) as u64).as_str());
    text.append(" KB)");
    text
}

/// The size of `n` samples of 16 bits.
pub open spec fn sample_size(n: nat) -> u64 {
    if 2 * n <= u64::MAX {
        (2 * n) as u64
    } else {
        u64::MAX
    }
}

impl DetectorView {
    /// How many samples the ring is meant to hold.
    pub open spec fn capacity(self) -> nat {
        self.sample_rate as nat * self.ring_seconds as nat
    }

    /// How many samples the ring can hold: there is always room for the last one.
    pub open spec fn room(self) -> nat {
        if self.capacity() == 0 {
            1
        } else {
            self.capacity()
        }
    }

    /// The ring never holds more than it has room for.
    pub open spec fn wf(self) -> bool {
        self.ring.len() <= self.room()
    }

    /// A detector for the given settings that has heard nothing yet.
    pub open spec fn fresh(config: AppConfigView) -> DetectorView {
        DetectorView {
            ring: Seq::empty(),
            recording: None,
            finished_clip: None,
            threshold: config.input_threshold,
            keepalive: keepalive(config.keepalive_secs),
            max_clip_duration: MAX_CLIP_SECS,
            sample_rate: DEFAULT_SAMPLE_RATE,
            ring_seconds: ring_secs(config.ring_buffer_secs),
            events: Seq::empty(),
        }
    }

    /// At another sample rate the ring keeps as many of the newest samples as it is meant
    /// to hold.
    pub open spec fn at_rate(self, sample_rate: u32) -> DetectorView {
        let changed = DetectorView { sample_rate, ..self };
        DetectorView { ring: newest(self.ring, changed.capacity()), ..changed }
    }

    /// The ring takes new samples and keeps the newest.
    pub open spec fn heard(self, samples: Seq<i16>) -> DetectorView {
        DetectorView { ring: newest(self.ring + samples, self.room()), ..self }
    }

    /// A clip starts with what is in the ring and the samples that started it.
    pub open spec fn started(self, samples: Seq<i16>, now: u64) -> DetectorView {
        DetectorView {
            recording: Some(
                RecordingView { data: self.ring + samples, last_activity: now, started_at: now },
            ),
            events: self.events.push("Clip recording started"@),
            ..self
        }
    }

    /// The clip that is being recorded goes on with new samples.
    pub open spec fn continued(self, samples: Seq<i16>, active: bool, now: u64) -> DetectorView {
        match self.recording {
            Some(rec) => DetectorView {
                recording: Some(
                    RecordingView {
                        data: rec.data + samples,
                        last_activity: if active {
                            now
                        } else {
                            rec.last_activity
                        },
                        started_at: rec.started_at,
                    },
                ),
                ..self
            },
            None => self,
        }
    }

    /// The clip that is being recorded is completed.
    pub open spec fn finished(self, now: u64, reason: Seq<char>, utc: Timestamp) -> DetectorView {
        match self.recording {
            Some(rec) => {
                let bytes = wav_file(rec.data, self.sample_rate);
                let duration = elapsed(now, rec.started_at);
                DetectorView {
                    recording: None,
                    finished_clip: Some(
                        FinishedClipView {
                            bytes,
                            duration,
                            size_bytes: bytes.len() as usize,
                            captured_at: utc,
                        },
                    ),
                    events: self.events.push(
                        finish_event(reason, tenths(duration), bytes.len()),
                    ),
                    ..self
                }
            },
            None => self,
        }
    }

    /// Whether the clip that is being recorded has reached its greatest length.
    pub open spec fn is_full(self, now: u64) -> bool {
        match self.recording {
            Some(rec) => lasts(elapsed(now, rec.started_at), self.max_clip_duration),
            None => false,
        }
    }

    /// Whether it has been silent long enough to end the clip that is being recorded.
    pub open spec fn is_over(self, now: u64) -> bool {
        match self.recording {
            Some(rec) => lasts(elapsed(now, rec.last_activity), self.keepalive),
            None => false,
        }
    }

    /// What becomes of a detector that hears some samples at some level.
    pub open spec fn processed(
        self,
        samples: Seq<i16>,
        rms: Level,
        now: u64,
        utc: Timestamp,
    ) -> DetectorView {
        let heard = self.heard(samples);
        let active = rms.at_least(self.threshold);
        let longer = heard.continued(samples, active, now);
        if active && self.recording is None {
            heard.started(samples, now)
        } else if active && self.is_full(now) {
            longer.finished(
                now,
                "Clip reached 60 second limit; starting a new clip"@,
                utc,
            ).started(samples, now)
        } else if !active && self.is_over(now) {
            longer.finished(now, "Clip recording finished"@, utc)
        } else {
            longer
        }
    }

    /// Whether hearing samples at some level completes a clip.
    pub open spec fn completes(self, rms: Level, now: u64) -> bool {
        if rms.at_least(self.threshold) {
            self.is_full(now)
        } else {
            self.is_over(now)
        }
    }

    /// Whether so many samples more can be taken: the ring's size fits in memory, and so
    /// does the sound file of a clip that they complete.
    pub open spec fn can_process(self, count: nat, rms: Level, now: u64) -> bool {
        &&& count > 0 ==> self.capacity() <= usize::MAX
        &&& self.recording matches Some(rec) ==> self.completes(rms, now) ==> wav_fits(
            rec.data.len() + count,
            self.sample_rate,
        )
    }

    /// What becomes of a detector that is left alone after the stream has ended.
    pub open spec fn ticked(self, now: u64, utc: Timestamp) -> DetectorView {
        if self.is_over(now) {
            self.finished(now, "Clip recording finished after monitoring stopped"@, utc)
        } else {
            self
        }
    }

    /// Whether the sound file fits in memory where a tick completes a clip.
    pub open spec fn can_tick(self, now: u64) -> bool {
        self.recording matches Some(rec) ==> self.is_over(now) ==> wav_fits(
            rec.data.len(),
            self.sample_rate,
        )
    }

    /// What is shown of the clip in memory, if there is one.
    pub open spec fn snapshot(self, now: u64, utc: Timestamp) -> Option<ClipInfoView> {
        match self.recording {
            Some(rec) => Some(
                ClipInfoView {
                    key: "In-memory clip ("@ + tenths(elapsed(now, rec.started_at)) + "s)"@,
                    last_modified: utc.rfc3339_view(),
                    last_modified_display: "Recording now"@,
                    size_bytes: sample_size(rec.data.len()),
                    source: ClipSource::InMemoryActive,
                },
            ),
            None => match self.finished_clip {
                Some(clip) => Some(
                    ClipInfoView {
                        key: "Pending upload"@,
                        last_modified: utc.rfc3339_view(),
                        last_modified_display: "Waiting to upload"@,
                        size_bytes: clip.size_bytes as u64,
                        source: ClipSource::InMemoryPendingUpload,
                    },
                ),
                None => None,
            },
        }
    }
}

/// Adds samples behind others.
fn append_samples(data: &mut Vec<i16>, samples: &[i16])
    ensures
        final(data)@ == old(data)@ + samples@,
{
    let ghost before = data@;
    for i in 0..samples.len()
        invariant
            data@ == before + samples@.take(i as int),
    {
        data.push(samples[i]);
        assert(samples@.take(i + 1) =~= samples@.take(i as int).push(samples@[i as int]));
        assert(data@ =~= before + samples@.take(i + 1));
    }
    assert(samples@.take(samples@.len() as int) =~= samples@);
}

/// Takes all texts out of a queue, the oldest first.
pub fn drain_texts(queue: &mut VecDeque<String>) -> (all: Vec<String>)
    ensures
        all@ == old(queue)@,
        final(queue)@.len() == 0,
{
    let mut all: Vec<String> = Vec::new();
    let ghost before = queue@;
    assert(before.take(0) =~= Seq::empty());
    assert(before.skip(0) =~= before);
    while queue.len() > 0
        invariant
            all@.len() <= before.len(),
            all@ == before.take(all@.len() as int),
            queue@ == before.skip(all@.len() as int),
        decreases queue@.len(),
    {
        let ghost n = all@.len() as int;
        if let Some(text) = queue.pop_front() {
            all.push(text);
            assert(before.take(n + 1) =~= before.take(n).push(before[n]));
            assert(before.skip(n + 1) =~= before.skip(n).subrange(1, before.skip(n).len() as int));
        }
    }
    assert(before.take(all@.len() as int) =~= before);
    all
}

impl Detector {
    /// A detector for the given settings.
    pub fn new(config: &AppConfig) -> (detector: Self)
        ensures
            detector@ == DetectorView::fresh(config@),
            detector@.wf(),
    {
        let detector = Detector {
            ring: VecDeque::new(),
            recording: None,
            finished_clip: None,
            threshold: config.input_threshold,
            keepalive: config.keepalive_seconds(),
            max_clip_duration: MAX_CLIP_SECS,
            sample_rate: DEFAULT_SAMPLE_RATE,
            ring_seconds: config.ring_seconds(),
            activity_events: VecDeque::new(),
        };
        assert(detector@ =~= DetectorView::fresh(config@));
        detector
    }

    /// A detector for the given settings and the given number of samples per second.
    pub fn at_sample_rate(config: &AppConfig, sample_rate: u32) -> (detector: Self)
        ensures
            detector@ == DetectorView::fresh(config@).at_rate(sample_rate),
            detector@.wf(),
    {
        let mut detector = Detector::new(config);
        detector.sample_rate = sample_rate;
        assert(detector@ =~= DetectorView::fresh(config@).at_rate(sample_rate));
        detector
    }

    /// How many samples a second has.
    pub fn samples_per_second(&self) -> (rate: u32)
        ensures
            rate == self@.sample_rate,
    {
        self.sample_rate
    }

    /// Sets the number of samples per second.
    pub fn set_sample_rate(&mut self, sample_rate: u32)
        requires
            old(self)@.wf(),
            sample_rate as nat * old(self)@.ring_seconds as nat <= usize::MAX,
        ensures
            final(self)@ == old(self)@.at_rate(sample_rate),
            final(self)@.wf(),
    {
        self.sample_rate = sample_rate;
        self.trim_ring();
    }

    /// How many samples the ring is meant to hold.
    pub fn ring_capacity(&self) -> (capacity: usize)
        requires
            self@.capacity() <= usize::MAX,
        ensures
            capacity == self@.capacity(),
    {
        self.sample_rate as usize * self.ring_seconds
    }

    /// Whether the ring's size fits in memory at the given rate.
    pub fn accepts_rate(&self, sample_rate: u32) -> (yes: bool)
        ensures
            yes == (sample_rate as nat * self@.ring_seconds as nat <= usize::MAX),
    {
        let seconds: u64 = self.ring_seconds as u64;
        assert(sample_rate as nat * seconds as nat <= u32::MAX * u64::MAX) by (nonlinear_arith)
            requires
                sample_rate <= u32::MAX,
                seconds <= u64::MAX,
        ;
        sample_rate as u128 * seconds as u128 <= usize::MAX as u128
    }

    /// Whether so many samples more can be taken.
    pub fn accepts_input(&self, count: usize, rms: Level, now: u64) -> (yes: bool)
        ensures
            yes == self@.can_process(count as nat, rms, now),
    {
        if count > 0 && !self.accepts_rate(self.sample_rate) {
            return false;
        }
        match &self.recording {
            Some(rec) => {
                let ends = if rms.reaches(self.threshold) {
                    has_lasted(elapsed_since(now, rec.started_at), self.max_clip_duration)
                } else {
                    has_lasted(elapsed_since(now, rec.last_activity), self.keepalive)
                };
                !ends || rec.data.len() <= usize::MAX - count && fits_wav(
                    rec.data.len() + count,
                    self.sample_rate,
                )
            },
            None => true,
        }
    }

    /// Whether the sound file fits in memory where a tick completes a clip.
    pub fn accepts_tick(&self, now: u64) -> (yes: bool)
        ensures
            yes == self@.can_tick(now),
    {
        match &self.recording {
            Some(rec) => !has_lasted(elapsed_since(now, rec.last_activity), self.keepalive)
                || fits_wav(rec.data.len(), self.sample_rate),
            None => true,
        }
    }

    /// Drops the oldest samples until the ring holds no more than it is meant to.
    fn trim_ring(&mut self)
        requires
            old(self)@.capacity() <= usize::MAX,
        ensures
            final(self)@ == (DetectorView {
                ring: newest(old(self)@.ring, old(self)@.capacity()),
                ..old(self)@
            }),
    {
        let capacity = self.ring_capacity();
        let ghost before = self.ring@;
        let ghost mut dropped: int = 0;
        assert(before.skip(0) =~= before);
        while self.ring.len() > capacity
            invariant
                capacity == old(self)@.capacity(),
                before == old(self)@.ring,
                0 <= dropped <= before.len(),
                dropped > 0 ==> before.len() - dropped >= capacity,
                self.ring@ == before.skip(dropped),
                self@ == (DetectorView { ring: self.ring@, ..old(self)@ }),
            decreases self.ring@.len(),
        {
            let ghost rest = self.ring@;
            self.ring.pop_front();
            proof {
                assert(before.skip(dropped + 1) =~= rest.subrange(1, rest.len() as int));
                dropped = dropped + 1;
            }
        }
        assert(self.ring@ =~= newest(before, capacity as nat));
    }

    /// Puts samples into the ring.
    fn hear(&mut self, samples: &[i16])
        requires
            old(self)@.wf(),
            samples@.len() > 0 ==> old(self)@.capacity() <= usize::MAX,
        ensures
            final(self)@ == old(self)@.heard(samples@),
            final(self)@.wf(),
    {
        let ghost before = self@;
        assert(before.ring + samples@.take(0) =~= before.ring);
        for i in 0..samples.len()
            invariant
                before == old(self)@,
                samples@.len() > 0 ==> before.capacity() <= usize::MAX,
                self@ == before.heard(samples@.take(i as int)),
        {
            let ghost ring = self.ring@;
            let ghost taken = before.ring + samples@.take(i as int);
            let ghost next = before.ring + samples@.take(i + 1);
            assert(next =~= taken.push(samples@[i as int]));
            if self.ring.len() >= self.ring_capacity() {
                self.ring.pop_front();
            }
            self.ring.push_back(samples[i]);
            assert(self.ring@ =~= newest(next, before.room()));
            assert(self@ =~= before.heard(samples@.take(i + 1)));
        }
        assert(samples@.take(samples@.len() as int) =~= samples@);
    }

    /// Starts a clip.
    fn start_recording(&mut self, samples: &[i16], now: u64)
        ensures
            final(self)@ == old(self)@.started(samples@, now),
    {
        let mut data: Vec<i16> = Vec::new();
        for i in 0..self.ring.len()
            invariant
                data@ == self.ring@.take(i as int),
        {
            data.push(self.ring[i]);
            assert(self.ring@.take(i + 1) =~= self.ring@.take(i as int).push(self.ring@[i as int]));
        }
        assert(self.ring@.take(self.ring@.len() as int) =~= self.ring@);
        append_samples(&mut data, samples);
        self.recording = Some(RecordingSession { data, last_activity: now, started_at: now });
        self.activity_events.push_back("Clip recording started".to_owned());
        assert(self@ =~= old(self)@.started(samples@, now));
    }

    /// Completes the clip that is being recorded, if there is one.
    fn finish_recording(&mut self, now: u64, reason: &str, utc: Timestamp)
        requires
            old(self)@.recording matches Some(rec) ==> wav_fits(
                rec.data.len(),
                old(self)@.sample_rate,
            ),
        ensures
            final(self)@ == old(self)@.finished(now, reason@, utc),
    {
        if let Some(rec) = self.recording.take() {
            let bytes = encode_wav(&rec.data, self.sample_rate);
            let duration = elapsed_since(now, rec.started_at);
            let size_bytes = bytes.len();
            self.finished_clip = Some(
                FinishedClip { bytes, duration, size_bytes, captured_at: utc },
            );
            let seconds = tenths_text(duration);
            let event = finish_event_text(reason, seconds.as_str(), size_bytes);
            self.activity_events.push_back(event);
        }
        assert(self@ =~= old(self)@.finished(now, reason@, utc));
    }

    /// Hears some samples, whose level is given, at a moment and a point in time.
    pub fn process_at(&mut self, samples: &[i16], rms: Level, now: u64, utc: Timestamp)
        requires
            old(self)@.wf(),
            old(self)@.can_process(samples@.len(), rms, now),
        ensures
            final(self)@ == old(self)@.processed(samples@, rms, now, utc),
            final(self)@.wf(),
    {
        self.hear(samples);
        let ghost heard = self@;
        let active = rms.reaches(self.threshold);
        match self.recording.take() {
            None => {
                if active {
                    self.start_recording(samples, now);
                }
            },
            Some(mut rec) => {
                append_samples(&mut rec.data, samples);
                let full = has_lasted(elapsed_since(now, rec.started_at), self.max_clip_duration);
                let over = has_lasted(elapsed_since(now, rec.last_activity), self.keepalive);
                if active {
                    rec.last_activity = now;
                }
                self.recording = Some(rec);
                assert(self@ =~= heard.continued(samples@, active, now));
                if active && full {
                    self.finish_recording(
                        now,
                        "Clip reached 60 second limit; starting a new clip",
                        utc,
                    );
                    self.start_recording(samples, now);
                } else if !active && over {
                    self.finish_recording(now, "Clip recording finished", utc);
                }
            },
        }
        assert(self@ =~= old(self)@.processed(samples@, rms, now, utc));
    }

    /// Hears some samples, whose level is given, at a moment; the clock says when a clip
    /// that they complete was captured.
    pub fn process(&mut self, samples: &[i16], rms: Level, now: u64)
        requires
            old(self)@.wf(),
            old(self)@.can_process(samples@.len(), rms, now),
        ensures
            exists|utc: Timestamp|
                final(self)@ == #[trigger] old(self)@.processed(samples@, rms, now, utc),
            final(self)@.wf(),
    {
        self.process_at(samples, rms, now, Timestamp::now())
    }

    /// Ends the clip that is being recorded where it has been silent long enough.
    pub fn process_silence_tick(&mut self, now: u64, utc: Timestamp)
        requires
            old(self)@.wf(),
            old(self)@.can_tick(now),
        ensures
            final(self)@ == old(self)@.ticked(now, utc),
            final(self)@.wf(),
    {
        let over = match &self.recording {
            Some(rec) => has_lasted(elapsed_since(now, rec.last_activity), self.keepalive),
            None => false,
        };
        if over {
            self.finish_recording(now, "Clip recording finished after monitoring stopped", utc);
        }
    }

    /// What is shown of the clip in memory, if there is one.
    pub fn clip_snapshot(&self, now: u64, utc: Timestamp) -> (clip: Option<ClipInfo>)
        ensures
            optional_clip(clip) == self@.snapshot(now, utc),
    {
        if let Some(rec) = &self.recording {
            let seconds = tenths_text(elapsed_since(now, rec.started_at));
            let mut key = "In-memory clip (".to_owned();
            key.append(seconds.as_str());
            key.append("s)");
            let samples: u64 = rec.data.len() as u64;
            return Some(
                ClipInfo {
                    key,
                    last_modified: utc.to_rfc3339(),
                    last_modified_display: "Recording now".to_owned(),
                    size_bytes: if samples <= u64::MAX / 2 {
                        samples * 2
                    } else {
                        u64::MAX
                    },
                    source: ClipSource::InMemoryActive,
                },
            );
        }
        if let Some(clip) = &self.finished_clip {
            return Some(
                ClipInfo {
                    key: "Pending upload".to_owned(),
                    last_modified: utc.to_rfc3339(),
                    last_modified_display: "Waiting to upload".to_owned(),
                    size_bytes: clip.size_bytes as u64,
                    source: ClipSource::InMemoryPendingUpload,
                },
            );
        }
        None
    }

    /// Whether there is a clip in memory, complete or not.
    pub fn has_clip(&self) -> (yes: bool)
        ensures
            yes == (self@.recording is Some || self@.finished_clip is Some),
    {
        self.recording.is_some() || self.finished_clip.is_some()
    }

    /// Takes the clip that was completed last.
    pub fn take_finished_clip(&mut self) -> (clip: Option<FinishedClip>)
        ensures
            optional_finished(clip) == old(self)@.finished_clip,
            final(self)@ == (DetectorView { finished_clip: None, ..old(self)@ }),
    {
        self.finished_clip.take()
    }

    /// Takes what happened, the oldest first.
    pub fn take_activity_events(&mut self) -> (events: Vec<String>)
        ensures
            texts(events@) == old(self)@.events,
            final(self)@ == (DetectorView { events: Seq::empty(), ..old(self)@ }),
    {
        let events = drain_texts(&mut self.activity_events);
        assert(texts(self.activity_events@) =~= Seq::empty());
        assert(self@ =~= (DetectorView { events: Seq::empty(), ..old(self)@ }));
        events
    }
}

// ---------------------------------------------------------------------------
// Laws
// ---------------------------------------------------------------------------

/// The ring never holds more than it has room for, whatever is heard and at whatever rate,
/// and what it holds is what was heard last.
pub proof fn ring_holds_the_newest(detector: DetectorView, samples: Seq<i16>, rate: u32)
    requires
        detector.wf(),
    ensures
        detector.heard(samples).wf(),
        detector.at_rate(rate).wf(),
        samples.len() >= detector.room() ==> detector.heard(samples).ring == samples.skip(
            samples.len() - detector.room(),
        ),
        samples.len() < detector.room() ==> {
            let ring = detector.heard(samples).ring;
            ring.skip(ring.len() - samples.len()) == samples
        },
{
    let ring = detector.heard(samples).ring;
    if samples.len() >= detector.room() {
        assert(ring =~= samples.skip(samples.len() - detector.room()));
    } else {
        assert(ring.skip(ring.len() - samples.len()) =~= samples);
    }
}

/// Hearing the same samples in two goes leaves the same ring as in one.
pub proof fn ring_does_not_depend_on_blocks(detector: DetectorView, a: Seq<i16>, b: Seq<i16>)
    requires
        detector.wf(),
    ensures
        detector.heard(a).heard(b) == detector.heard(a + b),
{
    assert(detector.ring + (a + b) =~= (detector.ring + a) + b);
    assert(detector.heard(a).heard(b).ring =~= detector.heard(a + b).ring);
}

/// Silence never starts a clip: without a clip, all that changes is the ring.
pub proof fn silence_starts_nothing(
    detector: DetectorView,
    samples: Seq<i16>,
    rms: Level,
    now: u64,
    utc: Timestamp,
)
    requires
        detector.recording is None,
        !rms.at_least(detector.threshold),
    ensures
        detector.processed(samples, rms, now, utc) == detector.heard(samples),
{
}

/// Sound starts a clip, and the clip starts with what was heard before: the ring, which
/// ends with the samples that started the clip, and then these samples.
pub proof fn sound_starts_a_clip(
    detector: DetectorView,
    samples: Seq<i16>,
    rms: Level,
    now: u64,
    utc: Timestamp,
)
    requires
        detector.recording is None,
        rms.at_least(detector.threshold),
    ensures
        detector.processed(samples, rms, now, utc).recording == Some(
            RecordingView {
                data: newest(detector.ring + samples, detector.room()) + samples,
                last_activity: now,
                started_at: now,
            },
        ),
        detector.processed(samples, rms, now, utc).finished_clip == detector.finished_clip,
{
}

/// Sound keeps a clip alive, and a clip loses nothing of what is heard while it goes on.
pub proof fn sound_keeps_a_clip_alive(
    detector: DetectorView,
    samples: Seq<i16>,
    rms: Level,
    now: u64,
    utc: Timestamp,
)
    requires
        detector.recording is Some,
        rms.at_least(detector.threshold),
        !detector.is_full(now),
    ensures
        detector.processed(samples, rms, now, utc).recording == Some(
            RecordingView {
                data: detector.recording->0.data + samples,
                last_activity: now,
                started_at: detector.recording->0.started_at,
            },
        ),
{
}

/// Silence ends a clip exactly when the last sound is as long ago as the settings say; the
/// silence until then is part of the clip.
pub proof fn silence_ends_a_clip_after_a_while(
    detector: DetectorView,
    samples: Seq<i16>,
    rms: Level,
    now: u64,
    utc: Timestamp,
)
    requires
        detector.recording is Some,
        !rms.at_least(detector.threshold),
    ensures
        ({
            let rec = detector.recording->0;
            let after = detector.processed(samples, rms, now, utc);
            if lasts(elapsed(now, rec.last_activity), detector.keepalive) {
                &&& after.recording is None
                &&& after.finished_clip is Some
                &&& after.finished_clip->0.bytes == wav_file(
                    rec.data + samples,
                    detector.sample_rate,
                )
                &&& after.finished_clip->0.captured_at == utc
            } else {
                &&& after.recording == Some(RecordingView { data: rec.data + samples, ..rec })
                &&& after.finished_clip == detector.finished_clip
            }
        }),
{
}

/// Sound does not make a clip longer than its limit: the clip ends, and another one starts
/// at once with what is in the ring.
pub proof fn a_long_clip_is_split(
    detector: DetectorView,
    samples: Seq<i16>,
    rms: Level,
    now: u64,
    utc: Timestamp,
)
    requires
        detector.recording is Some,
        rms.at_least(detector.threshold),
        detector.is_full(now),
    ensures
        ({
            let rec = detector.recording->0;
            let after = detector.processed(samples, rms, now, utc);
            &&& after.finished_clip is Some
            &&& after.finished_clip->0.bytes == wav_file(rec.data + samples, detector.sample_rate)
            &&& after.recording == Some(
                RecordingView {
                    data: newest(detector.ring + samples, detector.room()) + samples,
                    last_activity: now,
                    started_at: now,
                },
            )
        }),
{
}

/// After sound was heard, the clip that is being recorded has not reached its limit.
pub proof fn sound_leaves_no_full_clip(
    detector: DetectorView,
    samples: Seq<i16>,
    rms: Level,
    now: u64,
    utc: Timestamp,
)
    requires
        rms.at_least(detector.threshold),
        detector.max_clip_duration > 0,
    ensures
        detector.processed(samples, rms, now, utc).recording is Some,
        !detector.processed(samples, rms, now, utc).is_full(now),
{
    assert(detector.max_clip_duration * crate::time::NANOS_PER_SEC > 0) by (nonlinear_arith)
        requires
            detector.max_clip_duration > 0,
            crate::time::NANOS_PER_SEC == 1_000_000_000,
    ;
}

/// Some samples that come at once, their level and the moment.
pub struct Block {
    pub samples: Seq<i16>,
    pub rms: Level,
    pub now: u64,
}

/// The samples of some blocks, one block behind the other.
pub open spec fn all_samples(blocks: Seq<Block>) -> Seq<i16>
    decreases blocks.len(),
{
    if blocks.len() == 0 {
        Seq::empty()
    } else {
        all_samples(blocks.drop_last()) + blocks.last().samples
    }
}

impl DetectorView {
    /// What becomes of a detector that hears some blocks, one after the other.
    pub open spec fn processed_all(self, blocks: Seq<Block>, utc: Timestamp) -> DetectorView
        decreases blocks.len(),
    {
        if blocks.len() == 0 {
            self
        } else {
            let last = blocks.last();
            self.processed_all(blocks.drop_last(), utc).processed(
                last.samples,
                last.rms,
                last.now,
                utc,
            )
        }
    }

    /// Whether none of some blocks completes a clip.
    pub open spec fn goes_on(self, blocks: Seq<Block>, utc: Timestamp) -> bool
        decreases blocks.len(),
    {
        if blocks.len() == 0 {
            true
        } else {
            let last = blocks.last();
            &&& self.goes_on(blocks.drop_last(), utc)
            &&& !self.processed_all(blocks.drop_last(), utc).completes(last.rms, last.now)
        }
    }
}

/// However many blocks come, at whatever level, the ring holds the newest of all that was
/// heard.
pub proof fn ring_holds_the_newest_of_all_blocks(
    detector: DetectorView,
    blocks: Seq<Block>,
    utc: Timestamp,
)
    requires
        detector.wf(),
    ensures
        detector.processed_all(blocks, utc).ring == detector.heard(all_samples(blocks)).ring,
        detector.processed_all(blocks, utc).room() == detector.room(),
    decreases blocks.len(),
{
    if blocks.len() == 0 {
        assert(detector.ring + all_samples(blocks) =~= detector.ring);
    } else {
        let before = blocks.drop_last();
        let last = blocks.last();
        ring_holds_the_newest_of_all_blocks(detector, before, utc);
        ring_does_not_depend_on_blocks(detector, all_samples(before), last.samples);
        let state = detector.processed_all(before, utc);
        hearing_changes_no_setting(state, last.samples, last.rms, last.now, utc);
        assert(state.heard(last.samples).ring == detector.heard(all_samples(before)).heard(
            last.samples,
        ).ring);
    }
}

/// However many blocks come, a clip that none of them completes goes on from where it
/// started, with all that was heard since, in order and without a gap.
pub proof fn a_clip_has_all_that_was_heard(
    detector: DetectorView,
    blocks: Seq<Block>,
    utc: Timestamp,
)
    requires
        detector.recording is Some,
        detector.goes_on(blocks, utc),
    ensures
        ({
            let rec = detector.recording->0;
            let after = detector.processed_all(blocks, utc);
            &&& after.recording is Some
            &&& after.recording->0.data == rec.data + all_samples(blocks)
            &&& after.recording->0.started_at == rec.started_at
            &&& after.finished_clip == detector.finished_clip
            &&& after.events == detector.events
        }),
    decreases blocks.len(),
{
    let rec = detector.recording->0;
    if blocks.len() == 0 {
        assert(rec.data + all_samples(blocks) =~= rec.data);
    } else {
        a_clip_has_all_that_was_heard(detector, blocks.drop_last(), utc);
        assert(rec.data + all_samples(blocks) =~= rec.data + all_samples(blocks.drop_last())
            + blocks.last().samples);
    }
}

/// What a detector was set to stays as it is, whatever it hears.
pub proof fn hearing_changes_no_setting(
    detector: DetectorView,
    samples: Seq<i16>,
    rms: Level,
    now: u64,
    utc: Timestamp,
)
    ensures
        ({
            let after = detector.processed(samples, rms, now, utc);
            &&& after.threshold == detector.threshold
            &&& after.keepalive == detector.keepalive
            &&& after.max_clip_duration == detector.max_clip_duration
            &&& after.sample_rate == detector.sample_rate
            &&& after.ring_seconds == detector.ring_seconds
            &&& after.ring == detector.heard(samples).ring
        }),
{
}

/// Every clip that ends is told of, and its file has the samples that were recorded: 44
/// bytes in front and two bytes for each of them.
pub proof fn a_finished_clip_is_told_of(
    detector: DetectorView,
    now: u64,
    reason: Seq<char>,
    utc: Timestamp,
)
    requires
        detector.recording is Some,
        wav_fits(detector.recording->0.data.len(), detector.sample_rate),
    ensures
        ({
            let rec = detector.recording->0;
            let after = detector.finished(now, reason, utc);
            let clip = after.finished_clip->0;
            &&& after.recording is None
            &&& after.finished_clip is Some
            &&& clip.size_bytes == clip.bytes.len()
            &&& clip.bytes.len() == 44 + 2 * rec.data.len()
            &&& clip.duration == elapsed(now, rec.started_at)
            &&& after.events == detector.events.push(
                finish_event(reason, tenths(clip.duration), clip.size_bytes as nat),
            )
        }),
{
    lemma_wav_len(detector.recording->0.data, detector.sample_rate);
}

/// The ring is meant to hold the samples of as many seconds as the settings say, and always
/// has room for one.
pub proof fn the_ring_is_as_long_as_the_settings_say(detector: DetectorView)
    ensures
        detector.capacity() == detector.sample_rate * detector.ring_seconds,
        detector.capacity() > 0 ==> detector.room() == detector.sample_rate
            * detector.ring_seconds,
        detector.capacity() == 0 ==> detector.room() == 1,
{
}

/// The newest samples are the last ones, in order, all of them where there are no more.
pub proof fn the_newest_are_the_last(samples: Seq<i16>, n: nat)
    ensures
        newest(samples, n).len() == (if samples.len() < n {
            samples.len()
        } else {
            n
        }),
        forall|i: int|
            0 <= i < newest(samples, n).len() ==> #[trigger] newest(samples, n)[i]
                == samples[samples.len() - newest(samples, n).len() + i],
{
}

/// A new detector has heard nothing, works with the threshold and the seconds of the
/// settings, takes 48000 samples for a second and splits a clip after 60 seconds.
pub proof fn a_new_detector_has_the_settings(config: AppConfigView)
    ensures
        ({
            let detector = DetectorView::fresh(config);
            &&& detector.ring.len() == 0
            &&& detector.recording is None
            &&& detector.finished_clip is None
            &&& detector.events.len() == 0
            &&& detector.threshold == config.input_threshold
            &&& detector.keepalive == keepalive(config.keepalive_secs)
            &&& detector.ring_seconds == ring_secs(config.ring_buffer_secs)
            &&& detector.sample_rate == 48_000
            &&& detector.max_clip_duration == 60
        }),
{
}

/// Another rate changes the rate and what the ring holds of the newest, nothing else.
pub proof fn another_rate_keeps_the_newest(detector: DetectorView, rate: u32)
    ensures
        ({
            let after = detector.at_rate(rate);
            &&& after.sample_rate == rate
            &&& after.ring == newest(detector.ring, rate as nat * detector.ring_seconds as nat)
            &&& after.recording == detector.recording
            &&& after.finished_clip == detector.finished_clip
            &&& after.threshold == detector.threshold
            &&& after.keepalive == detector.keepalive
            &&& after.max_clip_duration == detector.max_clip_duration
            &&& after.ring_seconds == detector.ring_seconds
            &&& after.events == detector.events
        }),
{
}

/// A completed clip is told of with the reason, its length in seconds and its size in
/// kilobytes.
pub proof fn a_completed_clip_is_told_of_so(reason: Seq<char>, seconds: Seq<char>, size: nat)
    ensures
        finish_event(reason, seconds, size) == reason + ": "@ + seconds + "s ("@ + decimal(
            size / 1024,
        ) + " KB)"@,
{
}

/// A clip is full once its limit in seconds has passed since it started, and over once the
/// settings' seconds have passed since the last sound.
pub proof fn clips_end_by_the_clock(detector: DetectorView, now: u64)
    ensures
        detector.recording is None ==> !detector.is_full(now) && !detector.is_over(now),
        detector.recording matches Some(rec) ==> {
            &&& now >= rec.started_at ==> (detector.is_full(now) <==> now - rec.started_at
                >= detector.max_clip_duration * 1_000_000_000)
            &&& now >= rec.last_activity ==> (detector.is_over(now) <==> now - rec.last_activity
                >= detector.keepalive * 1_000_000_000)
        },
{
}

/// What a detector that starts a clip tells and keeps.
pub proof fn starting_a_clip_changes_nothing_else(
    detector: DetectorView,
    samples: Seq<i16>,
    rms: Level,
    now: u64,
    utc: Timestamp,
)
    requires
        detector.recording is None,
        rms.at_least(detector.threshold),
    ensures
        detector.processed(samples, rms, now, utc) == (DetectorView {
            ring: newest(detector.ring + samples, detector.room()),
            recording: Some(
                RecordingView {
                    data: newest(detector.ring + samples, detector.room()) + samples,
                    last_activity: now,
                    started_at: now,
                },
            ),
            events: detector.events.push("Clip recording started"@),
            ..detector
        }),
{
}

/// A clip that goes on takes the samples, and sound counts as the last activity; nothing is
/// told and nothing else changes but the ring.
pub proof fn a_clip_that_goes_on_changes_nothing_else(
    detector: DetectorView,
    samples: Seq<i16>,
    rms: Level,
    now: u64,
    utc: Timestamp,
)
    requires
        detector.recording is Some,
        rms.at_least(detector.threshold) ==> !detector.is_full(now),
        !rms.at_least(detector.threshold) ==> !detector.is_over(now),
    ensures
        ({
            let rec = detector.recording->0;
            detector.processed(samples, rms, now, utc) == (DetectorView {
                ring: newest(detector.ring + samples, detector.room()),
                recording: Some(
                    RecordingView {
                        data: rec.data + samples,
                        last_activity: if rms.at_least(detector.threshold) {
                            now
                        } else {
                            rec.last_activity
                        },
                        started_at: rec.started_at,
                    },
                ),
                ..detector
            })
        }),
{
}

/// A clip that ends in silence is completed with all that was heard, and told of with its
/// own length and size.
pub proof fn silence_completes_a_clip(
    detector: DetectorView,
    samples: Seq<i16>,
    rms: Level,
    now: u64,
    utc: Timestamp,
)
    requires
        detector.recording is Some,
        !rms.at_least(detector.threshold),
        detector.is_over(now),
        wav_fits(detector.recording->0.data.len() + samples.len(), detector.sample_rate),
    ensures
        ({
            let rec = detector.recording->0;
            let file = wav_file(rec.data + samples, detector.sample_rate);
            detector.processed(samples, rms, now, utc) == (DetectorView {
                ring: newest(detector.ring + samples, detector.room()),
                recording: None,
                finished_clip: Some(
                    FinishedClipView {
                        bytes: file,
                        duration: elapsed(now, rec.started_at),
                        size_bytes: file.len() as usize,
                        captured_at: utc,
                    },
                ),
                events: detector.events.push(
                    "Clip recording finished"@ + ": "@ + tenths(elapsed(now, rec.started_at))
                        + "s ("@ + decimal(file.len() / 1024) + " KB)"@,
                ),
                ..detector
            })
        }),
{
}

/// A clip that has reached its limit is completed with all that was heard and told of, and
/// another one starts with what is in the ring and is told of too.
pub proof fn the_limit_completes_a_clip(
    detector: DetectorView,
    samples: Seq<i16>,
    rms: Level,
    now: u64,
    utc: Timestamp,
)
    requires
        detector.recording is Some,
        rms.at_least(detector.threshold),
        detector.is_full(now),
        wav_fits(detector.recording->0.data.len() + samples.len(), detector.sample_rate),
    ensures
        ({
            let rec = detector.recording->0;
            let file = wav_file(rec.data + samples, detector.sample_rate);
            let ring = newest(detector.ring + samples, detector.room());
            detector.processed(samples, rms, now, utc) == (DetectorView {
                ring,
                recording: Some(
                    RecordingView { data: ring + samples, last_activity: now, started_at: now },
                ),
                finished_clip: Some(
                    FinishedClipView {
                        bytes: file,
                        duration: elapsed(now, rec.started_at),
                        size_bytes: file.len() as usize,
                        captured_at: utc,
                    },
                ),
                events: detector.events.push(
                    "Clip reached 60 second limit; starting a new clip"@ + ": "@ + tenths(
                        elapsed(now, rec.started_at),
                    ) + "s ("@ + decimal(file.len() / 1024) + " KB)"@,
                ).push("Clip recording started"@),
                ..detector
            })
        }),
{
}

/// Left alone, a detector completes a clip that is over, as it stands, and does nothing else.
pub proof fn a_tick_completes_a_clip_that_is_over(detector: DetectorView, now: u64, utc: Timestamp)
    ensures
        !detector.is_over(now) ==> detector.ticked(now, utc) == detector,
        detector.is_over(now) ==> {
            let rec = detector.recording->0;
            let file = wav_file(rec.data, detector.sample_rate);
            detector.ticked(now, utc) == (DetectorView {
                recording: None,
                finished_clip: Some(
                    FinishedClipView {
                        bytes: file,
                        duration: elapsed(now, rec.started_at),
                        size_bytes: file.len() as usize,
                        captured_at: utc,
                    },
                ),
                events: detector.events.push(
                    "Clip recording finished after monitoring stopped"@ + ": "@ + tenths(
                        elapsed(now, rec.started_at),
                    ) + "s ("@ + decimal(file.len() / 1024) + " KB)"@,
                ),
                ..detector
            })
        },
{
}

/// What is shown of the clip in memory: the one that is being recorded with its length so
/// far and two bytes for each sample, else the one that waits with its own size, else none.
pub proof fn the_clip_in_memory_is_shown(detector: DetectorView, now: u64, utc: Timestamp)
    ensures
        detector.recording matches Some(rec) ==> 2 * rec.data.len() <= u64::MAX ==> {
            let clip = detector.snapshot(now, utc);
            &&& clip is Some
            &&& clip->0.key == "In-memory clip ("@ + tenths(elapsed(now, rec.started_at)) + "s)"@
            &&& clip->0.size_bytes == 2 * rec.data.len()
            &&& clip->0.source == ClipSource::InMemoryActive
            &&& clip->0.last_modified == utc.rfc3339_view()
            &&& clip->0.last_modified_display == "Recording now"@
        },
        detector.recording is None ==> (detector.finished_clip matches Some(done) ==> {
            let clip = detector.snapshot(now, utc);
            &&& clip is Some
            &&& clip->0.key == "Pending upload"@
            &&& clip->0.size_bytes == done.size_bytes
            &&& clip->0.source == ClipSource::InMemoryPendingUpload
            &&& clip->0.last_modified == utc.rfc3339_view()
            &&& clip->0.last_modified_display == "Waiting to upload"@
        }),
        detector.recording is None && detector.finished_clip is None ==> detector.snapshot(
            now,
            utc,
        ) is None,
{
}

/// Samples complete a clip exactly where there is one and it is full with sound, or over
/// without.
pub proof fn samples_complete_a_clip(detector: DetectorView, rms: Level, now: u64)
    ensures
        detector.completes(rms, now) <==> (rms.at_least(detector.threshold) && detector.is_full(
            now,
        ) || !rms.at_least(detector.threshold) && detector.is_over(now)),
{
}

/// Lists of texts are seen text by text, in order, and what stands for a clip that may be
/// missing holds what the clip holds.
pub proof fn texts_are_seen_one_by_one(strings: Seq<String>, clip: FinishedClip)
    ensures
        texts(strings).len() == strings.len(),
        forall|i: int| 0 <= i < strings.len() ==> #[trigger] texts(strings)[i] == strings[i]@,
        optional_finished(Some(clip)) == Some(clip@),
        optional_finished(None) is None,
{
}

/// Samples can always be taken, unless the ring would not fit in memory or they complete a
/// clip whose file cannot be written; and so can ticks but for that file.
pub proof fn samples_can_be_taken(detector: DetectorView, count: nat, rms: Level, now: u64)
    ensures
        detector.can_process(count, rms, now) <==> {
            &&& count == 0 || detector.sample_rate * detector.ring_seconds <= usize::MAX
            &&& detector.recording is None || !detector.completes(rms, now) || wav_fits(
                detector.recording->0.data.len() + count,
                detector.sample_rate,
            )
        },
        detector.can_tick(now) <==> detector.recording is None || !detector.is_over(now)
            || wav_fits(detector.recording->0.data.len(), detector.sample_rate),
{
}

} // verus!
