//! Points in time and how they are written.
//!
//! A moment is a number of nanoseconds on the caller's monotonic clock; a `Timestamp` is
//! a point of the calendar, in UTC.

use chrono::{DateTime, Local, Utc};
use std::time::Duration;
use vstd::prelude::*;

verus! {

/// Nanoseconds in a second.
pub const NANOS_PER_SEC: u64 = 1_000_000_000;

/// The last second of the year 262142, counted from 1970.
pub const LAST_SECOND: i64 = 8_210_266_876_799;

/// The first second of the year -262143, counted from 1970.
pub const FIRST_SECOND: i64 = -8_334_601_228_800;

/// How the name of an uploaded clip tells when it was captured.
pub const KEY_PATTERN: &'static str = "%Y%m%dT%H%M%S%.3fZ";

/// How a point in time is shown to the user.
pub const DISPLAY_PATTERN: &'static str = "%b %-d, %Y at %-I:%M:%S %p";

/// The nanoseconds from one moment to another, none where the other came first.
pub open spec fn elapsed(now: u64, since: u64) -> u64 {
    if now >= since {
        (now - since) as u64
    } else {
        0
    }
}

/// Whether a number of nanoseconds reaches a number of seconds.
pub open spec fn lasts(nanos: u64, secs: u64) -> bool {
    nanos >= secs * NANOS_PER_SEC
}

/// How long ago a moment was.
pub fn elapsed_since(now: u64, since: u64) -> (nanos: u64)
    ensures
        nanos == elapsed(now, since),
{
    if now >= since {
        now - since
    } else {
        0
    }
}

/// Whether so many nanoseconds have reached so many seconds.
pub fn has_lasted(nanos: u64, secs: u64) -> (yes: bool)
    ensures
        yes == lasts(nanos, secs),
{
    assert(secs * NANOS_PER_SEC <= u64::MAX * NANOS_PER_SEC) by (nonlinear_arith)
        requires
            secs <= u64::MAX,
    ;
    nanos as u128 >= secs as u128 * NANOS_PER_SEC as u128
}

/// Seconds and nanoseconds since 1970 that stand for a point in time of the calendar. A
/// second with a leap second behind it has twice as many nanoseconds.
pub open spec fn in_calendar(secs: i64, nanos: u32) -> bool {
    &&& FIRST_SECOND <= secs <= LAST_SECOND
    &&& nanos < NANOS_PER_SEC || nanos < 2 * NANOS_PER_SEC && secs % 60 == 59
}

/// Seconds and nanoseconds that a clock can show: from 1970 on, without leap seconds.
pub open spec fn on_clock(secs: i64, nanos: u32) -> bool {
    0 <= secs <= LAST_SECOND && nanos < NANOS_PER_SEC
}

/// A point in time in UTC: whole seconds since 1970 and the nanoseconds after them.
#[derive(Clone, Copy, Debug, PartialEq, Eq, Structural)]
pub struct Timestamp {
    secs: i64,
    nanos: u32,
}

impl Timestamp {
    #[verifier::type_invariant]
    spec fn valid(self) -> bool {
        on_clock(self.secs, self.nanos)
    }

    /// Seconds since 1970.
    pub closed spec fn whole_secs(self) -> i64 {
        self.secs
    }

    /// Nanoseconds after the last whole second.
    pub closed spec fn extra_nanos(self) -> u32 {
        self.nanos
    }

    /// The timestamp of the given seconds and nanoseconds, where a clock can show them.
    pub fn new(secs: i64, nanos: u32) -> (result: Option<Timestamp>)
        ensures
            result is Some <==> on_clock(secs, nanos),
            result matches Some(t) ==> t.whole_secs() == secs && t.extra_nanos() == nanos,
    {
        if 0 <= secs && secs <= LAST_SECOND && (nanos as u64) < NANOS_PER_SEC {
            Some(Timestamp { secs, nanos })
        } else {
            None
        }
    }

    /// The current point in time.
    pub fn now() -> (now: Timestamp)
        ensures
            on_clock(now.whole_secs(), now.extra_nanos()),
    {
        let (secs, nanos) = utc_now();
        Timestamp { secs, nanos }
    }

    /// Seconds since 1970.
    pub fn secs(&self) -> (secs: i64)
        ensures
            secs == self.whole_secs(),
    {
        self.secs
    }

    /// Nanoseconds after the last whole second.
    pub fn nanos(&self) -> (nanos: u32)
        ensures
            nanos == self.extra_nanos(),
    {
        self.nanos
    }

    /// The text of this point in time in the form of RFC 3339.
    pub fn to_rfc3339(&self) -> (text: String)
        ensures
            text@ == self.rfc3339_view(),
    {
        proof {
            use_type_invariant(self);
        }
        rfc3339_text(self.secs, self.nanos)
    }

    /// What `to_rfc3339` returns.
    pub open spec fn rfc3339_view(self) -> Seq<char> {
        rfc3339(self.whole_secs(), self.extra_nanos())
    }

    /// The part of an uploaded clip's name that tells when it was captured.
    pub fn key_stamp(&self) -> (text: String)
        ensures
            text@ == self.key_stamp_view(),
    {
        proof {
            use_type_invariant(self);
        }
        utc_text(self.secs, self.nanos, KEY_PATTERN)
    }

    /// What `key_stamp` returns.
    pub open spec fn key_stamp_view(self) -> Seq<char> {
        zoned(self.whole_secs(), self.extra_nanos(), KEY_PATTERN@, 0)
    }

    /// This point in time as the user reads it, in the machine's time zone.
    pub fn to_local_text(&self) -> (text: String)
        ensures
            local_display(self.whole_secs(), self.extra_nanos(), text@),
    {
        proof {
            use_type_invariant(self);
        }
        local_text(self.secs, self.nanos, DISPLAY_PATTERN)
    }
}

/// Whether a text shows the given point in time as the user reads it, in some time zone.
pub open spec fn local_display(secs: i64, nanos: u32, text: Seq<char>) -> bool {
    in_some_zone(secs, nanos, DISPLAY_PATTERN@, text)
}

/// Whether a text shows a clip's time of change: in some time zone where the time of
/// change is a point in time in RFC 3339, unchanged where it is not.
pub open spec fn clip_display(value: Seq<char>, text: Seq<char>) -> bool {
    match rfc3339_instant(value) {
        Some(instant) => local_display(instant.0, instant.1, text),
        None => text == value,
    }
}

/// A clip's time of change as the user reads it: in the machine's time zone where the
/// text is a point in time in RFC 3339, unchanged where it is not.
pub fn format_clip_timestamp(value: &str) -> (text: String)
    ensures
        clip_display(value@, text@),
{
    match parse_rfc3339(value) {
        Some((secs, nanos)) => local_text(secs, nanos, DISPLAY_PATTERN),
        None => value.to_owned(),
    }
}

// ---------------------------------------------------------------------------
// What comes from outside
// ---------------------------------------------------------------------------

/// What `{:.1}` prints for `Duration::as_secs_f32` of so many nanoseconds.
pub uninterp spec fn tenths(nanos: u64) -> Seq<char>;

/// Calls `Duration::as_secs_f32` and prints the result with one decimal. The text
/// depends on the duration alone; which text it is, is not stated.
#[verifier::external_body]
pub(crate) fn tenths_text(nanos: u64) -> (text: String)
    ensures
        text@ == tenths(nanos),
{
    format!("{:.1}", Duration::from_nanos(nanos).as_secs_f32())
}

/// Calls `chrono::Utc::now`, which returns a point in time from 1970 on that the
/// calendar holds, without a leap second. Which one it is depends on the clock.
#[verifier::external_body]
pub(crate) fn utc_now() -> (now: (i64, u32))
    ensures
        on_clock(now.0, now.1),
{
    let now = Utc::now();
    (now.timestamp(), now.timestamp_subsec_nanos())
}

/// What `DateTime::<Utc>::to_rfc3339` returns.
pub uninterp spec fn rfc3339(secs: i64, nanos: u32) -> Seq<char>;

/// Calls `DateTime::<Utc>::to_rfc3339` on the point in time of the given seconds and
/// nanoseconds. The text depends on them alone.
#[verifier::external_body]
pub(crate) fn rfc3339_text(secs: i64, nanos: u32) -> (text: String)
    requires
        in_calendar(secs, nanos),
    ensures
        text@ == rfc3339(secs, nanos),
{
    DateTime::<Utc>::from_timestamp(secs, nanos).unwrap_or_default().to_rfc3339()
}

/// What `DateTime::format` prints for a point in time at a fixed offset from UTC, in
/// seconds, with a pattern that names no time zone.
pub uninterp spec fn zoned(secs: i64, nanos: u32, pattern: Seq<char>, offset: int) -> Seq<char>;

/// Calls `DateTime::<Utc>::format` on the point in time of the given seconds and
/// nanoseconds, with a pattern that it accepts, and prints the result. The text depends
/// on these alone.
#[verifier::external_body]
pub(crate) fn utc_text(secs: i64, nanos: u32, pattern: &str) -> (text: String)
    requires
        in_calendar(secs, nanos),
        pattern@ == KEY_PATTERN@,
    ensures
        text@ == zoned(secs, nanos, pattern@, 0),
{
    let time = DateTime::<Utc>::from_timestamp(secs, nanos).unwrap_or_default();
    time.format(pattern).to_string()
}

/// Seconds in a day.
pub const SECS_PER_DAY: i64 = 86_400;

/// Whether a text is what `DateTime::format` prints for a point in time at some offset of
/// less than a day.
pub open spec fn in_some_zone(secs: i64, nanos: u32, pattern: Seq<char>, text: Seq<char>) -> bool {
    exists|offset: int|
        -SECS_PER_DAY < offset < SECS_PER_DAY && text == #[trigger] zoned(
            secs,
            nanos,
            pattern,
            offset,
        )
}

/// Calls `DateTime::format` on the point in time of the given seconds and nanoseconds,
/// moved to `chrono::Local`, with a pattern that it accepts, and prints the result: the
/// text of that point in time at some offset from UTC, less than a day either way. Which
/// offset that is depends on the machine's time zone.
#[verifier::external_body]
pub(crate) fn local_text(secs: i64, nanos: u32, pattern: &str) -> (text: String)
    requires
        in_calendar(secs, nanos),
        pattern@ == DISPLAY_PATTERN@,
    ensures
        (exists|offset: int| text@ == #[trigger] zoned(secs, nanos, pattern@, offset)),
        in_some_zone(secs, nanos, pattern@, text@),
{
    let time = DateTime::<Utc>::from_timestamp(secs, nanos).unwrap_or_default();
    time.with_timezone(&Local).format(pattern).to_string()
}

/// The point in time that `DateTime::parse_from_rfc3339` reads from a text.
pub uninterp spec fn rfc3339_instant(value: Seq<char>) -> Option<(i64, u32)>;

/// Calls `DateTime::parse_from_rfc3339`. The result depends on the text alone; what is
/// read is a point in time that the calendar holds.
#[verifier::external_body]
pub(crate) fn parse_rfc3339(value: &str) -> (instant: Option<(i64, u32)>)
    ensures
        instant == rfc3339_instant(value@),
        instant matches Some(i) ==> in_calendar(i.0, i.1),
{
    match DateTime::parse_from_rfc3339(value) {
        Ok(time) => Some((time.timestamp(), time.timestamp_subsec_nanos())),
        Err(_) => None,
    }
}

// ---------------------------------------------------------------------------
// Laws
// ---------------------------------------------------------------------------

/// Time that has passed is counted in nanoseconds, and a second has a thousand million of
/// them; a clock that went back shows none.
pub proof fn time_is_counted_in_nanoseconds(now: u64, since: u64, secs: u64)
    ensures
        now >= since ==> elapsed(now, since) == now - since,
        now < since ==> elapsed(now, since) == 0,
        lasts(now, secs) <==> now >= secs * 1_000_000_000,
{
}

/// What has lasted for a while has lasted for any shorter while, and still has later.
pub proof fn lasting_goes_on(nanos: u64, later: u64, secs: u64, fewer: u64)
    requires
        lasts(nanos, secs),
        nanos <= later,
        fewer <= secs,
    ensures
        lasts(later, fewer),
{
    assert(fewer * 1_000_000_000 <= secs * 1_000_000_000) by (nonlinear_arith)
        requires
            fewer <= secs,
    ;
}

/// A point in time is written with its own seconds and nanoseconds: in UTC, to the
/// millisecond, in the name of a clip.
pub proof fn a_timestamp_is_written_as_it_is(time: Timestamp)
    ensures
        time.rfc3339_view() == rfc3339(time.whole_secs(), time.extra_nanos()),
        time.key_stamp_view() == zoned(
            time.whole_secs(),
            time.extra_nanos(),
            "%Y%m%dT%H%M%S%.3fZ"@,
            0,
        ),
{
}

/// A time of change that can be read is shown as that point in time, in one time zone for
/// all of it; one that cannot be read is shown as it is.
pub proof fn times_of_change_are_shown(value: Seq<char>, text: Seq<char>)
    requires
        clip_display(value, text),
    ensures
        rfc3339_instant(value) is None ==> text == value,
        rfc3339_instant(value) matches Some(i) ==> exists|offset: int|
            -86_400 < offset < 86_400 && text == #[trigger] zoned(
                i.0,
                i.1,
                "%b %-d, %Y at %-I:%M:%S %p"@,
                offset,
            ),
{
}

/// A clock can show every point in time from 1970 to the last second of the calendar, to the
/// nanosecond.
pub proof fn a_clock_shows_every_nanosecond(secs: i64, nanos: u32)
    ensures
        on_clock(secs, nanos) <==> 0 <= secs <= 8_210_266_876_799 && nanos <= 999_999_999,
        on_clock(secs, nanos) ==> in_calendar(secs, nanos),
{
}

} // verus!
