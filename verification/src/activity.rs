//! The log of what happened lately.

use std::collections::VecDeque;
use vstd::prelude::*;

use crate::time::Timestamp;

verus! {

/// How many entries the log keeps.
pub const MAX_ACTIVITY: usize = 100;

/// Something that happened, and when.
#[derive(Debug)]
pub struct ActivityEntry {
    pub timestamp: Timestamp,
    pub message: String,
}

/// What an `ActivityEntry` holds.
#[verifier::ext_equal]
pub struct ActivityView {
    pub timestamp: Timestamp,
    pub message: Seq<char>,
}

impl View for ActivityEntry {
    type V = ActivityView;

    open spec fn view(&self) -> ActivityView {
        ActivityView { timestamp: self.timestamp, message: self.message@ }
    }
}

impl Clone for ActivityEntry {
    fn clone(&self) -> (copy: Self)
        ensures
            copy == *self,
    {
        ActivityEntry { timestamp: self.timestamp, message: self.message.clone() }
    }
}

/// What a log holds, the newest entry first.
pub open spec fn log_view(log: Seq<ActivityEntry>) -> Seq<ActivityView> {
    log.map_values(|e: ActivityEntry| e@)
}

/// A log with a new entry in front and without what is too old to be kept.
pub open spec fn logged(log: Seq<ActivityView>, entry: ActivityView) -> Seq<ActivityView> {
    let longer = seq![entry] + log;
    if longer.len() <= MAX_ACTIVITY {
        longer
    } else {
        longer.take(MAX_ACTIVITY as int)
    }
}

/// A log with a message in front that is dated as given.
pub open spec fn noted(
    log: Seq<ActivityView>,
    message: Seq<char>,
    timestamp: Timestamp,
) -> Seq<ActivityView> {
    logged(log, ActivityView { timestamp, message })
}

impl ActivityEntry {
    /// An entry that happens now. When that is, the clock says.
    pub fn new(message: String) -> (entry: Self)
        ensures
            entry@.message == message@,
    {
        ActivityEntry { timestamp: Timestamp::now(), message }
    }
}

/// Puts an entry in front of a log and drops what is too old to be kept.
pub fn push_entry(log: &mut VecDeque<ActivityEntry>, entry: ActivityEntry)
    ensures
        log_view(final(log)@) == logged(log_view(old(log)@), entry@),
{
    let ghost before = log@;
    log.push_front(entry);
    let ghost longer = log@;
    assert(log_view(longer) =~= seq![entry@] + log_view(before));
    while log.len() > MAX_ACTIVITY
        invariant
            log@.len() <= longer.len(),
            log@ == longer.take(log@.len() as int),
            longer.len() > MAX_ACTIVITY ==> log@.len() >= MAX_ACTIVITY,
            longer.len() <= MAX_ACTIVITY ==> log@ == longer,
        decreases log@.len(),
    {
        let ghost n = log@.len() as int;
        log.pop_back();
        assert(longer.take(n).subrange(0, n - 1) =~= longer.take(n - 1));
    }
    assert(log_view(log@) =~= logged(log_view(before), entry@));
}

/// Puts a message that happens now in front of a log and drops what is too old to be kept.
pub fn push_activity(log: &mut VecDeque<ActivityEntry>, message: String)
    ensures
        exists|timestamp: Timestamp|
            log_view(final(log)@) == #[trigger] noted(log_view(old(log)@), message@, timestamp),
{
    let entry = ActivityEntry::new(message);
    let ghost timestamp = entry.timestamp;
    push_entry(log, entry);
    assert(log_view(log@) == noted(log_view(old(log)@), message@, timestamp));
}

// ---------------------------------------------------------------------------
// Laws
// ---------------------------------------------------------------------------

/// A log that is not too long never becomes too long; its newest entry is the last one
/// that was put in, and behind it stands what stood there before, in the same order.
pub proof fn log_keeps_the_newest(log: Seq<ActivityView>, entry: ActivityView)
    requires
        log.len() <= MAX_ACTIVITY,
    ensures
        logged(log, entry).len() <= MAX_ACTIVITY,
        logged(log, entry)[0] == entry,
        forall|i: int|
            1 <= i < logged(log, entry).len() ==> #[trigger] logged(log, entry)[i] == log[i - 1],
        log.len() < MAX_ACTIVITY ==> logged(log, entry).len() == log.len() + 1,
        log.len() == MAX_ACTIVITY ==> logged(log, entry).len() == MAX_ACTIVITY,
{
}

/// A message that is noted is the newest entry, with its own text and the time that it was
/// noted at; the log keeps a hundred entries, and the older ones move back by one place.
pub proof fn a_message_is_noted_in_front(
    log: Seq<ActivityView>,
    message: Seq<char>,
    timestamp: Timestamp,
)
    requires
        log.len() <= 100,
    ensures
        ({
            let after = noted(log, message, timestamp);
            &&& after.len() == (if log.len() < 100 {
                log.len() + 1
            } else {
                100
            })
            &&& after[0].message == message
            &&& after[0].timestamp == timestamp
            &&& after.skip(1) == log.take(after.len() - 1)
        }),
{
    let after = noted(log, message, timestamp);
    assert(after.skip(1) =~= log.take(after.len() - 1));
}

/// A log is seen entry by entry, in order.
pub proof fn a_log_is_seen_entry_by_entry(log: Seq<ActivityEntry>)
    ensures
        log_view(log).len() == log.len(),
        forall|i: int|
            0 <= i < log.len() ==> (#[trigger] log_view(log)[i]).message == log[i].message@
                && log_view(log)[i].timestamp == log[i].timestamp,
{
}

} // verus!
