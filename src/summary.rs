//! The session summary produced by an analysis, and the repair of its time
//! range.

use vstd::prelude::*;
use crate::repair::rfc3339_text;

verus! {

/// A point in time in UTC: whole seconds since the Unix epoch and the
/// nanoseconds past them (up to two seconds' worth, for a leap second).
#[derive(Clone, Copy, Debug, PartialEq, Eq, Structural)]
pub struct Timestamp {
    pub secs: i64,
    pub nanos: u32,
}

impl Timestamp {
    /// `self` lies strictly after `other`.
    pub open spec fn is_after(self, other: Timestamp) -> bool {
        self.secs > other.secs || (self.secs == other.secs && self.nanos > other.nanos)
    }

    /// Whether `self` lies strictly after `other`.
    pub fn after(&self, other: &Timestamp) -> (r: bool)
        ensures
            r == self.is_after(*other),
    {
        self.secs > other.secs || (self.secs == other.secs && self.nanos > other.nanos)
    }
}

/// Relies on `chrono::Utc::now`: the current time, as seconds since the
/// epoch and the nanoseconds past them. chrono documents that
/// `DateTime::from_timestamp` gives back any time read this way, so it has
/// an RFC 3339 text.
#[verifier::external_body]
pub(crate) fn utc_now() -> (r: Timestamp)
    ensures
        rfc3339_text(r.secs as int, r.nanos as int) is Some,
{
    let now = chrono::Utc::now();
    Timestamp { secs: now.timestamp(), nanos: now.timestamp_subsec_nanos() }
}

/// The kind of activity that a tag names.
#[derive(Clone, Copy, Debug, PartialEq, Eq, Structural)]
pub enum ActivityCategory {
    Work,
    Communication,
    Learning,
    Personal,
    Idle,
    Other,
}

/// One activity tag of a summary.
#[derive(Clone, Debug)]
pub struct ActivityTag {
    pub category: ActivityCategory,
    /// The confidence in [0, 1], carried as the bit pattern of an IEEE-754
    /// double: this library passes it on and never computes with it.
    pub confidence_bits: u64,
    pub keywords: Vec<String>,
}

/// A moment of the session worth pointing out.
#[derive(Clone, Debug)]
pub struct KeyMoment {
    /// Offset into the session, as `MM:SS`.
    pub time: String,
    pub description: String,
    pub importance: i64,
}

/// The structured description of one captured session.
#[derive(Clone, Debug)]
pub struct SessionSummary {
    pub title: String,
    pub summary: String,
    pub tags: Vec<ActivityTag>,
    pub key_moments: Vec<KeyMoment>,
    pub productivity_score: i64,
    pub focus_score: i64,
    pub start_time: Timestamp,
    pub end_time: Timestamp,
}

impl SessionSummary {
    /// The time range does not run backwards.
    pub open spec fn is_ordered(&self) -> bool {
        !self.start_time.is_after(self.end_time)
    }

    /// `self` and `other` agree on everything but the time range.
    pub open spec fn same_content(&self, other: &SessionSummary) -> bool {
        &&& self.title == other.title
        &&& self.summary == other.summary
        &&& self.tags == other.tags
        &&& self.key_moments == other.key_moments
        &&& self.productivity_score == other.productivity_score
        &&& self.focus_score == other.focus_score
    }
}

/// Restores the order of the time range: a summary whose start lies after its
/// end gets `now` as both; any other summary is returned as it is.
pub fn enforce_time_order(summary: SessionSummary, now: Timestamp) -> (r: SessionSummary)
    ensures
        r.same_content(&summary),
        summary.start_time.is_after(summary.end_time) ==> r.start_time == now && r.end_time
            == now,
        !summary.start_time.is_after(summary.end_time) ==> r.start_time == summary.start_time
            && r.end_time == summary.end_time,
        r.is_ordered(),
{
    let mut s = summary;
    if s.start_time.after(&s.end_time) {
        s.start_time = now;
        s.end_time = now;
    }
    s
}

/// Restores the order of the time range against the current time: a summary
/// whose start lies after its end gets the current time as both.
pub fn order_time_range(summary: SessionSummary) -> (r: SessionSummary)
    ensures
        r.same_content(&summary),
        summary.start_time.is_after(summary.end_time) ==> r.start_time == r.end_time,
        !summary.start_time.is_after(summary.end_time) ==> r.start_time == summary.start_time
            && r.end_time == summary.end_time,
        r.is_ordered(),
{
    enforce_time_order(summary, utc_now())
}

} // verus!
