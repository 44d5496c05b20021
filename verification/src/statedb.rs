//! What the state store holds of a shard, and the time at which that was
//! written.
//!
//! The store itself is the caller's. It keeps one record for each shard that
//! was ever built, with the ETag of the body that was built and the time of
//! the build as a text of the form `YYYY-MM-DD HH:MM:SS`, in UTC.

use vstd::prelude::*;

verus! {

/// The record of one shard.
#[derive(Debug)]
pub struct State {
    pub id: u32,
    pub etag: Option<String>,
    pub last_update: String,
}

/// A point in time: the seconds since the start of 1970 in UTC, and the
/// nanoseconds since that second began. During a leap second the nanoseconds
/// go on counting beyond a full second.
#[derive(Clone, Copy, Debug, PartialEq, Eq, Structural)]
pub struct Timestamp {
    pub secs: i64,
    pub nanos: u32,
}

impl Timestamp {
    /// Whether `self` is earlier than `other`.
    pub open spec fn before(self, other: Timestamp) -> bool {
        self.secs < other.secs || (self.secs == other.secs && self.nanos < other.nanos)
    }

    /// Whether `self` is earlier than `other`.
    pub fn is_before(&self, other: &Timestamp) -> (r: bool)
        ensures
            r == self.before(*other),
    {
        self.secs < other.secs || (self.secs == other.secs && self.nanos < other.nanos)
    }
}

/// What `chrono` reads from `text` by the format `format`, taken as a time in
/// UTC: the seconds since the start of 1970 and the nanoseconds within the
/// second; `None` where the text does not fit the format or names no time.
pub uninterp spec fn naive_utc_time(text: Seq<char>, format: Seq<char>) -> Option<(i64, u32)>;

/// `chrono::NaiveDateTime::parse_from_str`, with the result taken as UTC
/// (`and_utc`) and handed out as `timestamp` and `timestamp_subsec_nanos`.
/// The result depends on the two texts alone: no clock, time zone or locale
/// enters it.
#[verifier::external_body]
fn parse_naive_utc(text: &str, format: &str) -> (r: Option<(i64, u32)>)
    ensures
        r == naive_utc_time(text@, format@),
{
    match chrono::NaiveDateTime::parse_from_str(text, format) {
        Ok(time) => Some((time.and_utc().timestamp(), time.and_utc().timestamp_subsec_nanos())),
        Err(_) => None,
    }
}

/// The time that the `last_update` text of a record stands for.
pub open spec fn last_update_time(text: Seq<char>) -> Option<Timestamp> {
    match naive_utc_time(text, "%Y-%m-%d %H:%M:%S"@) {
        Some((secs, nanos)) => Some(Timestamp { secs, nanos }),
        None => None,
    }
}

/// Reads the `last_update` text of a record.
pub fn parse_last_update(text: &str) -> (r: Option<Timestamp>)
    ensures
        r == last_update_time(text@),
{
    match parse_naive_utc(text, "%Y-%m-%d %H:%M:%S") {
        Some((secs, nanos)) => Some(Timestamp { secs, nanos }),
        None => None,
    }
}

/// Whether a shard is due: it was never built, the time of its last build
/// cannot be read, or that time is earlier than `max_age`, the time before
/// which a build counts as outdated.
pub open spec fn is_outdated(max_age: Timestamp, last_update: Option<Timestamp>) -> bool {
    match last_update {
        Some(time) => time.before(max_age),
        None => true,
    }
}

/// Whether a shard whose last build was at `last_update` is due.
pub fn outdated(max_age: &Timestamp, last_update: Option<Timestamp>) -> (r: bool)
    ensures
        r == is_outdated(*max_age, last_update),
{
    match last_update {
        Some(time) => time.is_before(max_age),
        None => true,
    }
}

} // verus!
