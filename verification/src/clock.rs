//! Points in time, and the whole seconds between them.

use vstd::prelude::*;

verus! {

/// Nanoseconds in a second.
pub const NANOS_PER_SECOND: u32 = 1_000_000_000;

/// A second near the beginning of the calendar.
pub const FIRST_SECOND: i64 = -8_334_601_228_800;

/// The last second of the calendar.
pub const LAST_SECOND: i64 = 8_210_266_876_799;

/// A point in time, in seconds and nanoseconds since the Unix epoch.
#[derive(Clone, Copy, Debug, PartialEq, Eq, Structural)]
pub struct Timestamp {
    pub secs: i64,
    pub nanos: u32,
}

impl Timestamp {
    /// Whether the calendar covers this point.
    pub open spec fn wf(self) -> bool {
        FIRST_SECOND <= self.secs <= LAST_SECOND && self.nanos < NANOS_PER_SECOND
    }

    /// Nanoseconds since the epoch.
    pub open spec fn total_nanos(self) -> int {
        self.secs * 1_000_000_000 + self.nanos
    }
}

/// The whole seconds from `earlier` to `later`, towards zero.
pub open spec fn whole_seconds(later: Timestamp, earlier: Timestamp) -> int {
    let d = later.total_nanos() - earlier.total_nanos();
    if d >= 0 {
        d / 1_000_000_000
    } else {
        -((-d) / 1_000_000_000)
    }
}

/// The current time.
///
/// Trusted: `chrono::Utc::now`, taken apart with `timestamp` and `timestamp_subsec_nanos`. All
/// that is claimed is that the time lies after the epoch, within the calendar, and that no leap
/// second is reported.
#[verifier::external_body]
pub(crate) fn now() -> (r: Timestamp)
    ensures
        r.wf(),
        r.secs >= 0,
{
    let now = chrono::Utc::now();
    Timestamp { secs: now.timestamp(), nanos: now.timestamp_subsec_nanos() }
}

/// The whole seconds between two points in time.
///
/// Trusted: `chrono::DateTime::signed_duration_since` with `chrono::TimeDelta::num_seconds`, which
/// count the nanoseconds between the two and drop the fraction of a second.
#[verifier::external_body]
pub(crate) fn seconds_between(later: Timestamp, earlier: Timestamp) -> (r: i64)
    requires
        later.wf(),
        earlier.wf(),
    ensures
        r == whole_seconds(later, earlier),
{
    let to = chrono::DateTime::from_timestamp(later.secs, later.nanos).unwrap_or_default();
    let from = chrono::DateTime::from_timestamp(earlier.secs, earlier.nanos).unwrap_or_default();
    to.signed_duration_since(from).num_seconds()
}

/// Seconds elapsed, never negative: a clock that was set back counts as no time.
pub fn elapsed_seconds(now: Timestamp, since: Timestamp) -> (r: i64)
    requires
        now.wf(),
        since.wf(),
    ensures
        r == (if whole_seconds(now, since) > 0 {
            whole_seconds(now, since)
        } else {
            0
        }),
{
    let s: i64 = seconds_between(now, since);
    if s > 0 {
        s
    } else {
        0
    }
}

/// The seconds that have elapsed are whole ones: they have passed, one more has not. A clock that was
/// set back counts as no time.
pub proof fn law_elapsed_seconds_have_passed(now: Timestamp, since: Timestamp, r: i64)
    requires
        now.wf(),
        since.wf(),
        call_ensures(elapsed_seconds, (now, since), r),
    ensures
        ({
            let d = now.total_nanos() - since.total_nanos();
            &&& d >= 0 ==> r * 1_000_000_000 <= d < (r + 1) * 1_000_000_000
            &&& d < 0 ==> r == 0
            &&& r >= 0
        }),
{
    let d = now.total_nanos() - since.total_nanos();
    if d >= 0 {
        assert(d == (d / 1_000_000_000) * 1_000_000_000 + d % 1_000_000_000);
    } else {
        assert((-d) / 1_000_000_000 >= 0);
    }
}

/// The nanoseconds of a point in time are those of its seconds and those beside them.
pub proof fn law_time_is_counted_in_nanoseconds(t: Timestamp)
    ensures
        t.total_nanos() == t.secs * 1_000_000_000 + t.nanos,
        t.wf() ==> t.nanos < 1_000_000_000,
{
}

} // verus!
