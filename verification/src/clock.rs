//! Instants of UTC time.
use vstd::prelude::*;

verus! {

/// The first second of the calendar: January 1 of the year -262143.
pub const MIN_SECS: i64 = -8334601228800;

/// The last second of the calendar: December 31 of the year 262142.
pub const MAX_SECS: i64 = 8210266876799;

/// The format of a date such as `July 8, 2001`.
pub const LONG_DATE: &'static str = "%B %-d, %Y";

/// The format of a date such as `2001-07-08`.
pub const ISO_DATE: &'static str = "%Y-%m-%d";

/// An instant: seconds since the beginning of 1970, and the nanoseconds since that second.
#[derive(Debug, Clone, Copy, PartialEq, Eq, Structural)]
pub struct UtcTime {
    /// The whole seconds, rounded down.
    pub secs: i64,
    /// The nanoseconds behind them.
    pub nanos: u32,
}

impl UtcTime {
    /// Whether the instant lies in the calendar.
    pub open spec fn valid(self) -> bool {
        MIN_SECS <= self.secs <= MAX_SECS && self.nanos < 1_000_000_000
    }

    /// Decides [`UtcTime::valid`].
    pub fn is_valid(&self) -> (r: bool)
        ensures
            r == self.valid(),
    {
        MIN_SECS <= self.secs && self.secs <= MAX_SECS && self.nanos < 1_000_000_000
    }

    /// The milliseconds since the beginning of 1970, rounded down.
    pub open spec fn millis(self) -> int {
        self.secs * 1000 + self.nanos / 1_000_000
    }

    /// Computes [`UtcTime::millis`].
    pub fn timestamp_millis(&self) -> (r: i64)
        requires
            self.valid(),
        ensures
            r == self.millis(),
    {
        self.secs * 1000 + (self.nanos / 1_000_000) as i64
    }
}

/// Whether so many milliseconds since the beginning of 1970 lie in the calendar.
pub open spec fn millis_in_range(ms: int) -> bool {
    MIN_SECS * 1000 <= ms < (MAX_SECS + 1) * 1000
}

/// The whole seconds from `then` to `now`, rounded towards zero.
pub open spec fn seconds_between(now: UtcTime, then: UtcTime) -> int {
    let d = (now.secs - then.secs) * 1_000_000_000 + (now.nanos - then.nanos);
    if d >= 0 {
        d / 1_000_000_000
    } else {
        -((-d) / 1_000_000_000)
    }
}

/// What `chrono::DateTime::format` writes of an instant (its seconds and nanoseconds) for a
/// format.
pub uninterp spec fn formatted_time(secs: int, nanos: int, format: Seq<char>) -> Seq<char>;

/// Whether the clock may show the instant: it counts from the beginning of 1970.
pub open spec fn may_be_now(t: UtcTime) -> bool {
    t.valid() && t.secs >= 0
}

/// `chrono::Utc::now`, and the seconds and nanoseconds of what it returns: some instant of the
/// calendar that is not before 1970, since it is measured from there. Nothing is said of which
/// one. (Built with its feature `wasmbind`, which is off here, `chrono` asks a browser instead.)
#[verifier::external_body]
pub(crate) fn utc_now() -> (r: UtcTime)
    ensures
        may_be_now(r),
{
    let now = chrono::Utc::now();
    UtcTime { secs: now.timestamp(), nanos: now.timestamp_subsec_nanos() }
}

/// `chrono::DateTime::from_timestamp_millis`: the instant that lies so many milliseconds after
/// the beginning of 1970, where it lies in the calendar.
#[verifier::external_body]
pub(crate) fn time_of_millis(ms: i64) -> (r: Option<UtcTime>)
    ensures
        r is Some == millis_in_range(ms as int),
        r matches Some(t) ==> t.secs == ms as int / 1000 && t.nanos == (ms as int % 1000)
            * 1_000_000,
{
    match chrono::DateTime::from_timestamp_millis(ms) {
        Some(t) => Some(UtcTime { secs: t.timestamp(), nanos: t.timestamp_subsec_nanos() }),
        None => None,
    }
}

/// `chrono::DateTime::signed_duration_since`, in whole seconds (`chrono::TimeDelta::num_seconds`):
/// the time from `then` to `now`, rounded towards zero.
#[verifier::external_body]
pub(crate) fn seconds_since(now: UtcTime, then: UtcTime) -> (r: i64)
    requires
        now.valid(),
        then.valid(),
    ensures
        r == seconds_between(now, then),
{
    let a = chrono::DateTime::from_timestamp(now.secs, now.nanos).unwrap();
    let b = chrono::DateTime::from_timestamp(then.secs, then.nanos).unwrap();
    a.signed_duration_since(b).num_seconds()
}

/// `chrono::DateTime::format`, for the two formats that are used here: what it writes is named
/// [`formatted_time`].
#[verifier::external_body]
pub(crate) fn format_time(t: UtcTime, format: &str) -> (r: String)
    requires
        t.valid(),
        format@ == LONG_DATE@ || format@ == ISO_DATE@,
    ensures
        r@ == formatted_time(t.secs as int, t.nanos as int, format@),
{
    let time = chrono::DateTime::from_timestamp(t.secs, t.nanos).unwrap();
    time.format(format).to_string()
}

/// An instant lies in the calendar from its first second to its last one, and its milliseconds are
/// the whole ones that have passed at it.
pub proof fn law_millis_have_passed(t: UtcTime)
    ensures
        t.valid() <==> MIN_SECS <= t.secs <= MAX_SECS && t.nanos < 1_000_000_000,
        may_be_now(t) <==> t.valid() && 0 <= t.secs,
        t.millis() * 1_000_000 <= t.secs * 1_000_000_000 + t.nanos < (t.millis() + 1) * 1_000_000,
{
}

/// The seconds between two instants are the whole ones that lie between them, and are the same,
/// with the other sign, in the other direction.
pub proof fn law_seconds_lie_between(now: UtcTime, then: UtcTime)
    ensures
        ({
            let d = (now.secs - then.secs) * 1_000_000_000 + (now.nanos - then.nanos);
            let s = seconds_between(now, then);
            d >= 0 ==> s * 1_000_000_000 <= d < (s + 1) * 1_000_000_000
        }),
        seconds_between(then, now) == -seconds_between(now, then),
{
}

} // verus!
