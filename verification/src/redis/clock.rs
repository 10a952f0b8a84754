//! Points in time, as `chrono::DateTime<Utc>` holds them, and the `chrono`
//! calls that read the clock and do date arithmetic on them.
//!
//! A value of `DateTime<Utc>` is kept here as its whole seconds since the
//! Unix epoch (`DateTime::timestamp`) and the nanoseconds within that second
//! (`DateTime::timestamp_subsec_nanos`). The times it can hold run from
//! `MIN_SECS` seconds to the last nanosecond of second `MAX_SECS`, the
//! readings of `DateTime::<Utc>::MIN_UTC` and `DateTime::<Utc>::MAX_UTC`.
//! Spans of time are kept as whole milliseconds.

use vstd::prelude::*;

verus! {

/// `DateTime::<Utc>::MIN_UTC` (1 January of year -262143, 00:00:00) in
/// seconds since the Unix epoch.
pub const MIN_SECS: i64 = -8334601228800i64;

/// `DateTime::<Utc>::MAX_UTC` (31 December of year 262142, 23:59:59 and
/// 999999999 nanoseconds) in whole seconds since the Unix epoch.
pub const MAX_SECS: i64 = 8210266876799i64;

/// A point in time: whole seconds since the Unix epoch (rounded down) and
/// the nanoseconds after that second.
#[derive(Debug, Clone, Copy, PartialEq, Eq)]
pub struct Timestamp {
    pub secs: i64,
    pub nanos: u32,
}

/// The nanoseconds since the Unix epoch of a point in time.
pub open spec fn nanos_of(t: Timestamp) -> int {
    t.secs * 1_000_000_000 + t.nanos
}

/// Whether a point in time is one that `DateTime<Utc>` can hold, leap
/// seconds aside.
pub open spec fn valid_time(t: Timestamp) -> bool {
    &&& t.nanos < 1_000_000_000
    &&& MIN_SECS <= t.secs <= MAX_SECS
}

/// The point in time `n` nanoseconds after the Unix epoch, if
/// `DateTime<Utc>` can hold it.
pub open spec fn time_of_nanos(n: int) -> Option<Timestamp> {
    if MIN_SECS * 1_000_000_000 <= n <= MAX_SECS * 1_000_000_000 + 999_999_999 {
        Some(Timestamp { secs: (n / 1_000_000_000) as i64, nanos: (n % 1_000_000_000) as u32 })
    } else {
        None
    }
}

/// The largest number of seconds that `TimeDelta::try_seconds` accepts,
/// `i64::MAX / 1000`; the smallest is its negation.
pub open spec fn max_delta_seconds() -> int {
    9_223_372_036_854_775
}

/// What `TimeDelta::try_seconds(secs)` gives, in milliseconds.
pub open spec fn try_seconds_millis(secs: int) -> Option<i64> {
    if -max_delta_seconds() <= secs <= max_delta_seconds() {
        Some((secs * 1000) as i64)
    } else {
        None
    }
}

/// What `TimeDelta::try_milliseconds(ms)` gives, in milliseconds.
pub open spec fn try_milliseconds_millis(ms: int) -> Option<i64> {
    if ms >= -i64::MAX {
        Some(ms as i64)
    } else {
        None
    }
}

/// What `DateTime::checked_add_signed` gives for a time and a span of
/// `delta` milliseconds: their sum, where `DateTime<Utc>` can hold it.
pub open spec fn checked_add_spec(at: Timestamp, delta: int) -> Option<Timestamp> {
    time_of_nanos(nanos_of(at) + delta * 1_000_000)
}

/// What `DateTime::from_timestamp_millis(ms)` gives.
pub open spec fn from_timestamp_millis_spec(ms: int) -> Option<Timestamp> {
    time_of_nanos(ms * 1_000_000)
}

/// `chrono::Utc::now`, read with `DateTime::timestamp` and
/// `DateTime::timestamp_subsec_nanos`. Claimed: the reading is a time that
/// `DateTime<Utc>` can hold, and not before the Unix epoch (`Utc::now`
/// panics on a system clock set before 1970). What time it is, the clock
/// decides: nothing more is said.
#[verifier::external_body]
pub(crate) fn utc_now() -> (r: Timestamp)
    ensures
        valid_time(r),
        r.secs >= 0,
{
    let t = chrono::Utc::now();
    Timestamp { secs: t.timestamp(), nanos: t.timestamp_subsec_nanos() }
}

/// `chrono::TimeDelta::try_seconds`, the span read back with
/// `TimeDelta::num_milliseconds`. Claimed, as its documentation says: a
/// span of `secs` seconds when `|secs| <= i64::MAX / 1000`, else `None`.
#[verifier::external_body]
pub(crate) fn time_delta_try_seconds(secs: i64) -> (r: Option<i64>)
    ensures
        r == try_seconds_millis(secs as int),
{
    match chrono::TimeDelta::try_seconds(secs) {
        Some(d) => Some(d.num_milliseconds()),
        None => None,
    }
}

/// `chrono::TimeDelta::try_milliseconds`, the span read back with
/// `TimeDelta::num_milliseconds`. Claimed, as its documentation says: a
/// span of `ms` milliseconds unless `ms < -i64::MAX`, then `None`.
#[verifier::external_body]
pub(crate) fn time_delta_try_milliseconds(ms: i64) -> (r: Option<i64>)
    ensures
        r == try_milliseconds_millis(ms as int),
{
    match chrono::TimeDelta::try_milliseconds(ms) {
        Some(d) => Some(d.num_milliseconds()),
        None => None,
    }
}

/// `chrono::DateTime::<Utc>::checked_add_signed`, with the time given as
/// seconds and nanoseconds (`DateTime::from_timestamp`) and read back the
/// same way, and the span made with `TimeDelta::milliseconds`. Claimed, as
/// its documentation says: the sum, or `None` if it is out of range.
#[verifier::external_body]
pub(crate) fn datetime_checked_add_signed(at: Timestamp, delta: i64) -> (r: Option<Timestamp>)
    requires
        valid_time(at),
        delta >= -i64::MAX,
    ensures
        r == checked_add_spec(at, delta as int),
{
    let at = chrono::DateTime::from_timestamp(at.secs, at.nanos).expect("a time in range");
    match at.checked_add_signed(chrono::TimeDelta::milliseconds(delta)) {
        Some(t) => Some(Timestamp { secs: t.timestamp(), nanos: t.timestamp_subsec_nanos() }),
        None => None,
    }
}

/// `chrono::DateTime::from_timestamp_millis`, read back with
/// `DateTime::timestamp` and `timestamp_subsec_nanos`. Claimed, as its
/// documentation says (it round-trips with `timestamp_millis`): the time
/// `ms` milliseconds after the epoch, or `None` when out of range.
#[verifier::external_body]
pub(crate) fn datetime_from_timestamp_millis(ms: i64) -> (r: Option<Timestamp>)
    ensures
        r == from_timestamp_millis_spec(ms as int),
{
    match chrono::DateTime::from_timestamp_millis(ms) {
        Some(t) => Some(Timestamp { secs: t.timestamp(), nanos: t.timestamp_subsec_nanos() }),
        None => None,
    }
}

/// `chrono::DateTime::<Utc>::signed_duration_since`, with both times given
/// as seconds and nanoseconds, and the span read back with
/// `TimeDelta::num_seconds` and `TimeDelta::subsec_nanos`. Claimed: the
/// span from `since` to `at`, exactly, as whole seconds and a part of a
/// second of the same sign, which together make up
/// `nanos_of(at) - nanos_of(since)` nanoseconds.
#[verifier::external_body]
pub(crate) fn datetime_signed_duration_since(at: Timestamp, since: Timestamp) -> (r: (i64, i32))
    requires
        valid_time(at),
        valid_time(since),
    ensures
        r.0 * 1_000_000_000 + r.1 == nanos_of(at) - nanos_of(since),
        -1_000_000_000 < r.1 < 1_000_000_000,
{
    let at = chrono::DateTime::from_timestamp(at.secs, at.nanos).expect("a time in range");
    let since = chrono::DateTime::from_timestamp(since.secs, since.nanos).expect("a time in range");
    let d = at.signed_duration_since(since);
    (d.num_seconds(), d.subsec_nanos())
}

} // verus!
