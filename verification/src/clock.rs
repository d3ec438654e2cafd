//! Durations and wall-clock instants, as far as the app reads them: whole
//! seconds and whole milliseconds.

use vstd::prelude::*;

use std::time::{Duration, SystemTime};

verus! {

/// `std::time::SystemTime`, carried through as it is.
#[verifier::external_type_specification]
#[verifier::external_body]
pub struct ExSystemTime(SystemTime);

/// What `Duration::as_secs` returns for a duration.
pub uninterp spec fn secs_of(d: Duration) -> u64;

/// What `Duration::as_millis` returns for a duration.
pub uninterp spec fn millis_of(d: Duration) -> u128;

/// What `Duration::from_secs` returns for a number of seconds.
pub uninterp spec fn duration_of_secs(secs: u64) -> Duration;

/// `Duration::from_secs`: a duration of exactly that many seconds, so
/// `as_secs` gives them back and `as_millis` gives a thousand times as many.
#[verifier::external_body]
pub(crate) fn duration_from_secs(secs: u64) -> (d: Duration)
    ensures
        d == duration_of_secs(secs),
        secs_of(d) == secs,
        millis_of(d) == secs * 1000,
{
    Duration::from_secs(secs)
}

/// `Duration::from_millis`: a duration of exactly that many milliseconds, so
/// `as_millis` gives them back and `as_secs` the whole seconds in them.
#[verifier::external_body]
pub(crate) fn duration_from_millis(ms: u64) -> (d: Duration)
    ensures
        millis_of(d) == ms,
        secs_of(d) == ms / 1000,
{
    Duration::from_millis(ms)
}

/// `Duration::as_secs`: the whole seconds.
#[verifier::external_body]
pub(crate) fn duration_secs(d: Duration) -> (r: u64)
    ensures
        r == secs_of(d),
{
    d.as_secs()
}

/// `Duration::as_millis`: the whole milliseconds, which are the whole seconds
/// times a thousand plus the milliseconds under a second.
#[verifier::external_body]
pub(crate) fn duration_millis(d: Duration) -> (r: u128)
    ensures
        r == millis_of(d),
        r / 1000 == secs_of(d),
{
    d.as_millis()
}

/// What `end.duration_since(start).ok()` gives for two instants: how long
/// after `start` the instant `end` is, or nothing when `end` is earlier.
pub uninterp spec fn elapsed_of(start: SystemTime, end: SystemTime) -> Option<Duration>;

/// `SystemTime::duration_since`: how long after `start` the instant `end` is,
/// or nothing when `end` is earlier. It reads only the two instants, which
/// Verus cannot look inside, so its result is named rather than spelled out.
#[verifier::external_body]
pub(crate) fn elapsed_between(start: SystemTime, end: SystemTime) -> (r: Option<Duration>)
    ensures
        r == elapsed_of(start, end),
{
    end.duration_since(start).ok()
}

} // verus!
