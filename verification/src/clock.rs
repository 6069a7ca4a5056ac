//! Readings of the system's clocks.

use core::time::Duration;
use std::time::Instant;

use vstd::prelude::*;

verus! {

/// `std::time::Instant`, a reading of the monotonic clock.
#[verifier::external_type_specification]
#[verifier::external_body]
pub struct ExInstant(std::time::Instant);

/// Whether the monotonic clock can show this reading.
pub uninterp spec fn may_be_now(t: Instant) -> bool;

/// `std::time::Instant::now` reads the monotonic clock. What it shows is left
/// open.
pub assume_specification[ std::time::Instant::now ]() -> (t: Instant)
    ensures
        may_be_now(t),
;

/// Whether a duration can be what the monotonic clock shows as passed since an
/// earlier reading.
pub uninterp spec fn may_have_passed(earlier: Instant, elapsed: Duration) -> bool;

/// `std::time::Instant::elapsed` reads the monotonic clock again and gives what
/// has passed since the earlier reading. How much that is is left open.
pub assume_specification[ std::time::Instant::elapsed ](earlier: &Instant) -> (elapsed: Duration)
    ensures
        may_have_passed(*earlier, elapsed),
;

/// The length of a duration in nanoseconds.
pub uninterp spec fn duration_nanos(d: Duration) -> nat;

/// The length of a duration in whole milliseconds, cut to its low 64 bits.
pub open spec fn millis_of(d: Duration) -> u64 {
    (duration_nanos(d) / 1_000_000) as u64
}

/// `core::time::Duration::as_nanos` gives the total number of nanoseconds of a
/// duration.
pub assume_specification[ core::time::Duration::as_nanos ](d: &Duration) -> (nanos: u128)
    ensures
        nanos == duration_nanos(*d),
;

/// `core::time::Duration::as_millis` gives the total number of whole
/// milliseconds of a duration, without the rest of its nanoseconds.
pub assume_specification[ core::time::Duration::as_millis ](d: &Duration) -> (millis: u128)
    ensures
        millis == duration_nanos(*d) / 1_000_000,
;

/// The milliseconds that have passed since `earlier`.
pub fn millis_since(earlier: &Instant) -> (millis: u64)
    ensures
        may_be_millis_since(*earlier, millis),
{
    whole_millis(earlier.elapsed())
}

/// Whether so many milliseconds can have passed since an earlier reading of the
/// monotonic clock.
pub open spec fn may_be_millis_since(earlier: Instant, millis: u64) -> bool {
    exists|elapsed: Duration| may_have_passed(earlier, elapsed) && millis == #[trigger] millis_of(elapsed)
}

/// The nanoseconds that have passed since `earlier`.
pub fn nanos_since(earlier: &Instant) -> (nanos: u128)
    ensures
        may_be_nanos_since(*earlier, nanos),
{
    earlier.elapsed().as_nanos()
}

/// Whether so many nanoseconds can have passed since an earlier reading of the
/// monotonic clock.
pub open spec fn may_be_nanos_since(earlier: Instant, nanos: u128) -> bool {
    exists|elapsed: Duration| may_have_passed(earlier, elapsed) && nanos == #[trigger] duration_nanos(elapsed)
}

/// Whether so many nanoseconds can have passed since something that may not have
/// happened yet; then none have.
pub open spec fn may_be_nanos_since_last(last: Option<Instant>, nanos: u128) -> bool {
    match last {
        Some(earlier) => may_be_nanos_since(earlier, nanos),
        None => nanos == 0,
    }
}

/// The nanoseconds that have passed since something; zero if it has not happened
/// yet.
pub fn nanos_since_last(last: &Option<Instant>) -> (nanos: u128)
    ensures
        may_be_nanos_since_last(*last, nanos),
{
    match last {
        Some(earlier) => nanos_since(earlier),
        None => 0,
    }
}

/// The length of a duration in whole milliseconds, cut to its low 64 bits.
pub fn whole_millis(elapsed: Duration) -> (millis: u64)
    ensures
        millis == millis_of(elapsed),
{
    #[verifier::truncate]
    let millis: u64 = elapsed.as_millis() as u64;
    millis
}

/// `std::time::SystemTime`, a reading of the wall clock.
#[verifier::external_type_specification]
#[verifier::external_body]
pub struct ExSystemTime(std::time::SystemTime);

/// `std::time::SystemTimeError`, returned when a later reading was expected.
#[verifier::external_type_specification]
#[verifier::external_body]
pub struct ExSystemTimeError(std::time::SystemTimeError);

/// Whether the wall clock can show this reading.
pub uninterp spec fn may_be_time(t: std::time::SystemTime) -> bool;

/// `std::time::SystemTime::now` reads the wall clock. What it shows is left open.
pub assume_specification[ std::time::SystemTime::now ]() -> (t: std::time::SystemTime)
    ensures
        may_be_time(t),
;

/// The time from the start of 1970 to a reading of the wall clock, or an error for
/// a reading before 1970.
pub uninterp spec fn time_since_epoch(t: std::time::SystemTime) -> Result<Duration, std::time::SystemTimeError>;

/// `std::time::SystemTime::duration_since`, from the start of 1970 on. It depends
/// on the reading alone.
#[verifier::external_body]
fn since_epoch(t: &std::time::SystemTime) -> (r: Result<Duration, std::time::SystemTimeError>)
    ensures
        r == time_since_epoch(*t),
{
    t.duration_since(std::time::UNIX_EPOCH)
}

/// `core::time::Duration::subsec_nanos` gives the part of a duration below one
/// second in nanoseconds, which is less than one billion.
pub assume_specification[ core::time::Duration::subsec_nanos ](d: &Duration) -> (nanos: u32)
    ensures
        nanos == duration_nanos(*d) % 1_000_000_000,
;

/// The part below one second of the time since the start of 1970, or zero when
/// the clock stands before it.
pub open spec fn subsecond_of(since: Result<Duration, std::time::SystemTimeError>) -> u32 {
    match since {
        Ok(d) => (duration_nanos(d) % 1_000_000_000) as u32,
        Err(_) => 0,
    }
}

/// Whether the wall clock can show so many nanoseconds within its second.
pub open spec fn may_be_subsecond(nanos: u32) -> bool {
    exists|t: std::time::SystemTime| #[trigger] may_be_time(t) && nanos == subsecond_of(time_since_epoch(t))
}

/// Whether a number can be the nanoseconds within the current second.
pub open spec fn may_be_seed(seed: usize) -> bool {
    exists|nanos: u32| #[trigger] may_be_subsecond(nanos) && seed == nanos as usize
}

/// The nanoseconds within the current second of the wall clock, or zero when
/// the clock stands before 1970.
pub fn subsecond_nanos() -> (nanos: u32)
    ensures
        nanos < 1_000_000_000,
        may_be_subsecond(nanos),
{
    subsecond_part(since_epoch(&std::time::SystemTime::now()))
}

/// The part below one second of the time since the start of 1970, or zero when
/// the clock stands before it.
pub fn subsecond_part(since: Result<Duration, std::time::SystemTimeError>) -> (nanos: u32)
    ensures
        nanos == subsecond_of(since),
        nanos < 1_000_000_000,
{
    match since {
        Ok(d) => d.subsec_nanos(),
        Err(_) => 0,
    }
}

/// A point in time: seconds and nanoseconds since the start of 1970 in UTC.
#[derive(Debug, Clone, Copy, PartialEq, Eq, Structural)]
pub struct Timestamp {
    pub secs: i64,
    pub nanos: u32,
}

/// Whether the wall clock can show this time.
pub uninterp spec fn may_be_utc_now(t: Timestamp) -> bool;

/// `chrono::Utc::now` reads the wall clock, here as whole seconds since the
/// start of 1970 and the nanoseconds within the second. A clock that stands
/// before 1970 makes it panic; otherwise the seconds are not negative and the
/// nanoseconds stay below one second. The time itself is left open.
#[verifier::external_body]
pub(crate) fn utc_now() -> (t: Timestamp)
    ensures
        t.secs >= 0,
        t.nanos < 1_000_000_000,
        may_be_utc_now(t),
{
    let now = chrono::Utc::now();
    Timestamp { secs: now.timestamp(), nanos: now.timestamp_subsec_nanos() }
}

/// Whole milliseconds leave less than one millisecond of a duration uncounted, and the part
/// below one second is what whole seconds leave.
pub proof fn law_whole_milliseconds(d: Duration)
    requires
        duration_nanos(d) / 1_000_000 <= u64::MAX,
    ensures
        millis_of(d) * 1_000_000 <= duration_nanos(d) < (millis_of(d) + 1) * 1_000_000,
        subsecond_of(Ok(d)) < 1_000_000_000,
        exists|secs: nat| duration_nanos(d) == #[trigger] (secs * 1_000_000_000) + subsecond_of(Ok(d)),
{
    let n = duration_nanos(d);
    let secs = n / 1_000_000_000;
    assert(n == secs * 1_000_000_000 + subsecond_of(Ok(d)));
}

/// What has passed since an earlier reading is the length of a duration that the clock can
/// show for that reading.
pub proof fn law_elapsed_time_is_of_the_reading(earlier: Instant, nanos: u128, millis: u64)
    ensures
        may_be_nanos_since_last(None, nanos) <==> nanos == 0,
        may_be_nanos_since_last(Some(earlier), nanos) ==> exists|elapsed: Duration| #[trigger]
            may_have_passed(earlier, elapsed) && duration_nanos(elapsed) == nanos,
        may_be_millis_since(earlier, millis) ==> exists|elapsed: Duration| #[trigger]
            may_have_passed(earlier, elapsed) && millis == (duration_nanos(elapsed) / 1_000_000) as u64,
{
}

/// A seed is the part below one second of a time that the wall clock can show, or zero before
/// 1970.
pub proof fn law_seed_is_of_the_clock(seed: usize)
    requires
        may_be_seed(seed),
    ensures
        seed < 1_000_000_000,
        exists|t: std::time::SystemTime| #[trigger]
            may_be_time(t) && (match time_since_epoch(t) {
                Ok(d) => seed == duration_nanos(d) % 1_000_000_000,
                Err(_) => seed == 0,
            }),
{
    let nanos = choose|nanos: u32| #[trigger] may_be_subsecond(nanos) && seed == nanos as usize;
    let t = choose|t: std::time::SystemTime| #[trigger]
        may_be_time(t) && nanos == subsecond_of(time_since_epoch(t));
    assert(may_be_time(t));
}

} // verus!
