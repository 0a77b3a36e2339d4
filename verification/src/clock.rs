//! The wall clock.
//!
//! Every rule of the library that depends on time takes the time as an
//! argument, in whole seconds since the Unix epoch. The functions that read
//! the clock do only that and hand the reading on.

use vstd::prelude::*;

verus! {

/// A reading of the clock: whole seconds since the Unix epoch, and the
/// nanoseconds into the current second.
#[derive(Clone, Copy, Debug, PartialEq, Eq, Structural)]
pub struct ClockReading {
    pub seconds: i64,
    pub subsec_nanos: u32,
}

/// Calls `std::time::SystemTime::now` and hands the result to chrono's
/// conversion `DateTime::<Utc>::from`, then calls `DateTime::timestamp` and
/// `DateTime::timestamp_subsec_nanos` on what comes back: the system clock as
/// seconds since the Unix epoch and nanoseconds into the second. The
/// conversion turns a clock that stands before the epoch into a negative
/// number of seconds. Nothing is promised of the reading.
#[verifier::external_body]
pub(crate) fn read_clock() -> ClockReading {
    let now = chrono::DateTime::<chrono::Utc>::from(std::time::SystemTime::now());
    ClockReading { seconds: now.timestamp(), subsec_nanos: now.timestamp_subsec_nanos() }
}

/// The time a clock reading stands for: readings before the epoch count as
/// the epoch itself.
pub open spec fn time_of(reading: ClockReading) -> u64 {
    if reading.seconds < 0 {
        0
    } else {
        reading.seconds as u64
    }
}

/// Turns a clock reading into a time.
pub fn time_from_reading(reading: ClockReading) -> (now: u64)
    ensures
        now == time_of(reading),
{
    if reading.seconds < 0 {
        0
    } else {
        reading.seconds as u64
    }
}

/// Whether `now` is a time that the clock can show: a whole number of
/// seconds that a reading can hold.
pub open spec fn clock_time(now: u64) -> bool {
    now <= i64::MAX
}

/// The current time: the time that the clock's reading stands for. Which
/// reading the clock gives is not known beforehand; whatever it is, the time
/// is one that the clock can show.
pub fn current_time() -> (now: u64)
    ensures
        exists|reading: ClockReading| now == #[trigger] time_of(reading),
        clock_time(now),
{
    let reading = read_clock();
    let now = time_from_reading(reading);
    assert(now == time_of(reading));
    now
}

/// Issued at a time that the clock can show, a token with a lifetime of no
/// more than `i64::MAX` seconds expires exactly that lifetime later.
pub proof fn lemma_expiry_is_issue_plus_lifetime(now: u64, lifetime: u64)
    requires
        clock_time(now),
        lifetime <= i64::MAX,
    ensures
        expiry_after(now, lifetime) == now + lifetime,
{
}

/// `now` moved `lifetime` seconds into the future, stopping at the largest
/// time that can be represented.
pub open spec fn expiry_after(now: u64, lifetime: u64) -> u64 {
    if now + lifetime > u64::MAX {
        u64::MAX
    } else {
        (now + lifetime) as u64
    }
}

/// The expiry of something issued at `now` that lives for `lifetime` seconds.
pub fn expiry_from(now: u64, lifetime: u64) -> (expiry: u64)
    ensures
        expiry == expiry_after(now, lifetime),
{
    if lifetime > u64::MAX - now {
        u64::MAX
    } else {
        now + lifetime
    }
}

/// The seconds that have passed at `now` since `since`; none if `since` lies
/// in the future.
pub open spec fn elapsed(since: u64, now: u64) -> u64 {
    if now >= since {
        (now - since) as u64
    } else {
        0
    }
}

/// The seconds that have passed at `now` since `since`.
pub fn elapsed_since(since: u64, now: u64) -> (secs: u64)
    ensures
        secs == elapsed(since, now),
{
    if now >= since {
        now - since
    } else {
        0
    }
}

} // verus!
