//! The wall clock, and the two ways in which the service counts time.

use vstd::prelude::*;

verus! {

/// One reading of the wall clock: whole seconds since the Unix epoch and the
/// nanoseconds beyond them. Nothing for a clock that stands before the epoch.
pub type ClockReading = Option<(u64, u32)>;

/// `std::time::SystemTime::now`, as seconds and nanoseconds since the Unix
/// epoch. What the clock shows is left open; the nanoseconds are less than a
/// second.
#[verifier::external_body]
fn read_clock() -> (reading: ClockReading)
    ensures
        reading matches Some((seconds, nanos)) ==> nanos < 1_000_000_000,
{
    match std::time::SystemTime::now().duration_since(std::time::UNIX_EPOCH) {
        Ok(elapsed) => Some((elapsed.as_secs(), elapsed.subsec_nanos())),
        Err(_) => None,
    }
}

/// `reading` is one that the clock may have given.
pub closed spec fn clock_showed(reading: ClockReading) -> bool {
    call_ensures(read_clock, (), reading)
}

/// The whole seconds of a reading, zero before the epoch.
pub open spec fn reading_seconds(reading: ClockReading) -> u64 {
    match reading {
        Some((seconds, _)) => seconds,
        None => 0,
    }
}

/// The whole milliseconds of a reading, zero before the epoch, at most
/// `u64::MAX`.
pub open spec fn reading_millis(reading: ClockReading) -> u64 {
    match reading {
        Some((seconds, nanos)) => {
            let millis = seconds * 1000 + nanos as int / 1_000_000;
            if millis <= u64::MAX {
                millis as u64
            } else {
                u64::MAX
            }
        },
        None => 0,
    }
}

/// The whole seconds of a reading.
pub fn unix_seconds(reading: ClockReading) -> (seconds: u64)
    ensures
        seconds == reading_seconds(reading),
{
    match reading {
        Some((seconds, _)) => seconds,
        None => 0,
    }
}

/// The whole milliseconds of a reading.
pub fn unix_millis(reading: ClockReading) -> (millis: u64)
    ensures
        millis == reading_millis(reading),
{
    match reading {
        Some((seconds, nanos)) => {
            let total: u128 = seconds as u128 * 1000 + (nanos / 1_000_000) as u128;
            if total <= u64::MAX as u128 {
                total as u64
            } else {
                u64::MAX
            }
        },
        None => 0,
    }
}

/// Seconds as a signed number: equal to `seconds` as far as `i64` reaches, and
/// wrapped round beyond that.
pub fn signed_seconds(seconds: u64) -> (r: i64)
    ensures
        r == seconds as i64,
        seconds <= i64::MAX ==> r == seconds,
{
    #[verifier::truncate]
    (seconds as i64)
}

/// `seconds` are those of a reading of the clock.
pub open spec fn shown_seconds(seconds: u64) -> bool {
    exists|reading: ClockReading| #[trigger]
        clock_showed(reading) && seconds == reading_seconds(reading)
}

/// `seconds` are those of a reading of the clock, as a signed number.
pub open spec fn shown_signed(seconds: i64) -> bool {
    exists|reading: ClockReading| #[trigger]
        clock_showed(reading) && seconds == reading_seconds(reading) as i64
}

/// `millis` are the milliseconds of a reading of the clock.
pub open spec fn shown_millis(millis: u64) -> bool {
    exists|reading: ClockReading| #[trigger]
        clock_showed(reading) && millis == reading_millis(reading)
}

/// The current time in seconds since the Unix epoch.
pub fn now_unix_u64() -> (seconds: u64)
    ensures
        shown_seconds(seconds),
{
    let reading = read_clock();
    assert(clock_showed(reading));
    unix_seconds(reading)
}

/// The current time in seconds since the Unix epoch, signed.
pub fn now_unix_i64() -> (seconds: i64)
    ensures
        shown_signed(seconds),
{
    let reading = read_clock();
    assert(clock_showed(reading));
    signed_seconds(unix_seconds(reading))
}

/// The current time in milliseconds since the Unix epoch.
pub fn now_ms_u64() -> (millis: u64)
    ensures
        shown_millis(millis),
{
    let reading = read_clock();
    assert(clock_showed(reading));
    unix_millis(reading)
}

/// A reading counts its own seconds, and a thousand milliseconds for each of them
/// with those of its nanoseconds; a clock before the epoch counts nothing.
pub proof fn law_readings_are_counted(seconds: u64, nanos: u32)
    ensures
        reading_seconds(Some((seconds, nanos))) == seconds,
        reading_seconds(None) == 0,
        reading_millis(None) == 0,
        ({
            let millis = reading_millis(Some((seconds, nanos)));
            let exact = millis * 1_000_000 <= seconds * 1_000_000_000 + nanos < (millis + 1)
                * 1_000_000;
            &&& seconds * 1000 + nanos / 1_000_000 <= u64::MAX ==> exact
            &&& seconds * 1000 + nanos / 1_000_000 > u64::MAX ==> millis == u64::MAX
        }),
{
}

} // verus!
