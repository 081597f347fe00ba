//! Times since the Unix epoch.

use vstd::prelude::*;

use crate::outside::clock_since_epoch;

verus! {

/// Whether a clock can show this: seconds and nanoseconds since the epoch, or
/// nothing where it stands before it.
pub open spec fn shown_by_a_clock(now: Option<(u64, u32)>) -> bool {
    now matches Some(t) ==> t.1 < 1_000_000_000
}

/// Milliseconds since the epoch: zero where the clock stands before it, and no
/// more than fit.
pub open spec fn millis_of(now: Option<(u64, u32)>) -> int {
    match now {
        None => 0,
        Some(t) => {
            let millis = t.0 * 1000 + (t.1 as int) / 1_000_000;
            if millis <= u64::MAX {
                millis
            } else {
                u64::MAX as int
            }
        },
    }
}

/// Milliseconds since the epoch, from seconds and nanoseconds.
pub fn millis_since_epoch(now: Option<(u64, u32)>) -> (millis: u64)
    ensures
        millis == millis_of(now),
{
    match now {
        None => 0,
        Some(t) => {
            let millis: u128 = t.0 as u128 * 1000 + (t.1 / 1_000_000) as u128;
            if millis <= u64::MAX as u128 {
                millis as u64
            } else {
                u64::MAX
            }
        },
    }
}

/// The present time in milliseconds. Which time it is depends on the machine's
/// clock.
pub fn now_millis() -> (millis: u64)
    ensures
        exists|now: Option<(u64, u32)>| #[trigger]
            shown_by_a_clock(now) && millis == millis_of(now),
{
    let now = clock_since_epoch();
    assert(shown_by_a_clock(now));
    millis_since_epoch(now)
}

/// Nanoseconds since the epoch: zero before it, and no more than fit.
pub open spec fn nanos_of(now: Option<(u64, u32)>) -> int {
    match now {
        None => 0,
        Some(t) => {
            let nanos = t.0 * 1_000_000_000 + t.1;
            if nanos <= u64::MAX {
                nanos
            } else {
                u64::MAX as int
            }
        },
    }
}

/// Nanoseconds since the epoch, from seconds and nanoseconds.
pub fn nanos_since_epoch(now: Option<(u64, u32)>) -> (nanos: u64)
    ensures
        nanos == nanos_of(now),
{
    match now {
        None => 0,
        Some(t) => {
            let nanos: u128 = t.0 as u128 * 1_000_000_000 + t.1 as u128;
            if nanos <= u64::MAX as u128 {
                nanos as u64
            } else {
                u64::MAX
            }
        },
    }
}

/// The present time in nanoseconds, as the machine's clock has it.
pub fn now_nanos() -> (nanos: u64)
    ensures
        exists|now: Option<(u64, u32)>| #[trigger]
            shown_by_a_clock(now) && nanos == nanos_of(now),
{
    let now = clock_since_epoch();
    assert(shown_by_a_clock(now));
    nanos_since_epoch(now)
}

/// Whole seconds since the epoch, unless the clock stands before it.
pub open spec fn seconds_of(now: Option<(u64, u32)>) -> Result<u64, ()> {
    match now {
        Some(t) => Ok(t.0),
        None => Err(()),
    }
}

/// Whole seconds since the epoch, from seconds and nanoseconds.
pub fn seconds_since_epoch(now: Option<(u64, u32)>) -> (r: Result<u64, ()>)
    ensures
        r == seconds_of(now),
{
    match now {
        Some(t) => Ok(t.0),
        None => Err(()),
    }
}

/// The present time in whole seconds, as the machine's clock has it.
pub fn unix_timestamp() -> (r: Result<u64, ()>)
    ensures
        exists|now: Option<(u64, u32)>| #[trigger] shown_by_a_clock(now) && r == seconds_of(now),
{
    let now = clock_since_epoch();
    assert(shown_by_a_clock(now));
    seconds_since_epoch(now)
}

/// A time in milliseconds is the last one that had begun; before the epoch it is zero,
/// and where it can not be written it is the largest number.
pub proof fn law_milliseconds_are_those_that_passed(seconds: u64, nanos: u32)
    ensures
        ({
            let millis = millis_of(Some((seconds, nanos)));
            let passed = seconds * 1_000_000_000 + nanos;
            &&& millis < u64::MAX ==> millis * 1_000_000 <= passed < (millis + 1) * 1_000_000
            &&& millis == u64::MAX <==> passed >= u64::MAX * 1_000_000
            &&& millis_of(None) == 0
        }),
{
}

/// A time in nanoseconds is the whole of it, and in seconds it is that without the
/// nanoseconds.
pub proof fn law_nanoseconds_are_the_whole_time(seconds: u64, nanos: u32)
    ensures
        seconds * 1_000_000_000 + nanos <= u64::MAX ==> nanos_of(Some((seconds, nanos))) == seconds
            * 1_000_000_000 + nanos,
        seconds * 1_000_000_000 + nanos > u64::MAX ==> nanos_of(Some((seconds, nanos))) == u64::MAX,
        nanos_of(None) == 0,
        seconds_of(Some((seconds, nanos))) == Ok::<u64, ()>(seconds),
        seconds_of(None) == Err::<u64, ()>(()),
{
}

} // verus!
