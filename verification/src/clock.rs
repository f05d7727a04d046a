use vstd::prelude::*;

use std::time::{Duration, SystemTime, SystemTimeError, UNIX_EPOCH};

verus! {

/// Declares `std::time::SystemTime`, carried through opaquely.
#[verifier::external_type_specification]
#[verifier::external_body]
pub struct ExSystemTime(std::time::SystemTime);

/// Declares `std::time::SystemTimeError`, carried through opaquely.
#[verifier::external_type_specification]
#[verifier::external_body]
pub struct ExSystemTimeError(std::time::SystemTimeError);

/// Calls `SystemTime::now`. Nothing is claimed of the result: it is the machine's clock.
#[verifier::external_body]
fn system_time_now() -> SystemTime {
    SystemTime::now()
}

/// Calls `SystemTime::duration_since` with `UNIX_EPOCH`. Nothing is claimed of the result: it
/// depends on the clock reading it is given, which is opaque here.
#[verifier::external_body]
fn duration_since_unix_epoch(time: &SystemTime) -> Result<Duration, SystemTimeError> {
    time.duration_since(UNIX_EPOCH)
}

/// Calls `Duration::as_nanos`. Nothing is claimed of the result: the duration is opaque here.
#[verifier::external_body]
fn duration_as_nanos(duration: &Duration) -> u128 {
    duration.as_nanos()
}

/// A nanosecond count narrowed to `u64`, saturating at `u64::MAX`.
pub fn saturating_nanos(nanos: u128) -> (res: u64)
    ensures
        res == (if nanos > u64::MAX { u64::MAX as int } else { nanos as int }),
{
    if nanos > u64::MAX as u128 {
        u64::MAX
    } else {
        nanos as u64
    }
}

/// The clock value stored for a reading of the nanoseconds since the Unix epoch: the reading
/// saturated at `u64::MAX`, and 0 where the clock reads before the epoch (`None`).
pub open spec fn epoch_nanos(reading: Option<u128>) -> u64 {
    match reading {
        Some(nanos) => if nanos > u64::MAX { u64::MAX } else { nanos as u64 },
        None => 0,
    }
}

/// Whether `reading` is what the system clock can give as the whole time since the Unix epoch:
/// `Some(n)` where `system_time_now` returned a time, `duration_since_unix_epoch` gave a duration
/// for it, and `duration_as_nanos` gave `n` for that duration; `None` where the time was before
/// the epoch.
pub closed spec fn is_clock_reading(reading: Option<u128>) -> bool {
    exists|now: SystemTime, since: Result<Duration, SystemTimeError>|
        #![trigger call_ensures(system_time_now, (), now), call_ensures(duration_since_unix_epoch, (&now,), since)]
        call_ensures(system_time_now, (), now) && call_ensures(
            duration_since_unix_epoch,
            (&now,),
            since,
        ) && match since {
            Ok(elapsed) => exists|nanos: u128|
                #[trigger] call_ensures(duration_as_nanos, (&elapsed,), nanos) && reading == Some(
                    nanos,
                ),
            Err(_) => reading is None,
        }
}

/// The clock value stored for a reading of the nanoseconds since the Unix epoch: the reading
/// saturated at `u64::MAX`, and 0 where the clock reads before the epoch (`None`).
pub fn nanos_since_epoch(reading: Option<u128>) -> (res: u64)
    ensures
        res == epoch_nanos(reading),
        res == match reading {
            Some(nanos) => if nanos > u64::MAX { u64::MAX as int } else { nanos as int },
            None => 0int,
        },
{
    match reading {
        Some(nanos) => saturating_nanos(nanos),
        None => 0,
    }
}

/// Nanoseconds since the Unix epoch by the system clock, saturating at `u64::MAX`, and 0 where
/// the clock reads before the epoch: [`epoch_nanos`] of a reading of the whole time since the
/// epoch (see [`is_clock_reading`]).
pub fn wall_clock_ns() -> (res: u64)
    ensures
        exists|reading: Option<u128>| #[trigger] is_clock_reading(reading) && res == epoch_nanos(reading),
{
    let now = system_time_now();
    let since = duration_since_unix_epoch(&now);
    let reading = match &since {
        Ok(elapsed) => Some(duration_as_nanos(elapsed)),
        Err(_) => None,
    };
    proof {
        assert(call_ensures(system_time_now, (), now));
        assert(call_ensures(duration_since_unix_epoch, (&now,), since));
        if let Ok(elapsed) = since {
            assert(call_ensures(duration_as_nanos, (&elapsed,), reading.unwrap()));
        }
        assert(is_clock_reading(reading));
    }
    nanos_since_epoch(reading)
}

} // verus!
