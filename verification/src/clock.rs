//! The wall clock, as the number of nanoseconds since the Unix epoch.

use std::time::{Duration, SystemTime, SystemTimeError};
use vstd::prelude::*;

verus! {

/// `std::time::SystemTime`, carried as it is.
#[verifier::external_type_specification]
#[verifier::external_body]
pub struct ExSystemTime(std::time::SystemTime);

/// `std::time::SystemTimeError`, carried as it is.
#[verifier::external_type_specification]
#[verifier::external_body]
pub struct ExSystemTimeError(std::time::SystemTimeError);

/// The length of a `std::time::Duration` in nanoseconds.
pub uninterp spec fn duration_nanos(duration: Duration) -> nat;

/// How many nanoseconds `time` lies past the Unix epoch; below zero for a time
/// before it.
pub uninterp spec fn epoch_offset(time: SystemTime) -> int;

/// `SystemTime::now`: the current time of the system clock. Nothing is claimed
/// of it.
pub assume_specification[ SystemTime::now ]() -> SystemTime
;

/// `SystemTime::duration_since` with the Unix epoch as the earlier time: the time
/// that lies between the two, or an error where `time` is before the epoch.
#[verifier::external_body]
fn since_epoch(time: SystemTime) -> (since: Result<Duration, SystemTimeError>)
    ensures
        since is Ok <==> 0 <= epoch_offset(time),
        since matches Ok(duration) ==> duration_nanos(duration) == epoch_offset(time),
{
    time.duration_since(std::time::UNIX_EPOCH)
}

/// `Duration::as_nanos`: the whole length in nanoseconds.
pub assume_specification[ Duration::as_nanos ](duration: &Duration) -> (nanos: u128)
    ensures
        nanos == duration_nanos(*duration),
;

/// `Duration::subsec_nanos`: the fraction of a second that the length ends
/// with, in nanoseconds.
pub assume_specification[ Duration::subsec_nanos ](duration: &Duration) -> (nanos: u32)
    ensures
        nanos == duration_nanos(*duration) % 1_000_000_000,
;

/// The system clock stands before the Unix epoch.
#[derive(Clone, Copy, Debug, PartialEq, Eq, Structural)]
pub struct ClockError;

/// The low 64 bits of the nanoseconds from the epoch to `time`.
pub open spec fn nanos_at(time: SystemTime) -> Result<u64, ClockError> {
    if 0 <= epoch_offset(time) {
        Ok((epoch_offset(time) % 0x1_0000_0000_0000_0000) as u64)
    } else {
        Err(ClockError)
    }
}

/// The nanoseconds that `time` lies past a full second since the epoch.
pub open spec fn subsec_nanos_at(time: SystemTime) -> Result<u32, ClockError> {
    if 0 <= epoch_offset(time) {
        Ok((epoch_offset(time) % 1_000_000_000) as u32)
    } else {
        Err(ClockError)
    }
}

/// The low 64 bits of the nanoseconds from the epoch to `time`; an error where
/// `time` is before the epoch.
pub fn nanos_of(time: SystemTime) -> (nanos: Result<u64, ClockError>)
    ensures
        nanos == nanos_at(time),
        nanos is Ok <==> 0 <= epoch_offset(time),
        nanos matches Ok(n) ==> n == epoch_offset(time) % 0x1_0000_0000_0000_0000,
{
    match since_epoch(time) {
        Ok(duration) => {
            let all: u128 = duration.as_nanos();
            Ok((all % 0x1_0000_0000_0000_0000) as u64)
        },
        Err(_) => Err(ClockError),
    }
}

/// The nanoseconds that `time` lies past a full second since the epoch; an error
/// where `time` is before the epoch.
pub fn subsec_nanos_of(time: SystemTime) -> (nanos: Result<u32, ClockError>)
    ensures
        nanos == subsec_nanos_at(time),
        nanos is Ok <==> 0 <= epoch_offset(time),
        nanos matches Ok(n) ==> n == epoch_offset(time) % 1_000_000_000,
{
    match since_epoch(time) {
        Ok(duration) => Ok(duration.subsec_nanos()),
        Err(_) => Err(ClockError),
    }
}

/// The low 64 bits of the nanoseconds since the epoch, at the time that the clock
/// shows; an error exactly where that time is before the epoch.
pub fn epoch_nanos() -> (nanos: Result<u64, ClockError>)
    ensures
        exists|time: SystemTime|
            call_ensures(SystemTime::now, (), time) && nanos == #[trigger] nanos_at(time),
{
    nanos_of(SystemTime::now())
}

/// The nanoseconds past the last full second, at the time that the clock shows;
/// an error exactly where that time is before the epoch.
pub fn epoch_subsec_nanos() -> (nanos: Result<u32, ClockError>)
    ensures
        exists|time: SystemTime|
            call_ensures(SystemTime::now, (), time) && nanos == #[trigger] subsec_nanos_at(time),
        nanos matches Ok(n) ==> n < 1_000_000_000,
{
    subsec_nanos_of(SystemTime::now())
}

/// Law: a time is read exactly from the epoch on. What is read of it differs from its
/// distance by full turns of 64 bits, or by full seconds, and by nothing where the
/// distance is below one turn, or one second.
pub proof fn law_time_is_read_from_the_epoch_on(time: SystemTime) -> (full: (int, int))
    ensures
        epoch_offset(time) < 0 ==> nanos_at(time) is Err && subsec_nanos_at(time) is Err,
        0 <= epoch_offset(time) ==> {
            &&& nanos_at(time) matches Ok(low)
            &&& subsec_nanos_at(time) matches Ok(fraction)
            &&& epoch_offset(time) == full.0 * 0x1_0000_0000_0000_0000 + low
            &&& epoch_offset(time) == full.1 * 1_000_000_000 + fraction
            &&& fraction < 1_000_000_000
        },
{
    (
        epoch_offset(time) / 0x1_0000_0000_0000_0000,
        epoch_offset(time) / 1_000_000_000,
    )
}

} // verus!
