//! The clocks of the machine.
//!
//! Nothing is known of what a clock shows. The functions that decide something take the reading
//! as an argument and are stated for every reading; of readings, only the times between them are
//! named.

use std::time::{Duration, Instant, SystemTime, SystemTimeError};
use vstd::prelude::*;

verus! {

/// A reading of the monotonic clock, carried as it is.
#[verifier::external_type_specification]
#[verifier::external_body]
pub struct ExInstant(Instant);

/// A reading of the wall clock, carried as it is.
#[verifier::external_type_specification]
#[verifier::external_body]
pub struct ExSystemTime(SystemTime);

/// The error of a wall clock that stands before the moment it is compared with.
#[verifier::external_type_specification]
#[verifier::external_body]
pub struct ExSystemTimeError(SystemTimeError);

/// `Instant::now` reads the monotonic clock: nothing is promised of the reading.
pub assume_specification[ Instant::now ]() -> (reading: Instant)
;

/// The time from one reading of the monotonic clock to another; none where they stand the other
/// way round.
pub uninterp spec fn time_between(earlier: Instant, later: Instant) -> Duration;

/// `Instant::duration_since` gives the time between two readings, which depends on them alone.
pub assume_specification[ Instant::duration_since ](later: &Instant, earlier: Instant) -> (passed:
    Duration)
    ensures
        passed == time_between(earlier, *later),
;

/// `SystemTime::now` reads the wall clock: nothing is promised of the reading.
pub assume_specification[ SystemTime::now ]() -> (reading: SystemTime)
;

/// The whole seconds of a duration.
pub uninterp spec fn whole_seconds(duration: Duration) -> u64;

/// `Duration::as_secs` gives the whole seconds of a duration, which depend on it alone.
pub assume_specification[ Duration::as_secs ](duration: &Duration) -> (seconds: u64)
    ensures
        seconds == whole_seconds(*duration),
;

/// The nanoseconds of a duration beyond its whole seconds.
pub uninterp spec fn nanoseconds_beyond(duration: Duration) -> u32;

/// `Duration::subsec_nanos` gives the nanoseconds beyond the whole seconds, which depend on the
/// duration alone.
pub assume_specification[ Duration::subsec_nanos ](duration: &Duration) -> (nanoseconds: u32)
    ensures
        nanoseconds == nanoseconds_beyond(*duration),
;

/// How far a clock stands before the moment that it was compared with.
pub uninterp spec fn time_before(error: SystemTimeError) -> Duration;

/// `SystemTimeError::duration` gives how far the clock stands before that moment, which depends
/// on the error alone.
pub assume_specification[ SystemTimeError::duration ](error: &SystemTimeError) -> (missing:
    Duration)
    ensures
        missing == time_before(*error),
;

/// The time from the Unix epoch to a reading of the wall clock, or the error of one before it.
pub uninterp spec fn time_since_epoch(reading: SystemTime) -> Result<Duration, SystemTimeError>;

/// `SystemTime::duration_since`, from the Unix epoch: the result depends on the reading alone.
#[verifier::external_body]
fn since_epoch(reading: SystemTime) -> (passed: Result<Duration, SystemTimeError>)
    ensures
        passed == time_since_epoch(reading),
{
    reading.duration_since(SystemTime::UNIX_EPOCH)
}

/// The seconds since the Unix epoch at a reading of the wall clock; 0 where it stands before the
/// epoch.
pub open spec fn unix_time(reading: SystemTime) -> u64 {
    match time_since_epoch(reading) {
        Ok(passed) => whole_seconds(passed),
        Err(_) => 0,
    }
}

/// The seconds since the Unix epoch at a reading of the wall clock.
pub fn unix_seconds_at(reading: SystemTime) -> (seconds: u64)
    ensures
        seconds == unix_time(reading),
{
    match since_epoch(reading) {
        Ok(passed) => passed.as_secs(),
        Err(_) => 0,
    }
}

/// The seconds since the Unix epoch that the wall clock shows; 0 where it stands before the
/// epoch.
pub(crate) fn unix_seconds() -> (seconds: u64)
    ensures
        exists|reading: SystemTime| seconds == #[trigger] unix_time(reading),
{
    unix_seconds_at(SystemTime::now())
}

/// The second in which a reading of the wall clock lies, counted from the Unix epoch: negative
/// before it.
pub open spec fn epoch_second(reading: SystemTime) -> int {
    match time_since_epoch(reading) {
        Ok(passed) => whole_seconds(passed) as int,
        Err(error) => -whole_seconds(time_before(error)) - (if nanoseconds_beyond(
            time_before(error),
        ) > 0 {
            1int
        } else {
            0int
        }),
    }
}

/// The second in which a reading of the wall clock lies, counted from the Unix epoch.
pub fn epoch_second_at(reading: SystemTime) -> (second: i128)
    ensures
        second == epoch_second(reading),
{
    match since_epoch(reading) {
        Ok(passed) => passed.as_secs() as i128,
        Err(error) => {
            let missing = error.duration();
            let whole: i128 = -(missing.as_secs() as i128);
            if missing.subsec_nanos() > 0 {
                whole - 1
            } else {
                whole
            }
        },
    }
}

/// The second that the wall clock shows, counted from the Unix epoch.
pub(crate) fn epoch_second_now() -> (second: i128)
    ensures
        exists|reading: SystemTime| second == #[trigger] epoch_second(reading),
{
    epoch_second_at(SystemTime::now())
}

/// The whole seconds from one reading of the monotonic clock to another.
pub fn seconds_between(earlier: &Instant, later: &Instant) -> (seconds: u64)
    ensures
        seconds == whole_seconds(time_between(*earlier, *later)),
{
    later.duration_since(*earlier).as_secs()
}

} // verus!
