//! The system's clock.

use vstd::prelude::*;

verus! {

#[verifier::external_type_specification]
#[verifier::external_body]
pub struct ExSystemTime(std::time::SystemTime);

#[verifier::external_type_specification]
#[verifier::external_body]
pub struct ExSystemTimeError(std::time::SystemTimeError);

/// `SystemTime::now` reads the clock; nothing is claimed of what it says.
pub assume_specification[ std::time::SystemTime::now ]() -> std::time::SystemTime;

/// What `SystemTime::duration_since` gives for a reading and the constant
/// `UNIX_EPOCH`, the beginning of 1970.
pub uninterp spec fn time_since_epoch(time: std::time::SystemTime) -> Result<
    std::time::Duration,
    std::time::SystemTimeError,
>;

/// `SystemTime::duration_since`, with the constant `UNIX_EPOCH`, gives the time
/// from the beginning of 1970 to a reading, or an error where the reading is
/// earlier; which of them, and how much, depends on the reading alone.
#[verifier::external_body]
fn since_epoch(time: &std::time::SystemTime) -> (r: Result<
    std::time::Duration,
    std::time::SystemTimeError,
>)
    ensures
        r == time_since_epoch(*time),
{
    time.duration_since(std::time::UNIX_EPOCH)
}

/// What `Duration::as_secs` gives for a duration.
pub uninterp spec fn whole_secs(d: std::time::Duration) -> u64;

/// `Duration::as_secs` gives the whole seconds in a duration, and depends on
/// nothing else.
pub assume_specification[ std::time::Duration::as_secs ](d: &std::time::Duration) -> (r: u64)
    ensures
        r == whole_secs(*d),
;

/// The whole seconds of a time that has passed; 0 where none has, because the
/// clock stands before the time from which is counted.
pub open spec fn passed_secs(
    passed: Result<std::time::Duration, std::time::SystemTimeError>,
) -> u64 {
    match passed {
        Ok(d) => whole_secs(d),
        Err(_) => 0,
    }
}

/// Whether `secs` is what some reading of the clock says: the whole seconds from
/// the beginning of 1970 to the reading, or 0 where the reading is earlier.
pub open spec fn is_clock_reading(secs: u64) -> bool {
    exists|now: std::time::SystemTime| secs == passed_secs(#[trigger] time_since_epoch(now))
}

/// The whole seconds of a time that has passed, or 0 where none has.
pub fn seconds_passed(passed: Result<std::time::Duration, std::time::SystemTimeError>) -> (r: u64)
    ensures
        r == passed_secs(passed),
{
    match passed {
        Ok(d) => d.as_secs(),
        Err(_) => 0,
    }
}

/// The seconds from the beginning of 1970 to now, or 0 where the clock stands
/// before that. Which moment it is now is up to the system's clock.
pub fn unix_time() -> (r: u64)
    ensures
        is_clock_reading(r),
{
    seconds_passed(since_epoch(&std::time::SystemTime::now()))
}

/// A reading of the clock says the whole seconds since the beginning of 1970,
/// and never anything but 0 for a time before that.
pub proof fn law_readings_count_from_1970(now: std::time::SystemTime, secs: u64)
    ensures
        time_since_epoch(now) matches Ok(d) ==> is_clock_reading(whole_secs(d)),
        time_since_epoch(now) is Err ==> is_clock_reading(0),
        is_clock_reading(secs) && secs != 0 ==> exists|t: std::time::SystemTime|
            (#[trigger] time_since_epoch(t)) matches Ok(d) && whole_secs(d) == secs,
{
    if let Ok(d) = time_since_epoch(now) {
        assert(whole_secs(d) == passed_secs(time_since_epoch(now)));
    } else {
        assert(0 == passed_secs(time_since_epoch(now)));
    }
    if is_clock_reading(secs) && secs != 0 {
        let t = choose|t: std::time::SystemTime| secs == passed_secs(#[trigger] time_since_epoch(t));
        assert(time_since_epoch(t) is Ok);
    }
}

} // verus!
