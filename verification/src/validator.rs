use vstd::prelude::*;

use crate::error::ValidationError;
use crate::flighttime::DateTime;
use crate::flighttime::FlightTime;

verus! {

/// The longest time, in minutes, that may lie between departure and arrival: twenty hours.
pub const LONGEST_FLIGHT: i64 = 1200;

/// What `validate_date` answers for a departure and an arrival.
pub open spec fn chronology_verdict(start: DateTime, end: DateTime) -> Result<(), ValidationError> {
    if !start@.precedes(end@) {
        Err(ValidationError::TakeoffAfterLanding { start, end })
    } else if start@.minutes_until(end@) > LONGEST_FLIGHT {
        Err(ValidationError::TooLong { start, end })
    } else {
        Ok(())
    }
}

/// What `validate_duration` answers for a declared duration of a flight.
pub open spec fn duration_verdict(duration: FlightTime, start: DateTime, end: DateTime) -> Result<
    (),
    ValidationError,
> {
    if duration.0 != start@.minutes_until(end@) {
        Err(
            ValidationError::DurationMismatch {
                declared: duration,
                computed: FlightTime(start@.minutes_until(end@) as i64),
            },
        )
    } else {
        Ok(())
    }
}

/// Accepts a declared duration only if it is exactly the time from departure to arrival.
pub fn validate_duration(duration: FlightTime, date_start: &DateTime, date_end: &DateTime) -> (verdict:
    Result<(), ValidationError>)
    ensures
        verdict == duration_verdict(duration, *date_start, *date_end),
{
    let computed = date_start.minutes_until(date_end);
    if duration.0 != computed.0 {
        Err(ValidationError::DurationMismatch { declared: duration, computed })
    } else {
        Ok(())
    }
}

/// Accepts a departure and an arrival only if the departure is strictly the earlier one and
/// no more than twenty hours lie between them.
pub fn validate_date(date_start: &DateTime, date_end: &DateTime) -> (verdict: Result<
    (),
    ValidationError,
>)
    ensures
        verdict == chronology_verdict(*date_start, *date_end),
{
    if !date_start.is_before(date_end) {
        return Err(ValidationError::TakeoffAfterLanding { start: *date_start, end: *date_end });
    }
    if date_start.minutes_until(date_end).0 > LONGEST_FLIGHT {
        return Err(ValidationError::TooLong { start: *date_start, end: *date_end });
    }
    Ok(())
}

/// Checks over a whole list of flights. None is defined: every rule is enforced while the
/// records are read.
pub fn perform_basic_check() {
}

} // verus!
