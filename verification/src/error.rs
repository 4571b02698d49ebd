use vstd::prelude::*;

use crate::aircraftdatabase::AircraftError;
use crate::airport::AirportError;
use crate::flighttime::DateTime;
use crate::flighttime::FlightTime;

verus! {

/// Why a date-time or duration token was refused.
#[derive(Clone, Copy, Debug, PartialEq, Eq)]
pub enum ParseError {
    /// A character that the grammar does not allow where it stands. `position` counts from
    /// zero; every character before it is a single-byte one, so it is a byte offset as well.
    Unexpected { character: char, position: usize },
    /// The text ended before the token was complete.
    Truncated,
    /// The digits are well placed but name no day of the calendar.
    InvalidDate,
    /// The digits are well placed but name no time of day.
    InvalidClock,
}

/// Why one field of a record could not be read.
#[derive(Clone, Copy, Debug, PartialEq, Eq)]
pub enum FieldError {
    /// The field must be there and is not, or holds no text.
    Missing,
    /// The field holds a date-time or a duration that does not scan.
    Token(ParseError),
    /// The field holds no number, or one too large for it.
    NotANumber,
    /// The field holds neither `true` nor `false`.
    NotABoolean,
    /// The field is there and holds something else than text.
    NotText,
}

/// Why two values of one flight record contradict each other.
#[derive(Clone, Copy, Debug, PartialEq, Eq)]
pub enum ValidationError {
    /// The departure is not strictly earlier than the arrival.
    TakeoffAfterLanding { start: DateTime, end: DateTime },
    /// More time lies between departure and arrival than a flight can last.
    TooLong { start: DateTime, end: DateTime },
    /// A declared duration differs from the time between departure and arrival.
    DurationMismatch { declared: FlightTime, computed: FlightTime },
}

/// The fields of a record that are read one by one, each under its own key.
#[derive(Clone, Copy, Debug, PartialEq, Eq)]
pub enum Field {
    IsSim,
    DateStart,
    DateEnd,
    DurationTotal,
    Pic,
    TakeoffDay,
    TakeoffNight,
    LandingDay,
    LandingNight,
    OcTimeIfr,
    OcTimeNight,
    DurationPic,
    DualTime,
    InstructorTime,
    Comment,
    EndOfPage,
    EndOfBook,
    SimDate,
    SimType,
    SimTotalTime,
}

impl Field {
    /// The key under which the field stands in a record.
    pub open spec fn key_of(self) -> Seq<char> {
        match self {
            Field::IsSim => "is_sim"@,
            Field::DateStart => "date_start"@,
            Field::DateEnd => "date_end"@,
            Field::DurationTotal => "duration_total"@,
            Field::Pic => "pic"@,
            Field::TakeoffDay => "takeoff_day"@,
            Field::TakeoffNight => "takeoff_night"@,
            Field::LandingDay => "landing_day"@,
            Field::LandingNight => "landing_night"@,
            Field::OcTimeIfr => "oc_time_ifr"@,
            Field::OcTimeNight => "oc_time_night"@,
            Field::DurationPic => "duration_pic"@,
            Field::DualTime => "dual_time"@,
            Field::InstructorTime => "instructor_time"@,
            Field::Comment => "comment"@,
            Field::EndOfPage => "end_of_page"@,
            Field::EndOfBook => "end_of_book"@,
            Field::SimDate => "sim_date"@,
            Field::SimType => "sim_type"@,
            Field::SimTotalTime => "sim_total_time"@,
        }
    }

    /// The key under which the field stands in a record.
    pub fn key(&self) -> (key: &'static str)
        ensures
            key@ == self.key_of(),
    {
        match self {
            Field::IsSim => "is_sim",
            Field::DateStart => "date_start",
            Field::DateEnd => "date_end",
            Field::DurationTotal => "duration_total",
            Field::Pic => "pic",
            Field::TakeoffDay => "takeoff_day",
            Field::TakeoffNight => "takeoff_night",
            Field::LandingDay => "landing_day",
            Field::LandingNight => "landing_night",
            Field::OcTimeIfr => "oc_time_ifr",
            Field::OcTimeNight => "oc_time_night",
            Field::DurationPic => "duration_pic",
            Field::DualTime => "dual_time",
            Field::InstructorTime => "instructor_time",
            Field::Comment => "comment",
            Field::EndOfPage => "end_of_page",
            Field::EndOfBook => "end_of_book",
            Field::SimDate => "sim_date",
            Field::SimType => "sim_type",
            Field::SimTotalTime => "sim_total_time",
        }
    }
}

/// Why a record gives no flight.
#[derive(Clone, Copy, Debug, PartialEq, Eq)]
pub enum FlightError {
    /// One field could not be read.
    Field { field: Field, cause: FieldError },
    /// The airport of departure could not be declared or found.
    Departure(AirportError),
    /// The airport of arrival could not be declared or found.
    Arrival(AirportError),
    /// The aircraft could not be declared or found.
    Aircraft(AircraftError),
    /// Departure and arrival contradict each other.
    Chronology(ValidationError),
    /// A declared duration contradicts departure and arrival.
    Duration { field: Field, conflict: ValidationError },
}

/// The four kinds of failure.
#[derive(Clone, Copy, Debug, PartialEq, Eq)]
pub enum ErrorClass {
    /// A token, a number or a truth value is malformed, or a field that must be there is
    /// not.
    Parse,
    /// The fields that are there form no accepted combination.
    Schema,
    /// Something is referred to that was never declared, or declared a second time.
    Reconciliation,
    /// Values that are well formed contradict each other.
    Validation,
}

impl AirportError {
    /// The kind of failure.
    pub open spec fn class_of(self) -> ErrorClass {
        match self {
            AirportError::Unnamed => ErrorClass::Schema,
            AirportError::BadlyDefined { .. } => ErrorClass::Schema,
            _ => ErrorClass::Reconciliation,
        }
    }

    /// The kind of failure.
    pub fn class(&self) -> (class: ErrorClass)
        ensures
            class == self.class_of(),
    {
        match self {
            AirportError::Unnamed => ErrorClass::Schema,
            AirportError::BadlyDefined { .. } => ErrorClass::Schema,
            _ => ErrorClass::Reconciliation,
        }
    }
}

impl AircraftError {
    /// The kind of failure.
    pub open spec fn class_of(self) -> ErrorClass {
        match self {
            AircraftError::MissingIdentity => ErrorClass::Parse,
            AircraftError::BadEngineCount => ErrorClass::Parse,
            AircraftError::BadWeight => ErrorClass::Parse,
            AircraftError::BadMultipilot => ErrorClass::Parse,
            AircraftError::BadShape { .. } => ErrorClass::Schema,
            _ => ErrorClass::Reconciliation,
        }
    }

    /// The kind of failure.
    pub fn class(&self) -> (class: ErrorClass)
        ensures
            class == self.class_of(),
    {
        match self {
            AircraftError::MissingIdentity => ErrorClass::Parse,
            AircraftError::BadEngineCount => ErrorClass::Parse,
            AircraftError::BadWeight => ErrorClass::Parse,
            AircraftError::BadMultipilot => ErrorClass::Parse,
            AircraftError::BadShape { .. } => ErrorClass::Schema,
            _ => ErrorClass::Reconciliation,
        }
    }
}

impl FlightError {
    /// The kind of failure.
    pub open spec fn class_of(self) -> ErrorClass {
        match self {
            FlightError::Field { .. } => ErrorClass::Parse,
            FlightError::Departure(cause) => cause.class_of(),
            FlightError::Arrival(cause) => cause.class_of(),
            FlightError::Aircraft(cause) => cause.class_of(),
            FlightError::Chronology(_) => ErrorClass::Validation,
            FlightError::Duration { .. } => ErrorClass::Validation,
        }
    }

    /// The kind of failure.
    pub fn class(&self) -> (class: ErrorClass)
        ensures
            class == self.class_of(),
    {
        match self {
            FlightError::Field { .. } => ErrorClass::Parse,
            FlightError::Departure(cause) => cause.class(),
            FlightError::Arrival(cause) => cause.class(),
            FlightError::Aircraft(cause) => cause.class(),
            FlightError::Chronology(_) => ErrorClass::Validation,
            FlightError::Duration { .. } => ErrorClass::Validation,
        }
    }
}

/// Why a log could not be loaded: the record that was refused, counted from zero, and the
/// reason.
#[derive(Clone, Copy, Debug, PartialEq, Eq)]
pub struct LoadError {
    pub index: usize,
    pub cause: FlightError,
}

} // verus!
