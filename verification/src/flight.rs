use vstd::prelude::*;

use crate::aircraftdatabase::AircraftDataBase;
use crate::aircraftdatabase::lemma_accepted_aircraft_is_known;
use crate::aircraftdatabase::AircraftFields;
use crate::aircraftdatabase::ModelView;
use crate::aircraftdatabase::RegistryView;
use crate::airport::airport_outcome;
use crate::airport::airports_after;
use crate::airport::AirportList;
use crate::airport::AirportView;
use crate::error::Field;
use crate::error::FieldError;
use crate::error::FlightError;
use crate::extracttime::lemma_duration_is_bounded;
use crate::flighttime::ClockView;
use crate::flighttime::DateTime;
use crate::flighttime::DateTimeView;
use crate::flighttime::DateView;
use crate::flighttime::FlightDate;
use crate::flighttime::FlightTime;
use crate::flighttime::TimeOfDate;
use crate::record::mandatory_datetime;
use crate::record::mandatory_string;
use crate::record::optional_bool;
use crate::record::optional_duration;
use crate::record::optional_string;
use crate::record::optional_u8;
use crate::record::FieldValue;
use crate::record::FieldView;
use crate::record::Record;
use crate::record::RecordView;
use crate::validator::chronology_verdict;
use crate::validator::duration_verdict;
use crate::validator::validate_date;
use crate::validator::validate_duration;

verus! {

/// One line of the logbook as plain values.
pub struct FlightView {
    pub date: DateView,
    pub time_departure: ClockView,
    pub airport_departure: Seq<char>,
    pub time_arrival: ClockView,
    pub airport_arrival: Seq<char>,
    pub acmodel: Seq<char>,
    pub immatriculation: Seq<char>,
    pub single_pilot_time_se: bool,
    pub single_pilot_time_me: bool,
    pub multi_pilot_time: FlightTime,
    pub total_flight_time: FlightTime,
    pub name_pic: Seq<char>,
    pub takeoff_day: u8,
    pub takeoff_night: u8,
    pub landing_day: u8,
    pub landing_night: u8,
    pub operational_condition_time_ifr: FlightTime,
    pub operational_condition_time_night: FlightTime,
    pub pilot_in_command_time: FlightTime,
    pub copilot_time: FlightTime,
    pub dual_time: FlightTime,
    pub instructor_time: FlightTime,
    pub is_sim: bool,
    pub sim_date: DateView,
    pub sim_type: Seq<char>,
    pub sim_total_time_of_session: FlightTime,
    pub remark: Seq<char>,
    pub end_of_page: bool,
    pub end_of_book: bool,
}

/// One line of the logbook: a flight, or a session on a simulator. A session has a date, a
/// type, a duration, a remark and the two markers; what belongs to a flight alone is empty
/// or zero in it.
#[derive(Debug)]
pub struct Flight {
    pub date: FlightDate,
    pub time_departure: TimeOfDate,
    pub airport_departure: String,
    pub time_arrival: TimeOfDate,
    pub airport_arrival: String,
    /// The name of the aircraft's model.
    pub acmodel: String,
    pub immatriculation: String,
    pub single_pilot_time_se: bool,
    pub single_pilot_time_me: bool,
    pub multi_pilot_time: FlightTime,
    pub total_flight_time: FlightTime,
    /// The name of the pilot in command.
    pub name_pic: String,
    pub takeoff_day: u8,
    pub takeoff_night: u8,
    pub landing_day: u8,
    pub landing_night: u8,
    pub operational_condition_time_ifr: FlightTime,
    pub operational_condition_time_night: FlightTime,
    pub pilot_in_command_time: FlightTime,
    pub copilot_time: FlightTime,
    pub dual_time: FlightTime,
    pub instructor_time: FlightTime,
    pub is_sim: bool,
    pub sim_date: FlightDate,
    pub sim_type: String,
    pub sim_total_time_of_session: FlightTime,
    pub remark: String,
    /// The line is the last of its page.
    pub end_of_page: bool,
    /// The line is the last of its book.
    pub end_of_book: bool,
}

impl View for Flight {
    type V = FlightView;

    open spec fn view(&self) -> FlightView {
        FlightView {
            date: self.date@,
            time_departure: self.time_departure@,
            airport_departure: self.airport_departure@,
            time_arrival: self.time_arrival@,
            airport_arrival: self.airport_arrival@,
            acmodel: self.acmodel@,
            immatriculation: self.immatriculation@,
            single_pilot_time_se: self.single_pilot_time_se,
            single_pilot_time_me: self.single_pilot_time_me,
            multi_pilot_time: self.multi_pilot_time,
            total_flight_time: self.total_flight_time,
            name_pic: self.name_pic@,
            takeoff_day: self.takeoff_day,
            takeoff_night: self.takeoff_night,
            landing_day: self.landing_day,
            landing_night: self.landing_night,
            operational_condition_time_ifr: self.operational_condition_time_ifr,
            operational_condition_time_night: self.operational_condition_time_night,
            pilot_in_command_time: self.pilot_in_command_time,
            copilot_time: self.copilot_time,
            dual_time: self.dual_time,
            instructor_time: self.instructor_time,
            is_sim: self.is_sim,
            sim_date: self.sim_date@,
            sim_type: self.sim_type@,
            sim_total_time_of_session: self.sim_total_time_of_session,
            remark: self.remark@,
            end_of_page: self.end_of_page,
            end_of_book: self.end_of_book,
        }
    }
}

impl Clone for Flight {
    fn clone(&self) -> (copy: Self)
        ensures
            copy == *self,
    {
        Flight {
            date: self.date,
            time_departure: self.time_departure,
            airport_departure: self.airport_departure.clone(),
            time_arrival: self.time_arrival,
            airport_arrival: self.airport_arrival.clone(),
            acmodel: self.acmodel.clone(),
            immatriculation: self.immatriculation.clone(),
            single_pilot_time_se: self.single_pilot_time_se,
            single_pilot_time_me: self.single_pilot_time_me,
            multi_pilot_time: self.multi_pilot_time,
            total_flight_time: self.total_flight_time,
            name_pic: self.name_pic.clone(),
            takeoff_day: self.takeoff_day,
            takeoff_night: self.takeoff_night,
            landing_day: self.landing_day,
            landing_night: self.landing_night,
            operational_condition_time_ifr: self.operational_condition_time_ifr,
            operational_condition_time_night: self.operational_condition_time_night,
            pilot_in_command_time: self.pilot_in_command_time,
            copilot_time: self.copilot_time,
            dual_time: self.dual_time,
            instructor_time: self.instructor_time,
            is_sim: self.is_sim,
            sim_date: self.sim_date,
            sim_type: self.sim_type.clone(),
            sim_total_time_of_session: self.sim_total_time_of_session,
            remark: self.remark.clone(),
            end_of_page: self.end_of_page,
            end_of_book: self.end_of_book,
        }
    }
}

/// The two markers of a line.
#[derive(Clone, Copy, Debug)]
pub struct Markers {
    pub end_of_page: bool,
    pub end_of_book: bool,
}

/// The four counters of a flight.
#[derive(Clone, Copy, Debug)]
pub struct Counters {
    pub takeoff_day: u8,
    pub takeoff_night: u8,
    pub landing_day: u8,
    pub landing_night: u8,
}

/// The five durations of a flight that are read after the counters.
#[derive(Clone, Copy, Debug)]
pub struct OtherTimes {
    pub ifr: FlightTime,
    pub night: FlightTime,
    pub pilot_in_command: FlightTime,
    pub dual: FlightTime,
    pub instructor: FlightTime,
}

/// The error of a field that could not be read.
pub open spec fn field_error(field: Field, cause: FieldError) -> FlightError {
    FlightError::Field { field, cause }
}

/// The remark of a line: the text under `comment`, nothing where the field is not there.
pub open spec fn remark_of(record: RecordView) -> Result<Seq<char>, FlightError> {
    match record.field("comment"@) {
        FieldView::Text(text) => Ok(text),
        FieldView::Absent => Ok(Seq::<char>::empty()),
        FieldView::Nested => Err(field_error(Field::Comment, FieldError::NotText)),
    }
}

/// The two markers of a line, each `false` where its field is not there.
pub open spec fn markers_of(record: RecordView) -> Result<Markers, FlightError> {
    match record.flag("end_of_page"@) {
        Err(cause) => Err(field_error(Field::EndOfPage, cause)),
        Ok(end_of_page) => match record.flag("end_of_book"@) {
            Err(cause) => Err(field_error(Field::EndOfBook, cause)),
            Ok(end_of_book) => Ok(Markers { end_of_page, end_of_book }),
        },
    }
}

/// A counter, zero where its field is not there.
pub open spec fn counter_of(record: RecordView, key: Seq<char>, field: Field) -> Result<
    u8,
    FlightError,
> {
    match record.optional_u8(key) {
        Err(cause) => Err(field_error(field, cause)),
        Ok(Some(count)) => Ok(count),
        Ok(None) => Ok(0u8),
    }
}

/// The four counters of a flight.
pub open spec fn counters_of(record: RecordView) -> Result<Counters, FlightError> {
    match counter_of(record, "takeoff_day"@, Field::TakeoffDay) {
        Err(error) => Err(error),
        Ok(takeoff_day) => match counter_of(record, "takeoff_night"@, Field::TakeoffNight) {
            Err(error) => Err(error),
            Ok(takeoff_night) => match counter_of(record, "landing_day"@, Field::LandingDay) {
                Err(error) => Err(error),
                Ok(landing_day) => match counter_of(
                    record,
                    "landing_night"@,
                    Field::LandingNight,
                ) {
                    Err(error) => Err(error),
                    Ok(landing_night) => Ok(
                        Counters { takeoff_day, takeoff_night, landing_day, landing_night },
                    ),
                },
            },
        }
    }
}

/// A duration that is taken as it is written, zero where its field is not there.
pub open spec fn plain_time_of(record: RecordView, key: Seq<char>, field: Field) -> Result<
    FlightTime,
    FlightError,
> {
    match record.optional_duration(key) {
        Err(cause) => Err(field_error(field, cause)),
        Ok(Some(span)) => Ok(span),
        Ok(None) => Ok(FlightTime(0)),
    }
}

/// A duration that, where it is written, has to be the time from departure to arrival.
pub open spec fn checked_time_of(
    record: RecordView,
    key: Seq<char>,
    field: Field,
    start: DateTimeView,
    end: DateTimeView,
) -> Result<Option<FlightTime>, FlightError> {
    match record.optional_duration(key) {
        Err(cause) => Err(field_error(field, cause)),
        Ok(Some(span)) => match duration_verdict(span, DateTime::of(start), DateTime::of(end)) {
            Err(cause) => Err(FlightError::Duration { field, conflict: cause }),
            Ok(_) => Ok(Some(span)),
        },
        Ok(None) => Ok(None),
    }
}

/// The total time of a flight: what is declared, if it is the time from departure to
/// arrival; that time, where nothing is declared.
pub open spec fn total_time_of(record: RecordView, start: DateTimeView, end: DateTimeView) -> Result<
    FlightTime,
    FlightError,
> {
    match checked_time_of(record, "duration_total"@, Field::DurationTotal, start, end) {
        Err(error) => Err(error),
        Ok(Some(span)) => Ok(span),
        Ok(None) => Ok(FlightTime(start.minutes_until(end) as i64)),
    }
}

/// The five durations of a flight that are read after the counters. The time as pilot in
/// command, where it is written, has to be the time from departure to arrival.
pub open spec fn other_times_of(record: RecordView, start: DateTimeView, end: DateTimeView) -> Result<
    OtherTimes,
    FlightError,
> {
    match plain_time_of(record, "oc_time_ifr"@, Field::OcTimeIfr) {
        Err(error) => Err(error),
        Ok(ifr) => match plain_time_of(record, "oc_time_night"@, Field::OcTimeNight) {
            Err(error) => Err(error),
            Ok(night) => match checked_time_of(
                record,
                "duration_pic"@,
                Field::DurationPic,
                start,
                end,
            ) {
                Err(error) => Err(error),
                Ok(declared) => match plain_time_of(record, "dual_time"@, Field::DualTime) {
                    Err(error) => Err(error),
                    Ok(dual) => match plain_time_of(
                        record,
                        "instructor_time"@,
                        Field::InstructorTime,
                    ) {
                        Err(error) => Err(error),
                        Ok(instructor) => Ok(
                            OtherTimes {
                                ifr,
                                night,
                                pilot_in_command: match declared {
                                    Some(span) => span,
                                    None => FlightTime(0),
                                },
                                dual,
                                instructor,
                            },
                        ),
                    },
                },
            },
        }
    }
}

/// Where and when a flight begins and ends.
pub struct Itinerary {
    pub start: DateTimeView,
    pub end: DateTimeView,
    pub departure: Seq<char>,
    pub arrival: Seq<char>,
}

/// How the airport of departure is answered.
pub open spec fn departure_of(record: RecordView, airports: Seq<AirportView>) -> Result<
    Seq<char>,
    crate::airport::AirportError,
> {
    airport_outcome(
        airports,
        record.text("apt_departure_iata"@),
        record.text("apt_departure_icao"@),
        record.text("apt_departure_name"@),
    )
}

/// The airports that are known once the airport of departure is read.
pub open spec fn airports_after_departure(record: RecordView, airports: Seq<AirportView>) -> Seq<
    AirportView,
> {
    airports_after(
        airports,
        record.text("apt_departure_iata"@),
        record.text("apt_departure_icao"@),
        record.text("apt_departure_name"@),
    )
}

/// How the airport of arrival is answered.
pub open spec fn arrival_of(record: RecordView, airports: Seq<AirportView>) -> Result<
    Seq<char>,
    crate::airport::AirportError,
> {
    airport_outcome(
        airports,
        record.text("apt_arrival_iata"@),
        record.text("apt_arrival_icao"@),
        record.text("apt_arrival_name"@),
    )
}

/// The airports that are known once the airport of arrival is read.
pub open spec fn airports_after_arrival(record: RecordView, airports: Seq<AirportView>) -> Seq<
    AirportView,
> {
    airports_after(
        airports,
        record.text("apt_arrival_iata"@),
        record.text("apt_arrival_icao"@),
        record.text("apt_arrival_name"@),
    )
}

/// Where and when the flight of a record begins and ends. What is read, in this order: the
/// departure, its airport, the arrival, whether the two moments can be those of one
/// flight, and the airport of arrival. The first that fails decides.
pub open spec fn itinerary_of(record: RecordView, airports: Seq<AirportView>) -> Result<
    Itinerary,
    FlightError,
> {
    match record.mandatory_datetime("date_start"@) {
        Err(cause) => Err(field_error(Field::DateStart, cause)),
        Ok(start) => match departure_of(record, airports) {
            Err(cause) => Err(FlightError::Departure(cause)),
            Ok(departure) => match record.mandatory_datetime("date_end"@) {
                Err(cause) => Err(field_error(Field::DateEnd, cause)),
                Ok(end) => match chronology_verdict(DateTime::of(start), DateTime::of(end)) {
                    Err(cause) => Err(FlightError::Chronology(cause)),
                    Ok(_) => match arrival_of(record, airports_after_departure(record, airports)) {
                        Err(cause) => Err(FlightError::Arrival(cause)),
                        Ok(arrival) => Ok(Itinerary { start, end, departure, arrival }),
                    },
                },
            },
        },
    }
}

/// The airports that are known once the itinerary is read, or once reading it has failed:
/// an airport that a record declares stays declared, whatever the record holds behind it.
pub open spec fn airports_after_itinerary(record: RecordView, airports: Seq<AirportView>) -> Seq<
    AirportView,
> {
    if record.mandatory_datetime("date_start"@) is Err {
        airports
    } else if departure_of(record, airports) is Err || record.mandatory_datetime("date_end"@) is Err
        || chronology_verdict(
        DateTime::of(record.mandatory_datetime("date_start"@)->Ok_0),
        DateTime::of(record.mandatory_datetime("date_end"@)->Ok_0),
    ) is Err {
        airports_after_departure(record, airports)
    } else {
        airports_after_arrival(record, airports_after_departure(record, airports))
    }
}

/// What a flight holds besides its itinerary and its aircraft.
pub struct Details {
    pub total: FlightTime,
    pub name_pic: Seq<char>,
    pub counters: Counters,
    pub times: OtherTimes,
    pub remark: Seq<char>,
    pub markers: Markers,
}

/// What the record of a flight holds besides its itinerary and its aircraft. What is read,
/// in this order: the total time, the pilot in command, the counters, the other durations,
/// the remark and the markers. The first that fails decides.
pub open spec fn details_of(record: RecordView, start: DateTimeView, end: DateTimeView) -> Result<
    Details,
    FlightError,
> {
    match total_time_of(record, start, end) {
        Err(error) => Err(error),
        Ok(total) => match record.mandatory_text("pic"@) {
            Err(cause) => Err(field_error(Field::Pic, cause)),
            Ok(name_pic) => match counters_of(record) {
                Err(error) => Err(error),
                Ok(counters) => match other_times_of(record, start, end) {
                    Err(error) => Err(error),
                    Ok(times) => match remark_of(record) {
                        Err(error) => Err(error),
                        Ok(remark) => match markers_of(record) {
                            Err(error) => Err(error),
                            Ok(markers) => Ok(
                                Details { total, name_pic, counters, times, remark, markers },
                            ),
                        },
                    },
                },
            },
        },
    }
}

/// The line of a flight, put together from what was read. Time on an aircraft for several
/// pilots counts in full as multi-pilot time, and in full as co-pilot time unless time as
/// pilot in command is declared and not zero.
pub open spec fn powered_line(
    itinerary: Itinerary,
    immatriculation: Seq<char>,
    acmodel: Seq<char>,
    model: ModelView,
    details: Details,
) -> FlightView {
    FlightView {
        date: itinerary.start.date,
        time_departure: itinerary.start.clock,
        airport_departure: itinerary.departure,
        time_arrival: itinerary.end.clock,
        airport_arrival: itinerary.arrival,
        acmodel,
        immatriculation,
        single_pilot_time_se: model.is_single_pilot_se(),
        single_pilot_time_me: model.is_single_pilot_me(),
        multi_pilot_time: if model.is_multi_pilot() {
            details.total
        } else {
            FlightTime(0)
        },
        total_flight_time: details.total,
        name_pic: details.name_pic,
        takeoff_day: details.counters.takeoff_day,
        takeoff_night: details.counters.takeoff_night,
        landing_day: details.counters.landing_day,
        landing_night: details.counters.landing_night,
        operational_condition_time_ifr: details.times.ifr,
        operational_condition_time_night: details.times.night,
        pilot_in_command_time: details.times.pilot_in_command,
        copilot_time: if model.is_multi_pilot() && details.times.pilot_in_command.0 == 0 {
            details.total
        } else {
            FlightTime(0)
        },
        dual_time: details.times.dual,
        instructor_time: details.times.instructor,
        is_sim: false,
        sim_date: itinerary.start.date,
        sim_type: Seq::<char>::empty(),
        sim_total_time_of_session: FlightTime(0),
        remark: details.remark,
        end_of_page: details.markers.end_of_page,
        end_of_book: details.markers.end_of_book,
    }
}

/// The line that the record of a flight gives, or the reason for which the record is
/// refused. The itinerary is read first, then the aircraft, then the rest.
pub open spec fn powered_outcome(
    record: RecordView,
    airports: Seq<AirportView>,
    registry: RegistryView,
) -> Result<FlightView, FlightError> {
    match itinerary_of(record, airports) {
        Err(error) => Err(error),
        Ok(itinerary) => match registry.outcome(AircraftFields::of(record)) {
            Err(cause) => Err(FlightError::Aircraft(cause)),
            Ok(named) => match details_of(record, itinerary.start, itinerary.end) {
                Err(error) => Err(error),
                Ok(details) => Ok(
                    powered_line(
                        itinerary,
                        named.0,
                        named.1,
                        registry.after(AircraftFields::of(record)).model_of(named.0)->0,
                        details,
                    ),
                ),
            },
        },
    }
}

/// The aircraft that are known once the record of a flight is read, or refused: the
/// aircraft fields are read only behind an itinerary that was accepted.
pub open spec fn registry_after_powered(
    record: RecordView,
    airports: Seq<AirportView>,
    registry: RegistryView,
) -> RegistryView {
    if itinerary_of(record, airports) is Err {
        registry
    } else {
        registry.after(AircraftFields::of(record))
    }
}

/// The line of a session on a simulator, put together from what was read. The session ends
/// as much later than it begins as it lasts.
pub open spec fn simulator_line(
    start: DateTimeView,
    sim_type: Seq<char>,
    span: FlightTime,
    remark: Seq<char>,
    markers: Markers,
) -> FlightView {
    FlightView {
        date: start.date,
        time_departure: start.clock,
        airport_departure: Seq::<char>::empty(),
        time_arrival: start.clock.after(span.0 as int),
        airport_arrival: Seq::<char>::empty(),
        acmodel: Seq::<char>::empty(),
        immatriculation: Seq::<char>::empty(),
        single_pilot_time_se: false,
        single_pilot_time_me: false,
        multi_pilot_time: FlightTime(0),
        total_flight_time: FlightTime(0),
        name_pic: Seq::<char>::empty(),
        takeoff_day: 0,
        takeoff_night: 0,
        landing_day: 0,
        landing_night: 0,
        operational_condition_time_ifr: FlightTime(0),
        operational_condition_time_night: FlightTime(0),
        pilot_in_command_time: FlightTime(0),
        copilot_time: FlightTime(0),
        dual_time: FlightTime(0),
        instructor_time: FlightTime(0),
        is_sim: true,
        sim_date: start.date,
        sim_type,
        sim_total_time_of_session: span,
        remark,
        end_of_page: markers.end_of_page,
        end_of_book: markers.end_of_book,
    }
}

/// The line that the record of a session on a simulator gives, or the reason for which the
/// record is refused. What is read, in this order: the date, the type, the duration, the
/// remark and the markers. The first that fails decides.
pub open spec fn simulator_outcome(record: RecordView) -> Result<FlightView, FlightError> {
    match record.mandatory_datetime("sim_date"@) {
        Err(cause) => Err(field_error(Field::SimDate, cause)),
        Ok(start) => match record.mandatory_text("sim_type"@) {
            Err(cause) => Err(field_error(Field::SimType, cause)),
            Ok(sim_type) => match record.optional_duration("sim_total_time"@) {
                Err(cause) => Err(field_error(Field::SimTotalTime, cause)),
                Ok(None) => Err(field_error(Field::SimTotalTime, FieldError::Missing)),
                Ok(Some(span)) => match remark_of(record) {
                    Err(error) => Err(error),
                    Ok(remark) => match markers_of(record) {
                        Err(error) => Err(error),
                        Ok(markers) => Ok(simulator_line(start, sim_type, span, remark, markers)),
                    },
                },
            },
        },
    }
}

impl FlightView {
    /// Whether everything that belongs to a flight alone is empty or zero, as it is in the
    /// line of a session on a simulator.
    pub open spec fn is_bare(self) -> bool {
        &&& self.airport_departure.len() == 0
        &&& self.airport_arrival.len() == 0
        &&& self.acmodel.len() == 0
        &&& self.immatriculation.len() == 0
        &&& self.name_pic.len() == 0
        &&& !self.single_pilot_time_se
        &&& !self.single_pilot_time_me
        &&& self.multi_pilot_time.0 == 0
        &&& self.total_flight_time.0 == 0
        &&& self.takeoff_day == 0
        &&& self.takeoff_night == 0
        &&& self.landing_day == 0
        &&& self.landing_night == 0
        &&& self.operational_condition_time_ifr.0 == 0
        &&& self.operational_condition_time_night.0 == 0
        &&& self.pilot_in_command_time.0 == 0
        &&& self.copilot_time.0 == 0
        &&& self.dual_time.0 == 0
        &&& self.instructor_time.0 == 0
    }
}

/// A record gives the line of a session on a simulator exactly where it is the record of
/// one; the line holds nothing of a flight, and reading it declares nothing. The line of a
/// flight holds no session.
pub proof fn lemma_lines_are_of_two_kinds(
    record: RecordView,
    airports: Seq<AirportView>,
    registry: RegistryView,
)
    ensures
        flight_outcome(record, airports, registry) matches Ok(line) ==> {
            &&& line.is_sim == (is_simulator_record(record) == Ok::<bool, FlightError>(true))
            &&& line.is_sim ==> line.is_bare() && airports_after_flight(record, airports)
                == airports && registry_after_flight(record, airports, registry) == registry
            &&& !line.is_sim ==> line.sim_total_time_of_session.0 == 0 && line.sim_type.len() == 0
        },
{
}

/// Whether a record is that of a session on a simulator: it is where `is_sim` says `true`,
/// and not where the field is missing.
pub open spec fn is_simulator_record(record: RecordView) -> Result<bool, FlightError> {
    match record.optional_bool("is_sim"@) {
        Err(cause) => Err(field_error(Field::IsSim, cause)),
        Ok(Some(true)) => Ok(true),
        Ok(_) => Ok(false),
    }
}

/// The line that a record gives, or the reason for which the record is refused.
pub open spec fn flight_outcome(
    record: RecordView,
    airports: Seq<AirportView>,
    registry: RegistryView,
) -> Result<FlightView, FlightError> {
    match is_simulator_record(record) {
        Err(error) => Err(error),
        Ok(true) => simulator_outcome(record),
        Ok(false) => powered_outcome(record, airports, registry),
    }
}

/// The airports that are known once a record is read, or refused. A session on a simulator
/// names none.
pub open spec fn airports_after_flight(record: RecordView, airports: Seq<AirportView>) -> Seq<
    AirportView,
> {
    if is_simulator_record(record) == Ok::<bool, FlightError>(false) {
        airports_after_itinerary(record, airports)
    } else {
        airports
    }
}

/// The aircraft that are known once a record is read, or refused. A session on a simulator
/// names none.
pub open spec fn registry_after_flight(
    record: RecordView,
    airports: Seq<AirportView>,
    registry: RegistryView,
) -> RegistryView {
    if is_simulator_record(record) == Ok::<bool, FlightError>(false) {
        registry_after_powered(record, airports, registry)
    } else {
        registry
    }
}

/// Reads the remark of a line.
fn read_remark(record: &Record) -> (remark: Result<String, FlightError>)
    ensures
        remark matches Ok(text) ==> remark_of(record@) == Ok::<Seq<char>, FlightError>(text@),
        remark matches Err(error) ==> remark_of(record@) == Err::<Seq<char>, FlightError>(error),
{
    match record.get("comment") {
        Some(FieldValue::Text(text)) => Ok(text.clone()),
        Some(FieldValue::Nested) => Err(
            FlightError::Field { field: Field::Comment, cause: FieldError::NotText },
        ),
        None => Ok(String::new()),
    }
}

/// Reads a marker.
fn read_flag(record: &Record, key: &str) -> (flag: Result<bool, FieldError>)
    ensures
        flag == record@.flag(key@),
{
    match optional_bool(record, key) {
        Ok(Some(value)) => Ok(value),
        Ok(None) => Ok(false),
        Err(error) => Err(error),
    }
}

/// Reads the two markers of a line.
fn read_markers(record: &Record) -> (markers: Result<Markers, FlightError>)
    ensures
        markers == markers_of(record@),
{
    let end_of_page = match read_flag(record, "end_of_page") {
        Ok(flag) => flag,
        Err(cause) => {
            return Err(FlightError::Field { field: Field::EndOfPage, cause });
        },
    };
    let end_of_book = match read_flag(record, "end_of_book") {
        Ok(flag) => flag,
        Err(cause) => {
            return Err(FlightError::Field { field: Field::EndOfBook, cause });
        },
    };
    Ok(Markers { end_of_page, end_of_book })
}

/// Reads a counter.
fn read_counter(record: &Record, key: &str, field: Field) -> (count: Result<u8, FlightError>)
    ensures
        count == counter_of(record@, key@, field),
{
    match optional_u8(record, key) {
        Ok(Some(count)) => Ok(count),
        Ok(None) => Ok(0),
        Err(cause) => Err(FlightError::Field { field, cause }),
    }
}

/// Reads the four counters of a flight.
fn read_counters(record: &Record) -> (counters: Result<Counters, FlightError>)
    ensures
        counters == counters_of(record@),
{
    let takeoff_day = match read_counter(record, "takeoff_day", Field::TakeoffDay) {
        Ok(count) => count,
        Err(error) => {
            return Err(error);
        },
    };
    let takeoff_night = match read_counter(record, "takeoff_night", Field::TakeoffNight) {
        Ok(count) => count,
        Err(error) => {
            return Err(error);
        },
    };
    let landing_day = match read_counter(record, "landing_day", Field::LandingDay) {
        Ok(count) => count,
        Err(error) => {
            return Err(error);
        },
    };
    let landing_night = match read_counter(record, "landing_night", Field::LandingNight) {
        Ok(count) => count,
        Err(error) => {
            return Err(error);
        },
    };
    Ok(Counters { takeoff_day, takeoff_night, landing_day, landing_night })
}

/// Reads a duration that is taken as it is written.
fn read_plain_time(record: &Record, key: &str, field: Field) -> (span: Result<FlightTime, FlightError>)
    ensures
        span == plain_time_of(record@, key@, field),
{
    match optional_duration(record, key) {
        Ok(Some(span)) => Ok(span),
        Ok(None) => Ok(FlightTime::zero()),
        Err(cause) => Err(FlightError::Field { field, cause }),
    }
}

/// Reads a duration that has to be the time from departure to arrival.
fn read_checked_time(
    record: &Record,
    key: &str,
    field: Field,
    date_start: &DateTime,
    date_end: &DateTime,
) -> (span: Result<Option<FlightTime>, FlightError>)
    ensures
        span == checked_time_of(record@, key@, field, date_start@, date_end@),
{
    proof {
        date_start.lemma_view_tells_all();
        date_end.lemma_view_tells_all();
    }
    match optional_duration(record, key) {
        Ok(Some(span)) => match validate_duration(span, date_start, date_end) {
            Ok(_) => Ok(Some(span)),
            Err(cause) => Err(FlightError::Duration { field, conflict: cause }),
        },
        Ok(None) => Ok(None),
        Err(cause) => Err(FlightError::Field { field, cause }),
    }
}

/// Reads the five durations of a flight that stand behind the counters.
fn read_other_times(record: &Record, date_start: &DateTime, date_end: &DateTime) -> (times: Result<
    OtherTimes,
    FlightError,
>)
    ensures
        times == other_times_of(record@, date_start@, date_end@),
{
    let ifr = match read_plain_time(record, "oc_time_ifr", Field::OcTimeIfr) {
        Ok(span) => span,
        Err(error) => {
            return Err(error);
        },
    };
    let night = match read_plain_time(record, "oc_time_night", Field::OcTimeNight) {
        Ok(span) => span,
        Err(error) => {
            return Err(error);
        },
    };
    let pilot_in_command = match read_checked_time(
        record,
        "duration_pic",
        Field::DurationPic,
        date_start,
        date_end,
    ) {
        Ok(Some(span)) => span,
        Ok(None) => FlightTime::zero(),
        Err(error) => {
            return Err(error);
        },
    };
    let dual = match read_plain_time(record, "dual_time", Field::DualTime) {
        Ok(span) => span,
        Err(error) => {
            return Err(error);
        },
    };
    let instructor = match read_plain_time(record, "instructor_time", Field::InstructorTime) {
        Ok(span) => span,
        Err(error) => {
            return Err(error);
        },
    };
    Ok(OtherTimes { ifr, night, pilot_in_command, dual, instructor })
}

/// Where and when a flight begins and ends, as it was read.
struct Legs {
    start: DateTime,
    end: DateTime,
    departure: String,
    arrival: String,
}

impl View for Legs {
    type V = Itinerary;

    closed spec fn view(&self) -> Itinerary {
        Itinerary {
            start: self.start@,
            end: self.end@,
            departure: self.departure@,
            arrival: self.arrival@,
        }
    }
}

/// Reads where and when a flight begins and ends, and declares the airports that the
/// record declares.
fn read_itinerary(record: &Record, airport_list: &mut AirportList) -> (legs: Result<Legs, FlightError>)
    ensures
        final(airport_list)@ == airports_after_itinerary(record@, old(airport_list)@),
        legs matches Ok(read) ==> itinerary_of(record@, old(airport_list)@) == Ok::<
            Itinerary,
            FlightError,
        >(read@),
        legs matches Err(error) ==> itinerary_of(record@, old(airport_list)@) == Err::<
            Itinerary,
            FlightError,
        >(error),
{
    let start = match mandatory_datetime(record, "date_start") {
        Ok(moment) => moment,
        Err(cause) => {
            return Err(FlightError::Field { field: Field::DateStart, cause });
        },
    };
    let departure = match airport_list.add(
        optional_string(record, "apt_departure_iata"),
        optional_string(record, "apt_departure_icao"),
        optional_string(record, "apt_departure_name"),
    ) {
        Ok(called) => called,
        Err(cause) => {
            return Err(FlightError::Departure(cause));
        },
    };
    let end = match mandatory_datetime(record, "date_end") {
        Ok(moment) => moment,
        Err(cause) => {
            return Err(FlightError::Field { field: Field::DateEnd, cause });
        },
    };
    proof {
        start.lemma_view_tells_all();
        end.lemma_view_tells_all();
    }
    match validate_date(&start, &end) {
        Ok(_) => {},
        Err(cause) => {
            return Err(FlightError::Chronology(cause));
        },
    }
    let arrival = match airport_list.add(
        optional_string(record, "apt_arrival_iata"),
        optional_string(record, "apt_arrival_icao"),
        optional_string(record, "apt_arrival_name"),
    ) {
        Ok(called) => called,
        Err(cause) => {
            return Err(FlightError::Arrival(cause));
        },
    };
    Ok(Legs { start, end, departure, arrival })
}

/// What a flight holds besides its itinerary and its aircraft, as it was read.
struct Rest {
    total: FlightTime,
    name_pic: String,
    counters: Counters,
    times: OtherTimes,
    remark: String,
    markers: Markers,
}

impl View for Rest {
    type V = Details;

    closed spec fn view(&self) -> Details {
        Details {
            total: self.total,
            name_pic: self.name_pic@,
            counters: self.counters,
            times: self.times,
            remark: self.remark@,
            markers: self.markers,
        }
    }
}

/// Reads what the record of a flight holds besides its itinerary and its aircraft.
fn read_details(record: &Record, date_start: &DateTime, date_end: &DateTime) -> (rest: Result<
    Rest,
    FlightError,
>)
    ensures
        rest matches Ok(read) ==> details_of(record@, date_start@, date_end@) == Ok::<
            Details,
            FlightError,
        >(read@),
        rest matches Err(error) ==> details_of(record@, date_start@, date_end@) == Err::<
            Details,
            FlightError,
        >(error),
{
    let total = match read_checked_time(
        record,
        "duration_total",
        Field::DurationTotal,
        date_start,
        date_end,
    ) {
        Ok(Some(span)) => span,
        Ok(None) => date_start.minutes_until(date_end),
        Err(error) => {
            return Err(error);
        },
    };
    let name_pic = match mandatory_string(record, "pic") {
        Ok(name) => name.to_owned(),
        Err(cause) => {
            return Err(FlightError::Field { field: Field::Pic, cause });
        },
    };
    let counters = match read_counters(record) {
        Ok(counters) => counters,
        Err(error) => {
            return Err(error);
        },
    };
    let times = match read_other_times(record, date_start, date_end) {
        Ok(times) => times,
        Err(error) => {
            return Err(error);
        },
    };
    let remark = match read_remark(record) {
        Ok(remark) => remark,
        Err(error) => {
            return Err(error);
        },
    };
    let markers = match read_markers(record) {
        Ok(markers) => markers,
        Err(error) => {
            return Err(error);
        },
    };
    Ok(Rest { total, name_pic, counters, times, remark, markers })
}

impl Flight {
    /// Reads one record of the log: a flight, or a session on a simulator where `is_sim`
    /// says so. A flight declares or names its two airports and its aircraft; what it
    /// declares stays declared even where the record is refused further on.
    pub fn from_yaml(
        record: &Record,
        aircraft_database: &mut AircraftDataBase,
        airport_list: &mut AirportList,
    ) -> (line: Result<Flight, FlightError>)
        requires
            old(aircraft_database)@.is_consistent(),
        ensures
            final(aircraft_database)@.is_consistent(),
            final(airport_list)@ == airports_after_flight(record@, old(airport_list)@),
            final(aircraft_database)@ == registry_after_flight(
                record@,
                old(airport_list)@,
                old(aircraft_database)@,
            ),
            line matches Ok(flight) ==> flight_outcome(
                record@,
                old(airport_list)@,
                old(aircraft_database)@,
            ) == Ok::<FlightView, FlightError>(flight@),
            line matches Err(error) ==> flight_outcome(
                record@,
                old(airport_list)@,
                old(aircraft_database)@,
            ) == Err::<FlightView, FlightError>(error),
    {
        let is_sim = match optional_bool(record, "is_sim") {
            Ok(is_sim) => is_sim,
            Err(cause) => {
                return Err(FlightError::Field { field: Field::IsSim, cause });
            },
        };
        match is_sim {
            Some(true) => Flight::simulator_from_yaml(record),
            _ => Flight::flight_from_yaml(record, aircraft_database, airport_list),
        }
    }

    /// Reads the record of a flight.
    fn flight_from_yaml(
        record: &Record,
        aircraft_database: &mut AircraftDataBase,
        airport_list: &mut AirportList,
    ) -> (line: Result<Flight, FlightError>)
        requires
            old(aircraft_database)@.is_consistent(),
        ensures
            final(aircraft_database)@.is_consistent(),
            final(airport_list)@ == airports_after_itinerary(record@, old(airport_list)@),
            final(aircraft_database)@ == registry_after_powered(
                record@,
                old(airport_list)@,
                old(aircraft_database)@,
            ),
            line matches Ok(flight) ==> powered_outcome(
                record@,
                old(airport_list)@,
                old(aircraft_database)@,
            ) == Ok::<FlightView, FlightError>(flight@),
            line matches Err(error) ==> powered_outcome(
                record@,
                old(airport_list)@,
                old(aircraft_database)@,
            ) == Err::<FlightView, FlightError>(error),
    {
        let legs = match read_itinerary(record, airport_list) {
            Ok(legs) => legs,
            Err(error) => {
                return Err(error);
            },
        };
        let date = legs.start.date;
        let time_departure = legs.start.time;
        let time_arrival = legs.end.time;

        let (immatriculation, acmodel) = match aircraft_database.add_flight(record) {
            Ok(named) => (named.0.to_owned(), named.1.to_owned()),
            Err(cause) => {
                return Err(FlightError::Aircraft(cause));
            },
        };
        proof {
            lemma_accepted_aircraft_is_known(
                old(aircraft_database)@,
                AircraftFields::of(record@),
            );
        }
        let single_pilot_time_se = match aircraft_database.is_single_pilot_se(
            immatriculation.as_str(),
        ) {
            Ok(answer) => answer,
            Err(_) => vstd::pervasive::unreached(),
        };
        let single_pilot_time_me = match aircraft_database.is_single_pilot_me(
            immatriculation.as_str(),
        ) {
            Ok(answer) => answer,
            Err(_) => vstd::pervasive::unreached(),
        };
        let multi_pilot = match aircraft_database.is_multi_pilot(immatriculation.as_str()) {
            Ok(answer) => answer,
            Err(_) => vstd::pervasive::unreached(),
        };
        let rest = match read_details(record, &legs.start, &legs.end) {
            Ok(rest) => rest,
            Err(error) => {
                return Err(error);
            },
        };
        let total_flight_time = rest.total;
        let multi_pilot_time = if multi_pilot {
            total_flight_time
        } else {
            FlightTime::zero()
        };
        let pilot_in_command_time = rest.times.pilot_in_command;
        let copilot_time = if multi_pilot && pilot_in_command_time.is_zero() {
            total_flight_time
        } else {
            FlightTime::zero()
        };
        Ok(
            Flight {
                date,
                time_departure,
                airport_departure: legs.departure,
                time_arrival,
                airport_arrival: legs.arrival,
                acmodel,
                immatriculation,
                single_pilot_time_se,
                single_pilot_time_me,
                multi_pilot_time,
                total_flight_time,
                name_pic: rest.name_pic,
                takeoff_day: rest.counters.takeoff_day,
                takeoff_night: rest.counters.takeoff_night,
                landing_day: rest.counters.landing_day,
                landing_night: rest.counters.landing_night,
                operational_condition_time_ifr: rest.times.ifr,
                operational_condition_time_night: rest.times.night,
                pilot_in_command_time,
                copilot_time,
                dual_time: rest.times.dual,
                instructor_time: rest.times.instructor,
                is_sim: false,
                sim_date: date,
                sim_type: String::new(),
                sim_total_time_of_session: FlightTime::zero(),
                remark: rest.remark,
                end_of_page: rest.markers.end_of_page,
                end_of_book: rest.markers.end_of_book,
            },
        )
    }

    /// Reads the record of a session on a simulator.
    fn simulator_from_yaml(record: &Record) -> (line: Result<Flight, FlightError>)
        ensures
            line matches Ok(flight) ==> simulator_outcome(record@) == Ok::<FlightView, FlightError>(
                flight@,
            ),
            line matches Err(error) ==> simulator_outcome(record@) == Err::<FlightView, FlightError>(
                error,
            ),
    {
        let sim_datetime = match mandatory_datetime(record, "sim_date") {
            Ok(moment) => moment,
            Err(cause) => {
                return Err(FlightError::Field { field: Field::SimDate, cause });
            },
        };
        let sim_date = sim_datetime.date;
        let sim_type = match mandatory_string(record, "sim_type") {
            Ok(label) => label.to_owned(),
            Err(cause) => {
                return Err(FlightError::Field { field: Field::SimType, cause });
            },
        };
        let sim_total_time_of_session = match optional_duration(record, "sim_total_time") {
            Ok(Some(span)) => span,
            Ok(None) => {
                return Err(
                    FlightError::Field { field: Field::SimTotalTime, cause: FieldError::Missing },
                );
            },
            Err(cause) => {
                return Err(FlightError::Field { field: Field::SimTotalTime, cause });
            },
        };
        let remark = match read_remark(record) {
            Ok(remark) => remark,
            Err(error) => {
                return Err(error);
            },
        };
        let markers = match read_markers(record) {
            Ok(markers) => markers,
            Err(error) => {
                return Err(error);
            },
        };
        proof {
            lemma_duration_is_bounded(record@.text("sim_total_time"@)->0);
        }
        let time_arrival = match sim_datetime.time.after(sim_total_time_of_session) {
            Some(later) => later,
            None => vstd::pervasive::unreached(),
        };
        Ok(
            Flight {
                date: sim_date,
                time_departure: sim_datetime.time,
                airport_departure: String::new(),
                time_arrival,
                airport_arrival: String::new(),
                acmodel: String::new(),
                immatriculation: String::new(),
                single_pilot_time_se: false,
                single_pilot_time_me: false,
                multi_pilot_time: FlightTime::zero(),
                total_flight_time: FlightTime::zero(),
                name_pic: String::new(),
                takeoff_day: 0,
                takeoff_night: 0,
                landing_day: 0,
                landing_night: 0,
                operational_condition_time_ifr: FlightTime::zero(),
                operational_condition_time_night: FlightTime::zero(),
                pilot_in_command_time: FlightTime::zero(),
                copilot_time: FlightTime::zero(),
                dual_time: FlightTime::zero(),
                instructor_time: FlightTime::zero(),
                is_sim: true,
                sim_date,
                sim_type,
                sim_total_time_of_session,
                remark,
                end_of_page: markers.end_of_page,
                end_of_book: markers.end_of_book,
            },
        )
    }
}

} // verus!
