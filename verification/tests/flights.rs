use zenjep::aircraftdatabase::AircraftDataBase;
use zenjep::aircraftdatabase::AircraftError;
use zenjep::airport::AirportError;
use zenjep::airport::AirportList;
use zenjep::error::ErrorClass;
use zenjep::error::Field;
use zenjep::error::FieldError;
use zenjep::error::FlightError;
use zenjep::error::LoadError;
use zenjep::error::ParseError;
use zenjep::error::ValidationError;
use zenjep::extracttime::extract_date;
use zenjep::flight::Flight;
use zenjep::flightlist::FlightList;
use zenjep::flighttime::FlightTime;
use zenjep::record::Record;

fn record(fields: &[(&str, &str)]) -> Record {
    let mut record = Record::new();
    for (key, value) in fields {
        record.set_text(key, value);
    }
    record
}

fn with(base: &[(&str, &str)], more: &[(&str, &str)]) -> Record {
    let mut record = record(more);
    for (key, value) in base {
        record.set_text(key, value);
    }
    record
}

const FIRST: [(&str, &str); 18] = [
    ("date_start", "2020-01-01 10:00"),
    ("date_end", "2020-01-01 11:30"),
    ("apt_departure_iata", "CDG"),
    ("apt_departure_icao", "LFPG"),
    ("apt_departure_name", "Paris"),
    ("apt_arrival_iata", "ORY"),
    ("apt_arrival_icao", "LFPO"),
    ("apt_arrival_name", "Orly"),
    ("immatriculation", "F-ABCD"),
    ("acmodel", "C172"),
    ("actype", "Cessna"),
    ("nb_engines", "1"),
    ("mtow", "1100"),
    ("multipilot", "false"),
    ("cat1", "land"),
    ("cat2", "piston"),
    ("cat3", "private"),
    ("pic", "Self"),
];

const AIRLINER: [(&str, &str); 18] = [
    ("date_start", "2021-06-01 22:00"),
    ("date_end", "2021-06-02 01:00"),
    ("apt_departure_iata", "???"),
    ("apt_departure_icao", "LFPG"),
    ("apt_departure_name", "Paris"),
    ("apt_arrival_iata", "???"),
    ("apt_arrival_icao", "????"),
    ("apt_arrival_name", "Somewhere"),
    ("immatriculation", "F-HEPA"),
    ("acmodel", "A320"),
    ("actype", "Airbus"),
    ("nb_engines", "2"),
    ("mtow", "78000"),
    ("multipilot", "true"),
    ("cat1", "land"),
    ("cat2", "jet"),
    ("cat3", "airline"),
    ("pic", "Captain"),
];

fn read(record: &Record) -> Result<Flight, FlightError> {
    let mut aircrafts = AircraftDataBase::empty();
    let mut airports = AirportList::new();
    Flight::from_yaml(record, &mut aircrafts, &mut airports)
}

fn refused(record: &Record) -> FlightError {
    read(record).unwrap_err()
}

#[test]
fn flight_is_read_from_its_record() {
    let flight = read(&with(
        &FIRST,
        &[
            ("takeoff_day", "1"),
            ("landing_day", "2"),
            ("takeoff_night", "3"),
            ("landing_night", "4"),
            ("oc_time_ifr", "00:20"),
            ("oc_time_night", "00:10"),
            ("dual_time", "01:30"),
            ("instructor_time", "00:05"),
            ("comment", "first solo"),
            ("end_of_page", "true"),
            ("duration_total", "01:30"),
            ("duration_pic", "01:30"),
            ("is_sim", "false"),
        ],
    ))
    .unwrap();
    assert_eq!((flight.date.year(), flight.date.month(), flight.date.day()), (2020, 0, 1));
    assert_eq!((flight.time_departure.hour(), flight.time_departure.minute()), (10, 0));
    assert_eq!((flight.time_arrival.hour(), flight.time_arrival.minute()), (11, 30));
    assert_eq!(flight.airport_departure, "CDG");
    assert_eq!(flight.airport_arrival, "ORY");
    assert_eq!(flight.acmodel, "C172");
    assert_eq!(flight.immatriculation, "F-ABCD");
    assert!(flight.single_pilot_time_se);
    assert!(!flight.single_pilot_time_me);
    assert_eq!(flight.multi_pilot_time, FlightTime(0));
    assert_eq!(flight.total_flight_time, FlightTime(90));
    assert_eq!(flight.name_pic, "Self");
    assert_eq!(flight.takeoff_day, 1);
    assert_eq!(flight.landing_day, 2);
    assert_eq!(flight.takeoff_night, 3);
    assert_eq!(flight.landing_night, 4);
    assert_eq!(flight.operational_condition_time_ifr, FlightTime(20));
    assert_eq!(flight.operational_condition_time_night, FlightTime(10));
    assert_eq!(flight.pilot_in_command_time, FlightTime(90));
    assert_eq!(flight.copilot_time, FlightTime(0));
    assert_eq!(flight.dual_time, FlightTime(90));
    assert_eq!(flight.instructor_time, FlightTime(5));
    assert!(!flight.is_sim);
    assert_eq!(flight.sim_date, flight.date);
    assert_eq!(flight.sim_type, "");
    assert_eq!(flight.sim_total_time_of_session, FlightTime(0));
    assert_eq!(flight.remark, "first solo");
    assert!(flight.end_of_page);
    assert!(!flight.end_of_book);
    let copy = flight.clone();
    assert_eq!(format!("{:?}", copy), format!("{:?}", flight));
}

#[test]
fn what_is_not_written_is_zero_or_empty() {
    let flight = read(&record(&FIRST)).unwrap();
    assert_eq!(flight.total_flight_time, FlightTime(90));
    assert_eq!(flight.pilot_in_command_time, FlightTime(0));
    assert_eq!(
        (flight.takeoff_day, flight.takeoff_night, flight.landing_day, flight.landing_night),
        (0, 0, 0, 0)
    );
    assert_eq!(flight.operational_condition_time_ifr, FlightTime(0));
    assert_eq!(flight.operational_condition_time_night, FlightTime(0));
    assert_eq!(flight.dual_time, FlightTime(0));
    assert_eq!(flight.instructor_time, FlightTime(0));
    assert_eq!(flight.remark, "");
    assert!(!flight.end_of_page);
    assert!(!flight.end_of_book);
}

#[test]
fn time_on_a_multi_pilot_aircraft_counts_for_the_copilot() {
    let flight = read(&record(&AIRLINER)).unwrap();
    assert_eq!(flight.airport_departure, "LFPG");
    assert_eq!(flight.airport_arrival, "Somewhere");
    assert_eq!(flight.total_flight_time, FlightTime(180));
    assert_eq!(flight.multi_pilot_time, FlightTime(180));
    assert_eq!(flight.copilot_time, FlightTime(180));
    assert_eq!(flight.pilot_in_command_time, FlightTime(0));
    assert!(!flight.single_pilot_time_se);
    assert!(!flight.single_pilot_time_me);
    let captain = read(&with(&AIRLINER, &[("duration_pic", "03:00")])).unwrap();
    assert_eq!(captain.multi_pilot_time, FlightTime(180));
    assert_eq!(captain.copilot_time, FlightTime(0));
    assert_eq!(captain.pilot_in_command_time, FlightTime(180));
}

#[test]
fn session_on_a_simulator_is_read_from_its_record() {
    let flight = read(&record(&[
        ("is_sim", "true"),
        ("sim_date", "2020-03-04 23:30"),
        ("sim_type", "FNPT II"),
        ("sim_total_time", "01:45"),
        ("comment", "engine failures"),
        ("end_of_book", "true"),
        ("immatriculation", "ignored"),
        ("date_start", "ignored"),
    ]))
    .unwrap();
    assert!(flight.is_sim);
    assert_eq!((flight.date.year(), flight.date.month(), flight.date.day()), (2020, 2, 4));
    assert_eq!(flight.sim_date, flight.date);
    assert_eq!(flight.sim_type, "FNPT II");
    assert_eq!(flight.sim_total_time_of_session, FlightTime(105));
    assert_eq!((flight.time_departure.hour(), flight.time_departure.minute()), (23, 30));
    assert_eq!((flight.time_arrival.hour(), flight.time_arrival.minute()), (1, 15));
    assert_eq!(flight.remark, "engine failures");
    assert!(flight.end_of_book);
    assert!(!flight.end_of_page);
    assert_eq!(flight.total_flight_time, FlightTime(0));
    assert_eq!(flight.immatriculation, "");
    assert_eq!(flight.acmodel, "");
    assert_eq!(flight.airport_departure, "");
    assert_eq!(flight.airport_arrival, "");
    assert_eq!(flight.name_pic, "");
    assert!(!flight.single_pilot_time_se);
}

#[test]
fn session_on_a_simulator_needs_its_three_fields() {
    let sim = [
        ("is_sim", "true"),
        ("sim_date", "2020-03-04 09:00"),
        ("sim_type", "FNPT II"),
        ("sim_total_time", "01:45"),
    ];
    assert!(read(&record(&sim)).is_ok());
    assert_eq!(
        refused(&record(&[sim[0], sim[2], sim[3]])),
        FlightError::Field { field: Field::SimDate, cause: FieldError::Missing }
    );
    assert_eq!(
        refused(&record(&[sim[0], sim[1], sim[3]])),
        FlightError::Field { field: Field::SimType, cause: FieldError::Missing }
    );
    assert_eq!(
        refused(&record(&[sim[0], sim[1], sim[2]])),
        FlightError::Field { field: Field::SimTotalTime, cause: FieldError::Missing }
    );
    assert_eq!(
        refused(&with(&[("sim_total_time", "1h45")], &[sim[0], sim[1], sim[2]])),
        FlightError::Field {
            field: Field::SimTotalTime,
            cause: FieldError::Token(ParseError::Unexpected { character: 'h', position: 1 }),
        }
    );
    assert_eq!(
        refused(&with(&sim, &[("end_of_page", "yes")])),
        FlightError::Field { field: Field::EndOfPage, cause: FieldError::NotABoolean }
    );
    assert_eq!(
        refused(&record(&[("is_sim", "maybe")])),
        FlightError::Field { field: Field::IsSim, cause: FieldError::NotABoolean }
    );
}

#[test]
fn first_field_that_fails_decides() {
    assert_eq!(
        refused(&record(&FIRST[1..])),
        FlightError::Field { field: Field::DateStart, cause: FieldError::Missing }
    );
    assert_eq!(
        refused(&with(&FIRST[1..], &[("date_start", "2020-01-01")])),
        FlightError::Field { field: Field::DateStart, cause: FieldError::Token(ParseError::Truncated) }
    );
    assert_eq!(
        refused(&with(&FIRST[5..], &[FIRST[0], FIRST[1]])),
        FlightError::Departure(AirportError::Unnamed)
    );
    assert_eq!(
        refused(&with(&FIRST[5..], &[FIRST[0], FIRST[1], ("apt_departure_iata", "CDG")])),
        FlightError::Departure(AirportError::UnknownIata)
    );
    assert_eq!(
        refused(&with(&FIRST[2..], &[FIRST[0]])),
        FlightError::Field { field: Field::DateEnd, cause: FieldError::Missing }
    );
    let start = extract_date("2020-01-01 10:00").unwrap();
    let early = extract_date("2020-01-01 09:00").unwrap();
    assert_eq!(
        refused(&with(&FIRST[2..], &[FIRST[0], ("date_end", "2020-01-01 09:00")])),
        FlightError::Chronology(ValidationError::TakeoffAfterLanding { start, end: early })
    );
    let late = extract_date("2020-01-02 10:00").unwrap();
    assert_eq!(
        refused(&with(&FIRST[2..], &[FIRST[0], ("date_end", "2020-01-02 10:00")])),
        FlightError::Chronology(ValidationError::TooLong { start, end: late })
    );
    assert_eq!(
        refused(&with(&FIRST[8..], &[FIRST[0], FIRST[1], FIRST[2], FIRST[3], FIRST[4]])),
        FlightError::Arrival(AirportError::Unnamed)
    );
    assert_eq!(
        refused(&with(
            &FIRST[8..],
            &[
                FIRST[0],
                FIRST[1],
                FIRST[2],
                FIRST[3],
                FIRST[4],
                ("apt_arrival_iata", "CDG"),
                ("apt_arrival_icao", "LFXX"),
                ("apt_arrival_name", "Other"),
            ]
        )),
        FlightError::Arrival(AirportError::DuplicateIata)
    );
    assert_eq!(
        refused(&record(&FIRST[..8])),
        FlightError::Aircraft(AircraftError::MissingIdentity)
    );
    assert_eq!(
        refused(&record(&FIRST[..9])),
        FlightError::Aircraft(AircraftError::UnknownIdentity)
    );
    let mismatch = ValidationError::DurationMismatch { declared: FlightTime(91), computed: FlightTime(90) };
    assert_eq!(
        refused(&with(&FIRST[..17], &[("duration_total", "01:31")])),
        FlightError::Duration { field: Field::DurationTotal, conflict: mismatch }
    );
    assert_eq!(
        refused(&with(&FIRST[..17], &[("duration_total", "1:31")])),
        FlightError::Field {
            field: Field::DurationTotal,
            cause: FieldError::Token(ParseError::Unexpected { character: ':', position: 1 }),
        }
    );
    assert_eq!(
        refused(&with(&FIRST[..17], &[("takeoff_day", "x")])),
        FlightError::Field { field: Field::Pic, cause: FieldError::Missing }
    );
    for (key, field) in [
        ("takeoff_day", Field::TakeoffDay),
        ("takeoff_night", Field::TakeoffNight),
        ("landing_day", Field::LandingDay),
        ("landing_night", Field::LandingNight),
    ] {
        assert_eq!(
            refused(&with(&FIRST, &[(key, "256"), ("oc_time_ifr", "x")])),
            FlightError::Field { field, cause: FieldError::NotANumber }
        );
    }
    for (key, field) in [
        ("oc_time_ifr", Field::OcTimeIfr),
        ("oc_time_night", Field::OcTimeNight),
        ("duration_pic", Field::DurationPic),
        ("dual_time", Field::DualTime),
        ("instructor_time", Field::InstructorTime),
    ] {
        assert_eq!(
            refused(&with(&FIRST, &[(key, ""), ("end_of_book", "x")])),
            FlightError::Field { field, cause: FieldError::Token(ParseError::Truncated) }
        );
    }
    assert_eq!(
        refused(&with(&FIRST, &[("duration_pic", "01:31"), ("dual_time", "x")])),
        FlightError::Duration { field: Field::DurationPic, conflict: mismatch }
    );
    let mut nested = record(&FIRST);
    nested.set_nested("comment");
    nested.set_text("end_of_page", "x");
    assert_eq!(
        refused(&nested),
        FlightError::Field { field: Field::Comment, cause: FieldError::NotText }
    );
    assert_eq!(
        refused(&with(&FIRST, &[("end_of_page", "x"), ("end_of_book", "y")])),
        FlightError::Field { field: Field::EndOfPage, cause: FieldError::NotABoolean }
    );
    assert_eq!(
        refused(&with(&FIRST, &[("end_of_book", "y")])),
        FlightError::Field { field: Field::EndOfBook, cause: FieldError::NotABoolean }
    );
}

#[test]
fn flight_errors_fall_in_four_classes() {
    assert_eq!(refused(&record(&FIRST[1..])).class(), ErrorClass::Parse);
    assert_eq!(refused(&with(&FIRST[5..], &[FIRST[0], FIRST[1]])).class(), ErrorClass::Schema);
    assert_eq!(refused(&record(&FIRST[..9])).class(), ErrorClass::Reconciliation);
    assert_eq!(
        refused(&with(&FIRST[..17], &[("duration_total", "01:31")])).class(),
        ErrorClass::Validation
    );
    assert_eq!(
        refused(&with(&FIRST[2..], &[FIRST[0], ("date_end", "2020-01-01 09:00")])).class(),
        ErrorClass::Validation
    );
    assert_eq!(
        refused(&with(&FIRST[8..], &[FIRST[0], FIRST[1], FIRST[2], FIRST[3], FIRST[4]])).class(),
        ErrorClass::Schema
    );
}

#[test]
fn what_a_refused_record_declares_stays_declared() {
    let mut aircrafts = AircraftDataBase::empty();
    let mut airports = AirportList::new();
    let line = Flight::from_yaml(&record(&FIRST[..17]), &mut aircrafts, &mut airports);
    assert_eq!(line.unwrap_err(), FlightError::Field { field: Field::Pic, cause: FieldError::Missing });
    assert!(airports.has_iata("CDG"));
    assert!(airports.has_iata("ORY"));
    assert_eq!(aircrafts.get_model_name("F-ABCD"), Ok(("F-ABCD", "C172")));
    let mut airports = AirportList::new();
    let mut aircrafts = AircraftDataBase::empty();
    let line = Flight::from_yaml(
        &with(&FIRST[2..], &[FIRST[0], ("date_end", "x")]),
        &mut aircrafts,
        &mut airports,
    );
    assert!(line.is_err());
    assert!(airports.has_iata("CDG"));
    assert!(!airports.has_iata("ORY"));
    assert_eq!(aircrafts.iter_models().len(), 0);
}

#[test]
fn log_is_read_record_by_record() {
    let second = || {
        record(&[
            ("date_start", "2020-01-02 09:00"),
            ("date_end", "2020-01-02 09:45"),
            ("apt_departure_iata", "ORY"),
            ("apt_arrival_iata", "CDG"),
            ("immatriculation", "F-ABCD"),
            ("pic", "Self"),
        ])
    };
    let list = FlightList::load_from_records(&vec![record(&FIRST), second()]).unwrap();
    assert_eq!(list.flights.len(), 2);
    assert_eq!(list.flights[1].airport_departure, "ORY");
    assert_eq!(list.flights[1].acmodel, "C172");
    assert!(list.airports.has_name("Orly"));
    assert_eq!(FlightList::load_from_records(&vec![]).unwrap().flights.len(), 0);
    let refused = FlightList::load_from_records(&vec![second(), record(&FIRST)]);
    assert_eq!(
        refused.err(),
        Some(LoadError { index: 0, cause: FlightError::Departure(AirportError::UnknownIata) })
    );
    let refused = FlightList::load_from_records(&vec![record(&FIRST), second(), record(&FIRST)]);
    assert_eq!(
        refused.err(),
        Some(LoadError { index: 2, cause: FlightError::Departure(AirportError::DuplicateIata) })
    );
}
