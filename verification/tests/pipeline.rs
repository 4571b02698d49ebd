use zenjep::filters::FlightFilter;
use zenjep::filters::RawFilterParams;
use zenjep::flightlist::FlightList;
use zenjep::flighttime::FlightTime;
use zenjep::logbook::JeppesenBookShelfHtml;
use zenjep::record::Record;

fn record(fields: &[(&str, &str)]) -> Record {
    let mut record = Record::new();
    for (key, value) in fields {
        record.set_text(key, value);
    }
    record
}

fn two_flights() -> Vec<Record> {
    vec![
        record(&[
            ("date_start", "2020-01-01 10:00"),
            ("date_end", "2020-01-01 11:30"),
            ("apt_departure_iata", "CDG"),
            ("apt_departure_icao", "LFPG"),
            ("apt_departure_name", "Paris"),
            ("apt_arrival_iata", "ORY"),
            ("apt_arrival_icao", "LFPO"),
            ("apt_arrival_name", "Orly"),
            ("immatriculation", "F-ABCD"),
            ("acmodel", "C172"),
            ("actype", "Cessna"),
            ("nb_engines", "1"),
            ("mtow", "1100"),
            ("multipilot", "false"),
            ("cat1", "land"),
            ("cat2", "piston"),
            ("cat3", "private"),
            ("pic", "Self"),
        ]),
        record(&[
            ("date_start", "2020-01-02 09:00"),
            ("date_end", "2020-01-02 09:45"),
            ("apt_departure_iata", "ORY"),
            ("apt_arrival_iata", "CDG"),
            ("immatriculation", "F-ABCD"),
            ("pic", "Self"),
            ("end_of_book", "true"),
        ]),
    ]
}

#[test]
fn two_entry_document_makes_one_book_of_one_page() {
    let list = FlightList::load_from_records(&two_flights()).unwrap();
    assert_eq!(list.flights.len(), 2);
    assert_eq!(list.flights[0].total_flight_time, FlightTime(90));
    assert_eq!(list.flights[1].total_flight_time, FlightTime(45));
    assert_eq!(list.flights[1].acmodel, "C172");
    assert_eq!(list.aircrafts.get_family_name("F-ABCD"), Ok("Cessna"));
    let shelf = JeppesenBookShelfHtml::build_from(&list);
    assert_eq!(shelf.bookshelf.len(), 1);
    assert_eq!(shelf.bookshelf[0].pages.len(), 1);
    let page = &shelf.bookshelf[0].pages[0];
    assert_eq!(page.flightlinelist.len(), 2);
    assert_eq!(page.total_overall.total_flight_time, 135);
    assert_eq!(page.total_this_page.total_flight_time, 135);
    assert_eq!(page.total_this_book.total_flight_time, 135);
    assert_eq!(page.total_from_previous_pages.total_flight_time, 0);
}

#[test]
fn filter_by_model_keeps_the_flights_of_the_model() {
    let mut list = FlightList::load_from_records(&two_flights()).unwrap();
    let filter = FlightFilter::from_raw(RawFilterParams {
        flights_before: "2020-01-01".to_string(),
        flights_before_enabled: Some(true),
        flights_after: String::new(),
        flights_after_enabled: None,
        aircraft_model_enabled: Some(true),
        aircraft_model: "C172".to_string(),
        aircraft_family_enabled: None,
        aircraft_family: String::new(),
    });
    assert_eq!(filter.flights_before().year(), 2020);
    assert_eq!(filter.flights_after().day(), 31);
    list.filter(&filter);
    assert_eq!(list.flights.len(), 1);
    assert_eq!(list.flights[0].date.day(), 1);
    list.filter(&filter);
    assert_eq!(list.flights.len(), 1);
}

use zenjep::aircrafts::AircraftsHtml;
use zenjep::airport::AirportError;
use zenjep::document::DocumentError;
use zenjep::error::FlightError;

const LOG: &str = "
- date_start: 2020-01-01 10:00
  date_end: 2020-01-01 11:30
  apt_departure_iata: CDG
  apt_departure_icao: LFPG
  apt_departure_name: Paris
  apt_arrival_iata: ORY
  apt_arrival_icao: LFPO
  apt_arrival_name: Orly
  immatriculation: F-ABCD
  acmodel: C172
  actype: Cessna
  nb_engines: 1
  mtow: 1100
  multipilot: false
  cat1: land
  cat2: piston
  cat3: private
  pic: Self
- date_start: 2020-01-02 09:00
  date_end: 2020-01-02 09:45
  apt_departure_iata: ORY
  apt_arrival_iata: CDG
  immatriculation: F-ABCD
  pic: Self
  end_of_book: true
";

#[test]
fn logbook_is_read_from_yaml() {
    let list = FlightList::load_from_yaml(LOG).unwrap();
    assert_eq!(list.flights.len(), 2);
    assert_eq!(list.flights[0].airport_departure, "CDG");
    assert_eq!(list.flights[1].airport_arrival, "CDG");
    assert!(list.flights[1].end_of_book);
    let shelf = JeppesenBookShelfHtml::build_from(&list);
    assert_eq!(shelf.bookshelf.len(), 1);
    assert_eq!(shelf.bookshelf[0].pages.len(), 1);
    assert_eq!(shelf.bookshelf[0].pages[0].flightlinelist.len(), 2);
    assert_eq!(shelf.bookshelf[0].pages[0].total_overall.total_flight_time, 135);
    assert_eq!(FlightTime(135).to_text(), "2:15");
    let report = AircraftsHtml::from_flight_list(&list);
    assert_eq!(report.families.len(), 1);
    assert_eq!(report.families[0].name, "Cessna");
    assert_eq!(report.families[0].time, 135);
    assert_eq!(zenjep::render::write_minutes(report.families[0].time), "2:15");
    assert_eq!(report.total_time_all_families, 135);
}

#[test]
fn text_that_is_no_logbook_is_refused() {
    assert_eq!(FlightList::load_from_yaml("").err(), Some(DocumentError::Empty));
    assert_eq!(FlightList::load_from_yaml("pic: Self").err(), Some(DocumentError::NotAList));
    assert_eq!(FlightList::load_from_yaml("just a text").err(), Some(DocumentError::NotAList));
    match FlightList::load_from_yaml("- pic: \"Self").err() {
        Some(DocumentError::Syntax(message)) => assert!(message.contains("line")),
        other => panic!("{other:?}"),
    }
    let nested = FlightList::load_from_yaml(&LOG.replace("  pic: Self\n- ", "  pic: Self\n  comment:\n    - a\n- "));
    assert!(matches!(
        nested.err(),
        Some(DocumentError::Record {
            index: 0,
            cause: FlightError::Field {
                field: zenjep::error::Field::Comment,
                cause: zenjep::error::FieldError::NotText,
            },
            ..
        })
    ));
    let second = FlightList::load_from_yaml(&LOG.replace("apt_departure_iata: ORY", "apt_departure_iata: LYS"));
    match second.err() {
        Some(DocumentError::Record { index, record, cause }) => {
            assert_eq!(index, 1);
            assert_eq!(cause, FlightError::Departure(AirportError::UnknownIata));
            assert!(record.contains("LYS"));
            assert!(record.contains("end_of_book"));
            assert!(!record.contains("Paris"));
        }
        other => panic!("{other:?}"),
    }
    assert_eq!(FlightList::load_from_yaml("- a\n- b").err().map(|error| matches!(error, DocumentError::Record { index: 0, .. })), Some(true));
    assert_eq!(FlightList::load_from_yaml("[]").err(), Some(DocumentError::NotAList));
}

use zenjep::document::record_of;
use zenjep::document::Node;
use zenjep::record::FieldValue;

fn text(text: &str) -> Node {
    Node::Text(text.to_string())
}

#[test]
fn record_holds_the_fields_of_a_table() {
    let record = record_of(&Node::Table(vec![
        (text("pic"), text("Self")),
        (text("comment"), Node::List(vec![text("a")])),
        (text("crew"), Node::Table(vec![])),
        (text("gone"), Node::Missing),
        (Node::List(vec![]), text("lost")),
        (text("pic"), text("Other")),
        (text(""), text("")),
    ]));
    assert_eq!(record.get("pic"), Some(&FieldValue::Text("Self".to_string())));
    assert_eq!(record.get("comment"), Some(&FieldValue::Nested));
    assert_eq!(record.get("crew"), Some(&FieldValue::Nested));
    assert_eq!(record.get("gone"), None);
    assert_eq!(record.get("lost"), None);
    assert_eq!(record.get(""), Some(&FieldValue::Text(String::new())));
    assert_eq!(record_of(&text("pic")).get("pic"), None);
    assert_eq!(record_of(&Node::List(vec![text("pic")])).get("pic"), None);
    assert_eq!(record_of(&Node::Missing).get("pic"), None);
}

#[test]
fn logbook_is_read_from_documents() {
    assert_eq!(FlightList::load_from_documents(&vec![]).err(), Some(DocumentError::Empty));
    assert_eq!(
        FlightList::load_from_documents(&vec![text("a")]).err(),
        Some(DocumentError::NotAList)
    );
    assert_eq!(
        FlightList::load_from_documents(&vec![Node::Table(vec![])]).err(),
        Some(DocumentError::NotAList)
    );
    assert_eq!(
        FlightList::load_from_documents(&vec![Node::Missing, Node::List(vec![])]).err(),
        Some(DocumentError::NotAList)
    );
    let empty = FlightList::load_from_documents(&vec![Node::List(vec![]), text("ignored")]).unwrap();
    assert_eq!(empty.flights.len(), 0);
    let session = Node::Table(vec![
        (text("is_sim"), text("true")),
        (text("sim_date"), text("2020-05-05 10:00")),
        (text("sim_type"), text("FNPT")),
        (text("sim_total_time"), text("01:00")),
    ]);
    let broken = Node::Table(vec![(text("is_sim"), text("true")), (text("sim_type"), text("FNPT"))]);
    let list = FlightList::load_from_documents(&vec![Node::List(vec![session])]).unwrap();
    assert_eq!(list.flights.len(), 1);
    assert_eq!(list.flights[0].sim_total_time_of_session, FlightTime(60));
    let session = Node::Table(vec![
        (text("is_sim"), text("true")),
        (text("sim_date"), text("2020-05-05 10:00")),
        (text("sim_type"), text("FNPT")),
        (text("sim_total_time"), text("01:00")),
    ]);
    match FlightList::load_from_documents(&vec![Node::List(vec![session, broken])]).err() {
        Some(DocumentError::Record { index, record, cause }) => {
            assert_eq!(index, 1);
            assert_eq!(
                cause,
                FlightError::Field {
                    field: zenjep::error::Field::SimDate,
                    cause: zenjep::error::FieldError::Missing,
                }
            );
            assert!(record.contains("is_sim"));
            assert!(record.contains("FNPT"));
            assert!(!record.contains("2020"));
        }
        other => panic!("{other:?}"),
    }
}
