use zenjep::aircrafts::AircraftsHtml;
use zenjep::familiesandmodels::FamiliesAndModelsHtml;
use zenjep::filters::FlightFilter;
use zenjep::filters::RawFilterParams;
use zenjep::flightlist::FlightList;
use zenjep::htmlerror::HtmlError;
use zenjep::logbook::JeppesenBookShelfHtml;
use zenjep::logbook::TotalLine;
use zenjep::record::Record;
use zenjep::sorting::sort_by_name;
use zenjep::tally::post;
use zenjep::tally::TimeByName;
use zenjep::years::YearsRangeHtml;

fn record(fields: &[(&str, &str)]) -> Record {
    let mut record = Record::new();
    for (key, value) in fields {
        record.set_text(key, value);
    }
    record
}

fn declaring(
    day: &str,
    from: &str,
    to: &str,
    immatriculation: &str,
    model: &str,
    family: &str,
    multipilot: &str,
) -> Record {
    record(&[
        ("date_start", &format!("{day} {from}")),
        ("date_end", &format!("{day} {to}")),
        ("apt_departure_name", "Home"),
        ("apt_arrival_name", "Home"),
        ("immatriculation", immatriculation),
        ("acmodel", model),
        ("actype", family),
        ("nb_engines", "2"),
        ("mtow", "5000"),
        ("multipilot", multipilot),
        ("cat1", "land"),
        ("cat2", "turbine"),
        ("cat3", "work"),
        ("pic", "Self"),
        ("takeoff_day", "1"),
        ("landing_night", "2"),
    ])
}

fn flying(day: &str, from: &str, to: &str, immatriculation: &str, marks: &[(&str, &str)]) -> Record {
    let mut record = record(&[
        ("date_start", &format!("{day} {from}")),
        ("date_end", &format!("{day} {to}")),
        ("apt_departure_name", "Home"),
        ("apt_arrival_name", "Home"),
        ("immatriculation", immatriculation),
        ("pic", "Self"),
        ("takeoff_day", "1"),
        ("landing_day", "1"),
    ]);
    for (key, value) in marks {
        record.set_text(key, value);
    }
    record
}

fn session(day: &str, long: &str, marks: &[(&str, &str)]) -> Record {
    let mut record = record(&[
        ("is_sim", "true"),
        ("sim_date", &format!("{day} 08:00")),
        ("sim_type", "FFS"),
        ("sim_total_time", long),
    ]);
    for (key, value) in marks {
        record.set_text(key, value);
    }
    record
}

fn home() -> Record {
    record(&[
        ("date_start", "2018-12-31 10:00"),
        ("date_end", "2018-12-31 10:10"),
        ("apt_departure_iata", "???"),
        ("apt_departure_icao", "????"),
        ("apt_departure_name", "Home"),
        ("apt_arrival_name", "Home"),
        ("immatriculation", "F-ZERO"),
        ("acmodel", "Zlin"),
        ("actype", "Moravan"),
        ("nb_engines", "1"),
        ("mtow", "900"),
        ("multipilot", "false"),
        ("cat1", "land"),
        ("cat2", "piston"),
        ("cat3", "private"),
        ("pic", "Self"),
    ])
}

fn logbook() -> FlightList {
    FlightList::load_from_records(&vec![
        home(),
        declaring("2019-01-10", "10:00", "11:00", "F-AAAA", "King Air", "Beech", "false"),
        flying("2019-01-10", "12:00", "12:30", "F-ZERO", &[("end_of_page", "true")]),
        session("2019-02-01", "02:00", &[]),
        declaring("2019-03-05", "06:00", "08:00", "F-BBBB", "A320", "Airbus", "true"),
        flying("2019-03-06", "06:00", "07:30", "F-BBBB", &[("end_of_page", "true"), ("end_of_book", "true")]),
        declaring("2021-11-30", "20:00", "23:59", "F-CCCC", "Baron", "Beech", "false"),
        flying("2021-12-01", "01:00", "01:45", "F-AAAA", &[("end_of_book", "true")]),
        session("2021-12-02", "00:30", &[("end_of_page", "true")]),
        flying("2021-12-03", "01:00", "01:05", "F-CCCC", &[]),
    ])
    .unwrap()
}

fn total_flight_times(line: &TotalLine) -> (i128, i128) {
    (line.total_flight_time, line.sim_total_time_of_session)
}

#[test]
fn lines_are_laid_out_in_pages_and_books() {
    let list = logbook();
    let shelf = JeppesenBookShelfHtml::build_from(&list);
    let shape: Vec<Vec<usize>> = shelf
        .bookshelf
        .iter()
        .map(|book| book.pages.iter().map(|page| page.flightlinelist.len()).collect())
        .collect();
    assert_eq!(shape, vec![vec![3, 3], vec![], vec![3, 1]]);
    let first = &shelf.bookshelf[0].pages[0];
    assert_eq!(total_flight_times(&first.total_this_page), (100, 0));
    assert_eq!(total_flight_times(&first.total_from_previous_pages), (0, 0));
    assert_eq!(total_flight_times(&first.total_this_book), (100, 0));
    assert_eq!(total_flight_times(&first.total_overall), (100, 0));
    let second = &shelf.bookshelf[0].pages[1];
    assert_eq!(total_flight_times(&second.total_this_page), (210, 120));
    assert_eq!(total_flight_times(&second.total_from_previous_pages), (100, 0));
    assert_eq!(total_flight_times(&second.total_this_book), (310, 120));
    assert_eq!(total_flight_times(&second.total_overall), (310, 120));
    let third = &shelf.bookshelf[2].pages[0];
    assert_eq!(total_flight_times(&third.total_this_page), (239 + 45, 30));
    assert_eq!(total_flight_times(&third.total_from_previous_pages), (310, 120));
    assert_eq!(total_flight_times(&third.total_this_book), (0, 30));
    assert_eq!(total_flight_times(&third.total_overall), (594, 150));
    let last = &shelf.bookshelf[2].pages[1];
    assert_eq!(total_flight_times(&last.total_this_page), (5, 0));
    assert_eq!(total_flight_times(&last.total_from_previous_pages), (594, 150));
    assert_eq!(total_flight_times(&last.total_this_book), (5, 30));
    assert_eq!(total_flight_times(&last.total_overall), (599, 150));
    assert_eq!(last.total_overall.takeoff_day, 7);
    assert_eq!(last.total_overall.landing_day, 4);
    assert_eq!(last.total_overall.landing_night, 6);
    assert_eq!(last.total_overall.takeoff_night, 0);
    assert_eq!(last.total_overall.multi_pilot_time, 210);
    assert_eq!(last.total_overall.copilot_time, 210);
    assert_eq!(last.total_overall.pilot_in_command_time, 0);
    assert_eq!(last.flightlinelist[0].immatriculation, "F-CCCC");
    assert_eq!(second.flightlinelist[0].sim_type, "FFS");
}

fn shape_of(marks_of_first: &[(&str, &str)], marks_of_second: &[(&str, &str)]) -> Vec<Vec<usize>> {
    let list = FlightList::load_from_records(&vec![
        home(),
        flying("2019-01-10", "12:00", "12:30", "F-ZERO", marks_of_first),
        flying("2019-02-10", "12:00", "13:00", "F-ZERO", marks_of_second),
    ])
    .unwrap();
    JeppesenBookShelfHtml::build_from(&list)
        .bookshelf
        .iter()
        .map(|book| book.pages.iter().map(|page| page.flightlinelist.len()).collect())
        .collect()
}

#[test]
fn book_closes_on_its_own_marker() {
    let page = [("end_of_page", "true")];
    let book = [("end_of_book", "true")];
    let both = [("end_of_page", "true"), ("end_of_book", "true")];
    assert_eq!(shape_of(&[], &[]), vec![vec![3]]);
    assert_eq!(shape_of(&page, &[]), vec![vec![2, 1]]);
    assert_eq!(shape_of(&both, &[]), vec![vec![2], vec![1]]);
    assert_eq!(shape_of(&book, &[]), vec![vec![], vec![3]]);
    assert_eq!(shape_of(&book, &book), vec![vec![], vec![3]]);
    assert_eq!(shape_of(&[], &both), vec![vec![3]]);
    assert_eq!(shape_of(&page, &page), vec![vec![2, 1]]);
    let list = FlightList::load_from_records(&vec![
        home(),
        flying("2019-01-10", "12:00", "12:30", "F-ZERO", &book),
        flying("2019-02-10", "12:00", "13:00", "F-ZERO", &[]),
    ])
    .unwrap();
    let shelf = JeppesenBookShelfHtml::build_from(&list);
    let only = &shelf.bookshelf[1].pages[0];
    assert_eq!(only.total_this_page.total_flight_time, 100);
    assert_eq!(only.total_this_book.total_flight_time, 60);
    assert_eq!(only.total_overall.total_flight_time, 100);
    assert_eq!(only.total_from_previous_pages.total_flight_time, 0);
}

#[test]
fn grand_total_does_not_depend_on_the_markers() {
    let marks: [&[(&str, &str)]; 4] = [
        &[],
        &[("end_of_page", "true")],
        &[("end_of_book", "true")],
        &[("end_of_page", "true"), ("end_of_book", "true")],
    ];
    for first in marks {
        for second in marks {
            for third in marks {
                let list = FlightList::load_from_records(&vec![
                    home(),
                    flying("2019-01-10", "12:00", "12:30", "F-ZERO", first),
                    session("2019-02-01", "02:00", second),
                    flying("2019-02-10", "12:00", "13:00", "F-ZERO", third),
                ])
                .unwrap();
                let shelf = JeppesenBookShelfHtml::build_from(&list);
                let last = shelf.bookshelf.last().unwrap().pages.last().unwrap();
                assert_eq!(total_flight_times(&last.total_overall), (100, 120));
                assert_eq!(last.total_overall.takeoff_day, 2);
                let lines: usize = shelf
                    .bookshelf
                    .iter()
                    .map(|book| book.pages.iter().map(|page| page.flightlinelist.len()).sum::<usize>())
                    .sum();
                assert_eq!(lines, 4);
            }
        }
    }
}

#[test]
fn empty_list_makes_an_empty_shelf() {
    let list = FlightList::load_from_records(&vec![]).unwrap();
    assert_eq!(JeppesenBookShelfHtml::build_from(&list).bookshelf.len(), 0);
    assert_eq!(YearsRangeHtml::from_flight_list(&list).years.len(), 0);
    let report = AircraftsHtml::from_flight_list(&list);
    assert_eq!((report.models.len(), report.families.len()), (0, 0));
    assert_eq!((report.total_time_all_models, report.total_time_all_families), (0, 0));
    let report = FamiliesAndModelsHtml::from_flight_list(&list);
    assert_eq!((report.families_models.len(), report.models.len()), (0, 0));
}

fn rows(table: &[TimeByName]) -> Vec<(&str, i128)> {
    table.iter().map(|row| (row.name.as_str(), row.time)).collect()
}

#[test]
fn flight_time_is_added_up_by_model_and_family() {
    let list = logbook();
    let report = AircraftsHtml::from_flight_list(&list);
    assert_eq!(
        rows(&report.models),
        vec![("A320", 210), ("Baron", 244), ("King Air", 105), ("Zlin", 40)]
    );
    assert_eq!(report.total_time_all_models, 599);
    assert_eq!(rows(&report.families), vec![("Airbus", 210), ("Beech", 349), ("Moravan", 40)]);
    assert_eq!(report.total_time_all_families, 599);
    assert_eq!(list.iter_flights_without_sims().len(), 8);
    assert!(list.iter_flights_without_sims().iter().all(|flight| !flight.is_sim));
}

#[test]
fn postings_keep_a_table_sorted() {
    let mut table: Vec<TimeByName> = Vec::new();
    for (name, minutes) in [("b", 1), ("a", 2), ("c", 3), ("a", 4), ("B", 5), ("", 6), ("ab", 7), ("b", -8)] {
        post(&mut table, name, minutes);
    }
    assert_eq!(rows(&table), vec![("", 6), ("B", 5), ("a", 6), ("ab", 7), ("b", -7), ("c", 3)]);
}

#[test]
fn models_are_listed_by_family_and_by_name() {
    let list = logbook();
    let report = FamiliesAndModelsHtml::from_flight_list(&list);
    let by_family: Vec<(&str, &str)> = report
        .families_models
        .iter()
        .map(|row| (row.family_name.as_str(), row.model_name.as_str()))
        .collect();
    assert_eq!(
        by_family,
        vec![("Airbus", "A320"), ("Beech", "King Air"), ("Beech", "Baron"), ("Moravan", "Zlin")]
    );
    let by_name: Vec<(&str, u8)> =
        report.models.iter().map(|row| (row.0.as_str(), row.1.nb_engines)).collect();
    assert_eq!(by_name, vec![("A320", 2), ("Baron", 2), ("King Air", 2), ("Zlin", 1)]);
}

#[test]
fn rows_are_sorted_by_name_and_keep_their_order() {
    let rows: Vec<(String, String)> = [("b", "1"), ("a", "2"), ("b", "3"), ("é", "4"), ("a", "5"), ("Z", "6"), ("", "7"), ("ab", "8")]
        .iter()
        .map(|(name, value)| (name.to_string(), value.to_string()))
        .collect();
    let mut expected = rows.clone();
    expected.sort_by(|left, right| left.0.cmp(&right.0));
    let sorted = sort_by_name(rows);
    assert_eq!(sorted, expected);
    let values: Vec<&str> = sorted.iter().map(|row| row.1.as_str()).collect();
    assert_eq!(values, vec!["7", "6", "2", "5", "8", "1", "3", "4"]);
}

#[test]
fn flight_time_is_added_up_month_by_month() {
    let list = logbook();
    let table = YearsRangeHtml::from_flight_list(&list);
    let years: Vec<i32> = table.years.iter().map(|year| year.year).collect();
    assert_eq!(years, vec![2018, 2019, 2020, 2021]);
    assert!(table.years.iter().all(|year| year.months.len() == 12));
    let cell = |year: usize, month: usize| {
        let month = &table.years[year].months[month];
        (month.total_month, month.total_this_year, month.total_overall)
    };
    assert_eq!(cell(0, 0), (0, 0, 0));
    assert_eq!(cell(0, 10), (0, 0, 0));
    assert_eq!(cell(0, 11), (10, 10, 10));
    assert_eq!(cell(1, 0), (90, 90, 100));
    assert_eq!(cell(1, 1), (0, 90, 100));
    assert_eq!(cell(1, 2), (210, 300, 310));
    assert_eq!(cell(1, 11), (0, 300, 310));
    assert_eq!(cell(2, 0), (0, 0, 310));
    assert_eq!(cell(2, 11), (0, 0, 310));
    assert_eq!(cell(3, 9), (0, 0, 310));
    assert_eq!(cell(3, 10), (239, 239, 549));
    assert_eq!(cell(3, 11), (50, 289, 599));
}

fn filter(before: Option<&str>, after: Option<&str>, model: Option<&str>, family: Option<&str>) -> FlightFilter {
    FlightFilter::from_raw(RawFilterParams {
        flights_before: before.unwrap_or("").to_string(),
        flights_before_enabled: before.map(|_| true),
        flights_after: after.unwrap_or("").to_string(),
        flights_after_enabled: after.map(|_| true),
        aircraft_model_enabled: model.map(|_| true),
        aircraft_model: model.unwrap_or("").to_string(),
        aircraft_family_enabled: family.map(|_| true),
        aircraft_family: family.unwrap_or("").to_string(),
    })
}

fn kept(filter: &FlightFilter) -> Vec<(i32, u8, u8, bool)> {
    let mut list = logbook();
    list.filter(filter);
    let once: Vec<(i32, u8, u8, bool)> = list
        .flights
        .iter()
        .map(|flight| (flight.date.year(), flight.date.month() + 1, flight.date.day(), flight.is_sim))
        .collect();
    list.filter(filter);
    let twice: Vec<(i32, u8, u8, bool)> = list
        .flights
        .iter()
        .map(|flight| (flight.date.year(), flight.date.month() + 1, flight.date.day(), flight.is_sim))
        .collect();
    assert_eq!(once, twice);
    assert_eq!(list.aircrafts.iter_models().len(), 4);
    assert!(list.airports.has_name("Home"));
    once
}

#[test]
fn filter_keeps_what_meets_every_criterion() {
    assert_eq!(kept(&FlightFilter::default()).len(), 10);
    assert_eq!(kept(&filter(None, None, None, None)).len(), 10);
    assert_eq!(
        kept(&filter(Some("2019-01-10"), None, None, None)),
        vec![(2018, 12, 31, false), (2019, 1, 10, false), (2019, 1, 10, false)]
    );
    assert_eq!(
        kept(&filter(None, Some("2021-12-01"), None, None)),
        vec![(2021, 12, 1, false), (2021, 12, 2, true), (2021, 12, 3, false)]
    );
    assert_eq!(
        kept(&filter(Some("2019-03-05"), Some("2019-02-01"), None, None)),
        vec![(2019, 2, 1, true), (2019, 3, 5, false)]
    );
    assert_eq!(kept(&filter(Some("2019-02-01"), Some("2019-03-05"), None, None)), vec![]);
    assert_eq!(
        kept(&filter(None, None, Some("King Air"), None)),
        vec![(2019, 1, 10, false), (2021, 12, 1, false)]
    );
    assert_eq!(
        kept(&filter(None, None, None, Some("Beech"))),
        vec![(2019, 1, 10, false), (2021, 11, 30, false), (2021, 12, 1, false), (2021, 12, 3, false)]
    );
    assert_eq!(
        kept(&filter(None, Some("2021-01-01"), Some("Baron"), Some("Beech"))),
        vec![(2021, 11, 30, false), (2021, 12, 3, false)]
    );
    assert_eq!(kept(&filter(None, None, Some("Baron"), Some("Airbus"))), vec![]);
    assert_eq!(kept(&filter(None, None, Some(""), None)), vec![]);
    assert_eq!(kept(&filter(None, None, Some("Concorde"), None)), vec![]);
}

#[test]
fn filter_on_the_aircraft_drops_unknown_aircraft() {
    let mut list = logbook();
    list.flights[0].immatriculation = "F-NONE".to_string();
    list.filter(&filter(None, None, None, Some("Moravan")));
    assert_eq!(list.flights.len(), 1);
    assert_eq!(list.flights[0].date.year(), 2019);
}

#[test]
fn filter_is_made_of_what_the_form_sends() {
    let filter = FlightFilter::from_raw(RawFilterParams {
        flights_before: "2020-02-29".to_string(),
        flights_before_enabled: Some(true),
        flights_after: "2020-02-30".to_string(),
        flights_after_enabled: Some(false),
        aircraft_model_enabled: None,
        aircraft_model: "C172".to_string(),
        aircraft_family_enabled: Some(true),
        aircraft_family: "Cessna".to_string(),
    });
    let before = filter.flights_before();
    assert_eq!((before.year(), before.month(), before.day()), (2020, 1, 29));
    let after = filter.flights_after();
    assert_eq!((after.year(), after.month(), after.day()), (1970, 0, 31));
    assert!(filter.flights_before_enabled());
    assert!(!filter.flights_after_enabled());
    assert!(!filter.aircraft_model_enabled());
    assert_eq!(filter.aircraft_model(), "C172");
    assert!(filter.aircraft_family_enabled());
    assert_eq!(filter.aircraft_family(), "Cessna");
    for text in ["", "2020-2-29", "29/02/2020", "2020-02-29 ", " 2020-02-29", "2020-13-01", "20-02-29"] {
        let filter = FlightFilter::from_raw(RawFilterParams {
            flights_before: text.to_string(),
            ..RawFilterParams::default()
        });
        let before = filter.flights_before();
        assert_eq!((before.year(), before.month(), before.day()), (1970, 0, 31));
    }
    let default = FlightFilter::default();
    let day = default.flights_before();
    assert_eq!((day.year(), day.month(), day.day()), (1970, 0, 30));
    assert_eq!(default.flights_after(), day);
    assert!(!default.flights_before_enabled() && !default.flights_after_enabled());
    assert!(!default.aircraft_model_enabled() && !default.aircraft_family_enabled());
    assert_eq!((default.aircraft_model(), default.aircraft_family()), ("", ""));
    let mut updated = FlightFilter::default();
    updated.update_from(&filter);
    assert_eq!(format!("{:?}", updated), format!("{:?}", filter));
    assert_eq!(format!("{:?}", filter.clone()), format!("{:?}", filter));
    let from_parts = FlightFilter::from_parts(None, Some(true), Some(day), None, None, String::new(), None, String::new());
    assert_eq!(from_parts.flights_before().day(), 31);
    assert_eq!(from_parts.flights_after().day(), 30);
    assert!(from_parts.flights_before_enabled());
}

#[test]
fn error_page_holds_two_messages() {
    let error = HtmlError { message_1: "first".to_string(), message_2: "second".to_string() };
    assert_eq!((error.message_1.as_str(), error.message_2.as_str()), ("first", "second"));
    assert_eq!(HtmlError::default().message_1, "");
}
