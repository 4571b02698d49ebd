use zenjep::aircraftdatabase::AircraftDataBase;
use zenjep::aircraftdatabase::AircraftError;
use zenjep::airport::best_name;
use zenjep::airport::Airport;
use zenjep::airport::AirportError;
use zenjep::airport::AirportList;
use zenjep::error::ErrorClass;
use zenjep::record::Record;

fn record(fields: &[(&str, &str)]) -> Record {
    let mut record = Record::new();
    for (key, value) in fields {
        record.set_text(key, value);
    }
    record
}

fn declaration(immatriculation: &str, model: &str, family: &str) -> Record {
    record(&[
        ("immatriculation", immatriculation),
        ("acmodel", model),
        ("actype", family),
        ("nb_engines", "1"),
        ("mtow", "1100"),
        ("multipilot", "false"),
        ("cat1", "land"),
        ("cat2", "piston"),
        ("cat3", "private"),
    ])
}

fn named<'a>(immatriculation: &'a str, model: &'a str) -> Result<(&'a str, &'a str), AircraftError> {
    Ok((immatriculation, model))
}

#[test]
fn aircraft_is_declared_once() {
    let mut registry = AircraftDataBase::empty();
    assert_eq!(registry.add_flight(&declaration("F-ABCD", "C172", "Cessna")), named("F-ABCD", "C172"));
    assert_eq!(
        registry.add_flight(&declaration("F-ABCD", "PA28", "Piper")),
        Err(AircraftError::DuplicateIdentity)
    );
    assert_eq!(
        registry.add_flight(&record(&[("immatriculation", "F-ABCD"), ("acmodel", "C172")])),
        Err(AircraftError::DuplicateIdentity)
    );
    assert_eq!(registry.iter_models().len(), 1);
}

#[test]
fn model_is_declared_once() {
    let mut registry = AircraftDataBase::empty();
    assert!(registry.add_flight(&declaration("F-ABCD", "C172", "Cessna")).is_ok());
    assert_eq!(
        registry.add_flight(&declaration("F-WXYZ", "C172", "Cessna")),
        Err(AircraftError::DuplicateModel)
    );
    assert_eq!(registry.get_model_name("F-WXYZ"), Err(AircraftError::UnknownIdentity));
}

#[test]
fn undeclared_model_and_aircraft_are_refused() {
    let mut registry = AircraftDataBase::empty();
    assert_eq!(
        registry.add_flight(&record(&[("immatriculation", "F-ABCD"), ("acmodel", "C172")])),
        Err(AircraftError::UnknownModel)
    );
    assert_eq!(
        registry.add_flight(&record(&[("immatriculation", "F-ABCD")])),
        Err(AircraftError::UnknownIdentity)
    );
    assert_eq!(registry.add_flight(&record(&[("acmodel", "C172")])), Err(AircraftError::MissingIdentity));
    assert_eq!(registry.get_model_name("F-ABCD"), Err(AircraftError::UnknownIdentity));
    assert_eq!(registry.get_family_name("F-ABCD"), Err(AircraftError::UnknownIdentity));
    assert_eq!(registry.is_multi_pilot("F-ABCD"), Err(AircraftError::UnknownIdentity));
    assert_eq!(registry.is_single_pilot_se("F-ABCD"), Err(AircraftError::UnknownIdentity));
    assert_eq!(registry.is_single_pilot_me("F-ABCD"), Err(AircraftError::UnknownIdentity));
}

#[test]
fn declared_model_is_found_by_aircraft_and_by_name() {
    let mut registry = AircraftDataBase::empty();
    assert!(registry.add_flight(&declaration("F-ABCD", "C172", "Cessna")).is_ok());
    assert_eq!(
        registry.add_flight(&record(&[("immatriculation", "F-EFGH"), ("acmodel", "C172")])),
        named("F-EFGH", "C172")
    );
    assert_eq!(registry.add_flight(&record(&[("immatriculation", "F-ABCD")])), named("F-ABCD", "C172"));
    assert_eq!(registry.add_flight(&record(&[("immatriculation", "F-EFGH")])), named("F-EFGH", "C172"));
    assert_eq!(registry.get_model_name("F-ABCD"), Ok(("F-ABCD", "C172")));
    assert_eq!(registry.get_model_name("F-EFGH"), Ok(("F-EFGH", "C172")));
    assert_eq!(registry.get_family_name("F-EFGH"), Ok("Cessna"));
    let models = registry.iter_models();
    assert_eq!(models.len(), 1);
    assert_eq!(models[0].0, "C172");
    assert_eq!(models[0].1.nb_engines, 1);
    assert_eq!(models[0].1.mtow, 1100);
    assert!(!models[0].1.multipilot);
    assert_eq!(models[0].1.category_1, "land");
    assert_eq!(models[0].1.category_2, "piston");
    assert_eq!(models[0].1.category_3, "private");
    assert_eq!(registry.iter_models_families(), vec![("C172".to_string(), "Cessna".to_string())]);
}

#[test]
fn tables_keep_the_order_of_declaration() {
    let mut registry = AircraftDataBase::empty();
    assert!(registry.add_flight(&declaration("F-1", "Zlin", "Moravan")).is_ok());
    assert!(registry.add_flight(&declaration("F-2", "Airbus", "Airbus")).is_ok());
    assert!(registry.add_flight(&declaration("F-3", "Mooney", "Mooney")).is_ok());
    let names: Vec<String> = registry.iter_models().into_iter().map(|pair| pair.0).collect();
    assert_eq!(names, vec!["Zlin", "Airbus", "Mooney"]);
    let families: Vec<String> =
        registry.iter_models_families().into_iter().map(|pair| pair.1).collect();
    assert_eq!(families, vec!["Moravan", "Airbus", "Mooney"]);
}

#[test]
fn aircraft_fields_come_in_three_shapes() {
    let mut registry = AircraftDataBase::empty();
    assert_eq!(
        registry.add_flight(&record(&[
            ("immatriculation", "F-ABCD"),
            ("acmodel", "C172"),
            ("actype", "Cessna"),
        ])),
        Err(AircraftError::BadShape {
            acmodel: true,
            actype: true,
            nb_engines: false,
            mtow: false,
            multipilot: false,
            cat1: false,
            cat2: false,
            cat3: false,
        })
    );
    assert_eq!(
        registry.add_flight(&record(&[("immatriculation", "F-ABCD"), ("mtow", "900")])),
        Err(AircraftError::BadShape {
            acmodel: false,
            actype: false,
            nb_engines: false,
            mtow: true,
            multipilot: false,
            cat1: false,
            cat2: false,
            cat3: false,
        })
    );
    let mut without_family = Record::new();
    for (key, value) in [
        ("immatriculation", "F-ABCD"),
        ("acmodel", "C172"),
        ("nb_engines", "1"),
        ("mtow", "1100"),
        ("multipilot", "false"),
        ("cat1", "land"),
        ("cat2", "piston"),
        ("cat3", "private"),
    ] {
        without_family.set_text(key, value);
    }
    without_family.set_nested("actype");
    assert_eq!(
        registry.add_flight(&without_family),
        Err(AircraftError::BadShape {
            acmodel: true,
            actype: false,
            nb_engines: true,
            mtow: true,
            multipilot: true,
            cat1: true,
            cat2: true,
            cat3: true,
        })
    );
    assert_eq!(registry.iter_models().len(), 0);
}

fn declaration_with(engines: &str, mtow: &str, multipilot: &str) -> Record {
    record(&[
        ("immatriculation", "F-ABCD"),
        ("acmodel", "C172"),
        ("actype", "Cessna"),
        ("nb_engines", engines),
        ("mtow", mtow),
        ("multipilot", multipilot),
        ("cat1", "land"),
        ("cat2", "piston"),
        ("cat3", "private"),
    ])
}

#[test]
fn numbers_of_a_declaration_are_read() {
    let mut registry = AircraftDataBase::empty();
    assert_eq!(
        registry.add_flight(&declaration_with("one", "1100", "false")),
        Err(AircraftError::BadEngineCount)
    );
    assert_eq!(
        registry.add_flight(&declaration_with("256", "1100", "false")),
        Err(AircraftError::BadEngineCount)
    );
    assert_eq!(
        registry.add_flight(&declaration_with("-1", "1100", "false")),
        Err(AircraftError::BadEngineCount)
    );
    for none in ["0", "00", "+0"] {
        assert_eq!(
            registry.add_flight(&declaration_with(none, "1100", "false")),
            Err(AircraftError::BadEngineCount)
        );
    }
    assert_eq!(registry.get_model_name("F-ABCD"), Err(AircraftError::UnknownIdentity));
    assert_eq!(
        registry.add_flight(&declaration_with("", "1100", "false")),
        Err(AircraftError::BadEngineCount)
    );
    assert_eq!(
        registry.add_flight(&declaration_with("2", "4294967296", "false")),
        Err(AircraftError::BadWeight)
    );
    assert_eq!(
        registry.add_flight(&declaration_with("2", "1 100", "false")),
        Err(AircraftError::BadWeight)
    );
    assert_eq!(
        registry.add_flight(&declaration_with("2", "1100", "no")),
        Err(AircraftError::BadMultipilot)
    );
    assert_eq!(
        registry.add_flight(&declaration_with("2", "1100", "True")),
        Err(AircraftError::BadMultipilot)
    );
    assert_eq!(
        registry.add_flight(&declaration_with("x", "y", "z")),
        Err(AircraftError::BadEngineCount)
    );
    assert_eq!(registry.iter_models().len(), 0);
    assert!(registry.add_flight(&declaration_with("+002", "4294967295", "true")).is_ok());
    let models = registry.iter_models();
    assert_eq!(models[0].1.nb_engines, 2);
    assert_eq!(models[0].1.mtow, 4294967295);
    assert!(models[0].1.multipilot);
}

fn roles(engines: &str, multipilot: &str, cat3: &str) -> (bool, bool, bool) {
    let mut registry = AircraftDataBase::empty();
    let declared = record(&[
        ("immatriculation", "F-ABCD"),
        ("acmodel", "M"),
        ("actype", "F"),
        ("nb_engines", engines),
        ("mtow", "1"),
        ("multipilot", multipilot),
        ("cat1", ""),
        ("cat2", ""),
        ("cat3", cat3),
    ]);
    assert!(registry.add_flight(&declared).is_ok());
    (
        registry.is_single_pilot_se("F-ABCD").unwrap(),
        registry.is_single_pilot_me("F-ABCD").unwrap(),
        registry.is_multi_pilot("F-ABCD").unwrap(),
    )
}

#[test]
fn crew_roles_exclude_each_other() {
    assert_eq!(roles("1", "false", "private"), (true, false, false));
    assert_eq!(roles("2", "false", "private"), (false, true, false));
    assert_eq!(roles("4", "false", ""), (false, true, false));
    assert_eq!(roles("1", "true", "private"), (false, false, true));
    assert_eq!(roles("2", "true", "airline"), (false, false, true));
    assert_eq!(roles("1", "false", "pax"), (false, false, false));
    assert_eq!(roles("2", "false", "pax"), (false, false, false));
    assert_eq!(roles("2", "true", "pax"), (false, false, false));
    assert_eq!(roles("1", "false", "PAX"), (true, false, false));
}

#[test]
fn airport_is_declared_then_found() {
    let mut airports = AirportList::new();
    assert_eq!(airports.add(Some("CDG"), Some("LFPG"), Some("Paris")), Ok("CDG".to_string()));
    assert_eq!(airports.add(Some("CDG"), None, None), Ok("CDG".to_string()));
    assert_eq!(airports.add(None, Some("LFPG"), None), Ok("CDG".to_string()));
    assert_eq!(airports.add(None, None, Some("Paris")), Ok("CDG".to_string()));
    assert_eq!(
        airports.add(Some("CDG"), Some("LFPO"), Some("Orly")),
        Err(AirportError::DuplicateIata)
    );
    assert_eq!(
        airports.add(Some("ORY"), Some("LFPG"), Some("Orly")),
        Err(AirportError::DuplicateIcao)
    );
    assert_eq!(
        airports.add(Some("ORY"), Some("LFPO"), Some("Paris")),
        Err(AirportError::DuplicateName)
    );
    assert_eq!(airports.add(Some("ORY"), None, None), Err(AirportError::UnknownIata));
    assert_eq!(airports.add(None, Some("LFPO"), None), Err(AirportError::UnknownIcao));
    assert_eq!(airports.add(None, None, Some("Orly")), Err(AirportError::UnknownName));
    assert!(airports.has_iata("CDG"));
    assert!(!airports.has_iata("ORY"));
    assert!(airports.has_icao("LFPG"));
    assert!(!airports.has_icao("CDG"));
    assert!(airports.has_name("Paris"));
    assert!(!airports.has_name("paris"));
}

#[test]
fn airport_needs_one_identity_or_all_three() {
    let mut airports = AirportList::new();
    assert_eq!(airports.add(None, None, None), Err(AirportError::Unnamed));
    assert_eq!(
        airports.add(Some("CDG"), Some("LFPG"), None),
        Err(AirportError::BadlyDefined { iata: true, icao: true, name: false })
    );
    assert_eq!(
        airports.add(Some("CDG"), None, Some("Paris")),
        Err(AirportError::BadlyDefined { iata: true, icao: false, name: true })
    );
    assert_eq!(
        airports.add(None, Some("LFPG"), Some("Paris")),
        Err(AirportError::BadlyDefined { iata: false, icao: true, name: true })
    );
    assert!(!airports.has_iata("CDG"));
}

#[test]
fn unassigned_codes_may_repeat() {
    let mut airports = AirportList::new();
    assert_eq!(airports.add(Some("???"), Some("LFXA"), Some("Field A")), Ok("LFXA".to_string()));
    assert_eq!(airports.add(Some("???"), Some("LFXB"), Some("Field B")), Ok("LFXB".to_string()));
    assert_eq!(airports.add(Some("???"), Some("????"), Some("Meadow")), Ok("Meadow".to_string()));
    assert_eq!(airports.add(Some("???"), Some("????"), Some("Beach")), Ok("Beach".to_string()));
    assert_eq!(airports.add(Some("XYZ"), Some("????"), Some("Lake")), Ok("XYZ".to_string()));
    assert_eq!(
        airports.add(Some("???"), Some("????"), Some("Meadow")),
        Err(AirportError::DuplicateName)
    );
    assert_eq!(airports.add(None, Some("LFXB"), None), Ok("LFXB".to_string()));
    assert_eq!(airports.add(None, None, Some("Field B")), Ok("LFXB".to_string()));
    assert_eq!(airports.add(None, None, Some("Beach")), Ok("Beach".to_string()));
    assert_eq!(airports.add(None, None, Some("Lake")), Ok("XYZ".to_string()));
    assert_eq!(airports.add(Some("???"), None, None), Ok("LFXA".to_string()));
    assert_eq!(airports.add(None, Some("????"), None), Ok("Meadow".to_string()));
    assert_eq!(airports.find(zenjep::airport::Identity::Icao, "????").map(|a| a.best_name()), Some("Meadow".to_string()));
    assert!(airports.find(zenjep::airport::Identity::Iata, "LFXA").is_none());
    assert_eq!(airports.find(zenjep::airport::Identity::Name, "Lake").map(|a| a.identity(zenjep::airport::Identity::Iata)), Some("XYZ"));
}

#[test]
fn airport_is_called_by_its_best_name() {
    assert_eq!(best_name("CDG", "LFPG", "Paris"), "CDG");
    assert_eq!(best_name("???", "LFPG", "Paris"), "LFPG");
    assert_eq!(best_name("???", "????", "Paris"), "Paris");
    assert_eq!(best_name("????", "???", "Paris"), "????");
    assert_eq!(best_name("", "????", "Paris"), "");
    let airport = Airport::new("CDG", "LFPG", "Paris");
    assert_eq!(format!("{:?}", airport), "Airport { iata: \"CDG\", icao: \"LFPG\", name: \"Paris\" }");
}

#[test]
fn errors_fall_in_four_classes() {
    assert_eq!(AirportError::Unnamed.class(), ErrorClass::Schema);
    assert_eq!(
        AirportError::BadlyDefined { iata: true, icao: true, name: false }.class(),
        ErrorClass::Schema
    );
    assert_eq!(AirportError::DuplicateIata.class(), ErrorClass::Reconciliation);
    assert_eq!(AirportError::UnknownName.class(), ErrorClass::Reconciliation);
    assert_eq!(AircraftError::MissingIdentity.class(), ErrorClass::Parse);
    assert_eq!(AircraftError::BadWeight.class(), ErrorClass::Parse);
    assert_eq!(AircraftError::DuplicateModel.class(), ErrorClass::Reconciliation);
    assert_eq!(AircraftError::UnknownIdentity.class(), ErrorClass::Reconciliation);
    assert_eq!(
        AircraftError::BadShape {
            acmodel: true,
            actype: false,
            nb_engines: false,
            mtow: false,
            multipilot: false,
            cat1: false,
            cat2: false,
            cat3: false,
        }
        .class(),
        ErrorClass::Schema
    );
}
