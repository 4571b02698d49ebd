use zenjep::error::FieldError;
use zenjep::error::ParseError;
use zenjep::flighttime::FlightTime;
use zenjep::record::mandatory_datetime;
use zenjep::record::mandatory_string;
use zenjep::record::optional_bool;
use zenjep::record::optional_duration;
use zenjep::record::optional_string;
use zenjep::record::optional_u8;
use zenjep::record::FieldValue;
use zenjep::record::Record;
use zenjep::text::parse_bool;
use zenjep::text::parse_unsigned;

#[test]
fn record_holds_values_under_keys() {
    let mut record = Record::new();
    assert_eq!(record.get("pic"), None);
    record.set_text("pic", "Self");
    record.set_text("comment", "");
    record.set_nested("crew");
    record.set_text("pic", "Other");
    assert_eq!(record.get("pic"), Some(&FieldValue::Text("Self".to_string())));
    assert_eq!(record.get("comment"), Some(&FieldValue::Text(String::new())));
    assert_eq!(record.get("crew"), Some(&FieldValue::Nested));
    assert_eq!(record.get("Pic"), None);
    assert_eq!(optional_string(&record, "pic"), Some("Self"));
    assert_eq!(optional_string(&record, "comment"), Some(""));
    assert_eq!(optional_string(&record, "crew"), None);
    assert_eq!(optional_string(&record, "none"), None);
    assert_eq!(mandatory_string(&record, "pic"), Ok("Self"));
    assert_eq!(mandatory_string(&record, "crew"), Err(FieldError::Missing));
    assert_eq!(mandatory_string(&record, "none"), Err(FieldError::Missing));
}

#[test]
fn fields_are_read_as_what_they_hold() {
    let mut record = Record::new();
    record.set_text("when", "2020-01-01 10:00");
    record.set_text("long", "01:30");
    record.set_text("count", "3");
    record.set_text("flag", "true");
    record.set_text("bad", "x");
    record.set_nested("nested");
    let moment = mandatory_datetime(&record, "when").unwrap();
    assert_eq!((moment.date.year(), moment.time.hour()), (2020, 10));
    assert_eq!(mandatory_datetime(&record, "none"), Err(FieldError::Missing));
    assert_eq!(mandatory_datetime(&record, "nested"), Err(FieldError::Missing));
    assert_eq!(
        mandatory_datetime(&record, "bad"),
        Err(FieldError::Token(ParseError::Unexpected { character: 'x', position: 0 }))
    );
    assert_eq!(
        mandatory_datetime(&record, "long"),
        Err(FieldError::Token(ParseError::Unexpected { character: ':', position: 2 }))
    );
    assert_eq!(optional_duration(&record, "long"), Ok(Some(FlightTime(90))));
    assert_eq!(optional_duration(&record, "none"), Ok(None));
    assert_eq!(optional_duration(&record, "nested"), Ok(None));
    assert_eq!(
        optional_duration(&record, "count"),
        Err(FieldError::Token(ParseError::Truncated))
    );
    assert_eq!(optional_u8(&record, "count"), Ok(Some(3)));
    assert_eq!(optional_u8(&record, "none"), Ok(None));
    assert_eq!(optional_u8(&record, "bad"), Err(FieldError::NotANumber));
    assert_eq!(optional_u8(&record, "long"), Err(FieldError::NotANumber));
    assert_eq!(optional_bool(&record, "flag"), Ok(Some(true)));
    assert_eq!(optional_bool(&record, "none"), Ok(None));
    assert_eq!(optional_bool(&record, "count"), Err(FieldError::NotABoolean));
}

#[test]
fn numbers_are_read_from_decimal_digits() {
    assert_eq!(parse_unsigned("0", 255), Some(0));
    assert_eq!(parse_unsigned("255", 255), Some(255));
    assert_eq!(parse_unsigned("256", 255), None);
    assert_eq!(parse_unsigned("+7", 255), Some(7));
    assert_eq!(parse_unsigned("007", 255), Some(7));
    assert_eq!(parse_unsigned("0000000000000000000000255", 255), Some(255));
    assert_eq!(parse_unsigned("", 255), None);
    assert_eq!(parse_unsigned("+", 255), None);
    assert_eq!(parse_unsigned("-", 255), None);
    assert_eq!(parse_unsigned("-0", 255), None);
    assert_eq!(parse_unsigned("++1", 255), None);
    assert_eq!(parse_unsigned("1+", 255), None);
    assert_eq!(parse_unsigned(" 1", 255), None);
    assert_eq!(parse_unsigned("1 ", 255), None);
    assert_eq!(parse_unsigned("1_0", 255), None);
    assert_eq!(parse_unsigned("12a", 255), None);
    assert_eq!(parse_unsigned("٣", 255), None);
    assert_eq!(parse_unsigned("4294967295", u32::MAX), Some(u32::MAX));
    assert_eq!(parse_unsigned("4294967296", u32::MAX), None);
    assert_eq!(parse_unsigned("99999999999999999999999999", u32::MAX), None);
    for text in ["0", "255", "256", "+7", "007", "", "+", "-0", " 1", "1_0", "12a", "+0255"] {
        assert_eq!(parse_unsigned(text, 255).map(|n| n as u8), text.parse::<u8>().ok());
        assert_eq!(parse_unsigned(text, u32::MAX), text.parse::<u32>().ok());
    }
}

#[test]
fn truth_values_are_read_from_two_words() {
    assert_eq!(parse_bool("true"), Some(true));
    assert_eq!(parse_bool("false"), Some(false));
    for text in ["", "True", "FALSE", "1", "0", "yes", " true", "true ", "truee"] {
        assert_eq!(parse_bool(text), None);
        assert_eq!(parse_bool(text), text.parse::<bool>().ok());
    }
}
