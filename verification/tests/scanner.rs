use zenjep::error::ParseError;
use zenjep::extracttime::extract_date;
use zenjep::extracttime::extract_duration;
use zenjep::flighttime::FlightTime;

#[test]
fn experiment_date() {
    let accepted = extract_date("2013-02-23 00:59").unwrap();
    assert_eq!(accepted.date.year(), 2013);
    assert_eq!(accepted.date.month(), 1);
    assert_eq!(accepted.date.day(), 23);
    assert_eq!(accepted.time.hour(), 0);
    assert_eq!(accepted.time.minute(), 59);
    assert_eq!(extract_date("2013-02-31 00:59"), Err(ParseError::InvalidDate));
    assert_eq!(
        extract_date("201314-23 00:59"),
        Err(ParseError::Unexpected { character: '1', position: 4 })
    );
    assert_eq!(extract_date("2013-02-23 26:59"), Err(ParseError::InvalidClock));
    assert_eq!(
        extract_date("2013-02-23 11:16 "),
        Err(ParseError::Unexpected { character: ' ', position: 16 })
    );
    assert_eq!(
        extract_date(" 2013-02-23 11:16 "),
        Err(ParseError::Unexpected { character: ' ', position: 0 })
    );
}

#[test]
fn date_time_gives_back_its_five_numbers() {
    for (text, year, month, day, hour, minute) in [
        ("0000-01-01 00:00", 0, 1, 1, 0, 0),
        ("9999-12-31 23:59", 9999, 12, 31, 23, 59),
        ("2020-02-29 12:30", 2020, 2, 29, 12, 30),
        ("2000-02-29 07:05", 2000, 2, 29, 7, 5),
        ("1987-10-09 08:07", 1987, 10, 9, 8, 7),
    ] {
        let moment = extract_date(text).unwrap();
        assert_eq!(moment.date.year(), year);
        assert_eq!(moment.date.month() + 1, month);
        assert_eq!(moment.date.day(), day);
        assert_eq!(moment.time.hour(), hour);
        assert_eq!(moment.time.minute(), minute);
    }
}

#[test]
fn date_time_follows_the_calendar() {
    assert_eq!(extract_date("2019-02-29 12:30"), Err(ParseError::InvalidDate));
    assert_eq!(extract_date("1900-02-29 12:30"), Err(ParseError::InvalidDate));
    assert_eq!(extract_date("2100-02-29 12:30"), Err(ParseError::InvalidDate));
    assert_eq!(extract_date("2020-04-31 12:30"), Err(ParseError::InvalidDate));
    assert_eq!(extract_date("2020-00-10 12:30"), Err(ParseError::InvalidDate));
    assert_eq!(extract_date("2020-13-10 12:30"), Err(ParseError::InvalidDate));
    assert_eq!(extract_date("2020-01-00 12:30"), Err(ParseError::InvalidDate));
    assert_eq!(extract_date("2020-01-32 12:30"), Err(ParseError::InvalidDate));
    assert!(extract_date("2020-01-31 12:30").is_ok());
    assert!(extract_date("2020-06-30 12:30").is_ok());
    assert_eq!(extract_date("2020-01-31 24:00"), Err(ParseError::InvalidClock));
    assert_eq!(extract_date("2020-01-31 23:60"), Err(ParseError::InvalidClock));
    assert_eq!(extract_date("2020-02-30 25:61"), Err(ParseError::InvalidDate));
}

#[test]
fn date_time_refuses_what_is_no_token() {
    assert_eq!(extract_date(""), Err(ParseError::Truncated));
    assert_eq!(extract_date("2020"), Err(ParseError::Truncated));
    assert_eq!(extract_date("2020-01-01"), Err(ParseError::Truncated));
    assert_eq!(extract_date("2020-01-01 10:0"), Err(ParseError::Truncated));
    assert_eq!(
        extract_date("2020/01/01 10:00"),
        Err(ParseError::Unexpected { character: '/', position: 4 })
    );
    assert_eq!(
        extract_date("2020-01-01T10:00"),
        Err(ParseError::Unexpected { character: 'T', position: 10 })
    );
    assert_eq!(
        extract_date("2020-01-01 10-00"),
        Err(ParseError::Unexpected { character: '-', position: 13 })
    );
    assert_eq!(
        extract_date("2020-1-01 10:00"),
        Err(ParseError::Unexpected { character: '-', position: 6 })
    );
    assert_eq!(
        extract_date("20200-01-01 10:00"),
        Err(ParseError::Unexpected { character: '0', position: 4 })
    );
    assert_eq!(
        extract_date("2020-01-01  10:00"),
        Err(ParseError::Unexpected { character: ' ', position: 11 })
    );
    assert_eq!(
        extract_date("2020-01-01 10:00:00"),
        Err(ParseError::Unexpected { character: ':', position: 16 })
    );
    assert_eq!(
        extract_date("2020-01-01 10:000"),
        Err(ParseError::Unexpected { character: '0', position: 16 })
    );
    assert_eq!(
        extract_date("2020-01-01 1é:00"),
        Err(ParseError::Unexpected { character: 'é', position: 12 })
    );
    assert_eq!(
        extract_date("2020:01-01 10:00"),
        Err(ParseError::Unexpected { character: ':', position: 4 })
    );
}

#[test]
fn duration_is_sixty_minutes_an_hour() {
    assert_eq!(extract_duration("01:30"), Ok(FlightTime(90)));
    assert_eq!(extract_duration("99:99"), Ok(FlightTime(99 * 60 + 99)));
    assert_eq!(extract_duration("00:00"), Ok(FlightTime(0)));
    assert_eq!(extract_duration("00:45"), Ok(FlightTime(45)));
    assert_eq!(extract_duration("20:00"), Ok(FlightTime(1200)));
    assert_eq!(extract_duration("00:75"), Ok(FlightTime(75)));
}

#[test]
fn duration_refuses_what_is_no_token() {
    assert_eq!(extract_duration(""), Err(ParseError::Truncated));
    assert_eq!(extract_duration("01:3"), Err(ParseError::Truncated));
    assert_eq!(extract_duration("01"), Err(ParseError::Truncated));
    assert_eq!(
        extract_duration("1:30"),
        Err(ParseError::Unexpected { character: ':', position: 1 })
    );
    assert_eq!(
        extract_duration("01-30"),
        Err(ParseError::Unexpected { character: '-', position: 2 })
    );
    assert_eq!(
        extract_duration("01 30"),
        Err(ParseError::Unexpected { character: ' ', position: 2 })
    );
    assert_eq!(
        extract_duration("0130"),
        Err(ParseError::Unexpected { character: '3', position: 2 })
    );
    assert_eq!(
        extract_duration("01:300"),
        Err(ParseError::Unexpected { character: '0', position: 5 })
    );
    assert_eq!(
        extract_duration("01:30 "),
        Err(ParseError::Unexpected { character: ' ', position: 5 })
    );
    assert_eq!(
        extract_duration("ab:cd"),
        Err(ParseError::Unexpected { character: 'a', position: 0 })
    );
    assert_eq!(
        extract_duration("01::30"),
        Err(ParseError::Unexpected { character: ':', position: 3 })
    );
    assert_eq!(
        extract_duration("-1:30"),
        Err(ParseError::Unexpected { character: '-', position: 0 })
    );
}
