use zenjep::error::ValidationError;
use zenjep::extracttime::extract_date;
use zenjep::flighttime::DateTime;
use zenjep::flighttime::FlightDate;
use zenjep::flighttime::FlightTime;
use zenjep::flighttime::TimeOfDate;
use zenjep::validator::perform_basic_check;
use zenjep::validator::validate_date;
use zenjep::validator::validate_duration;

fn moment(text: &str) -> DateTime {
    extract_date(text).unwrap()
}

#[test]
fn dates_exist_or_not() {
    assert!(FlightDate::new(2020, 2, 29).is_some());
    assert!(FlightDate::new(2021, 2, 29).is_none());
    assert!(FlightDate::new(2021, 0, 1).is_none());
    assert!(FlightDate::new(2021, 13, 1).is_none());
    assert!(FlightDate::new(2021, 11, 31).is_none());
    assert!(FlightDate::new(2021, 12, 31).is_some());
    assert!(FlightDate::new(10000, 1, 1).is_none());
    assert!(FlightDate::new(-10000, 1, 1).is_none());
    assert!(FlightDate::new(-9999, 1, 1).is_some());
    assert!(FlightDate::new(i32::MAX, 1, 1).is_none());
    let date = FlightDate::new(1999, 12, 31).unwrap();
    assert_eq!((date.year(), date.month(), date.day()), (1999, 11, 31));
}

#[test]
fn times_of_day_exist_or_not() {
    assert!(TimeOfDate::new(0, 0).is_some());
    assert!(TimeOfDate::new(23, 59).is_some());
    assert!(TimeOfDate::new(24, 0).is_none());
    assert!(TimeOfDate::new(0, 60).is_none());
    let time = TimeOfDate::new(7, 5).unwrap();
    assert_eq!((time.hour(), time.minute(), time.minute_of_day()), (7, 5, 425));
}

#[test]
fn dates_are_ordered_by_the_calendar() {
    let early = FlightDate::new(2019, 12, 31).unwrap();
    let late = FlightDate::new(2020, 1, 1).unwrap();
    assert!(early.is_before(&late));
    assert!(!late.is_before(&early));
    assert!(!early.is_before(&early));
    assert!(early.is_same_day(&early));
    assert!(!early.is_same_day(&late));
    assert!(FlightDate::new(2020, 1, 31).unwrap().is_before(&FlightDate::new(2020, 2, 1).unwrap()));
    assert!(FlightDate::new(2020, 2, 1).unwrap().is_before(&FlightDate::new(2020, 2, 2).unwrap()));
    assert!(early < late);
}

#[test]
fn julian_days_are_those_of_the_calendar() {
    assert_eq!(FlightDate::new(2000, 1, 1).unwrap().julian_day(), 2_451_545);
    assert_eq!(FlightDate::new(2019, 12, 31).unwrap().julian_day(), 2_458_849);
    assert_eq!(
        FlightDate::new(2020, 3, 1).unwrap().julian_day()
            - FlightDate::new(2020, 2, 28).unwrap().julian_day(),
        2
    );
}

#[test]
fn moments_are_a_number_of_minutes_apart() {
    let start = moment("2020-01-01 10:00");
    assert_eq!(start.minutes_until(&moment("2020-01-01 11:30")), FlightTime(90));
    assert_eq!(start.minutes_until(&moment("2020-01-01 10:00")), FlightTime(0));
    assert_eq!(start.minutes_until(&moment("2020-01-01 09:00")), FlightTime(-60));
    assert_eq!(start.minutes_until(&moment("2020-01-02 10:00")), FlightTime(1440));
    assert_eq!(
        moment("2019-12-31 23:00").minutes_until(&moment("2020-01-01 01:15")),
        FlightTime(135)
    );
    assert_eq!(
        moment("2020-02-28 12:00").minutes_until(&moment("2020-03-01 12:00")),
        FlightTime(2 * 1440)
    );
    assert!(start.is_before(&moment("2020-01-01 10:01")));
    assert!(!start.is_before(&start));
    assert!(!start.is_before(&moment("2019-12-31 23:59")));
}

#[test]
fn time_of_day_wraps_around_midnight() {
    let late = TimeOfDate::new(23, 30).unwrap();
    let later = late.after(FlightTime(45)).unwrap();
    assert_eq!((later.hour(), later.minute()), (0, 15));
    let same = late.after(FlightTime(0)).unwrap();
    assert_eq!((same.hour(), same.minute()), (23, 30));
    let next_day = late.after(FlightTime(1440)).unwrap();
    assert_eq!((next_day.hour(), next_day.minute()), (23, 30));
    let long = TimeOfDate::new(10, 50).unwrap().after(FlightTime(99 * 60 + 99)).unwrap();
    assert_eq!((long.hour(), long.minute()), (15, 29));
    assert!(late.after(FlightTime(-1)).is_none());
}

#[test]
fn chronology_is_validated() {
    let start = moment("2020-01-01 10:00");
    assert_eq!(validate_date(&start, &moment("2020-01-01 10:01")), Ok(()));
    assert_eq!(
        validate_date(&start, &start),
        Err(ValidationError::TakeoffAfterLanding { start, end: start })
    );
    let before = moment("2020-01-01 09:59");
    assert_eq!(
        validate_date(&start, &before),
        Err(ValidationError::TakeoffAfterLanding { start, end: before })
    );
    assert_eq!(validate_date(&start, &moment("2020-01-02 06:00")), Ok(()));
    let too_late = moment("2020-01-02 06:01");
    assert_eq!(
        validate_date(&start, &too_late),
        Err(ValidationError::TooLong { start, end: too_late })
    );
}

#[test]
fn declared_duration_is_validated() {
    let start = moment("2020-01-01 10:00");
    let end = moment("2020-01-01 11:30");
    assert_eq!(validate_duration(FlightTime(90), &start, &end), Ok(()));
    assert_eq!(
        validate_duration(FlightTime(91), &start, &end),
        Err(ValidationError::DurationMismatch { declared: FlightTime(91), computed: FlightTime(90) })
    );
    assert_eq!(
        validate_duration(FlightTime(0), &start, &end),
        Err(ValidationError::DurationMismatch { declared: FlightTime(0), computed: FlightTime(90) })
    );
    perform_basic_check();
}

#[test]
fn flight_time_is_counted_in_minutes() {
    assert_eq!(FlightTime::zero(), FlightTime(0));
    assert_eq!(FlightTime::default(), FlightTime(0));
    assert_eq!(FlightTime::from_hours_minutes(2, 15), FlightTime(135));
    assert_eq!(FlightTime(135).whole_minutes(), 135);
    assert!(FlightTime(0).is_zero());
    assert!(!FlightTime(1).is_zero());
}

#[test]
fn times_and_dates_are_printed() {
    assert_eq!(FlightTime(0).to_text(), "");
    assert_eq!(FlightTime(135).to_text(), "2:15");
    assert_eq!(FlightTime(5).to_text(), "0:05");
    assert_eq!(FlightTime(60).to_text(), "1:00");
    assert_eq!(FlightTime(6039).to_text(), "100:39");
    assert_eq!(FlightTime(-90).to_text(), format!("{}:{:02}", -90 / 60, -90 % 60));
    assert_eq!(FlightTime(-5).to_text(), format!("{}:{:02}", -5 / 60, -5 % 60));
    assert_eq!(FlightDate::new(2020, 1, 2).unwrap().to_text(), "02/01/2020");
    assert_eq!(FlightDate::new(987, 12, 31).unwrap().to_text(), "31/12/987");
    assert_eq!(FlightDate::new(-44, 3, 15).unwrap().to_text(), "15/03/-44");
    assert_eq!(TimeOfDate::new(7, 5).unwrap().to_text(), "07:05");
    assert_eq!(TimeOfDate::new(23, 59).unwrap().to_text(), "23:59");
    assert_eq!(zenjep::render::write_minutes(135), "2:15");
    assert_eq!(zenjep::render::write_int(i128::MIN), i128::MIN.to_string());
    assert_eq!(zenjep::render::write_nat(u128::MAX), u128::MAX.to_string());
    assert_eq!(zenjep::render::write_padded(10), "10");
    assert_eq!(zenjep::render::write_padded(-3), "-3");
}

fn days_in(year: i32, month: u8) -> u8 {
    let leap = year % 4 == 0 && (year % 100 != 0 || year % 400 == 0);
    match month {
        2 => {
            if leap {
                29
            } else {
                28
            }
        }
        4 | 6 | 9 | 11 => 30,
        _ => 31,
    }
}

fn counted(year: i32, month: u8, day: u8) -> i64 {
    let before: i64 = (1..month).map(|earlier| days_in(year, earlier) as i64).sum();
    let years = year as i64 + 999_999;
    (1461 * years) / 4 - years / 100 + (years / 100) / 4 + before + day as i64 - 363_521_075
}

#[test]
fn julian_days_are_counted_as_the_calendar_goes() {
    let mut expected = FlightDate::new(-9999, 1, 1).unwrap().julian_day() as i64;
    assert_eq!(expected, counted(-9999, 1, 1));
    for year in -9999..=9999i32 {
        let every_day = (1890..=2110).contains(&year) || year % 400 == 0 || year.abs() > 9990;
        for month in 1..=12u8 {
            let last = days_in(year, month);
            assert!(FlightDate::new(year, month, last + 1).is_none());
            for day in 1..=last {
                if every_day || day == 1 || day == last {
                    let date = FlightDate::new(year, month, day).unwrap();
                    assert_eq!(date.julian_day() as i64, expected);
                    assert_eq!(counted(year, month, day), expected);
                }
                expected += 1;
            }
        }
    }
}

#[test]
fn time_of_day_is_added_to_as_the_clock_goes() {
    for (hour, minute) in [(0u8, 0u8), (0, 1), (7, 5), (12, 30), (23, 0), (23, 59)] {
        let start = TimeOfDate::new(hour, minute).unwrap();
        for span in [0i64, 1, 59, 60, 61, 600, 1439, 1440, 1441, 6039, 100_000, i64::MAX] {
            let later = start.after(FlightTime(span)).unwrap();
            let whole = time::Time::from_hms(hour, minute, 0).unwrap()
                + time::Duration::minutes(span % 1440);
            assert_eq!((later.hour(), later.minute()), (whole.hour(), whole.minute()));
        }
    }
}

#[test]
fn texts_are_compared_as_their_characters_are() {
    let texts = ["", "a", "A", "ab", "abc", "abd", "b", "é", "e", "z", "ż", "日本", "日", "?", "???", "????", "a\u{10000}", "a\u{ffff}"];
    for left in texts {
        for right in texts {
            assert_eq!(zenjep::text::same_text(left, right), left == right);
            assert_eq!(zenjep::text::precedes(left, right), left < right);
        }
    }
}
