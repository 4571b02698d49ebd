use vstd::prelude::*;

verus! {

/// Leap years of the proleptic Gregorian calendar.
pub open spec fn is_leap_year(year: int) -> bool {
    year % 4 == 0 && (year % 100 != 0 || year % 400 == 0)
}

/// Number of days of a month, for `month` from 1 to 12.
pub open spec fn days_in_month(year: int, month: int) -> int {
    if month == 2 {
        if is_leap_year(year) {
            29
        } else {
            28
        }
    } else if month == 4 || month == 6 || month == 9 || month == 11 {
        30
    } else {
        31
    }
}

/// The dates that exist, within the years a four-digit field can name.
pub open spec fn is_calendar_date(year: int, month: int, day: int) -> bool {
    &&& -9999 <= year <= 9999
    &&& 1 <= month <= 12
    &&& 1 <= day <= days_in_month(year, month)
}

/// The times of day that exist, to the minute.
pub open spec fn is_clock_time(hour: int, minute: int) -> bool {
    0 <= hour < 24 && 0 <= minute < 60
}

/// The days of a year that lie before a month, for `month` from 1 to 12.
pub open spec fn days_before_month(year: int, month: int) -> int {
    let leap_day: int = if is_leap_year(year) {
        1
    } else {
        0
    };
    if month <= 1 {
        0
    } else if month == 2 {
        31
    } else if month == 3 {
        59 + leap_day
    } else if month == 4 {
        90 + leap_day
    } else if month == 5 {
        120 + leap_day
    } else if month == 6 {
        151 + leap_day
    } else if month == 7 {
        181 + leap_day
    } else if month == 8 {
        212 + leap_day
    } else if month == 9 {
        243 + leap_day
    } else if month == 10 {
        273 + leap_day
    } else if month == 11 {
        304 + leap_day
    } else {
        334 + leap_day
    }
}

/// The place of a day in its year, from 1 for the first of January.
pub open spec fn day_of_year(year: int, month: int, day: int) -> int {
    days_before_month(year, month) + day
}

/// The days that lie between the first day of the year -999999 and that of a year from
/// -9999 to 9999: 365 for each year, and a leap day for every fourth year but for three
/// centuries in four.
pub open spec fn days_before_year(year: int) -> int {
    let years = year + 999_999;
    (1461 * years) / 4 - years / 100 + (years / 100) / 4
}

/// The Julian day number of a calendar date: the days counted on from the first of
/// January of the year 4713 before our era in the Julian calendar, which has the number 0.
pub open spec fn julian_day(year: int, month: int, day: int) -> int {
    days_before_year(year) + day_of_year(year, month, day) - 363_521_075
}

/// A year has 365 days, and one more if it is a leap year.
pub proof fn lemma_days_of_a_year(year: int)
    requires
        -9999 <= year <= 9999,
    ensures
        days_before_year(year + 1) - days_before_year(year) == if is_leap_year(year) {
            366int
        } else {
            365int
        },
{
}

/// A later year begins at least 365 days later for each year between.
pub proof fn lemma_years_follow_each_other(early: int, late: int)
    requires
        -9999 <= early <= late <= 10000,
    ensures
        days_before_year(late) - days_before_year(early) >= 365 * (late - early),
    decreases late - early,
{
    if early < late {
        lemma_years_follow_each_other(early, late - 1);
        lemma_days_of_a_year(late - 1);
    }
}

/// The Julian day numbers of two dates that exist are in the order of the dates in the
/// calendar, and the next day has the next number.
pub proof fn lemma_julian_days_follow_the_calendar(
    year: int,
    month: int,
    day: int,
    later_year: int,
    later_month: int,
    later_day: int,
)
    requires
        is_calendar_date(year, month, day),
        is_calendar_date(later_year, later_month, later_day),
    ensures
        (year < later_year || (year == later_year && (month < later_month || (month == later_month
            && day < later_day)))) ==> julian_day(year, month, day) < julian_day(
            later_year,
            later_month,
            later_day,
        ),
        year == later_year && month == later_month && later_day == day + 1 ==> julian_day(
            later_year,
            later_month,
            later_day,
        ) == julian_day(year, month, day) + 1,
        year == later_year && later_month == month + 1 && later_day == 1 && day == days_in_month(
            year,
            month,
        ) ==> julian_day(later_year, later_month, later_day) == julian_day(year, month, day) + 1,
        later_year == year + 1 && month == 12 && day == 31 && later_month == 1 && later_day == 1
            ==> julian_day(later_year, later_month, later_day) == julian_day(year, month, day) + 1,
{
    lemma_days_of_a_year(year);
    if year < later_year {
        lemma_years_follow_each_other(year + 1, later_year);
    }
}

/// Asks `time::Date::from_calendar_date`, with the month number turned into a
/// `time::Month` by its `TryFrom<u8>`, whether the date exists. Trusted: the answer is yes
/// exactly for a month from 1 to 12 and a day from 1 to the length of that month, February
/// having 29 days in Gregorian leap years.
#[verifier::external_body]
pub(crate) fn calendar_date_exists(year: i32, month: u8, day: u8) -> (exists: bool)
    requires
        -9999 <= year <= 9999,
    ensures
        exists == is_calendar_date(year as int, month as int, day as int),
{
    match time::Month::try_from(month) {
        Ok(m) => time::Date::from_calendar_date(year, m, day).is_ok(),
        Err(_) => false,
    }
}

/// Asks `time::Time::from_hms`, with zero seconds, whether the time of day exists. Trusted:
/// the answer is yes exactly for an hour below 24 and a minute below 60.
#[verifier::external_body]
pub(crate) fn clock_time_exists(hour: u8, minute: u8) -> (exists: bool)
    ensures
        exists == is_clock_time(hour as int, minute as int),
{
    time::Time::from_hms(hour, minute, 0).is_ok()
}

/// Calls `time::Date::to_julian_day` on the date built from the three numbers, which have
/// to name a date that exists. Trusted: the number is the one that `julian_day` counts, as
/// the method does from the year and the day of the year.
#[verifier::external_body]
pub(crate) fn julian_day_of(year: i32, month: u8, day: u8) -> (number: i32)
    requires
        is_calendar_date(year as int, month as int, day as int),
    ensures
        number == julian_day(year as int, month as int, day as int),
{
    let month = time::Month::try_from(month).unwrap();
    time::Date::from_calendar_date(year, month, day).unwrap().to_julian_day()
}

/// The year, the month and the day that `time::Date::parse` reads from a text under the
/// format `[year]-[month]-[day]`, if it accepts the text.
pub uninterp spec fn parsed_iso_date(text: Seq<char>) -> Option<(int, int, int)>;

/// Reads a date with `time::Date::parse`, under the format that
/// `time::format_description::parse_borrowed` makes of `[year]-[month]-[day]`. Trusted: what
/// is read depends on the text alone.
#[verifier::external_body]
pub(crate) fn parse_iso_date(text: &str) -> (date: Option<(i32, u8, u8)>)
    ensures
        date matches Some(read) ==> parsed_iso_date(text@) == Some(
            (read.0 as int, read.1 as int, read.2 as int),
        ),
        date is None ==> parsed_iso_date(text@) is None,
{
    match time::format_description::parse_borrowed::<1>("[year]-[month]-[day]") {
        Ok(format) => match time::Date::parse(text, &format) {
            Ok(date) => Some((date.year(), u8::from(date.month()), date.day())),
            Err(_) => None,
        },
        Err(_) => None,
    }
}

} // verus!
