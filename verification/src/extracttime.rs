use vstd::prelude::*;

use crate::error::ParseError;
use crate::flighttime::ClockView;
use crate::flighttime::DateTime;
use crate::flighttime::DateTimeView;
use crate::flighttime::DateView;
use crate::flighttime::FlightDate;
use crate::flighttime::FlightTime;
use crate::flighttime::TimeOfDate;

verus! {

/// The ten decimal digits.
pub open spec fn is_digit(c: char) -> bool {
    '0' <= c <= '9'
}

/// The number a decimal digit stands for.
pub open spec fn digit_value(c: char) -> int {
    c as int - '0' as int
}

/// The number written by the two digits at `at` and `at + 1`.
pub open spec fn two_digits(text: Seq<char>, at: int) -> int {
    digit_value(text[at]) * 10 + digit_value(text[at + 1])
}

/// The number written by the four digits from `at` to `at + 3`.
pub open spec fn four_digits(text: Seq<char>, at: int) -> int {
    digit_value(text[at]) * 1000 + digit_value(text[at + 1]) * 100 + digit_value(text[at + 2]) * 10
        + digit_value(text[at + 3])
}

/// The two kinds of token that the scanners read.
pub enum Token {
    /// `YYYY-MM-DD HH:MM`
    DateTime,
    /// `HH:MM`
    Duration,
}

/// Whether the grammar of `token` accepts the character `c` at `position`.
pub open spec fn allows(token: Token, position: int, c: char) -> bool {
    match token {
        Token::DateTime => date_time_allows(position, c),
        Token::Duration => duration_allows(position, c),
    }
}

/// Whether the grammar refuses the character at `position` and accepts every one before it.
pub open spec fn is_first_offence(token: Token, text: Seq<char>, position: int) -> bool {
    &&& 0 <= position < text.len()
    &&& !allows(token, position, text[position])
    &&& forall|earlier: int|
        0 <= earlier < position ==> #[trigger] allows(token, earlier, text[earlier])
}

/// Length of a date-time token: `YYYY-MM-DD HH:MM`.
pub const DATE_TIME_LENGTH: usize = 16;

/// What the date-time grammar accepts at each position: digits, but for the two hyphens,
/// the single space and the colon; nothing behind the sixteenth character.
pub open spec fn date_time_allows(position: int, c: char) -> bool {
    if position == 4 || position == 7 {
        c == '-'
    } else if position == 10 {
        c == ' '
    } else if position == 13 {
        c == ':'
    } else {
        0 <= position < 16 && is_digit(c)
    }
}

/// The five numbers that a token of the right shape writes.
pub open spec fn date_time_fields(text: Seq<char>) -> DateTimeView {
    DateTimeView {
        date: DateView {
            year: four_digits(text, 0),
            month: two_digits(text, 5),
            day: two_digits(text, 8),
        },
        clock: ClockView { hour: two_digits(text, 11), minute: two_digits(text, 14) },
    }
}

/// What scanning `text` as a date-time gives.
pub open spec fn date_time_outcome(text: Seq<char>) -> Result<DateTimeView, ParseError> {
    if exists|position: int| is_first_offence(Token::DateTime, text, position) {
        let position = choose|position: int| is_first_offence(Token::DateTime, text, position);
        Err(ParseError::Unexpected { character: text[position], position: position as usize })
    } else if text.len() < 16 {
        Err(ParseError::Truncated)
    } else {
        let fields = date_time_fields(text);
        if !fields.date.is_valid() {
            Err(ParseError::InvalidDate)
        } else if !fields.clock.is_valid() {
            Err(ParseError::InvalidClock)
        } else {
            Ok(fields)
        }
    }
}

/// Length of a duration token: `HH:MM`.
pub const DURATION_LENGTH: usize = 5;

/// What the duration grammar accepts at each position: two digits, a colon, two digits.
pub open spec fn duration_allows(position: int, c: char) -> bool {
    if position == 2 {
        c == ':'
    } else {
        0 <= position < 5 && is_digit(c)
    }
}

/// The minutes that a token of the right shape writes: sixty for each hour, and the minutes.
pub open spec fn duration_minutes(text: Seq<char>) -> int {
    two_digits(text, 0) * 60 + two_digits(text, 3)
}

/// What scanning `text` as a duration gives.
pub open spec fn duration_outcome(text: Seq<char>) -> Result<FlightTime, ParseError> {
    if exists|position: int| is_first_offence(Token::Duration, text, position) {
        let position = choose|position: int| is_first_offence(Token::Duration, text, position);
        Err(ParseError::Unexpected { character: text[position], position: position as usize })
    } else if text.len() < 5 {
        Err(ParseError::Truncated)
    } else {
        Ok(FlightTime(duration_minutes(text) as i64))
    }
}

/// The first offence is the only one: whoever finds one has found what `choose` picks.
proof fn lemma_first_offence_unique(token: Token, text: Seq<char>, position: int)
    requires
        is_first_offence(token, text, position),
    ensures
        (exists|p: int| is_first_offence(token, text, p)),
        (choose|p: int| is_first_offence(token, text, p)) == position,
{
    let chosen = choose|p: int| is_first_offence(token, text, p);
    assert(is_first_offence(token, text, chosen));
    if chosen < position {
        assert(allows(token, chosen, text[chosen]));
    } else if position < chosen {
        assert(allows(token, position, text[position]));
    }
}

/// A text that is accepted to its end holds no offence.
proof fn lemma_no_offence(token: Token, text: Seq<char>)
    requires
        forall|i: int| 0 <= i < text.len() ==> #[trigger] allows(token, i, text[i]),
    ensures
        !(exists|p: int| is_first_offence(token, text, p)),
{
}

/// Where the date-time scanner stands: what it looks for next.
enum DateScanner {
    FindYear,
    FindYearSeparator,
    FindMonth,
    FindMonthSeparator,
    FindDay,
    FindDaySeparator,
    FindHour,
    FindHourSeparator,
    FindMinute,
    End,
}

/// The state after `position` accepted characters.
spec fn date_scanner_at(position: int) -> DateScanner {
    if position < 4 {
        DateScanner::FindYear
    } else if position == 4 {
        DateScanner::FindYearSeparator
    } else if position < 7 {
        DateScanner::FindMonth
    } else if position == 7 {
        DateScanner::FindMonthSeparator
    } else if position < 10 {
        DateScanner::FindDay
    } else if position == 10 {
        DateScanner::FindDaySeparator
    } else if position < 13 {
        DateScanner::FindHour
    } else if position == 13 {
        DateScanner::FindHourSeparator
    } else if position < 16 {
        DateScanner::FindMinute
    } else {
        DateScanner::End
    }
}

/// How many digits of the field at `at` lie among the first `position` characters.
spec fn digits_seen(at: int, width: int, position: int) -> int {
    if position <= at {
        0
    } else if position >= at + width {
        width
    } else {
        position - at
    }
}

/// What a two-digit field at `at` has gathered from the first `position` characters.
spec fn gathered_two(text: Seq<char>, at: int, position: int) -> int {
    (if position > at {
        digit_value(text[at]) * 10
    } else {
        0
    }) + (if position > at + 1 {
        digit_value(text[at + 1])
    } else {
        0
    })
}

/// What a four-digit field at `at` has gathered from the first `position` characters.
spec fn gathered_four(text: Seq<char>, at: int, position: int) -> int {
    (if position > at {
        digit_value(text[at]) * 1000
    } else {
        0
    }) + (if position > at + 1 {
        digit_value(text[at + 1]) * 100
    } else {
        0
    }) + gathered_two(text, at + 2, position)
}

/// The largest number that the first `seen` digits of a field of `width` digits can write,
/// the digits still to come counted as zeros.
spec fn heaviest(width: int, seen: int) -> int {
    if width == 4 {
        if seen <= 0 {
            0
        } else if seen == 1 {
            9000
        } else if seen == 2 {
            9900
        } else if seen == 3 {
            9990
        } else {
            9999
        }
    } else {
        if seen <= 0 {
            0
        } else if seen == 1 {
            90
        } else {
            99
        }
    }
}

/// The weight of a digit that has `places` digits behind it.
fn place_weight(places: u32) -> (weight: u32)
    requires
        places <= 3,
    ensures
        places == 0 ==> weight == 1,
        places == 1 ==> weight == 10,
        places == 2 ==> weight == 100,
        places == 3 ==> weight == 1000,
{
    if places == 0 {
        1
    } else if places == 1 {
        10
    } else if places == 2 {
        100
    } else {
        1000
    }
}

/// The number a decimal digit stands for.
fn digit_of(c: char) -> (value: u32)
    requires
        is_digit(c),
    ensures
        value == digit_value(c),
        value <= 9,
{
    c as u32 - '0' as u32
}

/// Reads a date and a time of day written as `YYYY-MM-DD HH:MM`, character by character and
/// without looking back. Nothing may stand before or behind the token.
pub fn extract_date(input: &str) -> (scanned: Result<DateTime, ParseError>)
    ensures
        scanned matches Ok(moment) ==> date_time_outcome(input@) == Ok::<DateTimeView, ParseError>(
            moment@,
        ),
        scanned matches Err(error) ==> date_time_outcome(input@) == Err::<DateTimeView, ParseError>(
            error,
        ),
{
    let mut scanner = DateScanner::FindYear;
    let mut year_number: u32 = 0;
    let mut year: u32 = 0;
    let mut month_number: u32 = 0;
    let mut month: u32 = 0;
    let mut day_number: u32 = 0;
    let mut day: u32 = 0;
    let mut hour_number: u32 = 0;
    let mut hour: u32 = 0;
    let mut minute_number: u32 = 0;
    let mut minute: u32 = 0;
    let mut index: usize = 0;

    for c in chars: input.chars()
        invariant
            chars.seq() == input@,
            index == chars.index(),
            index <= 16,
            forall|i: int| 0 <= i < index ==> #[trigger] allows(Token::DateTime, i, input@[i]),
            year <= heaviest(4, year_number as int),
            month <= heaviest(2, month_number as int),
            day <= heaviest(2, day_number as int),
            hour <= heaviest(2, hour_number as int),
            minute <= heaviest(2, minute_number as int),
            scanner == date_scanner_at(index as int),
            year_number == digits_seen(0, 4, index as int),
            month_number == digits_seen(5, 2, index as int),
            day_number == digits_seen(8, 2, index as int),
            hour_number == digits_seen(11, 2, index as int),
            minute_number == digits_seen(14, 2, index as int),
            year == gathered_four(input@, 0, index as int),
            month == gathered_two(input@, 5, index as int),
            day == gathered_two(input@, 8, index as int),
            hour == gathered_two(input@, 11, index as int),
            minute == gathered_two(input@, 14, index as int),
    {
        assert(c == input@[index as int]);
        let accepted = if '0' <= c && c <= '9' {
            let digit = digit_of(c);
            match scanner {
                DateScanner::FindYear => {
                    year += digit * place_weight(3 - year_number);
                    year_number += 1;
                    if year_number == 4 {
                        scanner = DateScanner::FindYearSeparator;
                    }
                    true
                },
                DateScanner::FindMonth => {
                    month += digit * place_weight(1 - month_number);
                    month_number += 1;
                    if month_number == 2 {
                        scanner = DateScanner::FindMonthSeparator;
                    }
                    true
                },
                DateScanner::FindDay => {
                    day += digit * place_weight(1 - day_number);
                    day_number += 1;
                    if day_number == 2 {
                        scanner = DateScanner::FindDaySeparator;
                    }
                    true
                },
                DateScanner::FindHour => {
                    hour += digit * place_weight(1 - hour_number);
                    hour_number += 1;
                    if hour_number == 2 {
                        scanner = DateScanner::FindHourSeparator;
                    }
                    true
                },
                DateScanner::FindMinute => {
                    minute += digit * place_weight(1 - minute_number);
                    minute_number += 1;
                    if minute_number == 2 {
                        scanner = DateScanner::End;
                    }
                    true
                },
                _ => false,
            }
        } else if c == '-' {
            match scanner {
                DateScanner::FindYearSeparator => {
                    scanner = DateScanner::FindMonth;
                    true
                },
                DateScanner::FindMonthSeparator => {
                    scanner = DateScanner::FindDay;
                    true
                },
                _ => false,
            }
        } else if c == ':' {
            match scanner {
                DateScanner::FindHourSeparator => {
                    scanner = DateScanner::FindMinute;
                    true
                },
                _ => false,
            }
        } else if c == ' ' {
            match scanner {
                DateScanner::FindDaySeparator => {
                    scanner = DateScanner::FindHour;
                    true
                },
                _ => false,
            }
        } else {
            false
        };
        if !accepted {
            proof {
                assert(!allows(Token::DateTime, index as int, input@[index as int]));
                lemma_first_offence_unique(Token::DateTime, input@, index as int);
            }
            return Err(ParseError::Unexpected { character: c, position: index });
        }
        assert(allows(Token::DateTime, index as int, input@[index as int]));
        index += 1;
    }
    proof {
        lemma_no_offence(Token::DateTime, input@);
    }
    match scanner {
        DateScanner::End => {},
        _ => {
            return Err(ParseError::Truncated);
        },
    }
    let date = match FlightDate::new(year as i32, month as u8, day as u8) {
        Some(date) => date,
        None => {
            return Err(ParseError::InvalidDate);
        },
    };
    let time = match TimeOfDate::new(hour as u8, minute as u8) {
        Some(time) => time,
        None => {
            return Err(ParseError::InvalidClock);
        },
    };
    Ok(DateTime::new(date, time))
}

/// Where the duration scanner stands: what it looks for next.
enum DurationScanner {
    FindHour,
    FindHourSeparator,
    FindMinute,
    End,
}

/// The state after `position` accepted characters.
spec fn duration_scanner_at(position: int) -> DurationScanner {
    if position < 2 {
        DurationScanner::FindHour
    } else if position == 2 {
        DurationScanner::FindHourSeparator
    } else if position < 5 {
        DurationScanner::FindMinute
    } else {
        DurationScanner::End
    }
}

/// Reads a duration written as `HH:MM`, character by character and without looking back.
/// The hours run from 00 to 99 and so do the minutes: the result is sixty minutes for each
/// hour, and the minutes.
pub fn extract_duration(input: &str) -> (scanned: Result<FlightTime, ParseError>)
    ensures
        scanned == duration_outcome(input@),
{
    let mut scanner = DurationScanner::FindHour;
    let mut hour_number: u32 = 0;
    let mut hour: u32 = 0;
    let mut minute_number: u32 = 0;
    let mut minute: u32 = 0;
    let mut index: usize = 0;

    for c in chars: input.chars()
        invariant
            chars.seq() == input@,
            index == chars.index(),
            index <= 5,
            forall|i: int| 0 <= i < index ==> #[trigger] allows(Token::Duration, i, input@[i]),
            scanner == duration_scanner_at(index as int),
            hour_number == digits_seen(0, 2, index as int),
            minute_number == digits_seen(3, 2, index as int),
            hour == gathered_two(input@, 0, index as int),
            minute == gathered_two(input@, 3, index as int),
            hour <= heaviest(2, hour_number as int),
            minute <= heaviest(2, minute_number as int),
    {
        assert(c == input@[index as int]);
        let accepted = if '0' <= c && c <= '9' {
            let digit = digit_of(c);
            match scanner {
                DurationScanner::FindHour => {
                    hour += digit * place_weight(1 - hour_number);
                    hour_number += 1;
                    if hour_number == 2 {
                        scanner = DurationScanner::FindHourSeparator;
                    }
                    true
                },
                DurationScanner::FindMinute => {
                    minute += digit * place_weight(1 - minute_number);
                    minute_number += 1;
                    if minute_number == 2 {
                        scanner = DurationScanner::End;
                    }
                    true
                },
                _ => false,
            }
        } else if c == ':' {
            match scanner {
                DurationScanner::FindHourSeparator => {
                    scanner = DurationScanner::FindMinute;
                    true
                },
                _ => false,
            }
        } else {
            false
        };
        if !accepted {
            proof {
                assert(!allows(Token::Duration, index as int, input@[index as int]));
                lemma_first_offence_unique(Token::Duration, input@, index as int);
            }
            return Err(ParseError::Unexpected { character: c, position: index });
        }
        assert(allows(Token::Duration, index as int, input@[index as int]));
        index += 1;
    }
    proof {
        lemma_no_offence(Token::Duration, input@);
    }
    match scanner {
        DurationScanner::End => {},
        _ => {
            return Err(ParseError::Truncated);
        },
    }
    Ok(FlightTime::from_hours_minutes(hour as u8, minute as u8))
}

/// Whether `text` is a token of the grammar, from its first character to its last.
pub open spec fn is_token(token: Token, text: Seq<char>) -> bool {
    &&& text.len() == match token {
        Token::DateTime => 16int,
        Token::Duration => 5int,
    }
    &&& forall|i: int| 0 <= i < text.len() ==> #[trigger] allows(token, i, text[i])
}

/// A date-time token whose numbers name a date and a time that exist is read as exactly
/// those numbers.
pub proof fn lemma_date_time_accepted(text: Seq<char>)
    requires
        is_token(Token::DateTime, text),
        date_time_fields(text).date.is_valid(),
        date_time_fields(text).clock.is_valid(),
    ensures
        date_time_outcome(text) == Ok::<DateTimeView, ParseError>(date_time_fields(text)),
{
    lemma_no_offence(Token::DateTime, text);
}

/// Whatever is no date-time token is refused: a wrong separator, a digit too few or too
/// many, anything before or behind the token, white space included.
pub proof fn lemma_date_time_refused(text: Seq<char>)
    requires
        !is_token(Token::DateTime, text),
    ensures
        date_time_outcome(text) is Err,
{
    lemma_not_a_token(Token::DateTime, text);
}

/// A duration token is read as sixty minutes for each of its hours, and its minutes.
pub proof fn lemma_duration_accepted(text: Seq<char>)
    requires
        is_token(Token::Duration, text),
    ensures
        duration_outcome(text) == Ok::<FlightTime, ParseError>(
            FlightTime((two_digits(text, 0) * 60 + two_digits(text, 3)) as i64),
        ),
        0 <= two_digits(text, 0) * 60 + two_digits(text, 3) <= 99 * 60 + 99,
{
    lemma_no_offence(Token::Duration, text);
    assert(allows(Token::Duration, 0, text[0]));
    assert(allows(Token::Duration, 1, text[1]));
    assert(allows(Token::Duration, 3, text[3]));
    assert(allows(Token::Duration, 4, text[4]));
}

/// Whatever is no duration token is refused: a character that is no digit, a misplaced or
/// missing colon, a digit too few or too many.
pub proof fn lemma_duration_refused(text: Seq<char>)
    requires
        !is_token(Token::Duration, text),
    ensures
        duration_outcome(text) is Err,
{
    lemma_not_a_token(Token::Duration, text);
}

/// A span that comes out of the duration scanner lies between nothing and 99 hours and
/// 99 minutes.
pub proof fn lemma_duration_is_bounded(text: Seq<char>)
    ensures
        duration_outcome(text) matches Ok(span) ==> 0 <= span.0 <= 99 * 60 + 99,
{
    if duration_outcome(text) is Ok {
        if !is_token(Token::Duration, text) {
            lemma_duration_refused(text);
        }
        lemma_duration_accepted(text);
    }
}

/// A text that is no token holds an offence or is too short.
proof fn lemma_not_a_token(token: Token, text: Seq<char>)
    requires
        !is_token(token, text),
    ensures
        (exists|p: int| is_first_offence(token, text, p)) || text.len() < match token {
            Token::DateTime => 16int,
            Token::Duration => 5int,
        },
{
    let length = match token {
        Token::DateTime => 16int,
        Token::Duration => 5int,
    };
    if text.len() >= length {
        if text.len() > length {
            assert(!allows(token, length, text[length]));
        }
        let refused = choose|i: int| 0 <= i < text.len() && !allows(token, i, text[i]);
        lemma_offence_has_first(token, text, refused);
    }
}

/// Before any refused character stands a first one.
proof fn lemma_offence_has_first(token: Token, text: Seq<char>, refused: int)
    requires
        0 <= refused < text.len(),
        !allows(token, refused, text[refused]),
    ensures
        exists|p: int| is_first_offence(token, text, p),
    decreases refused,
{
    if forall|earlier: int| 0 <= earlier < refused ==> #[trigger] allows(token, earlier, text[earlier]) {
        assert(is_first_offence(token, text, refused));
    } else {
        let earlier = choose|earlier: int|
            0 <= earlier < refused && !#[trigger] allows(token, earlier, text[earlier]);
        lemma_offence_has_first(token, text, earlier);
    }
}

/// The character that writes the digit `value`.
pub open spec fn digit_char(value: int) -> char {
    (value + '0' as int) as char
}

/// `value`, which is below 100, written with two digits.
pub open spec fn two_digit_text(value: int) -> Seq<char> {
    seq![digit_char(value / 10), digit_char(value % 10)]
}

/// `value`, which is below 10000, written with four digits.
pub open spec fn four_digit_text(value: int) -> Seq<char> {
    two_digit_text(value / 100) + two_digit_text(value % 100)
}

/// A date and a time of day written as `YYYY-MM-DD HH:MM`.
pub open spec fn date_time_text(moment: DateTimeView) -> Seq<char> {
    four_digit_text(moment.date.year) + seq!['-'] + two_digit_text(moment.date.month) + seq!['-']
        + two_digit_text(moment.date.day) + seq![' '] + two_digit_text(moment.clock.hour)
        + seq![':'] + two_digit_text(moment.clock.minute)
}

/// A span of hours and minutes written as `HH:MM`.
pub open spec fn duration_text(hours: int, minutes: int) -> Seq<char> {
    two_digit_text(hours) + seq![':'] + two_digit_text(minutes)
}

/// Writing a date and a time of day that exist, of a year that four digits can hold, and
/// reading the text back gives the same five numbers.
pub proof fn lemma_date_time_round_trip(moment: DateTimeView)
    requires
        0 <= moment.date.year <= 9999,
        moment.date.is_valid(),
        moment.clock.is_valid(),
    ensures
        date_time_outcome(date_time_text(moment)) == Ok::<DateTimeView, ParseError>(moment),
{
    let text = date_time_text(moment);
    lemma_two_digit_text(moment.date.year / 100);
    lemma_two_digit_text(moment.date.year % 100);
    lemma_two_digit_text(moment.date.month);
    lemma_two_digit_text(moment.date.day);
    lemma_two_digit_text(moment.clock.hour);
    lemma_two_digit_text(moment.clock.minute);
    assert(text.len() == 16);
    assert(text[0] == two_digit_text(moment.date.year / 100)[0]);
    assert(text[1] == two_digit_text(moment.date.year / 100)[1]);
    assert(text[2] == two_digit_text(moment.date.year % 100)[0]);
    assert(text[3] == two_digit_text(moment.date.year % 100)[1]);
    assert(text[4] == '-');
    assert(text[5] == two_digit_text(moment.date.month)[0]);
    assert(text[6] == two_digit_text(moment.date.month)[1]);
    assert(text[7] == '-');
    assert(text[8] == two_digit_text(moment.date.day)[0]);
    assert(text[9] == two_digit_text(moment.date.day)[1]);
    assert(text[10] == ' ');
    assert(text[11] == two_digit_text(moment.clock.hour)[0]);
    assert(text[12] == two_digit_text(moment.clock.hour)[1]);
    assert(text[13] == ':');
    assert(text[14] == two_digit_text(moment.clock.minute)[0]);
    assert(text[15] == two_digit_text(moment.clock.minute)[1]);
    assert(is_token(Token::DateTime, text));
    assert(date_time_fields(text) == moment);
    lemma_date_time_accepted(text);
}

/// Writing hours and minutes below 100 as a duration and reading the text back gives
/// sixty minutes for each hour, and the minutes.
pub proof fn lemma_duration_round_trip(hours: int, minutes: int)
    requires
        0 <= hours <= 99,
        0 <= minutes <= 99,
    ensures
        duration_outcome(duration_text(hours, minutes)) == Ok::<FlightTime, ParseError>(
            FlightTime((hours * 60 + minutes) as i64),
        ),
{
    let text = duration_text(hours, minutes);
    lemma_two_digit_text(hours);
    lemma_two_digit_text(minutes);
    assert(text.len() == 5);
    assert(text[0] == two_digit_text(hours)[0]);
    assert(text[1] == two_digit_text(hours)[1]);
    assert(text[2] == ':');
    assert(text[3] == two_digit_text(minutes)[0]);
    assert(text[4] == two_digit_text(minutes)[1]);
    assert(is_token(Token::Duration, text));
    lemma_duration_accepted(text);
}

/// The two characters that write a number below 100 are digits, and they write it.
proof fn lemma_two_digit_text(value: int)
    requires
        0 <= value <= 99,
    ensures
        two_digit_text(value).len() == 2,
        is_digit(two_digit_text(value)[0]),
        is_digit(two_digit_text(value)[1]),
        two_digits(two_digit_text(value), 0) == value,
{
}

} // verus!
