use vstd::prelude::*;
use vstd::string::StringExecFns;

use crate::extracttime::digit_char;
use crate::flighttime::FlightDate;
use crate::flighttime::FlightTime;
use crate::flighttime::TimeOfDate;

verus! {

/// A number that is not negative, written in decimal digits without leading zeros.
pub open spec fn nat_text(number: nat) -> Seq<char>
    decreases number,
{
    if number < 10 {
        seq![digit_char(number as int)]
    } else {
        nat_text(number / 10).push(digit_char((number % 10) as int))
    }
}

/// A number written in decimal digits, with a minus sign before them if it is negative.
pub open spec fn int_text(number: int) -> Seq<char> {
    if number < 0 {
        seq!['-'] + nat_text((-number) as nat)
    } else {
        nat_text(number as nat)
    }
}

/// A number written in at least two characters: a single digit has a zero before it.
pub open spec fn padded_text(number: int) -> Seq<char> {
    if 0 <= number < 10 {
        seq!['0'] + nat_text(number as nat)
    } else {
        int_text(number)
    }
}

/// The quotient of a division that rounds towards zero.
pub open spec fn quotient_towards_zero(number: int, by: int) -> int {
    if number >= 0 {
        number / by
    } else {
        -((-number) / by)
    }
}

/// The remainder of a division that rounds towards zero: it has the sign of the number.
pub open spec fn remainder_towards_zero(number: int, by: int) -> int {
    number - quotient_towards_zero(number, by) * by
}

/// A duration in minutes as it is printed: nothing for no time at all, else the hours, a
/// colon, and the minutes in two digits.
pub open spec fn minutes_text(minutes: int) -> Seq<char> {
    if minutes == 0 {
        Seq::empty()
    } else {
        int_text(quotient_towards_zero(minutes, 60)) + seq![':'] + padded_text(
            remainder_towards_zero(minutes, 60),
        )
    }
}

/// A date as it is printed: the day and the month in two digits, then the year, with
/// slashes between them.
pub open spec fn date_text(year: int, month: int, day: int) -> Seq<char> {
    padded_text(day) + seq!['/'] + padded_text(month) + seq!['/'] + int_text(year)
}

/// A time of day as it is printed: the hour and the minute in two digits, with a colon
/// between them.
pub open spec fn clock_text(hour: int, minute: int) -> Seq<char> {
    padded_text(hour) + seq![':'] + padded_text(minute)
}

/// The text of one digit.
fn digit_text(digit: u8) -> (text: &'static str)
    requires
        digit < 10,
    ensures
        text@ == seq![digit_char(digit as int)],
{
    proof {
        reveal_strlit("0");
        reveal_strlit("1");
        reveal_strlit("2");
        reveal_strlit("3");
        reveal_strlit("4");
        reveal_strlit("5");
        reveal_strlit("6");
        reveal_strlit("7");
        reveal_strlit("8");
        reveal_strlit("9");
    }
    let text = if digit == 0 {
        "0"
    } else if digit == 1 {
        "1"
    } else if digit == 2 {
        "2"
    } else if digit == 3 {
        "3"
    } else if digit == 4 {
        "4"
    } else if digit == 5 {
        "5"
    } else if digit == 6 {
        "6"
    } else if digit == 7 {
        "7"
    } else if digit == 8 {
        "8"
    } else {
        "9"
    };
    assert(text@ =~= seq![digit_char(digit as int)]);
    text
}

/// Writes a number that is not negative in decimal digits.
pub fn write_nat(number: u128) -> (text: String)
    ensures
        text@ == nat_text(number as nat),
    decreases number,
{
    if number < 10 {
        digit_text(number as u8).to_owned()
    } else {
        let front = write_nat(number / 10);
        let text = front.concat(digit_text((number % 10) as u8));
        assert(text@ =~= nat_text(number as nat));
        text
    }
}

/// Writes a number in decimal digits, with a minus sign if it is negative.
pub fn write_int(number: i128) -> (text: String)
    ensures
        text@ == int_text(number as int),
{
    if number < 0 {
        proof {
            reveal_strlit("-");
        }
        let size: u128 = (-(number + 1)) as u128 + 1;
        let digits = write_nat(size);
        let text = "-".to_owned().concat(digits.as_str());
        assert(text@ =~= int_text(number as int));
        text
    } else {
        write_nat(number as u128)
    }
}

/// Writes a number in at least two characters.
pub fn write_padded(number: i128) -> (text: String)
    ensures
        text@ == padded_text(number as int),
{
    if 0 <= number && number < 10 {
        proof {
            reveal_strlit("0");
        }
        let digits = write_nat(number as u128);
        let text = "0".to_owned().concat(digits.as_str());
        assert(text@ =~= padded_text(number as int));
        text
    } else {
        write_int(number)
    }
}

/// Writes a duration in minutes as hours and minutes; nothing for no time at all.
pub fn write_minutes(minutes: i128) -> (text: String)
    ensures
        text@ == minutes_text(minutes as int),
{
    if minutes == 0 {
        String::new()
    } else {
        proof {
            reveal_strlit(":");
        }
        let hours = minutes / 60;
        let rest = minutes % 60;
        assert(hours == quotient_towards_zero(minutes as int, 60));
        assert(rest == remainder_towards_zero(minutes as int, 60));
        let text = write_int(hours).concat(":").concat(write_padded(rest).as_str());
        assert(text@ =~= minutes_text(minutes as int));
        text
    }
}

impl FlightTime {
    /// The span as it is printed: nothing for no time at all, else hours and minutes.
    pub fn to_text(&self) -> (text: String)
        ensures
            text@ == minutes_text(self.0 as int),
    {
        write_minutes(self.0 as i128)
    }
}

impl FlightDate {
    /// The date as it is printed: day, month and year.
    pub fn to_text(&self) -> (text: String)
        ensures
            text@ == date_text(self@.year, self@.month, self@.day),
    {
        proof {
            reveal_strlit("/");
        }
        let month = self.month() + 1;
        let text = write_padded(self.day() as i128).concat("/").concat(
            write_padded(month as i128).as_str(),
        ).concat("/").concat(write_int(self.year() as i128).as_str());
        assert(text@ =~= date_text(self@.year, self@.month, self@.day));
        text
    }
}

impl TimeOfDate {
    /// The time of day as it is printed: hour and minute.
    pub fn to_text(&self) -> (text: String)
        ensures
            text@ == clock_text(self@.hour, self@.minute),
    {
        proof {
            reveal_strlit(":");
        }
        let text = write_padded(self.hour() as i128).concat(":").concat(
            write_padded(self.minute() as i128).as_str(),
        );
        assert(text@ =~= clock_text(self@.hour, self@.minute));
        text
    }
}

} // verus!
