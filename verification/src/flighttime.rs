use vstd::prelude::*;

use crate::calendar::calendar_date_exists;
use crate::calendar::clock_time_exists;
use crate::calendar::is_calendar_date;
use crate::calendar::is_clock_time;
use crate::calendar::julian_day;
use crate::calendar::lemma_julian_days_follow_the_calendar;
use crate::calendar::julian_day_of;

verus! {

/// Minutes in a day.
pub const MINUTES_PER_DAY: i64 = 1440;

/// A span of flight time, in whole minutes.
#[derive(Clone, Copy, Debug, PartialEq, Eq, Structural)]
pub struct FlightTime(pub i64);

impl FlightTime {
    /// No time at all.
    pub fn zero() -> (span: FlightTime)
        ensures
            span.0 == 0,
    {
        FlightTime(0)
    }

    /// The span of `hours` hours and `minutes` minutes.
    pub fn from_hours_minutes(hours: u8, minutes: u8) -> (span: FlightTime)
        ensures
            span.0 == hours * 60 + minutes,
    {
        FlightTime(hours as i64 * 60 + minutes as i64)
    }

    /// The whole span in minutes.
    pub fn whole_minutes(&self) -> (minutes: i64)
        ensures
            minutes == self.0,
    {
        self.0
    }

    /// Whether the span is exactly zero.
    pub fn is_zero(&self) -> (zero: bool)
        ensures
            zero == (self.0 == 0),
    {
        self.0 == 0
    }
}

impl Default for FlightTime {
    /// No time at all.
    fn default() -> (span: FlightTime)
        ensures
            span.0 == 0,
    {
        FlightTime(0)
    }
}

/// A calendar date as three numbers.
pub struct DateView {
    pub year: int,
    /// From 1 for January to 12 for December.
    pub month: int,
    pub day: int,
}

impl DateView {
    /// Whether the three numbers name a day of the calendar.
    pub open spec fn is_valid(self) -> bool {
        is_calendar_date(self.year, self.month, self.day)
    }

    /// Strictly earlier in the calendar.
    pub open spec fn precedes(self, other: DateView) -> bool {
        ||| self.year < other.year
        ||| self.year == other.year && self.month < other.month
        ||| self.year == other.year && self.month == other.month && self.day < other.day
    }

    /// The Julian day number of the date.
    pub open spec fn julian(self) -> int {
        julian_day(self.year, self.month, self.day)
    }
}

/// A time of day as two numbers.
pub struct ClockView {
    pub hour: int,
    pub minute: int,
}

impl ClockView {
    /// Whether the two numbers name a time of day.
    pub open spec fn is_valid(self) -> bool {
        is_clock_time(self.hour, self.minute)
    }

    /// Minutes since midnight.
    pub open spec fn minute_of_day(self) -> int {
        self.hour * 60 + self.minute
    }

    /// The time of day `span` minutes later, wrapping around midnight.
    pub open spec fn after(self, span: int) -> ClockView {
        ClockView { hour: ((self.minute_of_day() + span) / 60) % 24, minute: (self.minute + span) % 60 }
    }
}

/// A date and a time of day.
pub struct DateTimeView {
    pub date: DateView,
    pub clock: ClockView,
}

impl DateTimeView {
    /// Strictly earlier: by the date, then by the time of day.
    pub open spec fn precedes(self, other: DateTimeView) -> bool {
        ||| self.date.precedes(other.date)
        ||| self.date == other.date && self.clock.minute_of_day() < other.clock.minute_of_day()
    }

    /// Minutes from `self` to `end`; negative when `end` is the earlier of the two. Days
    /// are counted by their Julian day numbers.
    pub open spec fn minutes_until(self, end: DateTimeView) -> int {
        (end.date.julian() - self.date.julian()) * 1440 + end.clock.minute_of_day()
            - self.clock.minute_of_day()
    }
}

/// A day of the calendar. Every value names a date that exists.
#[derive(Clone, Copy, Debug, PartialEq, Eq, PartialOrd, Ord, Hash)]
pub struct FlightDate {
    year: i32,
    month: u8,
    day: u8,
}

impl View for FlightDate {
    type V = DateView;

    closed spec fn view(&self) -> DateView {
        DateView { year: self.year as int, month: self.month as int, day: self.day as int }
    }
}

impl FlightDate {
    #[verifier::type_invariant]
    spec fn well_formed(self) -> bool {
        is_calendar_date(self.year as int, self.month as int, self.day as int)
    }

    /// The date with these three numbers.
    pub closed spec fn of(view: DateView) -> FlightDate {
        FlightDate { year: view.year as i32, month: view.month as u8, day: view.day as u8 }
    }

    /// The three numbers say which date it is.
    pub proof fn lemma_view_tells_all(self)
        ensures
            FlightDate::of(self@) == self,
    {
    }

    /// The date made of three numbers that name one has these three numbers.
    pub proof fn lemma_of_has_view(view: DateView)
        requires
            view.is_valid(),
        ensures
            FlightDate::of(view)@ == view,
    {
    }

    /// The date with these numbers, `month` counted from 1, if it exists.
    pub fn new(year: i32, month: u8, day: u8) -> (date: Option<FlightDate>)
        ensures
            date is Some <==> is_calendar_date(year as int, month as int, day as int),
            date matches Some(d) ==> d@ == (DateView {
                year: year as int,
                month: month as int,
                day: day as int,
            }),
    {
        if -9999 <= year && year <= 9999 && calendar_date_exists(year, month, day) {
            Some(FlightDate { year, month, day })
        } else {
            None
        }
    }

    pub fn year(&self) -> (year: i32)
        ensures
            year == self@.year,
            -9999 <= year <= 9999,
    {
        proof {
            use_type_invariant(self);
        }
        self.year
    }

    /// The month counted from 0 for January.
    pub fn month(&self) -> (month: u8)
        ensures
            month == self@.month - 1,
            month < 12,
    {
        proof {
            use_type_invariant(self);
        }
        self.month - 1
    }

    pub fn day(&self) -> (day: u8)
        ensures
            day == self@.day,
            1 <= day <= 31,
    {
        proof {
            use_type_invariant(self);
        }
        self.day
    }

    /// Whether `self` is strictly earlier than `other`.
    pub fn is_before(&self, other: &FlightDate) -> (before: bool)
        ensures
            before == self@.precedes(other@),
    {
        self.year < other.year || (self.year == other.year && (self.month < other.month || (
        self.month == other.month && self.day < other.day)))
    }

    /// Whether the two are the same day.
    pub fn is_same_day(&self, other: &FlightDate) -> (same: bool)
        ensures
            same == (self@ == other@),
    {
        self.year == other.year && self.month == other.month && self.day == other.day
    }

    /// The Julian day number.
    pub fn julian_day(&self) -> (number: i32)
        ensures
            number == self@.julian(),
    {
        proof {
            use_type_invariant(self);
        }
        julian_day_of(self.year, self.month, self.day)
    }
}

/// A time of day, to the minute. Every value names a time that exists.
#[derive(Clone, Copy, Debug, PartialEq, Eq, PartialOrd, Ord, Hash)]
pub struct TimeOfDate {
    hour: u8,
    minute: u8,
}

impl View for TimeOfDate {
    type V = ClockView;

    closed spec fn view(&self) -> ClockView {
        ClockView { hour: self.hour as int, minute: self.minute as int }
    }
}

impl TimeOfDate {
    #[verifier::type_invariant]
    spec fn well_formed(self) -> bool {
        is_clock_time(self.hour as int, self.minute as int)
    }

    /// The time of day with these two numbers.
    pub closed spec fn of(view: ClockView) -> TimeOfDate {
        TimeOfDate { hour: view.hour as u8, minute: view.minute as u8 }
    }

    /// The two numbers say which time of day it is.
    pub proof fn lemma_view_tells_all(self)
        ensures
            TimeOfDate::of(self@) == self,
    {
    }

    /// The time of day made of two numbers that name one has these two numbers.
    pub proof fn lemma_of_has_view(view: ClockView)
        requires
            view.is_valid(),
        ensures
            TimeOfDate::of(view)@ == view,
    {
    }

    /// The time of day with these numbers, if it exists.
    pub fn new(hour: u8, minute: u8) -> (time: Option<TimeOfDate>)
        ensures
            time is Some <==> is_clock_time(hour as int, minute as int),
            time matches Some(t) ==> t@ == (ClockView { hour: hour as int, minute: minute as int }),
    {
        if clock_time_exists(hour, minute) {
            Some(TimeOfDate { hour, minute })
        } else {
            None
        }
    }

    pub fn hour(&self) -> (hour: u8)
        ensures
            hour == self@.hour,
            hour < 24,
    {
        proof {
            use_type_invariant(self);
        }
        self.hour
    }

    pub fn minute(&self) -> (minute: u8)
        ensures
            minute == self@.minute,
            minute < 60,
    {
        proof {
            use_type_invariant(self);
        }
        self.minute
    }

    /// Minutes since midnight.
    pub fn minute_of_day(&self) -> (minutes: i64)
        ensures
            minutes == self@.minute_of_day(),
            0 <= minutes < 1440,
    {
        proof {
            use_type_invariant(self);
        }
        self.hour as i64 * 60 + self.minute as i64
    }

    /// The time of day `span` later, wrapping around midnight. `None` for a negative span.
    pub fn after(&self, span: FlightTime) -> (later: Option<TimeOfDate>)
        ensures
            later is Some <==> 0 <= span.0,
            later matches Some(t) ==> t@ == self@.after(span.0 as int),
    {
        proof {
            use_type_invariant(self);
        }
        if span.0 < 0 {
            return None;
        }
        let reduced: i64 = span.0 % MINUTES_PER_DAY;
        let since_midnight: i64 = self.hour as i64 * 60 + self.minute as i64 + reduced;
        let hour: u8 = ((since_midnight / 60) % 24) as u8;
        let minute: u8 = (since_midnight % 60) as u8;
        assert(hour as int == ((self.hour * 60 + self.minute + span.0) / 60) % 24 && minute as int
            == (self.minute + span.0) % 60) by {
            let whole: int = span.0 as int / 1440;
            assert(span.0 as int == 1440 * whole + reduced);
            lemma_wrap_hours(since_midnight as int, whole);
            lemma_wrap_minutes(self.minute as int + reduced, whole);
            assert((self.hour as int * 60 + (self.minute as int + reduced)) % 60 == (
            self.minute as int + reduced) % 60) by (nonlinear_arith)
                requires
                    0 <= self.hour,
                    0 <= self.minute as int + reduced,
            ;
        }
        Some(TimeOfDate { hour, minute })
    }
}

proof fn lemma_wrap_hours(minutes: int, days: int)
    requires
        0 <= minutes,
        0 <= days,
    ensures
        ((minutes + 1440 * days) / 60) % 24 == (minutes / 60) % 24,
{
    assert((minutes + 1440 * days) / 60 == minutes / 60 + 24 * days) by (nonlinear_arith)
        requires
            0 <= minutes,
            0 <= days,
    ;
    assert((minutes / 60 + 24 * days) % 24 == (minutes / 60) % 24) by (nonlinear_arith)
        requires
            0 <= minutes,
            0 <= days,
    ;
}

proof fn lemma_wrap_minutes(minutes: int, days: int)
    requires
        0 <= minutes,
        0 <= days,
    ensures
        (minutes + 1440 * days) % 60 == minutes % 60,
{
    assert((minutes + 1440 * days) % 60 == minutes % 60) by (nonlinear_arith)
        requires
            0 <= minutes,
            0 <= days,
    ;
}

/// A date together with a time of day.
#[derive(Clone, Copy, Debug, PartialEq, Eq, PartialOrd, Ord, Hash)]
pub struct DateTime {
    pub date: FlightDate,
    pub time: TimeOfDate,
}

impl View for DateTime {
    type V = DateTimeView;

    open spec fn view(&self) -> DateTimeView {
        DateTimeView { date: self.date@, clock: self.time@ }
    }
}

impl DateTime {
    /// The moment with these five numbers.
    pub open spec fn of(view: DateTimeView) -> DateTime {
        DateTime { date: FlightDate::of(view.date), time: TimeOfDate::of(view.clock) }
    }

    /// The five numbers say which moment it is.
    pub proof fn lemma_view_tells_all(self)
        ensures
            DateTime::of(self@) == self,
    {
        self.date.lemma_view_tells_all();
        self.time.lemma_view_tells_all();
    }

    /// The moment made of five numbers that name a date and a time of day has these five
    /// numbers.
    pub proof fn lemma_of_has_view(view: DateTimeView)
        requires
            view.date.is_valid(),
            view.clock.is_valid(),
        ensures
            DateTime::of(view)@ == view,
    {
        FlightDate::lemma_of_has_view(view.date);
        TimeOfDate::lemma_of_has_view(view.clock);
    }

    /// Of two moments that exist, one is earlier than the other exactly where the minutes
    /// from it to the other are more than none; and the minutes from a moment to itself
    /// are none.
    pub proof fn lemma_earlier_is_minutes_before(start: DateTimeView, end: DateTimeView)
        requires
            start.date.is_valid(),
            start.clock.is_valid(),
            end.date.is_valid(),
            end.clock.is_valid(),
        ensures
            start.precedes(end) <==> start.minutes_until(end) > 0,
            start == end <==> start.minutes_until(end) == 0,
            start.minutes_until(end) == -end.minutes_until(start),
    {
        lemma_julian_days_follow_the_calendar(
            start.date.year,
            start.date.month,
            start.date.day,
            end.date.year,
            end.date.month,
            end.date.day,
        );
        lemma_julian_days_follow_the_calendar(
            end.date.year,
            end.date.month,
            end.date.day,
            start.date.year,
            start.date.month,
            start.date.day,
        );
    }

    pub fn new(date: FlightDate, time: TimeOfDate) -> (moment: DateTime)
        ensures
            moment.date == date,
            moment.time == time,
    {
        DateTime { date, time }
    }

    /// Whether `self` is strictly earlier than `other`.
    pub fn is_before(&self, other: &DateTime) -> (before: bool)
        ensures
            before == self@.precedes(other@),
    {
        self.date.is_before(&other.date) || (self.date.is_same_day(&other.date)
            && self.time.minute_of_day() < other.time.minute_of_day())
    }

    /// The time from `self` to `end`.
    pub fn minutes_until(&self, end: &DateTime) -> (span: FlightTime)
        ensures
            span.0 == self@.minutes_until(end@),
    {
        let days: i64 = end.date.julian_day() as i64 - self.date.julian_day() as i64;
        FlightTime(days * MINUTES_PER_DAY + end.time.minute_of_day() - self.time.minute_of_day())
    }
}

} // verus!
