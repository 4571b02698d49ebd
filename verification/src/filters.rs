use vstd::prelude::*;

use crate::calendar::is_calendar_date;
use crate::calendar::parse_iso_date;
use crate::calendar::parsed_iso_date;
use crate::flighttime::DateView;
use crate::flighttime::FlightDate;

verus! {

/// What the form of the filter page sends, field by field as it is written there.
#[derive(Debug)]
pub struct RawFilterParams {
    /// A date as `YYYY-MM-DD`: only the flights up to this day are shown.
    pub flights_before: String,
    pub flights_before_enabled: Option<bool>,
    /// A date as `YYYY-MM-DD`: only the flights from this day on are shown.
    pub flights_after: String,
    pub flights_after_enabled: Option<bool>,
    pub aircraft_model_enabled: Option<bool>,
    pub aircraft_model: String,
    pub aircraft_family_enabled: Option<bool>,
    pub aircraft_family: String,
}

impl Default for RawFilterParams {
    fn default() -> (params: Self)
        ensures
            params.flights_before@ == Seq::<char>::empty(),
            params.flights_before_enabled is None,
            params.flights_after@ == Seq::<char>::empty(),
            params.flights_after_enabled is None,
            params.aircraft_model_enabled is None,
            params.aircraft_model@ == Seq::<char>::empty(),
            params.aircraft_family_enabled is None,
            params.aircraft_family@ == Seq::<char>::empty(),
    {
        RawFilterParams {
            flights_before: String::new(),
            flights_before_enabled: None,
            flights_after: String::new(),
            flights_after_enabled: None,
            aircraft_model_enabled: None,
            aircraft_model: String::new(),
            aircraft_family_enabled: None,
            aircraft_family: String::new(),
        }
    }
}

/// The four criteria of a filter as plain values.
pub struct FilterView {
    pub flights_before: DateView,
    pub flights_before_enabled: bool,
    pub flights_after: DateView,
    pub flights_after_enabled: bool,
    pub aircraft_model_enabled: bool,
    pub aircraft_model: Seq<char>,
    pub aircraft_family_enabled: bool,
    pub aircraft_family: Seq<char>,
}

/// The date that stands in for one that the form did not send in a readable way.
pub open spec fn fallback_date() -> DateView {
    DateView { year: 1970, month: 1, day: 31 }
}

/// The date of a filter that knows of none.
pub open spec fn default_date() -> DateView {
    DateView { year: 1970, month: 1, day: 30 }
}

/// The date that a field of the form gives: the one written there, or the fallback.
pub open spec fn date_or_fallback(date: Option<DateView>) -> DateView {
    match date {
        Some(date) => date,
        None => fallback_date(),
    }
}

/// The date written in a field of the form, if one is, of a year from -9999 to 9999.
pub open spec fn written_date(text: Seq<char>) -> Option<DateView> {
    match parsed_iso_date(text) {
        Some(read) => if is_calendar_date(read.0, read.1, read.2) {
            Some(DateView { year: read.0, month: read.1, day: read.2 })
        } else {
            None
        },
        None => None,
    }
}

/// A criterion applies only where its box is ticked.
pub open spec fn is_ticked(flag: Option<bool>) -> bool {
    flag == Some(true)
}

/// Which flights are shown: each of the four criteria applies only where it is enabled.
#[derive(Debug)]
pub struct FlightFilter {
    flights_before: FlightDate,
    flights_before_enabled: bool,
    flights_after: FlightDate,
    flights_after_enabled: bool,
    aircraft_model_enabled: bool,
    aircraft_model: String,
    aircraft_family_enabled: bool,
    aircraft_family: String,
}

impl View for FlightFilter {
    type V = FilterView;

    closed spec fn view(&self) -> FilterView {
        FilterView {
            flights_before: self.flights_before@,
            flights_before_enabled: self.flights_before_enabled,
            flights_after: self.flights_after@,
            flights_after_enabled: self.flights_after_enabled,
            aircraft_model_enabled: self.aircraft_model_enabled,
            aircraft_model: self.aircraft_model@,
            aircraft_family_enabled: self.aircraft_family_enabled,
            aircraft_family: self.aircraft_family@,
        }
    }
}

impl Clone for FlightFilter {
    fn clone(&self) -> (copy: Self)
        ensures
            copy@ == self@,
    {
        FlightFilter {
            flights_before: self.flights_before,
            flights_before_enabled: self.flights_before_enabled,
            flights_after: self.flights_after,
            flights_after_enabled: self.flights_after_enabled,
            aircraft_model_enabled: self.aircraft_model_enabled,
            aircraft_model: self.aircraft_model.clone(),
            aircraft_family_enabled: self.aircraft_family_enabled,
            aircraft_family: self.aircraft_family.clone(),
        }
    }
}

impl Default for FlightFilter {
    /// The filter that shows every flight.
    fn default() -> (filter: Self)
        ensures
            filter@ == (FilterView {
                flights_before: default_date(),
                flights_before_enabled: false,
                flights_after: default_date(),
                flights_after_enabled: false,
                aircraft_model_enabled: false,
                aircraft_model: Seq::<char>::empty(),
                aircraft_family_enabled: false,
                aircraft_family: Seq::<char>::empty(),
            }),
    {
        let day = FlightDate::new(1970, 1, 30).unwrap();
        FlightFilter {
            flights_before: day,
            flights_before_enabled: false,
            flights_after: day,
            flights_after_enabled: false,
            aircraft_model_enabled: false,
            aircraft_model: String::new(),
            aircraft_family_enabled: false,
            aircraft_family: String::new(),
        }
    }
}

/// Reads the date of a field of the form.
fn read_date(text: &str) -> (date: Option<FlightDate>)
    ensures
        date matches Some(day) ==> written_date(text@) == Some(day@),
        date is None ==> written_date(text@) is None,
{
    match parse_iso_date(text) {
        Some((year, month, day)) => FlightDate::new(year, month, day),
        None => None,
    }
}

impl FlightFilter {
    /// The filter that the form asks for. A date that cannot be read gives way to the
    /// fallback, and a box that was not sent counts as not ticked.
    pub fn from_raw(params: RawFilterParams) -> (filter: Self)
        ensures
            filter@ == (FilterView {
                flights_before: date_or_fallback(written_date(params.flights_before@)),
                flights_before_enabled: is_ticked(params.flights_before_enabled),
                flights_after: date_or_fallback(written_date(params.flights_after@)),
                flights_after_enabled: is_ticked(params.flights_after_enabled),
                aircraft_model_enabled: is_ticked(params.aircraft_model_enabled),
                aircraft_model: params.aircraft_model@,
                aircraft_family_enabled: is_ticked(params.aircraft_family_enabled),
                aircraft_family: params.aircraft_family@,
            }),
    {
        let flights_before = read_date(params.flights_before.as_str());
        let flights_after = read_date(params.flights_after.as_str());
        FlightFilter::from_parts(
            flights_before,
            params.flights_before_enabled,
            flights_after,
            params.flights_after_enabled,
            params.aircraft_model_enabled,
            params.aircraft_model,
            params.aircraft_family_enabled,
            params.aircraft_family,
        )
    }

    /// The filter made of the dates that were read and of the other fields of the form. A
    /// date that is missing gives way to the fallback, and a box that was not sent counts
    /// as not ticked.
    pub fn from_parts(
        flights_before: Option<FlightDate>,
        flights_before_enabled: Option<bool>,
        flights_after: Option<FlightDate>,
        flights_after_enabled: Option<bool>,
        aircraft_model_enabled: Option<bool>,
        aircraft_model: String,
        aircraft_family_enabled: Option<bool>,
        aircraft_family: String,
    ) -> (filter: Self)
        ensures
            filter@ == (FilterView {
                flights_before: date_or_fallback(date_view(flights_before)),
                flights_before_enabled: is_ticked(flights_before_enabled),
                flights_after: date_or_fallback(date_view(flights_after)),
                flights_after_enabled: is_ticked(flights_after_enabled),
                aircraft_model_enabled: is_ticked(aircraft_model_enabled),
                aircraft_model: aircraft_model@,
                aircraft_family_enabled: is_ticked(aircraft_family_enabled),
                aircraft_family: aircraft_family@,
            }),
    {
        let fallback = FlightDate::new(1970, 1, 31).unwrap();
        FlightFilter {
            flights_before: match flights_before {
                Some(date) => date,
                None => fallback,
            },
            flights_before_enabled: matches!(flights_before_enabled, Some(true)),
            flights_after: match flights_after {
                Some(date) => date,
                None => fallback,
            },
            flights_after_enabled: matches!(flights_after_enabled, Some(true)),
            aircraft_model_enabled: matches!(aircraft_model_enabled, Some(true)),
            aircraft_model,
            aircraft_family_enabled: matches!(aircraft_family_enabled, Some(true)),
            aircraft_family,
        }
    }

    /// Takes over every criterion of another filter.
    pub fn update_from(&mut self, input_filter: &FlightFilter)
        ensures
            final(self)@ == input_filter@,
    {
        self.flights_before = input_filter.flights_before;
        self.flights_before_enabled = input_filter.flights_before_enabled;
        self.flights_after = input_filter.flights_after;
        self.flights_after_enabled = input_filter.flights_after_enabled;
        self.aircraft_model_enabled = input_filter.aircraft_model_enabled;
        self.aircraft_model = input_filter.aircraft_model.clone();
        self.aircraft_family_enabled = input_filter.aircraft_family_enabled;
        self.aircraft_family = input_filter.aircraft_family.clone();
    }

    pub fn flights_before_enabled(&self) -> (enabled: bool)
        ensures
            enabled == self@.flights_before_enabled,
    {
        self.flights_before_enabled
    }

    pub fn flights_before(&self) -> (date: FlightDate)
        ensures
            date@ == self@.flights_before,
    {
        self.flights_before
    }

    pub fn flights_after_enabled(&self) -> (enabled: bool)
        ensures
            enabled == self@.flights_after_enabled,
    {
        self.flights_after_enabled
    }

    pub fn flights_after(&self) -> (date: FlightDate)
        ensures
            date@ == self@.flights_after,
    {
        self.flights_after
    }

    pub fn aircraft_model_enabled(&self) -> (enabled: bool)
        ensures
            enabled == self@.aircraft_model_enabled,
    {
        self.aircraft_model_enabled
    }

    pub fn aircraft_model(&self) -> (model: &str)
        ensures
            model@ == self@.aircraft_model,
    {
        self.aircraft_model.as_str()
    }

    pub fn aircraft_family_enabled(&self) -> (enabled: bool)
        ensures
            enabled == self@.aircraft_family_enabled,
    {
        self.aircraft_family_enabled
    }

    pub fn aircraft_family(&self) -> (family: &str)
        ensures
            family@ == self@.aircraft_family,
    {
        self.aircraft_family.as_str()
    }
}

/// The three numbers of a date that may be missing.
pub open spec fn date_view(date: Option<FlightDate>) -> Option<DateView> {
    match date {
        Some(date) => Some(date@),
        None => None,
    }
}

} // verus!
