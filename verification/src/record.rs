use vstd::prelude::*;

use crate::error::FieldError;
use crate::extracttime::date_time_outcome;
use crate::extracttime::duration_outcome;
use crate::extracttime::extract_date;
use crate::extracttime::extract_duration;
use crate::flighttime::DateTime;
use crate::flighttime::DateTimeView;
use crate::flighttime::FlightTime;
use crate::text::parse_bool;
use crate::text::parse_unsigned;
use crate::text::parsed_bool;
use crate::text::parsed_unsigned;
use crate::text::same_text;

verus! {

/// What a record holds under one key.
#[derive(Debug, PartialEq, Eq)]
pub enum FieldValue {
    /// A text, which may be empty.
    Text(String),
    /// Something that is no text: a list or a record of its own.
    Nested,
}

/// What a record holds under one key, or that it holds nothing there.
pub enum FieldView {
    Absent,
    Text(Seq<char>),
    Nested,
}

impl View for FieldValue {
    type V = FieldView;

    open spec fn view(&self) -> FieldView {
        match self {
            FieldValue::Text(text) => FieldView::Text(text@),
            FieldValue::Nested => FieldView::Nested,
        }
    }
}

/// One entry of the log as it was written: values under keys. A key that was set more than
/// once keeps the value it was given first.
#[derive(Debug, PartialEq, Eq)]
pub struct Record {
    entries: Vec<(String, FieldValue)>,
}

/// The keys of a record with what they hold, in the order in which they were set.
pub struct RecordView {
    pub entries: Seq<(Seq<char>, FieldView)>,
}

/// What the first entry under `key` holds.
pub open spec fn first_under(entries: Seq<(Seq<char>, FieldView)>, key: Seq<char>) -> FieldView
    decreases entries.len(),
{
    if entries.len() == 0 {
        FieldView::Absent
    } else if entries[0].0 == key {
        entries[0].1
    } else {
        first_under(entries.drop_first(), key)
    }
}

impl RecordView {
    /// What the record holds under `key`.
    pub open spec fn field(self, key: Seq<char>) -> FieldView {
        first_under(self.entries, key)
    }

    /// The text under `key`, if a text is there.
    pub open spec fn text(self, key: Seq<char>) -> Option<Seq<char>> {
        match self.field(key) {
            FieldView::Text(text) => Some(text),
            _ => None,
        }
    }

    /// The text under `key`, which has to be there.
    pub open spec fn mandatory_text(self, key: Seq<char>) -> Result<Seq<char>, FieldError> {
        match self.text(key) {
            Some(text) => Ok(text),
            None => Err(FieldError::Missing),
        }
    }

    /// The date and time under `key`, which have to be there.
    pub open spec fn mandatory_datetime(self, key: Seq<char>) -> Result<DateTimeView, FieldError> {
        match self.text(key) {
            Some(text) => match date_time_outcome(text) {
                Ok(moment) => Ok(moment),
                Err(error) => Err(FieldError::Token(error)),
            },
            None => Err(FieldError::Missing),
        }
    }

    /// The duration under `key`, if anything is there.
    pub open spec fn optional_duration(self, key: Seq<char>) -> Result<
        Option<FlightTime>,
        FieldError,
    > {
        match self.text(key) {
            Some(text) => match duration_outcome(text) {
                Ok(span) => Ok(Some(span)),
                Err(error) => Err(FieldError::Token(error)),
            },
            None => Ok(None),
        }
    }

    /// The number up to 255 under `key`, if anything is there.
    pub open spec fn optional_u8(self, key: Seq<char>) -> Result<Option<u8>, FieldError> {
        match self.text(key) {
            Some(text) => match parsed_unsigned(text, 255) {
                Some(number) => Ok(Some(number as u8)),
                None => Err(FieldError::NotANumber),
            },
            None => Ok(None),
        }
    }

    /// The truth value under `key`, if anything is there.
    pub open spec fn optional_bool(self, key: Seq<char>) -> Result<Option<bool>, FieldError> {
        match self.text(key) {
            Some(text) => match parsed_bool(text) {
                Some(value) => Ok(Some(value)),
                None => Err(FieldError::NotABoolean),
            },
            None => Ok(None),
        }
    }

    /// The truth value under `key`, `false` where nothing is there.
    pub open spec fn flag(self, key: Seq<char>) -> Result<bool, FieldError> {
        match self.optional_bool(key) {
            Ok(Some(value)) => Ok(value),
            Ok(None) => Ok(false),
            Err(error) => Err(error),
        }
    }
}

impl View for Record {
    type V = RecordView;

    closed spec fn view(&self) -> RecordView {
        RecordView { entries: Seq::new(self.entries@.len(), |i: int| (self.entries@[i].0@, self.entries@[i].1@)) }
    }
}

impl Record {
    /// A record that holds nothing.
    pub fn new() -> (record: Record)
        ensures
            record@.entries == Seq::<(Seq<char>, FieldView)>::empty(),
    {
        let record = Record { entries: Vec::new() };
        assert(record@.entries =~= Seq::<(Seq<char>, FieldView)>::empty());
        record
    }

    /// Sets `text` under `key`, behind what the record holds already.
    pub fn set_text(&mut self, key: &str, text: &str)
        ensures
            final(self)@.entries == old(self)@.entries.push((key@, FieldView::Text(text@))),
    {
        self.entries.push((key.to_owned(), FieldValue::Text(text.to_owned())));
        assert(self@.entries =~= old(self)@.entries.push((key@, FieldView::Text(text@))));
    }

    /// Sets something that is no text under `key`, behind what the record holds already.
    pub fn set_nested(&mut self, key: &str)
        ensures
            final(self)@.entries == old(self)@.entries.push((key@, FieldView::Nested)),
    {
        self.entries.push((key.to_owned(), FieldValue::Nested));
        assert(self@.entries =~= old(self)@.entries.push((key@, FieldView::Nested)));
    }

    /// What the record holds under `key`.
    pub fn get(&self, key: &str) -> (found: Option<&FieldValue>)
        ensures
            found matches Some(value) ==> self@.field(key@) == value@ && !(value@ is Absent),
            found is None ==> self@.field(key@) is Absent,
    {
        let ghost all = self@.entries;
        let mut i: usize = 0;
        assert(all.skip(0) =~= all);
        while i < self.entries.len()
            invariant
                i <= self.entries.len(),
                all == self@.entries,
                all.len() == self.entries.len(),
                first_under(all, key@) == first_under(all.skip(i as int), key@),
            decreases self.entries.len() - i,
        {
            assert(all.skip(i as int)[0] == all[i as int]);
            assert(all.skip(i as int).drop_first() =~= all.skip(i as int + 1));
            if same_text(self.entries[i].0.as_str(), key) {
                return Some(&self.entries[i].1);
            }
            i += 1;
        }
        None
    }
}

/// The text under `key`, which has to be there.
fn mandatory_key<'a>(record: &'a Record, key: &str) -> (found: Result<&'a str, FieldError>)
    ensures
        found matches Ok(text) ==> record@.mandatory_text(key@) == Ok::<Seq<char>, FieldError>(text@),
        found matches Err(error) ==> record@.mandatory_text(key@) == Err::<Seq<char>, FieldError>(
            error,
        ),
{
    match record.get(key) {
        Some(FieldValue::Text(text)) => Ok(text.as_str()),
        _ => Err(FieldError::Missing),
    }
}

/// The date and time under `key`: the field has to be there and to scan.
pub fn mandatory_datetime(record: &Record, key: &str) -> (found: Result<DateTime, FieldError>)
    ensures
        found matches Ok(moment) ==> record@.mandatory_datetime(key@) == Ok::<
            DateTimeView,
            FieldError,
        >(moment@),
        found matches Err(error) ==> record@.mandatory_datetime(key@) == Err::<
            DateTimeView,
            FieldError,
        >(error),
{
    let raw_datetime = match mandatory_key(record, key) {
        Ok(text) => text,
        Err(error) => {
            return Err(error);
        },
    };
    match extract_date(raw_datetime) {
        Ok(moment) => Ok(moment),
        Err(error) => Err(FieldError::Token(error)),
    }
}

/// The text under `key`, if a text is there.
pub fn optional_string<'a>(record: &'a Record, key: &str) -> (found: Option<&'a str>)
    ensures
        found matches Some(text) ==> record@.text(key@) == Some(text@),
        found is None ==> record@.text(key@) is None,
{
    match record.get(key) {
        Some(FieldValue::Text(text)) => Some(text.as_str()),
        _ => None,
    }
}

/// The text under `key`, which has to be there.
pub fn mandatory_string<'a>(record: &'a Record, key: &str) -> (found: Result<&'a str, FieldError>)
    ensures
        found matches Ok(text) ==> record@.mandatory_text(key@) == Ok::<Seq<char>, FieldError>(text@),
        found matches Err(error) ==> record@.mandatory_text(key@) == Err::<Seq<char>, FieldError>(
            error,
        ),
{
    mandatory_key(record, key)
}

/// The duration under `key`: nothing where no text is there, an error where the text does
/// not scan.
pub fn optional_duration(record: &Record, key: &str) -> (found: Result<Option<FlightTime>, FieldError>)
    ensures
        found == record@.optional_duration(key@),
{
    match optional_string(record, key) {
        Some(raw_duration) => match extract_duration(raw_duration) {
            Ok(span) => Ok(Some(span)),
            Err(error) => Err(FieldError::Token(error)),
        },
        None => Ok(None),
    }
}

/// The number up to 255 under `key`: nothing where no text is there, an error where the
/// text writes no such number.
pub fn optional_u8(record: &Record, key: &str) -> (found: Result<Option<u8>, FieldError>)
    ensures
        found == record@.optional_u8(key@),
{
    match optional_string(record, key) {
        Some(raw_number) => match parse_unsigned(raw_number, 255) {
            Some(number) => Ok(Some(number as u8)),
            None => Err(FieldError::NotANumber),
        },
        None => Ok(None),
    }
}

/// The truth value under `key`: nothing where no text is there, an error where the text is
/// neither `true` nor `false`.
pub fn optional_bool(record: &Record, key: &str) -> (found: Result<Option<bool>, FieldError>)
    ensures
        found == record@.optional_bool(key@),
{
    match optional_string(record, key) {
        Some(raw_boolean) => match parse_bool(raw_boolean) {
            Some(value) => Ok(Some(value)),
            None => Err(FieldError::NotABoolean),
        },
        None => Ok(None),
    }
}

} // verus!
