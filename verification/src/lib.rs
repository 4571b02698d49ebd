//! A pilot's logbook, read from a log of flights and laid out for printing.
//!
//! The log is a list of records. Each record is a flight or a session on a simulator. A
//! flight declares or names its aircraft and its two airports; what it says of times and
//! durations has to agree. The lines that come out can be filtered, laid out in pages and
//! books with running totals, and added up by aircraft and by month.
//!
//! Every function of the library is verified with Verus against the contract that it
//! states. What is taken from other crates stands behind functions whose contracts are
//! trusted; their comments say so.

pub mod aircraftdatabase;
pub mod aircrafts;
pub mod airport;
pub mod calendar;
pub mod document;
pub mod error;
pub mod extracttime;
pub mod familiesandmodels;
pub mod filters;
pub mod flight;
pub mod flightlist;
pub mod flighttime;
pub mod htmlerror;
pub mod logbook;
pub mod record;
pub mod render;
pub mod sorting;
pub mod tables;
pub mod tally;
pub mod text;
pub mod validator;
pub mod years;
