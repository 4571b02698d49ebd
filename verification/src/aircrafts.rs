use vstd::prelude::*;

use crate::aircraftdatabase::RegistryView;
use crate::flight::FlightView;
use crate::flightlist::FlightList;
use crate::logbook::spans_within;
use crate::tally::is_tally_of;
use crate::tally::lemma_posting_keeps_tally;
use crate::tally::lemma_unnamed_keeps_tally;
use crate::tally::post;
use crate::tally::posted;
use crate::tally::rows_within;
use crate::tally::table_of;
use crate::tally::Posting;
use crate::tally::TimeByName;

verus! {

/// What the lines post to the models: each flight its total time under the name of its
/// model, a session on a simulator nothing.
pub open spec fn model_postings(flights: Seq<FlightView>) -> Seq<Posting> {
    Seq::new(
        flights.len(),
        |i: int|
            Posting {
                name: if flights[i].is_sim {
                    None
                } else {
                    Some(flights[i].acmodel)
                },
                minutes: flights[i].total_flight_time.0 as int,
            },
    )
}

/// What the lines post to the families: each flight its total time under the name of the
/// family of its aircraft; a session on a simulator nothing, and a flight whose aircraft
/// the registry does not know nothing either.
pub open spec fn family_postings(flights: Seq<FlightView>, aircrafts: RegistryView) -> Seq<Posting> {
    Seq::new(
        flights.len(),
        |i: int|
            Posting {
                name: if flights[i].is_sim {
                    None
                } else {
                    aircrafts.family_of(flights[i].immatriculation)
                },
                minutes: flights[i].total_flight_time.0 as int,
            },
    )
}

/// The flight time of a logbook by model and by family of aircraft.
#[derive(Debug)]
pub struct AircraftsHtml {
    /// A row for each model that was flown, in the order of the names.
    pub models: Vec<TimeByName>,
    /// The sum of the rows of the models, in minutes.
    pub total_time_all_models: i128,
    /// A row for each family that was flown, in the order of the names.
    pub families: Vec<TimeByName>,
    /// The sum of the rows of the families, in minutes.
    pub total_time_all_families: i128,
}

impl AircraftsHtml {
    /// Adds up the flight time of a logbook by model and by family of aircraft.
    pub fn from_flight_list(flight_list: &FlightList) -> (report: Self)
        requires
            flight_list.aircrafts@.is_consistent(),
        ensures
            is_tally_of(table_of(report.models@), model_postings(flight_list@.flights)),
            report.total_time_all_models == posted(model_postings(flight_list@.flights)),
            is_tally_of(
                table_of(report.families@),
                family_postings(flight_list@.flights, flight_list@.aircrafts),
            ),
            report.total_time_all_families == posted(
                family_postings(flight_list@.flights, flight_list@.aircrafts),
            ),
    {
        let ghost by_model = model_postings(flight_list@.flights);
        let ghost by_family = family_postings(flight_list@.flights, flight_list@.aircrafts);
        let mut models: Vec<TimeByName> = Vec::new();
        let mut total_time_all_models: i128 = 0;
        let mut families: Vec<TimeByName> = Vec::new();
        let mut total_time_all_families: i128 = 0;
        let mut index: usize = 0;
        assert(by_model.take(0) =~= Seq::<Posting>::empty());
        assert(by_family.take(0) =~= Seq::<Posting>::empty());
        while index < flight_list.flights.len()
            invariant
                index <= flight_list.flights.len(),
                flight_list.aircrafts@.is_consistent(),
                by_model == model_postings(flight_list@.flights),
                by_family == family_postings(flight_list@.flights, flight_list@.aircrafts),
                is_tally_of(table_of(models@), by_model.take(index as int)),
                is_tally_of(table_of(families@), by_family.take(index as int)),
                total_time_all_models == posted(by_model.take(index as int)),
                total_time_all_families == posted(by_family.take(index as int)),
                rows_within(models@, index as int),
                rows_within(families@, index as int),
                spans_within(total_time_all_models as int, index as int),
                spans_within(total_time_all_families as int, index as int),
            decreases flight_list.flights.len() - index,
        {
            let flight = &flight_list.flights[index];
            let minutes = flight.total_flight_time.0;
            proof {
                assert(by_model.take(index + 1) =~= by_model.take(index as int).push(
                    by_model[index as int],
                ));
                assert(by_family.take(index + 1) =~= by_family.take(index as int).push(
                    by_family[index as int],
                ));
                assert(by_model.take(index + 1).drop_last() =~= by_model.take(index as int));
                assert(by_family.take(index + 1).drop_last() =~= by_family.take(index as int));
                assert(flight_list@.flights[index as int] == flight@);
            }
            let ghost models_before = table_of(models@);
            let ghost families_before = table_of(families@);
            let ghost model_rows = models@;
            let ghost family_rows = families@;
            if !flight.is_sim {
                post(&mut models, flight.acmodel.as_str(), minutes);
                total_time_all_models = total_time_all_models + minutes as i128;
                proof {
                    lemma_posting_keeps_tally(
                        models_before,
                        table_of(models@),
                        by_model.take(index as int),
                        flight@.acmodel,
                        minutes as int,
                    );
                }
                match flight_list.aircrafts.get_family_name(flight.immatriculation.as_str()) {
                    Ok(family) => {
                        post(&mut families, family, minutes);
                        total_time_all_families = total_time_all_families + minutes as i128;
                        proof {
                            lemma_posting_keeps_tally(
                                families_before,
                                table_of(families@),
                                by_family.take(index as int),
                                family@,
                                minutes as int,
                            );
                        }
                    },
                    Err(_) => {
                        proof {
                            lemma_unnamed_keeps_tally(
                                families_before,
                                by_family.take(index as int),
                                minutes as int,
                            );
                        }
                    },
                }
            } else {
                proof {
                    lemma_unnamed_keeps_tally(
                        models_before,
                        by_model.take(index as int),
                        minutes as int,
                    );
                    lemma_unnamed_keeps_tally(
                        families_before,
                        by_family.take(index as int),
                        minutes as int,
                    );
                }
            }
            proof {
                assert(rows_within(model_rows, index as int));
                assert(rows_within(family_rows, index as int));
                lemma_rows_within_grows(model_rows, index as int);
                lemma_rows_within_grows(family_rows, index as int);
            }
            index += 1;
        }
        assert(by_model.take(index as int) =~= by_model);
        assert(by_family.take(index as int) =~= by_family);
        AircraftsHtml { models, total_time_all_models, families, total_time_all_families }
    }
}

/// Times that can be the sums of some number of durations can be those of one more.
proof fn lemma_rows_within_grows(rows: Seq<TimeByName>, lines: int)
    requires
        rows_within(rows, lines),
        0 <= lines,
    ensures
        rows_within(rows, lines + 1),
{
    assert forall|i: int| 0 <= i < rows.len() implies spans_within(
        (#[trigger] rows[i]).time as int,
        lines + 1,
    ) by {
        assert(spans_within(rows[i].time as int, lines));
    }
}

} // verus!
