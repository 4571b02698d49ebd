use vstd::prelude::*;

use crate::aircraftdatabase::AircraftDataBase;
use crate::aircraftdatabase::RegistryView;
use crate::airport::AirportList;
use crate::airport::AirportView;
use crate::error::LoadError;
use crate::filters::FilterView;
use crate::filters::FlightFilter;
use crate::flight::airports_after_flight;
use crate::flight::flight_outcome;
use crate::flight::registry_after_flight;
use crate::flight::Flight;
use crate::flight::FlightView;
use crate::record::Record;
use crate::record::RecordView;
use crate::text::same_text;

verus! {

/// The lines of a list as plain values.
pub open spec fn lines_of(flights: Seq<Flight>) -> Seq<FlightView> {
    Seq::new(flights.len(), |i: int| flights[i]@)
}

/// The records of a list as plain values.
pub open spec fn records_of(records: Seq<Record>) -> Seq<RecordView> {
    Seq::new(records.len(), |i: int| records[i]@)
}

/// A logbook as plain values: its lines, and the airports and aircraft that they name.
pub struct LogView {
    pub flights: Seq<FlightView>,
    pub airports: Seq<AirportView>,
    pub aircrafts: RegistryView,
}

/// What reading the records of a log, one after the other, gives: every line, with the
/// airports and the aircraft that the records declare, or the first record that is refused
/// with the reason. Each record is read with what the records before it have declared.
pub open spec fn loaded(records: Seq<RecordView>) -> Result<LogView, LoadError>
    decreases records.len(),
{
    if records.len() == 0 {
        Ok(
            LogView {
                flights: Seq::empty(),
                airports: Seq::empty(),
                aircrafts: RegistryView {
                    identities: Seq::empty(),
                    models: Seq::empty(),
                    families: Seq::empty(),
                },
            },
        )
    } else {
        match loaded(records.drop_last()) {
            Err(error) => Err(error),
            Ok(log) => match flight_outcome(records.last(), log.airports, log.aircrafts) {
                Err(cause) => Err(LoadError { index: (records.len() - 1) as usize, cause }),
                Ok(flight) => Ok(
                    LogView {
                        flights: log.flights.push(flight),
                        airports: airports_after_flight(records.last(), log.airports),
                        aircrafts: registry_after_flight(
                            records.last(),
                            log.airports,
                            log.aircrafts,
                        ),
                    },
                ),
            },
        }
    }
}

/// Whether a filter lets a line through. A date criterion compares the day of the line. A
/// criterion on the aircraft lets no session on a simulator through, and no flight whose
/// aircraft the registry does not know.
pub open spec fn passes(flight: FlightView, filter: FilterView, aircrafts: RegistryView) -> bool {
    &&& filter.flights_before_enabled ==> !filter.flights_before.precedes(flight.date)
    &&& filter.flights_after_enabled ==> !flight.date.precedes(filter.flights_after)
    &&& filter.aircraft_model_enabled ==> !flight.is_sim && aircrafts.model_name_of(
        flight.immatriculation,
    ) == Some(filter.aircraft_model)
    &&& filter.aircraft_family_enabled ==> !flight.is_sim && aircrafts.family_of(
        flight.immatriculation,
    ) == Some(filter.aircraft_family)
}

/// The lines that a filter lets through, in their order.
pub open spec fn retained(flights: Seq<FlightView>, filter: FilterView, aircrafts: RegistryView) -> Seq<
    FlightView,
>
    decreases flights.len(),
{
    if flights.len() == 0 {
        Seq::empty()
    } else if passes(flights.last(), filter, aircrafts) {
        retained(flights.drop_last(), filter, aircrafts).push(flights.last())
    } else {
        retained(flights.drop_last(), filter, aircrafts)
    }
}

/// The lines that are flights and no sessions on a simulator, in their order.
pub open spec fn without_sims(flights: Seq<FlightView>) -> Seq<FlightView>
    decreases flights.len(),
{
    if flights.len() == 0 {
        Seq::empty()
    } else if !flights.last().is_sim {
        without_sims(flights.drop_last()).push(flights.last())
    } else {
        without_sims(flights.drop_last())
    }
}

/// A logbook: its lines in the order of the log, and the airports and the aircraft that
/// the lines name.
pub struct FlightList {
    pub flights: Vec<Flight>,
    pub airports: AirportList,
    pub aircrafts: AircraftDataBase,
}

impl View for FlightList {
    type V = LogView;

    open spec fn view(&self) -> LogView {
        LogView {
            flights: lines_of(self.flights@),
            airports: self.airports@,
            aircrafts: self.aircrafts@,
        }
    }
}

impl FlightList {
    /// Reads the records of a log, one after the other. The first record that is refused
    /// ends the reading: nothing is kept of what was read before it.
    pub fn load_from_records(records: &Vec<Record>) -> (log: Result<FlightList, LoadError>)
        ensures
            log matches Ok(list) ==> loaded(records_of(records@)) == Ok::<LogView, LoadError>(list@)
                && list.aircrafts@.is_consistent(),
            log matches Err(error) ==> loaded(records_of(records@)) == Err::<LogView, LoadError>(
                error,
            ),
    {
        let ghost all = records_of(records@);
        let mut flights: Vec<Flight> = Vec::new();
        let mut airports = AirportList::new();
        let mut aircrafts = AircraftDataBase::empty();
        let mut index: usize = 0;
        assert(lines_of(flights@) =~= Seq::<FlightView>::empty());
        assert(all.take(0) =~= Seq::<RecordView>::empty());
        while index < records.len()
            invariant
                index <= records.len(),
                all == records_of(records@),
                aircrafts@.is_consistent(),
                loaded(all.take(index as int)) == Ok::<LogView, LoadError>(
                    LogView {
                        flights: lines_of(flights@),
                        airports: airports@,
                        aircrafts: aircrafts@,
                    },
                ),
            decreases records.len() - index,
        {
            proof {
                assert(all.take(index + 1).drop_last() =~= all.take(index as int));
                assert(all.take(index + 1).last() == records@[index as int]@);
            }
            let ghost before = lines_of(flights@);
            match Flight::from_yaml(&records[index], &mut aircrafts, &mut airports) {
                Ok(flight) => {
                    flights.push(flight);
                    assert(lines_of(flights@) =~= before.push(flight@));
                },
                Err(cause) => {
                    proof {
                        lemma_failure_is_final(all, index + 1);
                    }
                    return Err(LoadError { index, cause });
                },
            }
            index += 1;
        }
        assert(all.take(index as int) =~= all);
        Ok(FlightList { flights, airports, aircrafts })
    }

    /// The lines that are flights and no sessions on a simulator, in their order.
    pub fn iter_flights_without_sims(&self) -> (flights: Vec<&Flight>)
        ensures
            flights@.len() == without_sims(self@.flights).len(),
            forall|i: int|
                0 <= i < flights@.len() ==> (#[trigger] flights@[i])@ == without_sims(
                    self@.flights,
                )[i],
    {
        let ghost all = self@.flights;
        let mut found: Vec<&Flight> = Vec::new();
        let mut index: usize = 0;
        assert(all.take(0) =~= Seq::<FlightView>::empty());
        while index < self.flights.len()
            invariant
                index <= self.flights.len(),
                all == self@.flights,
                found@.len() == without_sims(all.take(index as int)).len(),
                forall|i: int|
                    0 <= i < found@.len() ==> (#[trigger] found@[i])@ == without_sims(
                        all.take(index as int),
                    )[i],
            decreases self.flights.len() - index,
        {
            proof {
                assert(all.take(index + 1).drop_last() =~= all.take(index as int));
                assert(all.take(index + 1).last() == self.flights@[index as int]@);
            }
            if !self.flights[index].is_sim {
                found.push(&self.flights[index]);
            }
            index += 1;
        }
        assert(all.take(index as int) =~= all);
        found
    }

    /// Whether a filter lets a line through.
    fn lets_through(&self, flight: &Flight, filter: &FlightFilter) -> (through: bool)
        requires
            self.aircrafts@.is_consistent(),
        ensures
            through == passes(flight@, filter@, self.aircrafts@),
    {
        if filter.flights_before_enabled() && filter.flights_before().is_before(&flight.date) {
            return false;
        }
        if filter.flights_after_enabled() && flight.date.is_before(&filter.flights_after()) {
            return false;
        }
        if filter.aircraft_model_enabled() {
            if flight.is_sim {
                return false;
            }
            match self.aircrafts.get_model_name(flight.immatriculation.as_str()) {
                Ok(named) => {
                    if !same_text(named.1, filter.aircraft_model()) {
                        return false;
                    }
                },
                Err(_) => {
                    return false;
                },
            }
        }
        if filter.aircraft_family_enabled() {
            if flight.is_sim {
                return false;
            }
            match self.aircrafts.get_family_name(flight.immatriculation.as_str()) {
                Ok(family) => {
                    if !same_text(family, filter.aircraft_family()) {
                        return false;
                    }
                },
                Err(_) => {
                    return false;
                },
            }
        }
        true
    }

    /// Keeps the lines that the filter lets through, in their order, and drops the others.
    /// The airports and the aircraft stay as they are.
    pub fn filter(&mut self, filter: &FlightFilter)
        requires
            old(self).aircrafts@.is_consistent(),
        ensures
            final(self)@.flights == retained(old(self)@.flights, filter@, old(self)@.aircrafts),
            final(self)@.airports == old(self)@.airports,
            final(self)@.aircrafts == old(self)@.aircrafts,
    {
        let ghost all = self@.flights;
        let ghost aircrafts = self@.aircrafts;
        let mut kept: Vec<Flight> = Vec::new();
        let mut index: usize = 0;
        assert(all.take(0) =~= Seq::<FlightView>::empty());
        assert(lines_of(kept@) =~= Seq::<FlightView>::empty());
        while index < self.flights.len()
            invariant
                index <= self.flights.len(),
                all == self@.flights,
                aircrafts == self@.aircrafts,
                aircrafts.is_consistent(),
                self.airports == old(self).airports,
                lines_of(kept@) == retained(all.take(index as int), filter@, aircrafts),
            decreases self.flights.len() - index,
        {
            proof {
                assert(all.take(index + 1).drop_last() =~= all.take(index as int));
                assert(all.take(index + 1).last() == self.flights@[index as int]@);
            }
            let ghost before = lines_of(kept@);
            if self.lets_through(&self.flights[index], filter) {
                let flight = self.flights[index].clone();
                kept.push(flight);
                assert(lines_of(kept@) =~= before.push(self.flights@[index as int]@));
            }
            index += 1;
        }
        assert(all.take(index as int) =~= all);
        self.flights = kept;
    }
}

/// The record that is refused is one of the records.
pub proof fn lemma_refused_record_is_there(records: Seq<RecordView>)
    ensures
        loaded(records) matches Err(error) ==> error.index < records.len(),
    decreases records.len(),
{
    if records.len() > 0 {
        lemma_refused_record_is_there(records.drop_last());
    }
}

/// Once a record is refused, the records behind it change nothing.
proof fn lemma_failure_is_final(records: Seq<RecordView>, length: int)
    requires
        0 <= length <= records.len(),
        loaded(records.take(length)) is Err,
    ensures
        loaded(records) == loaded(records.take(length)),
    decreases records.len(),
{
    if length == records.len() {
        assert(records.take(length) =~= records);
    } else {
        assert(records.drop_last().take(length) =~= records.take(length));
        lemma_failure_is_final(records.drop_last(), length);
    }
}

/// Filtering twice with one filter changes nothing that filtering once has not changed.
pub proof fn lemma_filter_is_idempotent(
    flights: Seq<FlightView>,
    filter: FilterView,
    aircrafts: RegistryView,
)
    ensures
        retained(retained(flights, filter, aircrafts), filter, aircrafts) == retained(
            flights,
            filter,
            aircrafts,
        ),
    decreases flights.len(),
{
    if flights.len() > 0 {
        lemma_filter_is_idempotent(flights.drop_last(), filter, aircrafts);
        let once = retained(flights.drop_last(), filter, aircrafts);
        if passes(flights.last(), filter, aircrafts) {
            assert(once.push(flights.last()).drop_last() =~= once);
        }
    }
}

/// Every line that a filter lets through meets each criterion that is enabled, and it was
/// in the list before. So a filter on the model, or on the family, lets no session on a
/// simulator through.
pub proof fn lemma_retained_lines_pass(
    flights: Seq<FlightView>,
    filter: FilterView,
    aircrafts: RegistryView,
)
    ensures
        forall|i: int|
            0 <= i < retained(flights, filter, aircrafts).len() ==> passes(
                #[trigger] retained(flights, filter, aircrafts)[i],
                filter,
                aircrafts,
            ) && flights.contains(retained(flights, filter, aircrafts)[i]),
        filter.aircraft_model_enabled || filter.aircraft_family_enabled ==> forall|i: int|
            0 <= i < retained(flights, filter, aircrafts).len() ==> !(#[trigger] retained(
                flights,
                filter,
                aircrafts,
            )[i]).is_sim,
    decreases flights.len(),
{
    if flights.len() > 0 {
        lemma_retained_lines_pass(flights.drop_last(), filter, aircrafts);
        let kept = retained(flights, filter, aircrafts);
        let before = retained(flights.drop_last(), filter, aircrafts);
        assert forall|i: int| 0 <= i < kept.len() implies passes(#[trigger] kept[i], filter, aircrafts)
            && flights.contains(kept[i]) by {
            if i < before.len() {
                assert(kept[i] == before[i]);
                let at = choose|j: int| 0 <= j < flights.drop_last().len() && flights.drop_last()[j] == before[i];
                assert(flights[at] == kept[i]);
            } else {
                assert(kept[i] == flights.last());
                assert(flights[flights.len() - 1] == kept[i]);
            }
        }
    }
}

/// A filter with no criterion enabled lets every line through.
pub proof fn lemma_idle_filter_keeps_all(
    flights: Seq<FlightView>,
    filter: FilterView,
    aircrafts: RegistryView,
)
    requires
        !filter.flights_before_enabled,
        !filter.flights_after_enabled,
        !filter.aircraft_model_enabled,
        !filter.aircraft_family_enabled,
    ensures
        retained(flights, filter, aircrafts) == flights,
    decreases flights.len(),
{
    if flights.len() > 0 {
        lemma_idle_filter_keeps_all(flights.drop_last(), filter, aircrafts);
        assert(flights.drop_last().push(flights.last()) =~= flights);
    }
}

} // verus!
