use vstd::prelude::*;

use crate::aircraftdatabase::AircraftModel;
use crate::flightlist::FlightList;
use crate::sorting::is_sorted_by_name;
use crate::sorting::rows_of;
use crate::sorting::sort_by_name;

verus! {

/// A model with the family that it belongs to.
#[derive(Debug)]
pub struct FamilyAndModel {
    pub family_name: String,
    pub model_name: String,
}

/// The rows of families and models as plain values: the family first, then the model.
pub open spec fn family_rows(rows: Seq<FamilyAndModel>) -> Seq<(Seq<char>, Seq<char>)> {
    Seq::new(rows.len(), |i: int| (rows[i].family_name@, rows[i].model_name@))
}

/// The entries of a table the other way round: what was the value comes first.
pub open spec fn flipped(entries: Seq<(Seq<char>, Seq<char>)>) -> Seq<(Seq<char>, Seq<char>)> {
    Seq::new(entries.len(), |i: int| (entries[i].1, entries[i].0))
}

/// The models that a logbook knows: once with their families, in the order of the names
/// of the families, and once with what describes them, in the order of their own names.
#[derive(Debug)]
pub struct FamiliesAndModelsHtml {
    pub families_models: Vec<FamilyAndModel>,
    pub models: Vec<(String, AircraftModel)>,
}

impl FamiliesAndModelsHtml {
    /// Lists the models of a logbook by family and by name. Models of one family stand in
    /// the order in which they were declared.
    pub fn from_flight_list(flight_list: &FlightList) -> (report: Self)
        ensures
            is_sorted_by_name(
                family_rows(report.families_models@),
                flipped(flight_list@.aircrafts.families),
            ),
            is_sorted_by_name(rows_of(report.models@), flight_list@.aircrafts.models),
    {
        let declared = flight_list.aircrafts.iter_models_families();
        let mut by_family: Vec<(String, String)> = Vec::new();
        let mut index: usize = 0;
        while index < declared.len()
            invariant
                index <= declared.len(),
                by_family@.len() == index,
                forall|i: int|
                    0 <= i < index ==> (#[trigger] by_family@[i]).0@ == declared@[i].1@
                        && by_family@[i].1@ == declared@[i].0@,
            decreases declared.len() - index,
        {
            by_family.push((declared[index].1.clone(), declared[index].0.clone()));
            index += 1;
        }
        assert(rows_of(by_family@) =~= flipped(flight_list@.aircrafts.families));
        let sorted = sort_by_name(by_family);
        let mut families_models: Vec<FamilyAndModel> = Vec::new();
        let mut index: usize = 0;
        while index < sorted.len()
            invariant
                index <= sorted.len(),
                families_models@.len() == index,
                forall|i: int|
                    0 <= i < index ==> (#[trigger] families_models@[i]).family_name@ == sorted@[i].0@
                        && families_models@[i].model_name@ == sorted@[i].1@,
            decreases sorted.len() - index,
        {
            families_models.push(
                FamilyAndModel {
                    family_name: sorted[index].0.clone(),
                    model_name: sorted[index].1.clone(),
                },
            );
            index += 1;
        }
        assert(family_rows(families_models@) =~= rows_of(sorted@));
        let described = flight_list.aircrafts.iter_models();
        assert(rows_of(described@) =~= flight_list@.aircrafts.models);
        let models = sort_by_name(described);
        FamiliesAndModelsHtml { families_models, models }
    }
}

} // verus!
