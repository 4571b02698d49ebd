use indexmap::IndexMap;
use vstd::prelude::*;

use crate::record::optional_string;
use crate::record::Record;
use crate::record::RecordView;
use crate::tables::has_entry;
use crate::tables::has_key;
use crate::tables::keys_are_unique;
use crate::tables::lemma_entry_gives_value;
use crate::tables::lemma_new_key_keeps_entries;
use crate::tables::model_entries;
use crate::tables::place_of;
use crate::tables::model_table_contains;
use crate::tables::model_table_entries;
use crate::tables::model_table_get;
use crate::tables::model_table_insert;
use crate::tables::model_table_new;
use crate::tables::text_entries;
use crate::tables::text_table_contains;
use crate::tables::text_table_entries;
use crate::tables::text_table_get;
use crate::tables::text_table_get_key_value;
use crate::tables::text_table_insert;
use crate::tables::text_table_new;
use crate::tables::value_under;
use crate::text::parse_bool;
use crate::text::parse_unsigned;
use crate::text::parsed_bool;
use crate::text::parsed_unsigned;
use crate::text::same_text;
use crate::text::text_view;

verus! {

/// An aircraft model as plain values.
pub struct ModelView {
    pub nb_engines: u8,
    pub mtow: u32,
    pub multipilot: bool,
    pub category_1: Seq<char>,
    pub category_2: Seq<char>,
    pub category_3: Seq<char>,
}

/// A type of aircraft: what all aircraft of one model have in common.
#[derive(Debug)]
pub struct AircraftModel {
    /// One at least in every model that a registry holds.
    pub nb_engines: u8,
    /// Maximum take-off weight in kilograms.
    pub mtow: u32,
    pub multipilot: bool,
    pub category_1: String,
    pub category_2: String,
    pub category_3: String,
}

impl View for AircraftModel {
    type V = ModelView;

    open spec fn view(&self) -> ModelView {
        ModelView {
            nb_engines: self.nb_engines,
            mtow: self.mtow,
            multipilot: self.multipilot,
            category_1: self.category_1@,
            category_2: self.category_2@,
            category_3: self.category_3@,
        }
    }
}

impl Clone for AircraftModel {
    fn clone(&self) -> (copy: Self)
        ensures
            copy == *self,
    {
        AircraftModel {
            nb_engines: self.nb_engines,
            mtow: self.mtow,
            multipilot: self.multipilot,
            category_1: self.category_1.clone(),
            category_2: self.category_2.clone(),
            category_3: self.category_3.clone(),
        }
    }
}

/// Why an aircraft could not be declared or found.
#[derive(Clone, Copy, Debug, PartialEq, Eq)]
pub enum AircraftError {
    /// The record names no aircraft.
    MissingIdentity,
    /// The aircraft is declared and was known already.
    DuplicateIdentity,
    /// The model is declared and was known already.
    DuplicateModel,
    /// The aircraft is said to be of a model that was never declared.
    UnknownModel,
    /// The aircraft is referred to and was never declared.
    UnknownIdentity,
    /// The number of engines is no number from 1 to 255.
    BadEngineCount,
    /// The weight is no number that 32 bits hold.
    BadWeight,
    /// The multi-pilot flag is neither `true` nor `false`.
    BadMultipilot,
    /// The fields that describe the aircraft are there in a combination that is none of
    /// the three accepted ones. Each flag tells whether that field was seen.
    BadShape {
        acmodel: bool,
        actype: bool,
        nb_engines: bool,
        mtow: bool,
        multipilot: bool,
        cat1: bool,
        cat2: bool,
        cat3: bool,
    },
}

/// The third category of an aircraft that carries passengers: time on it counts for none
/// of the crew roles.
pub open spec fn passenger_category() -> Seq<char> {
    seq!['p', 'a', 'x']
}

impl ModelView {
    /// Time on the model counts as single-pilot, single-engine.
    pub open spec fn is_single_pilot_se(self) -> bool {
        !self.multipilot && self.nb_engines == 1 && self.category_3 != passenger_category()
    }

    /// Time on the model counts as single-pilot, multi-engine.
    pub open spec fn is_single_pilot_me(self) -> bool {
        !self.multipilot && self.nb_engines > 1 && self.category_3 != passenger_category()
    }

    /// Time on the model counts as multi-pilot.
    pub open spec fn is_multi_pilot(self) -> bool {
        self.multipilot && self.category_3 != passenger_category()
    }
}

/// At most one of the three crew roles applies to a model.
pub proof fn lemma_crew_roles_exclude_each_other(model: ModelView)
    ensures
        !(model.is_single_pilot_se() && model.is_single_pilot_me()),
        !(model.is_single_pilot_se() && model.is_multi_pilot()),
        !(model.is_single_pilot_me() && model.is_multi_pilot()),
{
}

/// The three tables of an aircraft registry, each in the order in which its keys came in.
pub struct RegistryView {
    /// From an aircraft's registration to the name of its model.
    pub identities: Seq<(Seq<char>, Seq<char>)>,
    /// From a model's name to the model.
    pub models: Seq<(Seq<char>, ModelView)>,
    /// From a model's name to the name of its family.
    pub families: Seq<(Seq<char>, Seq<char>)>,
}

impl RegistryView {
    /// What holds of every registry: no key occurs twice in a table, every aircraft is of a
    /// model that is declared, the models and the families have the same keys in the same
    /// order, and every model has an engine at least.
    pub open spec fn is_consistent(self) -> bool {
        &&& keys_are_unique(self.identities)
        &&& keys_are_unique(self.models)
        &&& keys_are_unique(self.families)
        &&& forall|i: int|
            0 <= i < self.identities.len() ==> has_key(self.models, (#[trigger] self.identities[i]).1)
        &&& self.models.len() == self.families.len()
        &&& forall|i: int|
            0 <= i < self.models.len() ==> (#[trigger] self.models[i]).0 == self.families[i].0
        &&& forall|i: int| 0 <= i < self.models.len() ==> (#[trigger] self.models[i]).1.nb_engines >= 1
    }

    /// The name of the model of an aircraft, if the aircraft is known.
    pub open spec fn model_name_of(self, identity: Seq<char>) -> Option<Seq<char>> {
        if has_key(self.identities, identity) {
            Some(value_under(self.identities, identity))
        } else {
            None
        }
    }

    /// The model of an aircraft, if the aircraft is known.
    pub open spec fn model_of(self, identity: Seq<char>) -> Option<ModelView> {
        match self.model_name_of(identity) {
            Some(name) => Some(value_under(self.models, name)),
            None => None,
        }
    }

    /// The family of the model of an aircraft, if the aircraft is known.
    pub open spec fn family_of(self, identity: Seq<char>) -> Option<Seq<char>> {
        match self.model_name_of(identity) {
            Some(name) => Some(value_under(self.families, name)),
            None => None,
        }
    }
}

/// What a record says of its aircraft: the registration and the eight fields that describe
/// it, each with its text if a text is there.
pub struct AircraftFields {
    pub immatriculation: Option<Seq<char>>,
    pub acmodel: Option<Seq<char>>,
    pub actype: Option<Seq<char>>,
    pub nb_engines: Option<Seq<char>>,
    pub mtow: Option<Seq<char>>,
    pub multipilot: Option<Seq<char>>,
    pub cat1: Option<Seq<char>>,
    pub cat2: Option<Seq<char>>,
    pub cat3: Option<Seq<char>>,
}

/// The three ways in which a record may speak of its aircraft.
pub enum AircraftShape {
    /// All eight describing fields: the aircraft and its model are declared.
    Declaration,
    /// The model's name alone: the aircraft is declared, of a model that is known.
    NewOfKnownModel,
    /// No describing field: the aircraft is known.
    Reference,
}

impl AircraftFields {
    /// The fields of a record.
    pub open spec fn of(record: RecordView) -> AircraftFields {
        AircraftFields {
            immatriculation: record.text("immatriculation"@),
            acmodel: record.text("acmodel"@),
            actype: record.text("actype"@),
            nb_engines: record.text("nb_engines"@),
            mtow: record.text("mtow"@),
            multipilot: record.text("multipilot"@),
            cat1: record.text("cat1"@),
            cat2: record.text("cat2"@),
            cat3: record.text("cat3"@),
        }
    }

    /// Whether each of the seven fields behind the model's name is there.
    pub open spec fn all_details(self) -> bool {
        &&& self.actype is Some
        &&& self.nb_engines is Some
        &&& self.mtow is Some
        &&& self.multipilot is Some
        &&& self.cat1 is Some
        &&& self.cat2 is Some
        &&& self.cat3 is Some
    }

    /// Whether none of the seven fields behind the model's name is there.
    pub open spec fn no_details(self) -> bool {
        &&& self.actype is None
        &&& self.nb_engines is None
        &&& self.mtow is None
        &&& self.multipilot is None
        &&& self.cat1 is None
        &&& self.cat2 is None
        &&& self.cat3 is None
    }

    /// Which of the three accepted combinations the describing fields form, if any.
    pub open spec fn shape(self) -> Option<AircraftShape> {
        if self.acmodel is Some && self.all_details() {
            Some(AircraftShape::Declaration)
        } else if self.acmodel is Some && self.no_details() {
            Some(AircraftShape::NewOfKnownModel)
        } else if self.acmodel is None && self.no_details() {
            Some(AircraftShape::Reference)
        } else {
            None
        }
    }

    /// The error that names the fields that were seen.
    pub open spec fn bad_shape(self) -> AircraftError {
        AircraftError::BadShape {
            acmodel: self.acmodel is Some,
            actype: self.actype is Some,
            nb_engines: self.nb_engines is Some,
            mtow: self.mtow is Some,
            multipilot: self.multipilot is Some,
            cat1: self.cat1 is Some,
            cat2: self.cat2 is Some,
            cat3: self.cat3 is Some,
        }
    }

    /// The number of engines that a declaration gives: a number from 1 to 255.
    pub open spec fn declared_engines(self) -> Option<int> {
        match parsed_unsigned(self.nb_engines->0, 255) {
            Some(nb_engines) => if nb_engines >= 1 {
                Some(nb_engines)
            } else {
                None
            },
            None => None,
        }
    }

    /// The model that a declaration describes, or what is wrong with its numbers. A model
    /// has an engine at least.
    pub open spec fn declared_model(self) -> Result<ModelView, AircraftError> {
        match self.declared_engines() {
            None => Err(AircraftError::BadEngineCount),
            Some(nb_engines) => match parsed_unsigned(self.mtow->0, 0xffff_ffff) {
                None => Err(AircraftError::BadWeight),
                Some(mtow) => match parsed_bool(self.multipilot->0) {
                    None => Err(AircraftError::BadMultipilot),
                    Some(multipilot) => Ok(
                        ModelView {
                            nb_engines: nb_engines as u8,
                            mtow: mtow as u32,
                            multipilot,
                            category_1: self.cat1->0,
                            category_2: self.cat2->0,
                            category_3: self.cat3->0,
                        },
                    ),
                },
            },
        }
    }
}

impl RegistryView {
    /// What a record's aircraft fields are answered with: the registration and the name of
    /// the model, or the reason for which the record is refused.
    pub open spec fn outcome(self, fields: AircraftFields) -> Result<
        (Seq<char>, Seq<char>),
        AircraftError,
    > {
        match fields.immatriculation {
            None => Err(AircraftError::MissingIdentity),
            Some(identity) => match fields.shape() {
                None => Err(fields.bad_shape()),
                Some(AircraftShape::Declaration) => {
                    if has_key(self.identities, identity) {
                        Err(AircraftError::DuplicateIdentity)
                    } else if has_key(self.models, fields.acmodel->0) {
                        Err(AircraftError::DuplicateModel)
                    } else {
                        match fields.declared_model() {
                            Err(error) => Err(error),
                            Ok(_) => Ok((identity, fields.acmodel->0)),
                        }
                    }
                },
                Some(AircraftShape::NewOfKnownModel) => {
                    if has_key(self.identities, identity) {
                        Err(AircraftError::DuplicateIdentity)
                    } else if !has_key(self.models, fields.acmodel->0) {
                        Err(AircraftError::UnknownModel)
                    } else {
                        Ok((identity, fields.acmodel->0))
                    }
                },
                Some(AircraftShape::Reference) => {
                    if !has_key(self.identities, identity) {
                        Err(AircraftError::UnknownIdentity)
                    } else {
                        Ok((identity, value_under(self.identities, identity)))
                    }
                },
            },
        }
    }

    /// The registry after the record: with the aircraft, and with its model and family
    /// after a declaration, where the record is accepted; unchanged where it is refused
    /// and where it refers to a known aircraft.
    pub open spec fn after(self, fields: AircraftFields) -> RegistryView {
        if self.outcome(fields) is Err {
            self
        } else {
            match fields.shape() {
                Some(AircraftShape::Declaration) => RegistryView {
                    identities: self.identities.push(
                        (fields.immatriculation->0, fields.acmodel->0),
                    ),
                    models: self.models.push((fields.acmodel->0, fields.declared_model()->Ok_0)),
                    families: self.families.push((fields.acmodel->0, fields.actype->0)),
                },
                Some(AircraftShape::NewOfKnownModel) => RegistryView {
                    identities: self.identities.push(
                        (fields.immatriculation->0, fields.acmodel->0),
                    ),
                    ..self
                },
                _ => self,
            }
        }
    }
}

/// The aircraft that the flights of a log have named so far, with their models and the
/// families of the models.
pub struct AircraftDataBase {
    /// From an aircraft's registration to the name of its model.
    immatriculations: IndexMap<String, String>,
    /// From a model's name to the model.
    models: IndexMap<String, AircraftModel>,
    /// From a model's name to the name of its family.
    families: IndexMap<String, String>,
}

impl View for AircraftDataBase {
    type V = RegistryView;

    closed spec fn view(&self) -> RegistryView {
        RegistryView {
            identities: text_entries(self.immatriculations),
            models: model_entries(self.models),
            families: text_entries(self.families),
        }
    }
}

impl AircraftDataBase {
    /// A registry that knows no aircraft.
    pub fn empty() -> (registry: AircraftDataBase)
        ensures
            registry@.identities == Seq::<(Seq<char>, Seq<char>)>::empty(),
            registry@.models == Seq::<(Seq<char>, ModelView)>::empty(),
            registry@.families == Seq::<(Seq<char>, Seq<char>)>::empty(),
            registry@.is_consistent(),
    {
        AircraftDataBase {
            immatriculations: text_table_new(),
            models: model_table_new(),
            families: text_table_new(),
        }
    }

    /// Reads what a record says of its aircraft, declares what it declares and answers the
    /// registration with the name of the model, both as the registry holds them.
    pub fn add_flight<'a>(&'a mut self, record: &Record) -> (named: Result<
        (&'a str, &'a str),
        AircraftError,
    >)
        requires
            old(self)@.is_consistent(),
        ensures
            final(self)@.is_consistent(),
            final(self)@ == old(self)@.after(AircraftFields::of(record@)),
            named matches Ok(pair) ==> old(self)@.outcome(AircraftFields::of(record@)) == Ok::<
                (Seq<char>, Seq<char>),
                AircraftError,
            >((pair.0@, pair.1@)),
            named matches Err(error) ==> old(self)@.outcome(AircraftFields::of(record@)) == Err::<
                (Seq<char>, Seq<char>),
                AircraftError,
            >(error),
    {
        let immatriculation = match optional_string(record, "immatriculation") {
            Some(immatriculation) => immatriculation,
            None => {
                return Err(AircraftError::MissingIdentity);
            },
        };
        let acmodel = optional_string(record, "acmodel");
        let actype = optional_string(record, "actype");
        let nb_engines = optional_string(record, "nb_engines");
        let mtow = optional_string(record, "mtow");
        let multipilot = optional_string(record, "multipilot");
        let category_1 = optional_string(record, "cat1");
        let category_2 = optional_string(record, "cat2");
        let category_3 = optional_string(record, "cat3");
        assert(AircraftFields::of(record@) == (AircraftFields {
            immatriculation: Some(immatriculation@),
            acmodel: text_view(acmodel),
            actype: text_view(actype),
            nb_engines: text_view(nb_engines),
            mtow: text_view(mtow),
            multipilot: text_view(multipilot),
            cat1: text_view(category_1),
            cat2: text_view(category_2),
            cat3: text_view(category_3),
        }));
        let accepted = match (
            acmodel,
            actype,
            nb_engines,
            mtow,
            multipilot,
            category_1,
            category_2,
            category_3,
        ) {
            (
                Some(aircraft_model_name),
                Some(aircraft_family_name),
                Some(nb_engines),
                Some(mtow),
                Some(multipilot),
                Some(category_1),
                Some(category_2),
                Some(category_3),
            ) => self.declare(
                immatriculation,
                aircraft_model_name,
                aircraft_family_name,
                nb_engines,
                mtow,
                multipilot,
                category_1,
                category_2,
                category_3,
            ),
            (None, None, None, None, None, None, None, None) => self.refer(immatriculation),
            (Some(aircraft_model_name), None, None, None, None, None, None, None) => {
                self.declare_of_known_model(immatriculation, aircraft_model_name)
            },
            _ => Err(
                AircraftError::BadShape {
                    acmodel: acmodel.is_some(),
                    actype: actype.is_some(),
                    nb_engines: nb_engines.is_some(),
                    mtow: mtow.is_some(),
                    multipilot: multipilot.is_some(),
                    cat1: category_1.is_some(),
                    cat2: category_2.is_some(),
                    cat3: category_3.is_some(),
                },
            ),
        };
        match accepted {
            Ok(_) => {},
            Err(error) => {
                return Err(error);
            },
        }
        proof {
            lemma_accepted_aircraft_is_known(old(self)@, AircraftFields::of(record@));
        }
        match text_table_get_key_value(&self.immatriculations, immatriculation) {
            Some(entry) => {
                proof {
                    lemma_entry_gives_value(self@.identities, immatriculation@, entry.1@);
                }
                Ok((entry.0.as_str(), entry.1.as_str()))
            },
            None => vstd::pervasive::unreached(),
        }
    }

    /// Declares an aircraft together with its model and the model's family.
    fn declare(
        &mut self,
        immatriculation: &str,
        aircraft_model_name: &str,
        aircraft_family_name: &str,
        nb_engines: &str,
        mtow: &str,
        multipilot: &str,
        category_1: &str,
        category_2: &str,
        category_3: &str,
    ) -> (accepted: Result<(), AircraftError>)
        requires
            old(self)@.is_consistent(),
        ensures
            ({
                let fields = AircraftFields {
                    immatriculation: Some(immatriculation@),
                    acmodel: Some(aircraft_model_name@),
                    actype: Some(aircraft_family_name@),
                    nb_engines: Some(nb_engines@),
                    mtow: Some(mtow@),
                    multipilot: Some(multipilot@),
                    cat1: Some(category_1@),
                    cat2: Some(category_2@),
                    cat3: Some(category_3@),
                };
                &&& final(self)@.is_consistent()
                &&& final(self)@ == old(self)@.after(fields)
                &&& accepted is Ok ==> old(self)@.outcome(fields) is Ok
                &&& accepted matches Err(error) ==> old(self)@.outcome(fields) == Err::<
                    (Seq<char>, Seq<char>),
                    AircraftError,
                >(error)
            }),
    {
        let ghost before = self@;
        if text_table_contains(&self.immatriculations, immatriculation) {
            return Err(AircraftError::DuplicateIdentity);
        }
        if model_table_contains(&self.models, aircraft_model_name) {
            return Err(AircraftError::DuplicateModel);
        }
        let nb_engines = match parse_unsigned(nb_engines, 255) {
            Some(nb_engines) => nb_engines as u8,
            None => {
                return Err(AircraftError::BadEngineCount);
            },
        };
        if nb_engines == 0 {
            return Err(AircraftError::BadEngineCount);
        }
        let mtow = match parse_unsigned(mtow, 0xffff_ffff) {
            Some(mtow) => mtow,
            None => {
                return Err(AircraftError::BadWeight);
            },
        };
        let multipilot = match parse_bool(multipilot) {
            Some(multipilot) => multipilot,
            None => {
                return Err(AircraftError::BadMultipilot);
            },
        };
        let aircraft_model = AircraftModel {
            nb_engines,
            mtow,
            multipilot,
            category_1: category_1.to_owned(),
            category_2: category_2.to_owned(),
            category_3: category_3.to_owned(),
        };
        proof {
            lemma_same_keys(before.models, before.families, aircraft_model_name@);
            lemma_new_key_keeps_entries(before.models, aircraft_model_name@, aircraft_model@);
            lemma_new_key_keeps_entries(before.identities, immatriculation@, aircraft_model_name@);
            lemma_new_key_keeps_entries(
                before.families,
                aircraft_model_name@,
                aircraft_family_name@,
            );
        }
        model_table_insert(&mut self.models, aircraft_model_name.to_owned(), aircraft_model);
        text_table_insert(
            &mut self.immatriculations,
            immatriculation.to_owned(),
            aircraft_model_name.to_owned(),
        );
        text_table_insert(
            &mut self.families,
            aircraft_model_name.to_owned(),
            aircraft_family_name.to_owned(),
        );
        proof {
            lemma_grown_registry_is_consistent(
                before,
                self@,
                immatriculation@,
                aircraft_model_name@,
            );
        }
        Ok(())
    }

    /// Declares an aircraft of a model that is known.
    fn declare_of_known_model(&mut self, immatriculation: &str, aircraft_model_name: &str) -> (accepted:
        Result<(), AircraftError>)
        requires
            old(self)@.is_consistent(),
        ensures
            ({
                let fields = AircraftFields {
                    immatriculation: Some(immatriculation@),
                    acmodel: Some(aircraft_model_name@),
                    actype: None,
                    nb_engines: None,
                    mtow: None,
                    multipilot: None,
                    cat1: None,
                    cat2: None,
                    cat3: None,
                };
                &&& final(self)@.is_consistent()
                &&& final(self)@ == old(self)@.after(fields)
                &&& accepted is Ok ==> old(self)@.outcome(fields) is Ok
                &&& accepted matches Err(error) ==> old(self)@.outcome(fields) == Err::<
                    (Seq<char>, Seq<char>),
                    AircraftError,
                >(error)
            }),
    {
        let ghost before = self@;
        if text_table_contains(&self.immatriculations, immatriculation) {
            return Err(AircraftError::DuplicateIdentity);
        }
        if !model_table_contains(&self.models, aircraft_model_name) {
            return Err(AircraftError::UnknownModel);
        }
        proof {
            lemma_new_key_keeps_entries(before.identities, immatriculation@, aircraft_model_name@);
        }
        text_table_insert(
            &mut self.immatriculations,
            immatriculation.to_owned(),
            aircraft_model_name.to_owned(),
        );
        proof {
            lemma_grown_registry_is_consistent(
                before,
                self@,
                immatriculation@,
                aircraft_model_name@,
            );
        }
        Ok(())
    }

    /// Finds an aircraft that is known.
    fn refer(&self, immatriculation: &str) -> (accepted: Result<(), AircraftError>)
        ensures
            ({
                let fields = AircraftFields {
                    immatriculation: Some(immatriculation@),
                    acmodel: None,
                    actype: None,
                    nb_engines: None,
                    mtow: None,
                    multipilot: None,
                    cat1: None,
                    cat2: None,
                    cat3: None,
                };
                &&& self@ == self@.after(fields)
                &&& accepted is Ok ==> self@.outcome(fields) is Ok
                &&& accepted matches Err(error) ==> self@.outcome(fields) == Err::<
                    (Seq<char>, Seq<char>),
                    AircraftError,
                >(error)
            }),
    {
        if !text_table_contains(&self.immatriculations, immatriculation) {
            Err(AircraftError::UnknownIdentity)
        } else {
            Ok(())
        }
    }

    /// The registration and the name of the model of an aircraft.
    pub fn get_model_name(&self, immatriculation: &str) -> (named: Result<(&str, &str), AircraftError>)
        requires
            self@.is_consistent(),
        ensures
            named matches Ok(pair) ==> pair.0@ == immatriculation@ && self@.model_name_of(
                immatriculation@,
            ) == Some(pair.1@),
            named matches Err(error) ==> error == AircraftError::UnknownIdentity
                && self@.model_name_of(immatriculation@) is None,
    {
        match text_table_get_key_value(&self.immatriculations, immatriculation) {
            Some(entry) => {
                proof {
                    lemma_entry_gives_value(self@.identities, immatriculation@, entry.1@);
                }
                Ok((entry.0.as_str(), entry.1.as_str()))
            },
            None => Err(AircraftError::UnknownIdentity),
        }
    }

    /// The model of an aircraft.
    fn get_model(&self, immatriculation: &str) -> (found: Result<&AircraftModel, AircraftError>)
        requires
            self@.is_consistent(),
        ensures
            found matches Ok(model) ==> self@.model_of(immatriculation@) == Some(model@),
            found matches Err(error) ==> error == AircraftError::UnknownIdentity && self@.model_of(
                immatriculation@,
            ) is None,
    {
        let model_name = match self.get_model_name(immatriculation) {
            Ok(pair) => pair.1,
            Err(error) => {
                return Err(error);
            },
        };
        proof {
            lemma_value_is_entry(self@.identities, immatriculation@);
        }
        match model_table_get(&self.models, model_name) {
            Some(model) => {
                proof {
                    lemma_entry_gives_value(self@.models, model_name@, model@);
                }
                Ok(model)
            },
            None => vstd::pervasive::unreached(),
        }
    }

    /// The name of the family of the model of an aircraft.
    pub fn get_family_name(&self, immatriculation: &str) -> (named: Result<&str, AircraftError>)
        requires
            self@.is_consistent(),
        ensures
            named matches Ok(family) ==> self@.family_of(immatriculation@) == Some(family@),
            named matches Err(error) ==> error == AircraftError::UnknownIdentity && self@.family_of(
                immatriculation@,
            ) is None,
    {
        let model_name = match self.get_model_name(immatriculation) {
            Ok(pair) => pair.1,
            Err(error) => {
                return Err(error);
            },
        };
        proof {
            lemma_value_is_entry(self@.identities, immatriculation@);
            lemma_same_keys(self@.models, self@.families, model_name@);
        }
        match text_table_get(&self.families, model_name) {
            Some(family) => {
                proof {
                    lemma_entry_gives_value(self@.families, model_name@, family@);
                }
                Ok(family.as_str())
            },
            None => vstd::pervasive::unreached(),
        }
    }

    /// Whether time on the aircraft counts as single-pilot, single-engine.
    pub fn is_single_pilot_se(&self, immatriculation: &str) -> (answer: Result<bool, AircraftError>)
        requires
            self@.is_consistent(),
        ensures
            answer matches Ok(yes) ==> self@.model_of(immatriculation@) matches Some(model) && yes
                == model.is_single_pilot_se(),
            answer matches Err(error) ==> error == AircraftError::UnknownIdentity && self@.model_of(
                immatriculation@,
            ) is None,
    {
        match self.get_model(immatriculation) {
            Ok(model) => Ok(
                !model.multipilot && model.nb_engines == 1 && !is_passenger_category(
                    model.category_3.as_str(),
                ),
            ),
            Err(error) => Err(error),
        }
    }

    /// Whether time on the aircraft counts as single-pilot, multi-engine.
    pub fn is_single_pilot_me(&self, immatriculation: &str) -> (answer: Result<bool, AircraftError>)
        requires
            self@.is_consistent(),
        ensures
            answer matches Ok(yes) ==> self@.model_of(immatriculation@) matches Some(model) && yes
                == model.is_single_pilot_me(),
            answer matches Err(error) ==> error == AircraftError::UnknownIdentity && self@.model_of(
                immatriculation@,
            ) is None,
    {
        match self.get_model(immatriculation) {
            Ok(model) => Ok(
                !model.multipilot && model.nb_engines > 1 && !is_passenger_category(
                    model.category_3.as_str(),
                ),
            ),
            Err(error) => Err(error),
        }
    }

    /// Whether time on the aircraft counts as multi-pilot.
    pub fn is_multi_pilot(&self, immatriculation: &str) -> (answer: Result<bool, AircraftError>)
        requires
            self@.is_consistent(),
        ensures
            answer matches Ok(yes) ==> self@.model_of(immatriculation@) matches Some(model) && yes
                == model.is_multi_pilot(),
            answer matches Err(error) ==> error == AircraftError::UnknownIdentity && self@.model_of(
                immatriculation@,
            ) is None,
    {
        match self.get_model(immatriculation) {
            Ok(model) => Ok(model.multipilot && !is_passenger_category(model.category_3.as_str())),
            Err(error) => Err(error),
        }
    }

    /// The models with their families, in the order in which the models were declared: each
    /// pair holds the name of a model and the name of its family.
    pub fn iter_models_families(&self) -> (pairs: Vec<(String, String)>)
        ensures
            pairs@.len() == self@.families.len(),
            forall|i: int|
                0 <= i < pairs@.len() ==> (#[trigger] pairs@[i]).0@ == self@.families[i].0
                    && pairs@[i].1@ == self@.families[i].1,
    {
        text_table_entries(&self.families)
    }

    /// The models, in the order in which they were declared: each pair holds the name of a
    /// model and the model.
    pub fn iter_models(&self) -> (pairs: Vec<(String, AircraftModel)>)
        ensures
            pairs@.len() == self@.models.len(),
            forall|i: int|
                0 <= i < pairs@.len() ==> (#[trigger] pairs@[i]).0@ == self@.models[i].0
                    && pairs@[i].1@ == self@.models[i].1,
    {
        model_table_entries(&self.models)
    }
}

/// Whether a third category is that of an aircraft that carries passengers.
fn is_passenger_category(category: &str) -> (yes: bool)
    ensures
        yes == (category@ == passenger_category()),
{
    proof {
        reveal_strlit("pax");
        assert("pax"@ =~= passenger_category());
    }
    same_text(category, "pax")
}

/// The value under a key that is there stands in an entry with that key.
proof fn lemma_value_is_entry<V>(entries: Seq<(Seq<char>, V)>, key: Seq<char>)
    requires
        has_key(entries, key),
    ensures
        has_entry(entries, key, value_under(entries, key)),
{
    let at = place_of(entries, key);
    assert(entries[at].0 == key);
    assert(entries[at] == (key, value_under(entries, key)));
}

/// While the registry accepts declarations, an aircraft is declared only once: whatever a
/// second record says of a registration that a first one has declared, it is refused if
/// it declares the aircraft again.
pub proof fn lemma_identity_is_declared_once(
    registry: RegistryView,
    first: AircraftFields,
    second: AircraftFields,
)
    requires
        registry.is_consistent(),
        registry.outcome(first) is Ok,
        first.shape() is Some && !(first.shape() == Some(AircraftShape::Reference)),
        second.shape() is Some && !(second.shape() == Some(AircraftShape::Reference)),
        second.immatriculation == first.immatriculation,
    ensures
        registry.after(first).outcome(second) == Err::<(Seq<char>, Seq<char>), AircraftError>(
            AircraftError::DuplicateIdentity,
        ),
{
    let identity = first.immatriculation->0;
    let after = registry.after(first);
    assert(after.identities.last().0 == identity);
}

/// A model is declared only once: a second record that declares a model of the same name
/// is refused, whatever aircraft it is for; where the aircraft is new, because of the
/// model.
pub proof fn lemma_model_is_declared_once(
    registry: RegistryView,
    first: AircraftFields,
    second: AircraftFields,
)
    requires
        registry.is_consistent(),
        registry.outcome(first) is Ok,
        first.shape() == Some(AircraftShape::Declaration),
        second.shape() == Some(AircraftShape::Declaration),
        second.acmodel == first.acmodel,
    ensures
        registry.after(first).outcome(second) is Err,
        second.immatriculation is Some && !has_key(
            registry.after(first).identities,
            second.immatriculation->0,
        ) ==> registry.after(first).outcome(second) == Err::<(Seq<char>, Seq<char>), AircraftError>(
            AircraftError::DuplicateModel,
        ),
{
    let after = registry.after(first);
    assert(after.models.last().0 == first.acmodel->0);
}

/// A new aircraft cannot be declared of a model that was never declared, and an aircraft
/// that was never declared cannot be referred to.
pub proof fn lemma_undeclared_is_refused(registry: RegistryView, fields: AircraftFields)
    requires
        fields.immatriculation is Some,
        !has_key(registry.identities, fields.immatriculation->0),
    ensures
        fields.shape() == Some(AircraftShape::NewOfKnownModel) && !has_key(
            registry.models,
            fields.acmodel->0,
        ) ==> registry.outcome(fields) == Err::<(Seq<char>, Seq<char>), AircraftError>(
            AircraftError::UnknownModel,
        ),
        fields.shape() == Some(AircraftShape::Reference) ==> registry.outcome(fields) == Err::<
            (Seq<char>, Seq<char>),
            AircraftError,
        >(AircraftError::UnknownIdentity),
{
}

/// Whatever record is accepted, its aircraft is known afterwards, of the model that was
/// answered, and the registry is consistent as before.
pub proof fn lemma_accepted_aircraft_is_known(registry: RegistryView, fields: AircraftFields)
    requires
        registry.is_consistent(),
        registry.outcome(fields) is Ok,
    ensures
        registry.after(fields).is_consistent(),
        registry.after(fields).model_name_of(registry.outcome(fields)->Ok_0.0) == Some(
            registry.outcome(fields)->Ok_0.1,
        ),
        has_key(registry.after(fields).models, registry.outcome(fields)->Ok_0.1),
{
    let identity = fields.immatriculation->0;
    let after = registry.after(fields);
    match fields.shape() {
        Some(AircraftShape::Declaration) => {
            lemma_declared_model_is_found(registry, fields);
        },
        Some(AircraftShape::NewOfKnownModel) => {
            let name = fields.acmodel->0;
            lemma_new_key_keeps_entries(registry.identities, identity, name);
            lemma_grown_registry_is_consistent(registry, after, identity, name);
        },
        _ => {
            lemma_value_is_entry(registry.identities, identity);
            let at = place_of(registry.identities, identity);
            assert(has_key(registry.models, registry.identities[at].1));
        },
    }
}

/// After a declaration the model has an engine at least, and it is found by the aircraft's
/// registration and by its own
/// name, and so is its family.
pub proof fn lemma_declared_model_is_found(registry: RegistryView, fields: AircraftFields)
    requires
        registry.is_consistent(),
        fields.shape() == Some(AircraftShape::Declaration),
        registry.outcome(fields) is Ok,
    ensures
        registry.after(fields).is_consistent(),
        registry.after(fields).model_name_of(fields.immatriculation->0) == fields.acmodel,
        registry.after(fields).model_of(fields.immatriculation->0) == Some(
            fields.declared_model()->Ok_0,
        ),
        registry.after(fields).family_of(fields.immatriculation->0) == fields.actype,
        has_key(registry.after(fields).models, fields.acmodel->0),
        value_under(registry.after(fields).models, fields.acmodel->0)
            == fields.declared_model()->Ok_0,
        fields.declared_model()->Ok_0.nb_engines >= 1,
        registry.after(fields).outcome(
            AircraftFields {
                immatriculation: fields.immatriculation,
                acmodel: None,
                actype: None,
                nb_engines: None,
                mtow: None,
                multipilot: None,
                cat1: None,
                cat2: None,
                cat3: None,
            },
        ) == Ok::<(Seq<char>, Seq<char>), AircraftError>(
            (fields.immatriculation->0, fields.acmodel->0),
        ),
{
    let identity = fields.immatriculation->0;
    let name = fields.acmodel->0;
    let after = registry.after(fields);
    lemma_same_keys(registry.models, registry.families, name);
    lemma_new_key_keeps_entries(registry.identities, identity, name);
    lemma_new_key_keeps_entries(registry.models, name, fields.declared_model()->Ok_0);
    lemma_new_key_keeps_entries(registry.families, name, fields.actype->0);
    lemma_grown_registry_is_consistent(registry, after, identity, name);
}

/// Two tables with the same keys have a key or lack it together.
proof fn lemma_same_keys<A, B>(left: Seq<(Seq<char>, A)>, right: Seq<(Seq<char>, B)>, key: Seq<char>)
    requires
        left.len() == right.len(),
        forall|i: int| 0 <= i < left.len() ==> (#[trigger] left[i]).0 == right[i].0,
    ensures
        has_key(left, key) == has_key(right, key),
{
    if has_key(left, key) {
        let at = place_of(left, key);
        assert(right[at].0 == key);
    }
    if has_key(right, key) {
        let at = place_of(right, key);
        assert(left[at].0 == key);
    }
}

/// A consistent registry stays consistent when a new aircraft of a declared model comes
/// in, with or without the model and its family coming in at the same time.
proof fn lemma_grown_registry_is_consistent(
    before: RegistryView,
    after: RegistryView,
    identity: Seq<char>,
    model_name: Seq<char>,
)
    requires
        before.is_consistent(),
        !has_key(before.identities, identity),
        after.identities == before.identities.push((identity, model_name)),
        has_key(after.models, model_name),
        keys_are_unique(after.models),
        keys_are_unique(after.families),
        keys_are_unique(after.identities),
        before.models.is_prefix_of(after.models),
        before.families.is_prefix_of(after.families),
        after.models.len() == after.families.len(),
        after.models.len() <= before.models.len() + 1,
        after.models.len() > before.models.len() ==> after.models.last().0
            == after.families.last().0 && after.models.last().1.nb_engines >= 1,
    ensures
        after.is_consistent(),
{
    assert forall|i: int| 0 <= i < after.models.len() implies (#[trigger] after.models[i]).1.nb_engines
        >= 1 by {
        if i < before.models.len() {
            assert(after.models[i] == before.models[i]);
        }
    }
    assert forall|i: int| 0 <= i < after.identities.len() implies has_key(
        after.models,
        (#[trigger] after.identities[i]).1,
    ) by {
        if i < before.identities.len() {
            assert(after.identities[i] == before.identities[i]);
            let name = before.identities[i].1;
            assert(has_key(before.models, name));
            let at = place_of(before.models, name);
            assert(after.models[at] == before.models[at]);
        }
    }
    assert forall|i: int| 0 <= i < after.models.len() implies (#[trigger] after.models[i]).0
        == after.families[i].0 by {
        if i < before.models.len() {
            assert(after.models[i] == before.models[i]);
            assert(after.families[i] == before.families[i]);
        }
    }
}

} // verus!
