use indexmap::IndexMap;
use vstd::prelude::*;

use crate::aircraftdatabase::AircraftModel;
use crate::aircraftdatabase::ModelView;

verus! {

#[verifier::external_type_specification]
#[verifier::external_body]
#[verifier::reject_recursive_types(K)]
#[verifier::reject_recursive_types(V)]
#[verifier::reject_recursive_types(S)]
pub struct ExIndexMap<K, V, S>(IndexMap<K, V, S>);

/// The entries of a table from text to text, in the order in which their keys came in.
pub uninterp spec fn text_entries(table: IndexMap<String, String>) -> Seq<(Seq<char>, Seq<char>)>;

/// The entries of a table from text to aircraft models, in the order in which their keys
/// came in.
pub uninterp spec fn model_entries(table: IndexMap<String, AircraftModel>) -> Seq<
    (Seq<char>, ModelView),
>;

/// Whether one of the entries has this key.
pub open spec fn has_key<V>(entries: Seq<(Seq<char>, V)>, key: Seq<char>) -> bool {
    exists|i: int| 0 <= i < entries.len() && (#[trigger] entries[i]).0 == key
}

/// Whether one of the entries has this key with this value.
pub open spec fn has_entry<V>(entries: Seq<(Seq<char>, V)>, key: Seq<char>, value: V) -> bool {
    exists|i: int| 0 <= i < entries.len() && #[trigger] entries[i] == (key, value)
}

/// Whether no key occurs twice.
pub open spec fn keys_are_unique<V>(entries: Seq<(Seq<char>, V)>) -> bool {
    forall|i: int, j: int|
        0 <= i < j < entries.len() ==> (#[trigger] entries[i]).0 != (#[trigger] entries[j]).0
}

/// The place of an entry with this key; of the only one, where the keys are unique.
pub open spec fn place_of<V>(entries: Seq<(Seq<char>, V)>, key: Seq<char>) -> int {
    choose|i: int| 0 <= i < entries.len() && (#[trigger] entries[i]).0 == key
}

/// The value of an entry with this key; of the only one, where the keys are unique.
pub open spec fn value_under<V>(entries: Seq<(Seq<char>, V)>, key: Seq<char>) -> V {
    entries[place_of(entries, key)].1
}

/// The entries after a key came in with a value: the value replaces that of an entry with
/// the same key, which keeps its place; with a new key the entry goes to the end.
pub open spec fn entries_with<V>(entries: Seq<(Seq<char>, V)>, key: Seq<char>, value: V) -> Seq<
    (Seq<char>, V),
> {
    if has_key(entries, key) {
        entries.update(place_of(entries, key), (key, value))
    } else {
        entries.push((key, value))
    }
}

/// Where the keys are unique, an entry that is there gives the value under its key.
pub proof fn lemma_entry_gives_value<V>(entries: Seq<(Seq<char>, V)>, key: Seq<char>, value: V)
    requires
        keys_are_unique(entries),
        has_entry(entries, key, value),
    ensures
        has_key(entries, key),
        value_under(entries, key) == value,
{
    let at = choose|i: int| 0 <= i < entries.len() && #[trigger] entries[i] == (key, value);
    assert(entries[at].0 == key);
    let chosen = place_of(entries, key);
    if chosen < at {
        assert(entries[chosen].0 != entries[at].0);
    } else if at < chosen {
        assert(entries[at].0 != entries[chosen].0);
    }
}

/// A new key at the end keeps the keys unique, and every value where it was.
pub proof fn lemma_new_key_keeps_entries<V>(entries: Seq<(Seq<char>, V)>, key: Seq<char>, value: V)
    requires
        keys_are_unique(entries),
        !has_key(entries, key),
    ensures
        entries_with(entries, key, value) == entries.push((key, value)),
        keys_are_unique(entries.push((key, value))),
        has_key(entries.push((key, value)), key),
        value_under(entries.push((key, value)), key) == value,
        forall|other: Seq<char>|
            has_key(entries, other) ==> has_key(entries.push((key, value)), other) && value_under(
                entries.push((key, value)),
                other,
            ) == value_under(entries, other),
        forall|other: Seq<char>|
            has_key(entries.push((key, value)), other) ==> other == key || has_key(entries, other),
{
    let longer = entries.push((key, value));
    assert forall|i: int, j: int| 0 <= i < j < longer.len() implies (#[trigger] longer[i]).0 != (
    #[trigger] longer[j]).0 by {
        if j < entries.len() {
            assert(entries[i].0 != entries[j].0);
        } else {
            assert(entries[i].0 != key);
        }
    }
    assert(longer[entries.len() as int] == (key, value));
    assert(has_entry(longer, key, value));
    lemma_entry_gives_value(longer, key, value);
    assert forall|other: Seq<char>| has_key(entries, other) implies has_key(longer, other)
        && value_under(longer, other) == value_under(entries, other) by {
        let at = place_of(entries, other);
        assert(longer[at] == entries[at]);
        assert(has_entry(longer, other, entries[at].1));
        lemma_entry_gives_value(longer, other, entries[at].1);
    }
    assert forall|other: Seq<char>| has_key(longer, other) implies other == key || has_key(
        entries,
        other,
    ) by {
        let at = place_of(longer, other);
        if at < entries.len() {
            assert(entries[at].0 == other);
        }
    }
}

/// `IndexMap::new`. Trusted: the new table has no entry.
#[verifier::external_body]
pub(crate) fn text_table_new() -> (table: IndexMap<String, String>)
    ensures
        text_entries(table) == Seq::<(Seq<char>, Seq<char>)>::empty(),
{
    IndexMap::new()
}

/// `IndexMap::contains_key`. Trusted: it tells whether an entry has this key.
#[verifier::external_body]
pub(crate) fn text_table_contains(table: &IndexMap<String, String>, key: &str) -> (found: bool)
    ensures
        found == has_key(text_entries(*table), key@),
{
    table.contains_key(key)
}

/// `IndexMap::insert`. Trusted: the value replaces that of the entry with the same key, which
/// keeps its place and whose old value is returned; with a new key the entry goes to the
/// end and nothing is returned.
#[verifier::external_body]
pub(crate) fn text_table_insert(table: &mut IndexMap<String, String>, key: String, value: String) -> (previous:
    Option<String>)
    ensures
        text_entries(*final(table)) == entries_with(text_entries(*old(table)), key@, value@),
        previous is Some == has_key(text_entries(*old(table)), key@),
        previous matches Some(text) ==> text@ == value_under(text_entries(*old(table)), key@),
{
    table.insert(key, value)
}

/// `IndexMap::get_key_value`. Trusted: it finds the entry with this key, if there is one, and
/// hands out its key and its value.
#[verifier::external_body]
pub(crate) fn text_table_get_key_value<'a>(table: &'a IndexMap<String, String>, key: &str) -> (found:
    Option<(&'a String, &'a String)>)
    ensures
        found is Some == has_key(text_entries(*table), key@),
        found matches Some(entry) ==> entry.0@ == key@ && has_entry(
            text_entries(*table),
            key@,
            entry.1@,
        ),
{
    table.get_key_value(key)
}

/// `IndexMap::get`. Trusted: it finds the entry with this key, if there is one, and hands out
/// its value.
#[verifier::external_body]
pub(crate) fn text_table_get<'a>(table: &'a IndexMap<String, String>, key: &str) -> (found: Option<
    &'a String,
>)
    ensures
        found is Some == has_key(text_entries(*table), key@),
        found matches Some(value) ==> has_entry(text_entries(*table), key@, value@),
{
    table.get(key)
}

/// `IndexMap::iter`, each entry copied out. Trusted: the entries come in the table's order.
#[verifier::external_body]
pub(crate) fn text_table_entries(table: &IndexMap<String, String>) -> (entries: Vec<(String, String)>)
    ensures
        entries@.len() == text_entries(*table).len(),
        forall|i: int|
            0 <= i < entries@.len() ==> (#[trigger] entries@[i]).0@ == text_entries(*table)[i].0
                && entries@[i].1@ == text_entries(*table)[i].1,
{
    table.iter().map(|(key, value)| (key.clone(), value.clone())).collect()
}

/// `IndexMap::new`. Trusted: the new table has no entry.
#[verifier::external_body]
pub(crate) fn model_table_new() -> (table: IndexMap<String, AircraftModel>)
    ensures
        model_entries(table) == Seq::<(Seq<char>, ModelView)>::empty(),
{
    IndexMap::new()
}

/// `IndexMap::contains_key`. Trusted: it tells whether an entry has this key.
#[verifier::external_body]
pub(crate) fn model_table_contains(table: &IndexMap<String, AircraftModel>, key: &str) -> (found:
    bool)
    ensures
        found == has_key(model_entries(*table), key@),
{
    table.contains_key(key)
}

/// `IndexMap::insert`. Trusted: the value replaces that of the entry with the same key, which
/// keeps its place and whose old value is returned; with a new key the entry goes to the
/// end and nothing is returned.
#[verifier::external_body]
pub(crate) fn model_table_insert(
    table: &mut IndexMap<String, AircraftModel>,
    key: String,
    value: AircraftModel,
) -> (previous: Option<AircraftModel>)
    ensures
        model_entries(*final(table)) == entries_with(model_entries(*old(table)), key@, value@),
        previous is Some == has_key(model_entries(*old(table)), key@),
        previous matches Some(model) ==> model@ == value_under(model_entries(*old(table)), key@),
{
    table.insert(key, value)
}

/// `IndexMap::get`. Trusted: it finds the entry with this key, if there is one, and hands out
/// its value.
#[verifier::external_body]
pub(crate) fn model_table_get<'a>(table: &'a IndexMap<String, AircraftModel>, key: &str) -> (found:
    Option<&'a AircraftModel>)
    ensures
        found is Some == has_key(model_entries(*table), key@),
        found matches Some(value) ==> has_entry(model_entries(*table), key@, value@),
{
    table.get(key)
}

/// `IndexMap::iter`, each entry copied out. Trusted: the entries come in the table's order.
#[verifier::external_body]
pub(crate) fn model_table_entries(table: &IndexMap<String, AircraftModel>) -> (entries: Vec<
    (String, AircraftModel),
>)
    ensures
        entries@.len() == model_entries(*table).len(),
        forall|i: int|
            0 <= i < entries@.len() ==> (#[trigger] entries@[i]).0@ == model_entries(*table)[i].0
                && entries@[i].1@ == model_entries(*table)[i].1,
{
    table.iter().map(|(key, value)| (key.clone(), value.clone())).collect()
}

} // verus!
