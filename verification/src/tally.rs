use vstd::prelude::*;

use crate::logbook::spans_within;
use crate::text::lemma_text_order_is_total;
use crate::text::lemma_text_order_is_transitive;
use crate::text::precedes;
use crate::text::same_text;
use crate::text::text_precedes;

verus! {

/// A duration that counts under a name, or under none.
pub struct Posting {
    pub name: Option<Seq<char>>,
    pub minutes: int,
}

/// The minutes that count under `name`.
pub open spec fn posted_under(postings: Seq<Posting>, name: Seq<char>) -> int
    decreases postings.len(),
{
    if postings.len() == 0 {
        0
    } else {
        posted_under(postings.drop_last(), name) + if postings.last().name == Some(name) {
            postings.last().minutes
        } else {
            0
        }
    }
}

/// The minutes that count under any name.
pub open spec fn posted(postings: Seq<Posting>) -> int
    decreases postings.len(),
{
    if postings.len() == 0 {
        0
    } else {
        posted(postings.drop_last()) + if postings.last().name is Some {
            postings.last().minutes
        } else {
            0
        }
    }
}

/// Whether anything counts under `name`.
pub open spec fn is_posted(postings: Seq<Posting>, name: Seq<char>) -> bool {
    exists|i: int| 0 <= i < postings.len() && (#[trigger] postings[i]).name == Some(name)
}

/// Whether the names of a table stand in the order of texts, none twice.
pub open spec fn is_sorted(table: Seq<(Seq<char>, int)>) -> bool {
    forall|i: int, j: int|
        0 <= i < j < table.len() ==> text_precedes((#[trigger] table[i]).0, (#[trigger] table[j]).0)
}

/// Whether `table` is the tally of `postings`: the names under which something counts, in
/// the order of texts and none twice, each with the minutes that count under it. There is
/// one such table and no other.
pub open spec fn is_tally_of(table: Seq<(Seq<char>, int)>, postings: Seq<Posting>) -> bool {
    &&& is_sorted(table)
    &&& forall|i: int|
        0 <= i < table.len() ==> is_posted(postings, (#[trigger] table[i]).0) && table[i].1
            == posted_under(postings, table[i].0)
    &&& forall|name: Seq<char>| #[trigger]
        is_posted(postings, name) ==> exists|i: int|
            0 <= i < table.len() && (#[trigger] table[i]).0 == name
}

/// A name with the time that counts under it.
#[derive(Debug)]
pub struct TimeByName {
    pub name: String,
    /// In minutes.
    pub time: i128,
}

/// A table as plain values.
pub open spec fn table_of(rows: Seq<TimeByName>) -> Seq<(Seq<char>, int)> {
    Seq::new(rows.len(), |i: int| (rows[i].name@, rows[i].time as int))
}

/// Whether `table` holds a row for `name`.
pub open spec fn has_row(table: Seq<(Seq<char>, int)>, name: Seq<char>) -> bool {
    exists|i: int| 0 <= i < table.len() && (#[trigger] table[i]).0 == name
}

/// What posting `minutes` under `name` makes of a table that is sorted: the row of the
/// name holds that much more, and a name that had no row has one in its place.
pub open spec fn is_posted_to(
    before: Seq<(Seq<char>, int)>,
    after: Seq<(Seq<char>, int)>,
    name: Seq<char>,
    minutes: int,
) -> bool {
    &&& is_sorted(after)
    &&& forall|i: int|
        0 <= i < before.len() ==> has_row(after, (#[trigger] before[i]).0)
    &&& forall|i: int|
        0 <= i < after.len() ==> if (#[trigger] after[i]).0 == name {
            if has_row(before, name) {
                exists|j: int|
                    0 <= j < before.len() && (#[trigger] before[j]).0 == name && after[i].1
                        == before[j].1 + minutes
            } else {
                after[i].1 == minutes
            }
        } else {
            exists|j: int| 0 <= j < before.len() && #[trigger] before[j] == after[i]
        }
    &&& has_row(after, name)
}

/// Whether every time of a table can be the sum of at most `lines` durations.
pub open spec fn rows_within(rows: Seq<TimeByName>, lines: int) -> bool {
    forall|i: int| 0 <= i < rows.len() ==> spans_within((#[trigger] rows[i]).time as int, lines)
}

/// Posts `minutes` under `name` in a table that is sorted.
pub fn post(rows: &mut Vec<TimeByName>, name: &str, minutes: i64)
    requires
        is_sorted(table_of(old(rows)@)),
        exists|lines: int| 0 <= lines < usize::MAX && #[trigger] rows_within(old(rows)@, lines),
    ensures
        is_posted_to(table_of(old(rows)@), table_of(final(rows)@), name@, minutes as int),
        forall|lines: int|
            0 <= lines && #[trigger] rows_within(old(rows)@, lines) ==> rows_within(
                final(rows)@,
                lines + 1,
            ),
{
    let ghost before = table_of(rows@);
    let mut place: usize = 0;
    while place < rows.len() && precedes(rows[place].name.as_str(), name)
        invariant
            place <= rows.len(),
            before == table_of(rows@),
            rows@ == old(rows)@,
            forall|i: int| 0 <= i < place ==> text_precedes((#[trigger] before[i]).0, name@),
        decreases rows.len() - place,
    {
        assert(before[place as int].0 == rows@[place as int].name@);
        place += 1;
    }
    if place < rows.len() && same_text(rows[place].name.as_str(), name) {
        let ghost lines = choose|lines: int|
            0 <= lines < usize::MAX && #[trigger] rows_within(old(rows)@, lines);
        assert(spans_within(rows@[place as int].time as int, lines));
        let time = rows[place].time + minutes as i128;
        let row = TimeByName { name: name.to_owned(), time };
        rows.set(place, row);
        proof {
            let after = table_of(rows@);
            assert(after =~= before.update(place as int, (name@, before[place as int].1 + minutes)));
            assert(before[place as int].0 == name@);
            assert forall|i: int, j: int| 0 <= i < j < after.len() implies text_precedes(
                (#[trigger] after[i]).0,
                (#[trigger] after[j]).0,
            ) by {
                assert(before[i].0 == after[i].0);
                assert(before[j].0 == after[j].0);
            }
            assert forall|i: int| 0 <= i < before.len() implies has_row(
                after,
                (#[trigger] before[i]).0,
            ) by {
                assert(after[i].0 == before[i].0);
            }
            assert forall|i: int| 0 <= i < after.len() implies if (#[trigger] after[i]).0 == name@ {
                if has_row(before, name@) {
                    exists|j: int|
                        0 <= j < before.len() && (#[trigger] before[j]).0 == name@ && after[i].1
                            == before[j].1 + minutes
                } else {
                    after[i].1 == minutes
                }
            } else {
                exists|j: int| 0 <= j < before.len() && #[trigger] before[j] == after[i]
            } by {
                if i == place {
                    assert(before[place as int].0 == name@);
                } else {
                    assert(before[i] == after[i]);
                    if after[i].0 == name@ {
                        lemma_text_order_is_total(name@, name@);
                        if i < place {
                            assert(text_precedes(before[i].0, before[place as int].0));
                        } else {
                            assert(text_precedes(before[place as int].0, before[i].0));
                        }
                    }
                }
            }
            assert(after[place as int].0 == name@);
        }
    } else {
        let row = TimeByName { name: name.to_owned(), time: minutes as i128 };
        rows.insert(place, row);
        proof {
            let after = table_of(rows@);
            assert(after =~= before.insert(place as int, (name@, minutes as int)));
            if place < before.len() {
                assert(before[place as int].0 == old(rows)@[place as int].name@);
                lemma_text_order_is_total(name@, before[place as int].0);
            }
            assert forall|i: int, j: int| 0 <= i < j < after.len() implies text_precedes(
                (#[trigger] after[i]).0,
                (#[trigger] after[j]).0,
            ) by {
                if j < place {
                    assert(after[i] == before[i] && after[j] == before[j]);
                } else if j == place {
                    assert(after[i] == before[i]);
                } else if i < place {
                    assert(after[i] == before[i] && after[j] == before[j - 1]);
                    if j - 1 == i {
                        assert(false);
                    }
                } else if i == place {
                    assert(after[j] == before[j - 1]);
                    if j - 1 > place {
                        assert(text_precedes(before[place as int].0, before[j - 1].0));
                        lemma_text_order_is_transitive(
                            name@,
                            before[place as int].0,
                            before[j - 1].0,
                        );
                    }
                } else {
                    assert(after[i] == before[i - 1] && after[j] == before[j - 1]);
                }
            }
            assert(!has_row(before, name@)) by {
                if has_row(before, name@) {
                    let at = choose|i: int| 0 <= i < before.len() && (#[trigger] before[i]).0 == name@;
                    lemma_text_order_is_total(name@, name@);
                    if at < place {
                        assert(text_precedes(before[at].0, name@));
                    } else if at > place {
                        assert(text_precedes(before[place as int].0, before[at].0));
                    }
                }
            }
            assert forall|i: int| 0 <= i < before.len() implies has_row(
                after,
                (#[trigger] before[i]).0,
            ) by {
                if i < place {
                    assert(after[i] == before[i]);
                } else {
                    assert(after[i + 1] == before[i]);
                }
            }
            assert forall|i: int| 0 <= i < after.len() implies if (#[trigger] after[i]).0 == name@ {
                if has_row(before, name@) {
                    exists|j: int|
                        0 <= j < before.len() && (#[trigger] before[j]).0 == name@ && after[i].1
                            == before[j].1 + minutes
                } else {
                    after[i].1 == minutes
                }
            } else {
                exists|j: int| 0 <= j < before.len() && #[trigger] before[j] == after[i]
            } by {
                if i < place {
                    assert(after[i] == before[i]);
                    lemma_text_order_is_total(name@, name@);
                } else if i > place {
                    assert(after[i] == before[i - 1]);
                    if after[i].0 == name@ {
                        assert(has_row(before, name@));
                    }
                }
            }
            assert(after[place as int].0 == name@);
        }
    }
    proof {
        assert forall|lines: int| 0 <= lines && #[trigger] rows_within(old(rows)@, lines) implies rows_within(
            rows@,
            lines + 1,
        ) by {
            assert forall|i: int| 0 <= i < rows@.len() implies spans_within(
                (#[trigger] rows@[i]).time as int,
                lines + 1,
            ) by {
                if rows@.len() == old(rows)@.len() {
                    assert(spans_within(old(rows)@[i].time as int, lines));
                } else if i < place {
                    assert(rows@[i] == old(rows)@[i]);
                    assert(spans_within(old(rows)@[i].time as int, lines));
                } else if i > place {
                    assert(rows@[i] == old(rows)@[i - 1]);
                    assert(spans_within(old(rows)@[i - 1].time as int, lines));
                }
            }
        }
    }
}

/// Nothing counts under a name under which nothing is posted.
pub proof fn lemma_nothing_posted(postings: Seq<Posting>, name: Seq<char>)
    requires
        !is_posted(postings, name),
    ensures
        posted_under(postings, name) == 0,
    decreases postings.len(),
{
    if postings.len() > 0 {
        assert(postings[postings.len() - 1].name != Some(name));
        assert(!is_posted(postings.drop_last(), name)) by {
            if is_posted(postings.drop_last(), name) {
                let at = choose|i: int|
                    0 <= i < postings.drop_last().len() && (#[trigger] postings.drop_last()[i]).name
                        == Some(name);
                assert(postings[at].name == Some(name));
            }
        }
        lemma_nothing_posted(postings.drop_last(), name);
    }
}

/// The tally of some postings, with one more posted to it under a name, is the tally of
/// the postings with that one behind them.
pub proof fn lemma_posting_keeps_tally(
    before: Seq<(Seq<char>, int)>,
    after: Seq<(Seq<char>, int)>,
    postings: Seq<Posting>,
    name: Seq<char>,
    minutes: int,
)
    requires
        is_tally_of(before, postings),
        is_posted_to(before, after, name, minutes),
    ensures
        is_tally_of(after, postings.push(Posting { name: Some(name), minutes })),
{
    let longer = postings.push(Posting { name: Some(name), minutes });
    assert(longer.drop_last() =~= postings);
    assert(longer[postings.len() as int].name == Some(name));
    assert forall|other: Seq<char>| is_posted(postings, other) implies is_posted(longer, other) by {
        let at = choose|i: int| 0 <= i < postings.len() && (#[trigger] postings[i]).name == Some(other);
        assert(longer[at].name == Some(other));
    }
    assert forall|i: int| 0 <= i < after.len() implies is_posted(longer, (#[trigger] after[i]).0)
        && after[i].1 == posted_under(longer, after[i].0) by {
        if after[i].0 == name {
            if has_row(before, name) {
                let j = choose|j: int|
                    0 <= j < before.len() && (#[trigger] before[j]).0 == name && after[i].1
                        == before[j].1 + minutes;
                assert(before[j].1 == posted_under(postings, name));
            } else {
                if is_posted(postings, name) {
                    let at = choose|k: int| 0 <= k < before.len() && (#[trigger] before[k]).0 == name;
                    assert(has_row(before, name));
                }
                lemma_nothing_posted(postings, name);
            }
        } else {
            let j = choose|j: int| 0 <= j < before.len() && #[trigger] before[j] == after[i];
            assert(is_posted(postings, before[j].0));
        }
    }
    assert forall|other: Seq<char>| #[trigger] is_posted(longer, other) implies exists|i: int|
        0 <= i < after.len() && (#[trigger] after[i]).0 == other by {
        if other != name {
            let at = choose|i: int| 0 <= i < longer.len() && (#[trigger] longer[i]).name == Some(other);
            assert(postings[at].name == Some(other));
            assert(is_posted(postings, other));
            let row = choose|i: int| 0 <= i < before.len() && (#[trigger] before[i]).0 == other;
            assert(has_row(after, before[row].0));
        }
    }
}

/// The tally of some postings is the tally of the postings with one behind them that
/// counts under no name.
pub proof fn lemma_unnamed_keeps_tally(
    table: Seq<(Seq<char>, int)>,
    postings: Seq<Posting>,
    minutes: int,
)
    requires
        is_tally_of(table, postings),
    ensures
        is_tally_of(table, postings.push(Posting { name: None, minutes })),
        posted(postings.push(Posting { name: None, minutes })) == posted(postings),
{
    let longer = postings.push(Posting { name: None, minutes });
    assert(longer.drop_last() =~= postings);
    assert forall|other: Seq<char>| is_posted(postings, other) implies is_posted(longer, other) by {
        let at = choose|i: int| 0 <= i < postings.len() && (#[trigger] postings[i]).name == Some(other);
        assert(longer[at].name == Some(other));
    }
    assert forall|other: Seq<char>| #[trigger] is_posted(longer, other) implies exists|i: int|
        0 <= i < table.len() && (#[trigger] table[i]).0 == other by {
        let at = choose|i: int| 0 <= i < longer.len() && (#[trigger] longer[i]).name == Some(other);
        assert(postings[at].name == Some(other));
        assert(is_posted(postings, other));
    }
}

/// The postings have one tally and no other.
pub proof fn lemma_tally_is_unique(
    left: Seq<(Seq<char>, int)>,
    right: Seq<(Seq<char>, int)>,
    postings: Seq<Posting>,
)
    requires
        is_tally_of(left, postings),
        is_tally_of(right, postings),
    ensures
        left == right,
    decreases left.len(),
{
    if left.len() == 0 {
        if right.len() > 0 {
            assert(is_posted(postings, right[0].0));
        }
        assert(left =~= right);
    } else if right.len() == 0 {
        assert(is_posted(postings, left[0].0));
    } else {
        let last = left.len() - 1;
        let other = right.len() - 1;
        assert(is_posted(postings, left[last].0));
        assert(is_posted(postings, right[other].0));
        let in_right = choose|i: int| 0 <= i < right.len() && (#[trigger] right[i]).0 == left[last].0;
        let in_left = choose|i: int| 0 <= i < left.len() && (#[trigger] left[i]).0 == right[other].0;
        lemma_text_order_is_total(left[last].0, right[other].0);
        lemma_text_order_is_total(right[other].0, left[last].0);
        if in_right < other {
            assert(text_precedes(right[in_right].0, right[other].0));
        }
        if in_left < last {
            assert(text_precedes(left[in_left].0, left[last].0));
        }
        assert(left[last].0 == right[other].0);
        let name = left[last].0;
        assert(left[last] == right[other]);
        lemma_tally_without_last(left, postings);
        lemma_tally_without_last(right, postings);
        lemma_tally_is_unique(left.drop_last(), right.drop_last(), without_name(postings, name));
        assert(left =~= left.drop_last().push(left[last]));
        assert(right =~= right.drop_last().push(right[other]));
    }
}

/// The postings with those under `name` taken out.
pub open spec fn without_name(postings: Seq<Posting>, name: Seq<char>) -> Seq<Posting>
    decreases postings.len(),
{
    if postings.len() == 0 {
        Seq::empty()
    } else if postings.last().name == Some(name) {
        without_name(postings.drop_last(), name)
    } else {
        without_name(postings.drop_last(), name).push(postings.last())
    }
}

/// Taking the postings under one name out leaves what counts under every other name.
proof fn lemma_without_name(postings: Seq<Posting>, name: Seq<char>, other: Seq<char>)
    ensures
        !is_posted(without_name(postings, name), name),
        other != name ==> posted_under(without_name(postings, name), other) == posted_under(
            postings,
            other,
        ),
        other != name ==> (is_posted(without_name(postings, name), other) <==> is_posted(
            postings,
            other,
        )),
    decreases postings.len(),
{
    if postings.len() > 0 {
        let front = postings.drop_last();
        let rest = without_name(front, name);
        let all = without_name(postings, name);
        lemma_without_name(front, name, other);
        if postings.last().name == Some(name) {
            if other != name {
                if is_posted(postings, other) {
                    let at = choose|i: int| 0 <= i < postings.len() && (#[trigger] postings[i]).name == Some(other);
                    assert(front[at].name == Some(other));
                }
                if is_posted(front, other) {
                    let at = choose|i: int| 0 <= i < front.len() && (#[trigger] front[i]).name == Some(other);
                    assert(postings[at].name == Some(other));
                }
            }
        } else {
            assert(all.drop_last() =~= rest);
            assert(all.last() == postings.last());
            if is_posted(all, name) {
                let at = choose|i: int| 0 <= i < all.len() && (#[trigger] all[i]).name == Some(name);
                if at < rest.len() {
                    assert(rest[at].name == Some(name));
                }
            }
            if other != name {
                if is_posted(postings, other) {
                    let at = choose|i: int| 0 <= i < postings.len() && (#[trigger] postings[i]).name == Some(other);
                    if at < front.len() {
                        assert(front[at].name == Some(other));
                        let to = choose|i: int| 0 <= i < rest.len() && (#[trigger] rest[i]).name == Some(other);
                        assert(all[to].name == Some(other));
                    } else {
                        assert(all[all.len() - 1].name == Some(other));
                    }
                }
                if is_posted(all, other) {
                    let at = choose|i: int| 0 <= i < all.len() && (#[trigger] all[i]).name == Some(other);
                    if at < rest.len() {
                        assert(rest[at].name == Some(other));
                        let to = choose|i: int| 0 <= i < front.len() && (#[trigger] front[i]).name == Some(other);
                        assert(postings[to].name == Some(other));
                    } else {
                        assert(postings[postings.len() - 1].name == Some(other));
                    }
                }
            }
        }
    }
}

/// A tally without its last row is the tally of the postings without those under the
/// name of that row.
proof fn lemma_tally_without_last(table: Seq<(Seq<char>, int)>, postings: Seq<Posting>)
    requires
        is_tally_of(table, postings),
        table.len() > 0,
    ensures
        is_tally_of(table.drop_last(), without_name(postings, table.last().0)),
{
    let name = table.last().0;
    let front = table.drop_last();
    let rest = without_name(postings, name);
    assert forall|i: int, j: int| 0 <= i < j < front.len() implies text_precedes(
        (#[trigger] front[i]).0,
        (#[trigger] front[j]).0,
    ) by {
        assert(front[i] == table[i] && front[j] == table[j]);
    }
    assert forall|i: int| 0 <= i < front.len() implies is_posted(rest, (#[trigger] front[i]).0)
        && front[i].1 == posted_under(rest, front[i].0) by {
        assert(front[i] == table[i]);
        assert(text_precedes(table[i].0, table[table.len() - 1].0));
        lemma_text_order_is_total(table[i].0, name);
        lemma_without_name(postings, name, front[i].0);
    }
    assert forall|other: Seq<char>| #[trigger] is_posted(rest, other) implies exists|i: int|
        0 <= i < front.len() && (#[trigger] front[i]).0 == other by {
        lemma_without_name(postings, name, other);
        assert(is_posted(postings, other));
        let at = choose|i: int| 0 <= i < table.len() && (#[trigger] table[i]).0 == other;
        assert(front[at] == table[at]);
    }
}

} // verus!
