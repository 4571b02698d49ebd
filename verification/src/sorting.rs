use vstd::prelude::*;

use crate::text::lemma_text_order_is_total;
use crate::text::lemma_text_order_is_transitive;
use crate::text::precedes;
use crate::text::text_precedes;

verus! {

/// Rows under names, as plain values.
pub open spec fn rows_of<T: View>(rows: Seq<(String, T)>) -> Seq<(Seq<char>, T::V)> {
    Seq::new(rows.len(), |i: int| (rows[i].0@, rows[i].1@))
}

/// The rows under one name, in their order.
pub open spec fn named<V>(rows: Seq<(Seq<char>, V)>, name: Seq<char>) -> Seq<(Seq<char>, V)>
    decreases rows.len(),
{
    if rows.len() == 0 {
        Seq::empty()
    } else if rows.last().0 == name {
        named(rows.drop_last(), name).push(rows.last())
    } else {
        named(rows.drop_last(), name)
    }
}

/// Whether no row stands behind a row whose name comes after its own.
pub open spec fn is_in_order<V>(rows: Seq<(Seq<char>, V)>) -> bool {
    forall|i: int, j: int|
        0 <= i < j < rows.len() ==> !text_precedes((#[trigger] rows[j]).0, (#[trigger] rows[i]).0)
}

/// Whether `sorted` holds the rows of `rows` in the order of their names, the rows of one
/// name in the order that they have in `rows`. There is one such list and no other.
pub open spec fn is_sorted_by_name<V>(sorted: Seq<(Seq<char>, V)>, rows: Seq<(Seq<char>, V)>) -> bool {
    &&& sorted.len() == rows.len()
    &&& is_in_order(sorted)
    &&& forall|name: Seq<char>| #[trigger] named(sorted, name) == named(rows, name)
}

/// The rows under a name in two lists, one behind the other, are those of the first and
/// behind them those of the second.
proof fn lemma_named_joins<V>(front: Seq<(Seq<char>, V)>, back: Seq<(Seq<char>, V)>, name: Seq<char>)
    ensures
        named(front + back, name) == named(front, name) + named(back, name),
    decreases back.len(),
{
    if back.len() == 0 {
        assert(front + back =~= front);
        assert(named(front, name) + named(back, name) =~= named(front, name));
    } else {
        lemma_named_joins(front, back.drop_last(), name);
        assert((front + back).drop_last() =~= front + back.drop_last());
        assert((front + back).last() == back.last());
        if back.last().0 == name {
            assert(named(front, name) + named(back.drop_last(), name).push(back.last()) =~= (named(
                front,
                name,
            ) + named(back.drop_last(), name)).push(back.last()));
        }
    }
}

/// A single row is under its own name and under no other.
proof fn lemma_named_single<V>(row: (Seq<char>, V), name: Seq<char>)
    ensures
        named(seq![row], name) == if row.0 == name {
            seq![row]
        } else {
            Seq::<(Seq<char>, V)>::empty()
        },
{
    let none = Seq::<(Seq<char>, V)>::empty();
    assert(seq![row].drop_last() =~= none);
    assert(named(none, name) =~= none);
    assert(seq![row].last() == row);
    assert(none.push(row) =~= seq![row]);
}

/// No row is under a name that no row has.
proof fn lemma_none_named<V>(rows: Seq<(Seq<char>, V)>, name: Seq<char>)
    requires
        forall|i: int| 0 <= i < rows.len() ==> (#[trigger] rows[i]).0 != name,
    ensures
        named(rows, name) == Seq::<(Seq<char>, V)>::empty(),
    decreases rows.len(),
{
    if rows.len() > 0 {
        assert(rows[rows.len() - 1].0 != name);
        assert forall|i: int| 0 <= i < rows.drop_last().len() implies (
        #[trigger] rows.drop_last()[i]).0 != name by {
            assert(rows.drop_last()[i] == rows[i]);
        }
        lemma_none_named(rows.drop_last(), name);
    }
}

/// A row that goes in behind every row whose name comes before its own, and before the
/// others, keeps a list in order and comes first among the rows of its name.
proof fn lemma_row_goes_in<V>(rows: Seq<(Seq<char>, V)>, place: int, row: (Seq<char>, V))
    requires
        is_in_order(rows),
        0 <= place <= rows.len(),
        forall|i: int| 0 <= i < place ==> text_precedes((#[trigger] rows[i]).0, row.0),
        place < rows.len() ==> !text_precedes(rows[place].0, row.0),
    ensures
        is_in_order(rows.insert(place, row)),
        forall|name: Seq<char>| #[trigger]
            named(rows.insert(place, row), name) == if name == row.0 {
                seq![row] + named(rows, name)
            } else {
                named(rows, name)
            },
{
    let longer = rows.insert(place, row);
    assert forall|j: int| place <= j < rows.len() implies !text_precedes(
        (#[trigger] rows[j]).0,
        row.0,
    ) by {
        if j > place && text_precedes(rows[j].0, row.0) {
            assert(!text_precedes(rows[j].0, rows[place].0));
            lemma_text_order_is_total(rows[place].0, row.0);
            if rows[place].0 != row.0 {
                lemma_text_order_is_transitive(rows[j].0, row.0, rows[place].0);
            }
        }
    }
    assert forall|i: int, j: int| 0 <= i < j < longer.len() implies !text_precedes(
        (#[trigger] longer[j]).0,
        (#[trigger] longer[i]).0,
    ) by {
        if j < place {
            assert(longer[i] == rows[i] && longer[j] == rows[j]);
        } else if j == place {
            assert(longer[i] == rows[i]);
            lemma_text_order_is_total(rows[i].0, row.0);
        } else if i < place {
            assert(longer[i] == rows[i] && longer[j] == rows[j - 1]);
        } else if i == place {
            assert(longer[j] == rows[j - 1]);
        } else {
            assert(longer[i] == rows[i - 1] && longer[j] == rows[j - 1]);
        }
    }
    assert forall|name: Seq<char>| #[trigger]
        named(longer, name) == if name == row.0 {
            seq![row] + named(rows, name)
        } else {
            named(rows, name)
        } by {
        let front = rows.take(place);
        let back = rows.skip(place);
        assert(longer =~= (front + seq![row]) + back);
        assert(rows =~= front + back);
        lemma_named_joins(front + seq![row], back, name);
        lemma_named_joins(front, seq![row], name);
        lemma_named_joins(front, back, name);
        lemma_named_single(row, name);
        if name == row.0 {
            assert forall|i: int| 0 <= i < front.len() implies (#[trigger] front[i]).0 != name by {
                assert(front[i] == rows[i]);
                lemma_text_order_is_total(rows[i].0, row.0);
            }
            lemma_none_named(front, name);
            assert(Seq::<(Seq<char>, V)>::empty() + seq![row] + named(back, name) =~= seq![row] + (
            Seq::<(Seq<char>, V)>::empty() + named(back, name)));
        } else {
            assert(named(front, name) + Seq::<(Seq<char>, V)>::empty() + named(back, name) =~= named(
                front,
                name,
            ) + named(back, name));
        }
    }
}

/// A list that holds a row under a name holds a row with that name.
proof fn lemma_named_row_is_there<V>(rows: Seq<(Seq<char>, V)>, name: Seq<char>)
    requires
        named(rows, name).len() > 0,
    ensures
        exists|i: int| 0 <= i < rows.len() && (#[trigger] rows[i]).0 == name,
    decreases rows.len(),
{
    if rows.len() > 0 {
        if rows.last().0 == name {
            assert(rows[rows.len() - 1].0 == name);
        } else {
            lemma_named_row_is_there(rows.drop_last(), name);
            let at = choose|i: int|
                0 <= i < rows.drop_last().len() && (#[trigger] rows.drop_last()[i]).0 == name;
            assert(rows[at].0 == name);
        }
    }
}

/// Two lists in order that hold the same rows under every name are one list.
proof fn lemma_order_and_names_tell_all<V>(left: Seq<(Seq<char>, V)>, right: Seq<(Seq<char>, V)>)
    requires
        left.len() == right.len(),
        is_in_order(left),
        is_in_order(right),
        forall|name: Seq<char>| #[trigger] named(left, name) == named(right, name),
    ensures
        left == right,
    decreases left.len(),
{
    if left.len() == 0 {
        assert(left =~= right);
    } else {
        let last = left.len() - 1;
        let name = left[last].0;
        let other = right[last].0;
        assert(named(left, name) == named(right, name));
        assert(named(left, other) == named(right, other));
        lemma_named_row_is_there(right, name);
        lemma_named_row_is_there(left, other);
        let in_right = choose|i: int| 0 <= i < right.len() && (#[trigger] right[i]).0 == name;
        let in_left = choose|i: int| 0 <= i < left.len() && (#[trigger] left[i]).0 == other;
        lemma_text_order_is_total(name, other);
        lemma_text_order_is_total(other, name);
        if in_right < last {
            assert(!text_precedes(right[last].0, right[in_right].0));
        }
        if in_left < last {
            assert(!text_precedes(left[last].0, left[in_left].0));
        }
        assert(name == other);
        assert(named(left, name).last() == left[last]);
        assert(named(right, name).last() == right[last]);
        let shorter_left = left.drop_last();
        let shorter_right = right.drop_last();
        assert forall|i: int, j: int| 0 <= i < j < shorter_left.len() implies !text_precedes(
            (#[trigger] shorter_left[j]).0,
            (#[trigger] shorter_left[i]).0,
        ) by {
            assert(shorter_left[i] == left[i] && shorter_left[j] == left[j]);
        }
        assert forall|i: int, j: int| 0 <= i < j < shorter_right.len() implies !text_precedes(
            (#[trigger] shorter_right[j]).0,
            (#[trigger] shorter_right[i]).0,
        ) by {
            assert(shorter_right[i] == right[i] && shorter_right[j] == right[j]);
        }
        assert forall|any: Seq<char>| #[trigger]
            named(shorter_left, any) == named(shorter_right, any) by {
            assert(named(left, any) == named(right, any));
            if any == name {
                assert(named(shorter_left, any) =~= named(left, any).drop_last());
                assert(named(shorter_right, any) =~= named(right, any).drop_last());
            }
        }
        lemma_order_and_names_tell_all(shorter_left, shorter_right);
        assert(left =~= shorter_left.push(left[last]));
        assert(right =~= shorter_right.push(right[last]));
    }
}

/// The rows have one list that is sorted by name and no other.
pub proof fn lemma_sorted_by_name_is_unique<V>(
    left: Seq<(Seq<char>, V)>,
    right: Seq<(Seq<char>, V)>,
    rows: Seq<(Seq<char>, V)>,
)
    requires
        is_sorted_by_name(left, rows),
        is_sorted_by_name(right, rows),
    ensures
        left == right,
{
    assert forall|name: Seq<char>| #[trigger] named(left, name) == named(right, name) by {
        assert(named(left, name) == named(rows, name));
        assert(named(right, name) == named(rows, name));
    }
    lemma_order_and_names_tell_all(left, right);
}

/// Puts rows in the order of their names. Rows of one name keep the order that they have
/// among themselves.
pub fn sort_by_name<T: View>(rows: Vec<(String, T)>) -> (sorted: Vec<(String, T)>)
    ensures
        is_sorted_by_name(rows_of(sorted@), rows_of(rows@)),
{
    let ghost all = rows_of(rows@);
    let mut rows = rows;
    let mut sorted: Vec<(String, T)> = Vec::new();
    proof {
        assert(all.skip(all.len() as int) =~= Seq::<(Seq<char>, T::V)>::empty());
        assert(rows_of(sorted@) =~= Seq::<(Seq<char>, T::V)>::empty());
    }
    while rows.len() > 0
        invariant
            rows@.len() <= all.len(),
            rows_of(rows@) == all.take(rows@.len() as int),
            sorted@.len() == all.len() - rows@.len(),
            is_in_order(rows_of(sorted@)),
            forall|name: Seq<char>| #[trigger]
                named(rows_of(sorted@), name) == named(all.skip(rows@.len() as int), name),
        decreases rows.len(),
    {
        let ghost before = rows_of(sorted@);
        let ghost left = rows@.len() - 1;
        let ghost waiting = rows_of(rows@);
        let row = rows.pop().unwrap();
        proof {
            assert((row.0@, row.1@) == waiting[left]);
            assert(waiting[left] == all[left]);
            assert(rows_of(rows@) =~= all.take(left));
        }
        let mut place: usize = 0;
        while place < sorted.len() && precedes(sorted[place].0.as_str(), row.0.as_str())
            invariant
                place <= sorted.len(),
                before == rows_of(sorted@),
                forall|i: int| 0 <= i < place ==> text_precedes((#[trigger] before[i]).0, row.0@),
            decreases sorted.len() - place,
        {
            assert(before[place as int].0 == sorted@[place as int].0@);
            place += 1;
        }
        proof {
            if place < sorted.len() {
                assert(before[place as int].0 == sorted@[place as int].0@);
            }
            lemma_row_goes_in(before, place as int, all[left]);
        }
        sorted.insert(place, row);
        proof {
            assert(rows_of(sorted@) =~= before.insert(place as int, all[left]));
            assert(all.skip(left) =~= seq![all[left]] + all.skip(left + 1));
            assert forall|name: Seq<char>| #[trigger]
                named(rows_of(sorted@), name) == named(all.skip(left), name) by {
                assert(named(before.insert(place as int, all[left]), name) == if name == all[left].0 {
                    seq![all[left]] + named(before, name)
                } else {
                    named(before, name)
                });
                assert(named(before, name) == named(all.skip(left + 1), name));
                lemma_named_joins(seq![all[left]], all.skip(left + 1), name);
                lemma_named_single(all[left], name);
                if name != all[left].0 {
                    assert(Seq::<(Seq<char>, T::V)>::empty() + named(all.skip(left + 1), name)
                        =~= named(all.skip(left + 1), name));
                }
            }
        }
    }
    proof {
        assert(all.skip(0) =~= all);
    }
    sorted
}

} // verus!
