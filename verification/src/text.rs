use vstd::prelude::*;
use vstd::std_specs::iter::IteratorSpec;

use crate::extracttime::digit_value;
use crate::extracttime::is_digit;

verus! {

/// Whether two texts hold the same characters in the same order. The texts are read side
/// by side, character by character, up to the first difference.
pub fn same_text(left: &str, right: &str) -> (same: bool)
    ensures
        same == (left@ == right@),
{
    let mut ours = left.chars();
    let mut theirs = right.chars();
    let ghost mut done: int = 0;
    loop
        invariant
            0 <= done <= left@.len(),
            done <= right@.len(),
            ours.obeys_prophetic_iter_laws(),
            theirs.obeys_prophetic_iter_laws(),
            ours.remaining() == left@.skip(done),
            theirs.remaining() == right@.skip(done),
            left@.take(done) == right@.take(done),
        decreases left@.len() - done,
    {
        match (ours.next(), theirs.next()) {
            (Some(x), Some(y)) => {
                assert(x == left@[done]);
                assert(y == right@[done]);
                if x != y {
                    return false;
                }
                proof {
                    assert(left@.skip(done).drop_first() =~= left@.skip(done + 1));
                    assert(right@.skip(done).drop_first() =~= right@.skip(done + 1));
                    assert(left@.take(done + 1) =~= left@.take(done).push(x));
                    assert(right@.take(done + 1) =~= right@.take(done).push(y));
                    done = done + 1;
                }
            },
            (None, None) => {
                proof {
                    assert(left@.take(done) =~= left@);
                    assert(right@.take(done) =~= right@);
                }
                return true;
            },
            _ => {
                return false;
            },
        }
    }
}

/// What a text that may be missing holds.
pub open spec fn text_view(text: Option<&str>) -> Option<Seq<char>> {
    match text {
        Some(text) => Some(text@),
        None => None,
    }
}

/// The text `true`.
pub open spec fn true_text() -> Seq<char> {
    seq!['t', 'r', 'u', 'e']
}

/// The text `false`.
pub open spec fn false_text() -> Seq<char> {
    seq!['f', 'a', 'l', 's', 'e']
}

/// The truth value that a text writes: only `true` and `false` write one.
pub open spec fn parsed_bool(text: Seq<char>) -> Option<bool> {
    if text == true_text() {
        Some(true)
    } else if text == false_text() {
        Some(false)
    } else {
        None
    }
}

/// Reads `true` or `false`; any other text, these two with other letter case or with
/// white space included, is refused.
pub fn parse_bool(text: &str) -> (parsed: Option<bool>)
    ensures
        parsed == parsed_bool(text@),
{
    proof {
        reveal_strlit("true");
        reveal_strlit("false");
        assert("true"@ =~= true_text());
        assert("false"@ =~= false_text());
    }
    if same_text(text, "true") {
        Some(true)
    } else if same_text(text, "false") {
        Some(false)
    } else {
        None
    }
}

/// The number that a run of decimal digits writes; leading zeros are allowed.
pub open spec fn decimal_value(digits: Seq<char>) -> int
    decreases digits.len(),
{
    if digits.len() == 0 {
        0
    } else {
        decimal_value(digits.drop_last()) * 10 + digit_value(digits.last())
    }
}

/// Whether every character is a decimal digit.
pub open spec fn all_digits(text: Seq<char>) -> bool {
    forall|i: int| 0 <= i < text.len() ==> is_digit(#[trigger] text[i])
}

/// The text without the plus sign that may stand at its front.
pub open spec fn without_plus(text: Seq<char>) -> Seq<char> {
    if text.len() > 0 && text[0] == '+' {
        text.drop_first()
    } else {
        text
    }
}

/// The number that a text writes, if it writes one that is at most `max`: an optional
/// plus sign, then one decimal digit or more, and nothing else.
pub open spec fn parsed_unsigned(text: Seq<char>, max: int) -> Option<int> {
    let digits = without_plus(text);
    if digits.len() > 0 && all_digits(digits) && decimal_value(digits) <= max {
        Some(decimal_value(digits))
    } else {
        None
    }
}

/// How many digits lie among the first `index` characters of a text whose digits begin at
/// `start`.
spec fn digits_read(index: int, start: int) -> int {
    if index >= start {
        index - start
    } else {
        0
    }
}

/// A run of digits writes no smaller a number than any of its prefixes does.
proof fn lemma_prefix_writes_less(digits: Seq<char>, length: int)
    requires
        all_digits(digits),
        0 <= length <= digits.len(),
    ensures
        0 <= decimal_value(digits.take(length)) <= decimal_value(digits),
    decreases digits.len(),
{
    if digits.len() == 0 {
        assert(digits.take(length) =~= digits);
    } else if length == digits.len() {
        assert(digits.take(length) =~= digits);
        lemma_prefix_writes_less(digits.drop_last(), length - 1);
        assert(is_digit(digits.last()));
    } else {
        assert(all_digits(digits.drop_last())) by {
            assert forall|i: int| 0 <= i < digits.drop_last().len() implies is_digit(
                #[trigger] digits.drop_last()[i],
            ) by {
                assert(digits.drop_last()[i] == digits[i]);
            }
        }
        lemma_prefix_writes_less(digits.drop_last(), length);
        assert(digits.drop_last().take(length) =~= digits.take(length));
        assert(is_digit(digits.last()));
    }
}

/// Reads a number written in decimal digits, with or without a plus sign before them, that
/// is at most `max`. An empty text, a sign alone, any other character and a larger number
/// are refused.
pub fn parse_unsigned(text: &str, max: u32) -> (parsed: Option<u32>)
    ensures
        parsed matches Some(value) ==> parsed_unsigned(text@, max as int) == Some(value as int),
        parsed is None ==> parsed_unsigned(text@, max as int) is None,
{
    let ghost digits = without_plus(text@);
    let ghost start: int = if text@.len() > 0 && text@[0] == '+' {
        1
    } else {
        0
    };
    let mut value: u64 = 0;
    let mut seen: bool = false;
    let mut first: bool = true;
    for c in chars: text.chars()
        invariant
            chars.seq() == text@,
            digits == without_plus(text@),
            start == if text@.len() > 0 && text@[0] == '+' {
                1int
            } else {
                0int
            },
            first == (chars.index() == 0),
            seen == (chars.index() > start),
            all_digits(digits.take(digits_read(chars.index(), start))),
            value == decimal_value(digits.take(digits_read(chars.index(), start))),
            value <= max,
    {
        let ghost index = chars.index();
        assert(c == text@[index]);
        if first && c == '+' {
            first = false;
        } else {
            first = false;
            assert(c == digits[index - start]);
            if !('0' <= c && c <= '9') {
                return None;
            }
            let digit: u64 = (c as u32 - '0' as u32) as u64;
            proof {
                let longer = digits.take(index - start + 1);
                assert(longer.drop_last() =~= digits.take(index - start));
                assert(longer.last() == c);
                assert(decimal_value(longer) == value * 10 + digit);
                assert(all_digits(longer));
                if all_digits(digits) {
                    lemma_prefix_writes_less(digits, index - start + 1);
                }
            }
            value = value * 10 + digit;
            if value > max as u64 {
                return None;
            }
            seen = true;
        }
    }
    proof {
        assert(digits.take(digits.len() as int) =~= digits);
    }
    if seen {
        Some(value as u32)
    } else {
        None
    }
}

/// Whether `left` comes before `right` in the order of texts: at the first place where the
/// two differ, `left` has the character with the lower code point, or `left` ends there
/// and `right` does not.
pub open spec fn text_precedes(left: Seq<char>, right: Seq<char>) -> bool
    decreases left.len(),
{
    if right.len() == 0 {
        false
    } else if left.len() == 0 {
        true
    } else if left[0] != right[0] {
        left[0] < right[0]
    } else {
        text_precedes(left.drop_first(), right.drop_first())
    }
}

/// Whether `left` comes before `right` in the order of texts. The texts are read side by
/// side, character by character, up to the first difference.
pub fn precedes(left: &str, right: &str) -> (before: bool)
    ensures
        before == text_precedes(left@, right@),
{
    let mut ours = left.chars();
    let mut theirs = right.chars();
    let ghost mut done: int = 0;
    proof {
        assert(left@.skip(0) =~= left@);
        assert(right@.skip(0) =~= right@);
    }
    loop
        invariant
            0 <= done <= left@.len(),
            done <= right@.len(),
            ours.obeys_prophetic_iter_laws(),
            theirs.obeys_prophetic_iter_laws(),
            ours.remaining() == left@.skip(done),
            theirs.remaining() == right@.skip(done),
            text_precedes(left@, right@) == text_precedes(left@.skip(done), right@.skip(done)),
        decreases left@.len() - done,
    {
        match (ours.next(), theirs.next()) {
            (Some(x), Some(y)) => {
                assert(x == left@.skip(done)[0]);
                assert(y == right@.skip(done)[0]);
                if x != y {
                    return x < y;
                }
                proof {
                    assert(left@.skip(done).drop_first() =~= left@.skip(done + 1));
                    assert(right@.skip(done).drop_first() =~= right@.skip(done + 1));
                    done = done + 1;
                }
            },
            (None, Some(_)) => {
                return true;
            },
            _ => {
                return false;
            },
        }
    }
}

/// Of two texts that differ, exactly one comes before the other; no text comes before
/// itself.
pub proof fn lemma_text_order_is_total(left: Seq<char>, right: Seq<char>)
    ensures
        left == right ==> !text_precedes(left, right),
        left != right ==> (text_precedes(left, right) <==> !text_precedes(right, left)),
    decreases left.len(),
{
    if left.len() > 0 && right.len() > 0 {
        if left[0] == right[0] {
            lemma_text_order_is_total(left.drop_first(), right.drop_first());
            if left.drop_first() == right.drop_first() {
                assert(left =~= seq![left[0]] + left.drop_first());
                assert(right =~= seq![right[0]] + right.drop_first());
            }
        }
    } else if left.len() == 0 && right.len() == 0 {
        assert(left =~= right);
    }
}

/// What comes before a text comes before everything behind that text.
pub proof fn lemma_text_order_is_transitive(first: Seq<char>, second: Seq<char>, third: Seq<char>)
    requires
        text_precedes(first, second),
        text_precedes(second, third),
    ensures
        text_precedes(first, third),
    decreases first.len(),
{
    if first.len() > 0 && second.len() > 0 && third.len() > 0 {
        if first[0] == second[0] && second[0] == third[0] {
            lemma_text_order_is_transitive(
                first.drop_first(),
                second.drop_first(),
                third.drop_first(),
            );
        }
    }
}

} // verus!
