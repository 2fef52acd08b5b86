//! What holds of texts, numbers and values.

use vstd::prelude::*;
use vstd::string::*;

use crate::json;
use crate::json::JsonTree;
use crate::names;
use crate::text;

verus! {

// ---------------------------------------------------------------------------
// Parts of texts
// ---------------------------------------------------------------------------

/// Of the characters of plain text just the blank and those from the tabulator to the return are
/// white; no letter, digit or mark is.
pub proof fn law_blanks_are_white(c: char)
    ensures
        c == ' ' || c == '\t' || c == '\n' || c == '\r' ==> text::is_white(c),
        '!' <= c <= '~' ==> !text::is_white(c),
        (c as u32) < 9 ==> !text::is_white(c),
{
}

/// Whether all characters of a text are white.
pub open spec fn all_white(text: Seq<char>) -> bool {
    forall|i: int| 0 <= i < text.len() ==> text::is_white(#[trigger] text[i])
}

proof fn lemma_start(text: Seq<char>) -> (k: int)
    ensures
        0 <= k <= text.len(),
        text::trimmed_start(text) == text.skip(k),
        all_white(text.take(k)),
        k < text.len() ==> !text::is_white(text[k]),
    decreases text.len(),
{
    if text.len() > 0 && text::is_white(text[0]) {
        let rest = text.skip(1);
        let k = lemma_start(rest);
        assert(rest.skip(k) =~= text.skip(k + 1));
        assert forall|i: int| 0 <= i < k + 1 implies text::is_white(
            #[trigger] text.take(k + 1)[i],
        ) by {
            if i > 0 {
                assert(rest.take(k)[i - 1] == text[i]);
            }
        }
        if k < rest.len() {
            assert(rest[k] == text[k + 1]);
        }
        k + 1
    } else {
        assert(text.skip(0) =~= text);
        0
    }
}

proof fn lemma_end(text: Seq<char>) -> (n: int)
    ensures
        0 <= n <= text.len(),
        text::trimmed_end(text) == text.take(n),
        all_white(text.skip(n)),
        n > 0 ==> !text::is_white(text[n - 1]),
    decreases text.len(),
{
    if text.len() > 0 && text::is_white(text.last()) {
        let front = text.drop_last();
        let n = lemma_end(front);
        assert(front.take(n) =~= text.take(n));
        assert forall|i: int| 0 <= i < text.skip(n).len() implies text::is_white(
            #[trigger] text.skip(n)[i],
        ) by {
            if i < front.skip(n).len() {
                assert(front.skip(n)[i] == text.skip(n)[i]);
            }
        }
        n
    } else {
        assert(text.take(text.len() as int) =~= text);
        text.len() as int
    }
}

/// To trim a text takes the white characters off both its ends, and no other.
pub proof fn law_trimming_takes_off_white(text: Seq<char>)
    ensures
        exists|head: Seq<char>, tail: Seq<char>|
            text == #[trigger] (head + text::trimmed(text) + tail) && all_white(head) && all_white(
                tail,
            ),
        text::trimmed(text).len() > 0 ==> !text::is_white(text::trimmed(text)[0])
            && !text::is_white(text::trimmed(text).last()),
        text::is_blank(text) <==> all_white(text),
{
    let k = lemma_start(text);
    let rest = text.skip(k);
    let n = lemma_end(rest);
    let core = text::trimmed(text);
    let head = text.take(k);
    let tail = rest.skip(n);
    assert(text =~= head + core + tail);
    if core.len() > 0 {
        assert(core[0] == text[k]);
        assert(core.last() == rest[n - 1]);
    }
    if all_white(text) && k < text.len() {
        assert(text::is_white(text[k]));
    }
    if core.len() == 0 {
        assert forall|i: int| 0 <= i < text.len() implies text::is_white(#[trigger] text[i]) by {
            if i < k {
                assert(head[i] == text[i]);
            } else {
                assert(tail[i - k] == text[i]);
            }
        }
    }
}

/// A text that is cut is whole where it is short enough; else its beginning with the mark.
pub proof fn law_cutting_keeps_the_beginning(text: Seq<char>, max: nat, mark: Seq<char>)
    ensures
        text.len() <= max ==> text::cut(text, max, mark) == text,
        text.len() > max ==> text::cut(text, max, mark).len() == max + mark.len() && forall|i: int|
            0 <= i < max ==> (#[trigger] text::cut(text, max, mark)[i]) == text[i],
        text.len() > max ==> mark.is_suffix_of(text::cut(text, max, mark)),
{
    if text.len() > max {
        let kept = text::cut(text, max, mark);
        assert(mark =~= kept.subrange(kept.len() - mark.len(), kept.len() as int));
    }
}

/// The recent part of a text is whole where it is short enough; else its end.
pub proof fn law_the_end_is_recent(text: Seq<char>, count: nat)
    ensures
        text::recent(text, count).is_suffix_of(text),
        text.len() <= count ==> text::recent(text, count) == text,
        text.len() > count ==> text::recent(text, count).len() == count,
{
    let end = text::recent(text, count);
    assert(end =~= text.subrange(text.len() - end.len(), text.len() as int));
}

/// Texts are joined in their order, with the separator between each two.
pub proof fn law_texts_are_joined(list: Seq<Seq<char>>, last: Seq<char>, separator: Seq<char>)
    ensures
        text::joined(Seq::empty(), separator).len() == 0,
        list.len() == 0 ==> text::joined(list.push(last), separator) == last,
        list.len() > 0 ==> text::joined(list.push(last), separator) == text::joined(list, separator)
            + separator + last,
{
    assert(list.push(last).drop_last() =~= list);
}

/// What is behind a beginning is the rest, where the text has that beginning.
pub proof fn law_the_rest_is_behind(text: Seq<char>, prefix: Seq<char>)
    ensures
        text::behind(text, prefix) matches Some(rest) ==> text == prefix + rest,
        text::behind(text, prefix) is None <==> !prefix.is_prefix_of(text),
        text::behind(prefix + text, prefix) == Some(text),
{
    if text::behind(text, prefix) is Some {
        assert(text =~= prefix + text::behind(text, prefix)->0);
    }
    assert((prefix + text).subrange(0, prefix.len() as int) =~= prefix);
    assert((prefix + text).skip(prefix.len() as int) =~= text);
}

/// An end is taken off a text as often as it stands there.
pub proof fn law_ends_are_taken_off(text: Seq<char>, tail: Seq<char>)
    requires
        tail.len() > 0,
    ensures
        !tail.is_suffix_of(text::without_tail(text, tail)),
        text::without_tail(text, tail).is_prefix_of(text),
        text::without_tail(text + tail, tail) == text::without_tail(text, tail),
        !tail.is_suffix_of(text) ==> text::without_tail(text, tail) == text,
    decreases text.len(),
{
    if tail.is_suffix_of(text) {
        let front = text.take(text.len() - tail.len());
        law_ends_are_taken_off(front, tail);
        assert(text::without_tail(text, tail) =~= text.subrange(
            0,
            text::without_tail(text, tail).len() as int,
        )) by {
            let left = text::without_tail(front, tail);
            assert(left =~= front.subrange(0, left.len() as int));
        }
    } else {
        assert(text =~= text.subrange(0, text.len() as int));
    }
    let more = text + tail;
    assert(tail =~= more.subrange(more.len() - tail.len(), more.len() as int));
    assert(more.take(more.len() - tail.len()) =~= text);
}

/// A text holds another just where it can be parted round it.
pub proof fn law_texts_hold_their_parts(
    text: Seq<char>,
    pattern: Seq<char>,
    head: Seq<char>,
    tail: Seq<char>,
)
    ensures
        text == head + pattern + tail ==> text::has_text(text, pattern),
        text::has_text(text, pattern) ==> exists|a: Seq<char>, b: Seq<char>|
            text == #[trigger] (a + pattern + b),
{
    if text == head + pattern + tail {
        let at = head.len() as int;
        assert(text.subrange(at, at + pattern.len()) =~= pattern);
        assert(text::stands_at(text, pattern, at));
    }
    if text::has_text(text, pattern) {
        let i = choose|i: int| text::stands_at(text, pattern, i);
        let a = text.take(i);
        let b = text.skip(i + pattern.len());
        assert(text.subrange(i, i + pattern.len()) == pattern);
        assert forall|k: int| 0 <= k < pattern.len() implies pattern[k] == text[i + k] by {
            assert(text.subrange(i, i + pattern.len())[k] == text[i + k]);
        }
        assert(text =~= a + pattern + b);
    }
}

/// A text holds one of some patterns just where it holds one of them.
pub proof fn law_any_pattern_will_do(text: Seq<char>, patterns: Seq<Seq<char>>, i: int)
    requires
        0 <= i < patterns.len(),
    ensures
        text::has_text(text, patterns[i]) ==> text::has_any(text, patterns),
        text::has_any(text, patterns) ==> exists|k: int|
            0 <= k < patterns.len() && text::has_text(text, #[trigger] patterns[k]),
{
}

/// A text in small letters has a small letter for each of its capitals, and all else as it is.
pub proof fn law_capitals_are_lowered(text: Seq<char>, i: int)
    requires
        0 <= i < text.len(),
    ensures
        text::lowered(text).len() == text.len(),
        'A' <= text[i] <= 'Z' ==> text::lowered(text)[i] as u32 == text[i] as u32 + 32,
        !('A' <= text[i] <= 'Z') ==> text::lowered(text)[i] == text[i],
        text::lowered(text::lowered(text)) == text::lowered(text),
{
    let low = text::lowered(text);
    assert forall|k: int| 0 <= k < text.len() implies text::lowered(low)[k] == #[trigger] low[k] by {
        assert(low[k] == text::lower(text[k]));
    }
    assert(text::lowered(low) =~= low);
}

// ---------------------------------------------------------------------------
// Numbers
// ---------------------------------------------------------------------------

/// The numeral of a number is made of digits, does not begin with a zero unless it is one, and
/// is read as the number again.
pub proof fn law_numerals_are_read_back(n: nat)
    ensures
        text::numeral(n).len() > 0,
        text::all_digits(text::numeral(n)),
        text::digits_value(text::numeral(n)) == n,
        n > 0 ==> text::numeral(n)[0] != '0',
        n <= u64::MAX ==> text::unsigned_value(text::numeral(n)) == Some(n as u64),
    decreases n,
{
    let said = text::numeral(n);
    if n < 10 {
        assert(said.drop_last() =~= Seq::empty());
        assert(text::digits_value(said.drop_last()) == 0);
        assert(said.last() as nat == n + 48);
    } else {
        law_numerals_are_read_back(n / 10);
        let front = text::numeral(n / 10);
        assert(said.drop_last() =~= front);
        assert(said.last() as nat == n % 10 + 48);
        assert(said[0] == front[0]);
        assert forall|i: int| 0 <= i < said.len() implies text::is_digit(#[trigger] said[i]) by {
            if i < front.len() {
                assert(said[i] == front[i]);
            }
        }
    }
    assert(text::is_digit(said[0]));
}

/// The numeral of a negative number is that of its amount behind a minus.
pub proof fn law_signs_stand_in_front(n: int)
    ensures
        n >= 0 ==> text::signed_numeral(n) == text::numeral(n as nat),
        n < 0 ==> text::signed_numeral(n)[0] == '-' && text::signed_numeral(n).skip(1)
            == text::numeral((-n) as nat),
{
    if n < 0 {
        assert(text::signed_numeral(n).skip(1) =~= text::numeral((-n) as nat));
    }
}

/// A number is read of digits, behind a plus or not, and of nothing else; and not where it is
/// too large.
pub proof fn law_only_digits_are_numbers(said: Seq<char>, i: int)
    requires
        0 <= i < said.len(),
    ensures
        i > 0 && !('0' <= said[i] <= '9') ==> text::unsigned_value(said) is None,
        !('0' <= said[0] <= '9') && said[0] != '+' ==> text::unsigned_value(said) is None,
        said.len() == 1 && said[0] == '+' ==> text::unsigned_value(said) is None,
        said[0] != '+' ==> text::unsigned_value(seq!['+'] + said) == text::unsigned_value(said),
        text::unsigned_value(Seq::empty()) is None,
        text::digits_value(said) > u64::MAX && text::all_digits(said) ==> text::unsigned_value(said)
            is None,
{
    if said[0] == '+' {
        let rest = said.skip(1);
        if i > 0 {
            assert(rest[i - 1] == said[i]);
        }
        assert(!text::is_digit(said[0]));
    }
    if !text::is_digit(said[i]) {
        assert(!text::all_digits(said));
    }
    let more = seq!['+'] + said;
    assert(more.skip(1) =~= said);
}

// ---------------------------------------------------------------------------
// Values
// ---------------------------------------------------------------------------

/// The fields of an object are found under their keys; no other value has fields.
pub proof fn law_fields_are_found(fields: json::Fields, key: Seq<char>, value: JsonTree)
    ensures
        JsonTree::Object(fields.insert(key, value)).get(key) == Some(value),
        forall|other: Seq<char>|
            other != key ==> (#[trigger] JsonTree::Object(fields.insert(key, value)).get(other))
                == JsonTree::Object(fields).get(other),
        JsonTree::Object(json::no_fields()).get(key) is None,
        !(value is Object) ==> value.get(key) is None,
{
}

/// A value is taken for what it is: a text for its text, a truth for itself and a whole number
/// that is not negative for itself.
pub proof fn law_values_are_what_they_are(tree: JsonTree, key: Seq<char>, value: JsonTree)
    requires
        tree.get(key) == Some(value),
    ensures
        value matches JsonTree::Text(said) ==> tree.get_text(key) == Some(said),
        !(value is Text) ==> tree.get_text(key) is None,
        value matches JsonTree::Integer(n) ==> (0 <= n <= u64::MAX ==> tree.get_unsigned(key)
            == Some(n as u64)),
        value matches JsonTree::Integer(n) ==> (n < 0 || n > u64::MAX ==> tree.get_unsigned(key)
            is None),
        !(value is Integer) ==> tree.get_unsigned(key) is None,
        value matches JsonTree::Bool(b) ==> value.as_truth() == Some(b),
        !(value is Bool) ==> value.as_truth() is None,
{
}

/// What is missing is null, and what is there is itself.
pub proof fn law_missing_values_are_null(said: Option<Seq<char>>, n: Option<i64>)
    ensures
        said is None <==> json::text_or_null(said) is Null,
        said matches Some(text) ==> json::text_or_null(said) == JsonTree::Text(text),
        n is None <==> json::integer_or_null(n) is Null,
        n matches Some(i) ==> json::integer_or_null(n) == JsonTree::Integer(i as int),
{
}

/// The name of a model is that of the assistant in small letters, with the version behind it.
pub proof fn law_models_are_named(name: Seq<char>, version: &str)
    ensures
        names::model(name, version).take(name.len() as int) == text::lowered(name),
        names::model(name, version).skip(name.len() as int) == version@,
{
    assert(names::model(name, version).take(name.len() as int) =~= text::lowered(name));
    assert(names::model(name, version).skip(name.len() as int) =~= version@);
}

/// A sentence holds the name between its two parts.
pub proof fn law_sentences_hold_the_name(name: Seq<char>, before: &str, after: &str)
    ensures
        ({
            let said = names::sentence(name, before, after);
            &&& before@.is_prefix_of(said)
            &&& after@.is_suffix_of(said)
            &&& text::stands_at(said, name, before@.len() as int)
            &&& said.len() == before@.len() + name.len() + after@.len()
        }),
{
    let said = names::sentence(name, before, after);
    let at = before@.len() as int;
    assert(before@ =~= said.subrange(0, at));
    assert(after@ =~= said.subrange(said.len() - after@.len(), said.len() as int));
    assert(said.subrange(at, at + name.len()) =~= name);
}

} // verus!
