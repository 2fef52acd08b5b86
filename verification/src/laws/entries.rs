//! What is kept under keys.

use vstd::prelude::*;

use crate::order;

verus! {

/// What is put under a key is found under it, and what stood under other keys stays.
pub proof fn law_other_entries_stay<V>(
    before: Seq<(Seq<char>, V)>,
    key: Seq<char>,
    value: V,
    other: (Seq<char>, V),
)
    requires
        order::keys_ascend(before),
    ensures
        order::put(before, key, value).contains((key, value)),
        other.0 != key ==> (order::put(before, key, value).contains(other) <==> before.contains(
            other,
        )),
        other.0 == key && order::put(before, key, value).contains(other) ==> other.1 == value,
{
    let after = order::put(before, key, value);
    let at = order::rank(before, key) as int;
    order::lemma_rank(before, key);
    order::law_put_keeps_the_order(before, key, value);
    assert(after[at] == (key, value));
    if before.contains(other) && other.0 != key {
        let i = choose|i: int| 0 <= i < before.len() && before[i] == other;
        if order::has_entry(before, key) || i < at {
            assert(after[i] == other);
        } else {
            assert(after[i + 1] == other);
        }
    }
    if after.contains(other) {
        let i = choose|i: int| 0 <= i < after.len() && after[i] == other;
        if other.0 != key {
            if order::has_entry(before, key) || i < at {
                assert(before[i] == other);
            } else {
                assert(before[i - 1] == other);
            }
        } else if i != at {
            order::lemma_text_total(key, key);
            if i < at {
                assert(order::text_less(after[i].0, after[at].0));
            } else {
                assert(order::text_less(after[at].0, after[i].0));
            }
        }
    }
}

/// An entry is found under its key, and only where it stands.
pub proof fn law_entries_are_found<V>(entries: Seq<(Seq<char>, V)>, key: Seq<char>, value: V)
    requires
        order::keys_ascend(entries),
    ensures
        entries.contains((key, value)) <==> order::has_entry(entries, key)
            && entries[order::rank(entries, key) as int].1 == value,
{
    order::lemma_rank(entries, key);
    if entries.contains((key, value)) {
        let at = choose|at: int| 0 <= at < entries.len() && entries[at] == (key, value);
        order::lemma_text_total(key, key);
        assert forall|i: int| 0 <= i < at implies order::text_less((#[trigger] entries[i]).0, key) by {
            assert(order::text_less(entries[i].0, entries[at].0));
        }
        order::lemma_rank_is(entries, key, at);
    }
    if order::has_entry(entries, key) && entries[order::rank(entries, key) as int].1 == value {
        assert(entries[order::rank(entries, key) as int] == (key, value));
    }
}

/// Each key comes before all that stand behind it, so that no key stands twice.
pub proof fn law_keys_stand_in_order<V>(entries: Seq<(Seq<char>, V)>, i: int, j: int)
    requires
        order::keys_ascend(entries),
        0 <= i < j < entries.len(),
    ensures
        order::text_less(entries[i].0, entries[j].0),
        entries[i].0 != entries[j].0,
{
    order::lemma_text_total(entries[i].0, entries[i].0);
}

/// Texts are in the order of the dictionary: the first character in which two differ decides,
/// and a text comes behind its beginnings.
pub proof fn law_texts_are_ordered_by_characters(start: Seq<char>, a: Seq<char>, b: Seq<char>)
    ensures
        a.len() > 0 && b.len() > 0 && a[0] < b[0] ==> order::text_less(start + a, start + b),
        b.len() > 0 ==> order::text_less(start, start + b),
        !order::text_less(start, start),
    decreases start.len(),
{
    if start.len() > 0 {
        law_texts_are_ordered_by_characters(start.skip(1), a, b);
        assert((start + a).skip(1) =~= start.skip(1) + a);
        assert((start + b).skip(1) =~= start.skip(1) + b);
    } else {
        assert(start + a =~= a);
        assert(start + b =~= b);
    }
}

} // verus!
