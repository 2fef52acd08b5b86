//! Numbers in JSON reports: a number is an unsigned integer or a string that writes one.

use vstd::prelude::*;
use vstd::string::*;

use crate::json;
use crate::json::{Json, JsonTree};
use crate::text;

verus! {

/// The number of values that 64 bits can hold: sums are taken modulo this number.
pub open spec fn word() -> int {
    0x1_0000_0000_0000_0000
}

/// The number that a value says: an unsigned integer, or a string that writes one; 0
/// for anything else.
pub open spec fn number_of(tree: JsonTree) -> u64 {
    match tree.as_unsigned() {
        Some(n) => n,
        None => match tree.as_text() {
            Some(text) => match text::unsigned_value(text) {
                Some(n) => n,
                None => 0,
            },
            None => 0,
        },
    }
}

/// The number that the field `key` says; 0 where there is none.
pub open spec fn field_number(tree: JsonTree, key: Seq<char>) -> u64 {
    match tree.get(key) {
        Some(value) => number_of(value),
        None => 0,
    }
}

/// The number that the field `inner` of the field `outer` says; 0 where there is none.
pub open spec fn inner_number(tree: JsonTree, outer: Seq<char>, inner: Seq<char>) -> u64 {
    match tree.get(outer) {
        Some(value) => field_number(value, inner),
        None => 0,
    }
}

/// The first of the fields `keys` that says more than 0.
pub open spec fn first_number(tree: JsonTree, keys: Seq<Seq<char>>) -> u64
    decreases keys.len(),
{
    if keys.len() == 0 {
        0
    } else if field_number(tree, keys[0]) > 0 {
        field_number(tree, keys[0])
    } else {
        first_number(tree, keys.skip(1))
    }
}

/// The sum of all numbers in a value, at any depth.
pub open spec fn number_sum(tree: JsonTree) -> int
    decreases tree, 1nat, 0nat,
{
    match tree {
        JsonTree::Integer(_) | JsonTree::Decimal(_) | JsonTree::Text(_) => number_of(tree) as int,
        JsonTree::Array(items) => items_sum(tree, items.len()),
        JsonTree::Object(fields) => fields_sum(tree, fields.dom()),
        _ => 0,
    }
}

/// The sum of the numbers in the first `n` items of an array.
pub open spec fn items_sum(tree: JsonTree, n: nat) -> int
    decreases tree, 0nat, n,
{
    if n > 0 && tree is Array && n <= tree->Array_0.len() {
        items_sum(tree, (n - 1) as nat) + number_sum(tree->Array_0[n - 1])
    } else {
        0
    }
}

/// The sum of the numbers in the fields `keys` of an object.
pub open spec fn fields_sum(tree: JsonTree, keys: Set<Seq<char>>) -> int
    decreases tree, 0nat, keys.len(),
{
    if keys.finite() && keys.len() > 0 && tree is Object {
        let key = keys.choose();
        if tree->Object_0.dom().contains(key) {
            fields_sum(tree, keys.remove(key)) + number_sum(tree->Object_0[key])
        } else {
            fields_sum(tree, keys.remove(key))
        }
    } else {
        0
    }
}

/// The order in which the fields are summed does not matter.
pub proof fn lemma_fields_sum(tree: JsonTree, keys: Set<Seq<char>>, key: Seq<char>)
    requires
        tree is Object,
        keys.finite(),
        keys.subset_of(tree->Object_0.dom()),
        keys.contains(key),
    ensures
        fields_sum(tree, keys) == fields_sum(tree, keys.remove(key)) + number_sum(
            tree->Object_0[key],
        ),
    decreases keys.len(),
{
    let first = keys.choose();
    if first != key {
        lemma_fields_sum(tree, keys.remove(first), key);
        lemma_fields_sum(tree, keys.remove(key), first);
        assert(keys.remove(first).remove(key) =~= keys.remove(key).remove(first));
    }
}

/// Reads the number that a value says.
pub fn number_value(value: &Json) -> (n: u64)
    ensures
        n == number_of(value.tree()),
{
    match value.as_u64() {
        Some(n) => n,
        None => match value.as_str() {
            Some(text) => match text::parse_unsigned(text) {
                Some(n) => n,
                None => 0,
            },
            None => 0,
        },
    }
}

/// Reads the number that a field says.
pub fn number_field(value: &Json, key: &str) -> (n: u64)
    ensures
        n == field_number(value.tree(), key@),
{
    match value.get(key) {
        Some(field) => number_value(field),
        None => 0,
    }
}

/// Reads the number that a field of a field says.
pub fn nested_number_field(value: &Json, outer: &str, inner: &str) -> (n: u64)
    ensures
        n == inner_number(value.tree(), outer@, inner@),
{
    match value.get(outer) {
        Some(field) => number_field(field, inner),
        None => 0,
    }
}

/// Reads the first of some fields that says more than 0.
pub fn first_number_field(value: &Json, keys: &[&str]) -> (n: u64)
    ensures
        n == first_number(value.tree(), text::each_text(keys@)),
{
    let mut i: usize = 0;
    assert(text::each_text(keys@).skip(0) =~= text::each_text(keys@));
    while i < keys.len()
        invariant
            i <= keys@.len(),
            first_number(value.tree(), text::each_text(keys@)) == first_number(
                value.tree(),
                text::each_text(keys@).skip(i as int),
            ),
        decreases keys@.len() - i,
    {
        assert(text::each_text(keys@).skip(i as int)[0] == keys@[i as int]@);
        assert(text::each_text(keys@).skip(i as int).skip(1) =~= text::each_text(keys@).skip(i + 1));
        let n: u64 = number_field(value, keys[i]);
        if n > 0 {
            return n;
        }
        i += 1;
    }
    0
}

/// Adds two numbers that stand for sums modulo 2^64.
fn add_words(a: u64, b: u64, Ghost(x): Ghost<int>, Ghost(y): Ghost<int>) -> (sum: u64)
    requires
        a as int == x % word(),
        b as int == y % word(),
    ensures
        sum as int == (x + y) % word(),
{
    proof {
        vstd::arithmetic::div_mod::lemma_add_mod_noop(x, y, word());
    }
    a.wrapping_add(b)
}

/// Sums all numbers in a value, at any depth, modulo 2^64.
pub fn sum_numbers(value: &Json) -> (sum: u64)
    ensures
        sum as int == number_sum(value.tree()) % word(),
    decreases value,
{
    match value {
        Json::Unsigned(_) | Json::Signed(_) | Json::Decimal(_) | Json::Text(_) => {
            let sum: u64 = number_value(value);
            value.scalar();
            sum
        },
        Json::Array(items) => {
            let ghost tree = value.tree();
            proof {
                json::lemma_array_tree(*items);
            }
            let mut sum: u64 = 0;
            let mut i: usize = 0;
            while i < items.len()
                invariant
                    i <= items@.len(),
                    *value == Json::Array(*items),
                    tree == JsonTree::Array(json::trees(items@)),
                    sum as int == items_sum(tree, i as nat) % word(),
                decreases items@.len() - i,
            {
                proof {
                    assert(decreases_to!(*value => value->Array_0));
                    assert(decreases_to!(*items => items@[i as int]));
                }
                let item: u64 = sum_numbers(&items[i]);
                assert(tree->Array_0[i as int] == items@[i as int].tree());
                sum = add_words(
                    sum,
                    item,
                    Ghost(items_sum(tree, i as nat)),
                    Ghost(number_sum(items@[i as int].tree())),
                );
                i += 1;
            }
            sum
        },
        Json::Object(object) => {
            let ghost tree = value.tree();
            let count: usize = object.len();
            let ghost keys = object.keys();
            let mut sum: u64 = 0;
            let mut i: usize = 0;
            assert(keys.take(0).to_set() =~= Set::empty());
            while i < count
                invariant
                    i <= count,
                    count == keys.len(),
                    *value == Json::Object(*object),
                    tree == JsonTree::Object(object.fields()),
                    keys == object.keys(),
                    keys.no_duplicates(),
                    keys.to_set() == object.fields().dom(),
                    sum as int == fields_sum(tree, keys.take(i as int).to_set()) % word(),
                decreases count - i,
            {
                proof {
                    assert(decreases_to!(*value => value->Object_0));
                }
                let item: u64 = sum_numbers(object.value(i));
                proof {
                    let short = keys.take(i as int);
                    let long = keys.take(i + 1);
                    let before = short.to_set();
                    let after = long.to_set();
                    let key = keys[i as int];
                    assert(long[i as int] == key);
                    assert forall|k: Seq<char>|
                        after.remove(key).contains(k) == before.contains(k) by {
                        if before.contains(k) {
                            let j = choose|j: int| 0 <= j < short.len() && short[j] == k;
                            assert(long[j] == k);
                            assert(keys[j] == k);
                        }
                        if after.contains(k) && k != key {
                            let j = choose|j: int| 0 <= j < long.len() && long[j] == k;
                            assert(short[j] == k);
                        }
                    }
                    assert(after.remove(key) =~= before);
                    vstd::seq_lib::seq_to_set_is_finite(long);
                    assert forall|k: Seq<char>| after.contains(k) implies keys.to_set().contains(
                        k,
                    ) by {
                        let j = choose|j: int| 0 <= j < long.len() && long[j] == k;
                        assert(keys[j] == k);
                    }
                    lemma_fields_sum(tree, after, key);
                }
                sum = add_words(
                    sum,
                    item,
                    Ghost(fields_sum(tree, keys.take(i as int).to_set())),
                    Ghost(number_sum(object.fields()[keys[i as int]])),
                );
                i += 1;
            }
            assert(keys.take(count as int) =~= keys);
            sum
        },
        _ => 0,
    }
}

} // verus!
