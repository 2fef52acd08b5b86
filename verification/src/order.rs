//! Stable sorting.

use vstd::prelude::*;
use vstd::string::*;

use crate::text;

verus! {

/// Whether `a` comes before `b` in the order of the characters' code points.
pub open spec fn text_less(a: Seq<char>, b: Seq<char>) -> bool
    decreases a.len(),
{
    if b.len() == 0 {
        false
    } else if a.len() == 0 {
        true
    } else if a[0] != b[0] {
        a[0] < b[0]
    } else {
        text_less(a.skip(1), b.skip(1))
    }
}

/// Of two different texts one comes first.
pub proof fn lemma_text_total(a: Seq<char>, b: Seq<char>)
    ensures
        a != b ==> text_less(a, b) || text_less(b, a),
        !(text_less(a, b) && text_less(b, a)),
        !text_less(a, a),
    decreases a.len(),
{
    if a.len() > 0 && b.len() > 0 {
        lemma_text_total(a.skip(1), b.skip(1));
        if a[0] == b[0] && a.skip(1) == b.skip(1) {
            assert(a =~= seq![a[0]] + a.skip(1));
            assert(b =~= seq![b[0]] + b.skip(1));
        }
    } else if a.len() > 0 {
        lemma_text_total(a.skip(1), a.skip(1));
    } else {
        assert(b.len() == 0 ==> a =~= b);
    }
    if a.len() > 0 {
        lemma_text_total(a.skip(1), a.skip(1));
    }
}

/// The order of texts is transitive.
pub proof fn lemma_text_transitive(a: Seq<char>, b: Seq<char>, c: Seq<char>)
    requires
        text_less(a, b),
        text_less(b, c),
    ensures
        text_less(a, c),
    decreases a.len(),
{
    if a.len() > 0 && a[0] == b[0] && b[0] == c[0] {
        lemma_text_transitive(a.skip(1), b.skip(1), c.skip(1));
    }
}

/// Tests whether `a` comes before `b`.
pub fn text_before(a: &str, b: &str) -> (before: bool)
    ensures
        before == text_less(a@, b@),
{
    let left = text::chars_of(a);
    let right = text::chars_of(b);
    let mut i: usize = 0;
    assert(left@.skip(0) =~= left@);
    assert(right@.skip(0) =~= right@);
    while i < left.len() && i < right.len()
        invariant
            i <= left@.len(),
            i <= right@.len(),
            left@ == a@,
            right@ == b@,
            text_less(left@, right@) == text_less(left@.skip(i as int), right@.skip(i as int)),
        decreases left@.len() - i,
    {
        assert(left@.skip(i as int)[0] == left@[i as int]);
        assert(right@.skip(i as int)[0] == right@[i as int]);
        assert(left@.skip(i as int).skip(1) =~= left@.skip(i + 1));
        assert(right@.skip(i as int).skip(1) =~= right@.skip(i + 1));
        if left[i] != right[i] {
            return left[i] < right[i];
        }
        i += 1;
    }
    i < right.len()
}

/// A key to sort by: it has an order that does not tell some keys apart.
pub trait SortKey: Sized {
    spec fn less(self, other: Self) -> bool;

    proof fn asymmetric(a: Self, b: Self)
        ensures
            !(a.less(b) && b.less(a)),
    ;

    proof fn transitive(a: Self, b: Self, c: Self)
        ensures
            a.less(b) && b.less(c) ==> a.less(c),
            !a.less(b) && !b.less(c) ==> !a.less(c),
    ;

    fn is_less(&self, other: &Self) -> (less: bool)
        ensures
            less == self.less(*other),
    ;
}

impl SortKey for i64 {
    open spec fn less(self, other: i64) -> bool {
        self < other
    }

    proof fn asymmetric(a: i64, b: i64) {
    }

    proof fn transitive(a: i64, b: i64, c: i64) {
    }

    fn is_less(&self, other: &i64) -> (less: bool) {
        *self < *other
    }
}

impl SortKey for String {
    open spec fn less(self, other: String) -> bool {
        text_less(self@, other@)
    }

    proof fn asymmetric(a: String, b: String) {
        lemma_text_total(a@, b@);
    }

    proof fn transitive(a: String, b: String, c: String) {
        lemma_text_total(a@, b@);
        lemma_text_total(b@, c@);
        lemma_text_total(a@, c@);
        if a.less(b) && b.less(c) {
            lemma_text_transitive(a@, b@, c@);
        }
        if !a.less(b) && !b.less(c) && a.less(c) {
            if a@ == b@ || b@ == c@ {
            } else {
                lemma_text_transitive(c@, b@, a@);
            }
        }
    }

    fn is_less(&self, other: &String) -> (less: bool) {
        text_before(self.as_str(), other.as_str())
    }
}

/// Whether the item at `i` comes before the item at `j`: by their keys, the smaller first
/// or the greater first, and items with like keys as they stand.
pub open spec fn comes_before<K: SortKey>(keys: Seq<K>, greater_first: bool, i: int, j: int) -> bool {
    let first = if greater_first {
        keys[j].less(keys[i])
    } else {
        keys[i].less(keys[j])
    };
    let second = if greater_first {
        keys[i].less(keys[j])
    } else {
        keys[j].less(keys[i])
    };
    first || (!second && i < j)
}

/// Whether `order` names each index below `n` once.
pub open spec fn is_arrangement(order: Seq<usize>, n: nat) -> bool {
    &&& order.len() == n
    &&& forall|a: int| 0 <= a < n ==> (#[trigger] order[a]) < n
    &&& forall|a: int, b: int| 0 <= a < b < n ==> order[a] != order[b]
}

/// Whether `order` is the stable sort of the items with the given keys.
pub open spec fn is_stable_order<K: SortKey>(
    keys: Seq<K>,
    greater_first: bool,
    order: Seq<usize>,
) -> bool {
    &&& is_arrangement(order, keys.len())
    &&& forall|a: int, b: int|
        0 <= a < b < order.len() ==> comes_before(
            keys,
            greater_first,
            #[trigger] order[a] as int,
            #[trigger] order[b] as int,
        )
}

proof fn lemma_before_transitive<K: SortKey>(
    keys: Seq<K>,
    greater_first: bool,
    i: int,
    j: int,
    k: int,
)
    requires
        comes_before(keys, greater_first, i, j),
        comes_before(keys, greater_first, j, k),
    ensures
        comes_before(keys, greater_first, i, k),
{
    K::transitive(keys[i], keys[j], keys[k]);
    K::transitive(keys[k], keys[j], keys[i]);
    K::transitive(keys[i], keys[k], keys[j]);
    K::transitive(keys[j], keys[i], keys[k]);
    K::transitive(keys[k], keys[i], keys[j]);
    K::transitive(keys[j], keys[k], keys[i]);
    K::asymmetric(keys[i], keys[j]);
    K::asymmetric(keys[j], keys[k]);
    K::asymmetric(keys[i], keys[k]);
}

/// Tests whether a later item comes before an earlier one.
fn overtakes<K: SortKey>(keys: &Vec<K>, greater_first: bool, later: usize, earlier: usize) -> (
    result: bool)
    requires
        earlier < later < keys.len(),
    ensures
        result == comes_before(keys@, greater_first, later as int, earlier as int),
        !result == comes_before(keys@, greater_first, earlier as int, later as int),
{
    proof {
        K::asymmetric(keys@[later as int], keys@[earlier as int]);
    }
    if greater_first {
        keys[earlier].is_less(&keys[later])
    } else {
        keys[later].is_less(&keys[earlier])
    }
}

/// The stable sort of items by their keys: the indices of the items, as they come.
pub fn stable_order<K: SortKey>(keys: &Vec<K>, greater_first: bool) -> (order: Vec<usize>)
    ensures
        is_stable_order(keys@, greater_first, order@),
{
    let mut order: Vec<usize> = Vec::new();
    let mut i: usize = 0;
    while i < keys.len()
        invariant
            i <= keys@.len(),
            is_arrangement(order@, i as nat),
            forall|a: int, b: int|
                0 <= a < b < order@.len() ==> comes_before(
                    keys@,
                    greater_first,
                    #[trigger] order@[a] as int,
                    #[trigger] order@[b] as int,
                ),
        decreases keys@.len() - i,
    {
        let mut at: usize = order.len();
        while at > 0 && overtakes(keys, greater_first, i, order[at - 1])
            invariant
                i < keys@.len(),
                at <= order@.len() == i,
                is_arrangement(order@, i as nat),
                forall|b: int|
                    at <= b < order@.len() ==> comes_before(
                        keys@,
                        greater_first,
                        i as int,
                        #[trigger] order@[b] as int,
                    ),
            ensures
                at > 0 ==> comes_before(
                    keys@,
                    greater_first,
                    order@[at - 1] as int,
                    i as int,
                ),
            decreases at,
        {
            at -= 1;
        }
        let ghost before = order@;
        order.insert(at, i);
        proof {
            assert forall|a: int, b: int| 0 <= a < b < order@.len() implies comes_before(
                keys@,
                greater_first,
                #[trigger] order@[a] as int,
                #[trigger] order@[b] as int,
            ) by {
                if a < at && b == at {
                    if a < at - 1 {
                        assert(comes_before(
                            keys@,
                            greater_first,
                            before[a] as int,
                            before[at - 1] as int,
                        ));
                        lemma_before_transitive(
                            keys@,
                            greater_first,
                            before[a] as int,
                            before[at - 1] as int,
                            i as int,
                        );
                    }
                } else if a < at && b > at {
                    assert(order@[b] == before[b - 1]);
                } else if a == at {
                    assert(order@[b] == before[b - 1]);
                } else if a > at {
                    assert(order@[a] == before[a - 1]);
                    assert(order@[b] == before[b - 1]);
                }
            }
            assert forall|a: int, b: int| 0 <= a < b < order@.len() implies order@[a]
                != order@[b] by {
                assert(a < at ==> order@[a] == before[a]);
                assert(a > at ==> order@[a] == before[a - 1]);
                assert(b < at ==> order@[b] == before[b]);
                assert(b > at ==> order@[b] == before[b - 1]);
            }
            assert forall|a: int| 0 <= a < order@.len() implies (#[trigger] order@[a]) < i + 1 by {
                assert(a < at ==> order@[a] == before[a]);
                assert(a > at ==> order@[a] == before[a - 1]);
            }
        }
        i += 1;
    }
    order
}

/// Items have just one stable sort.
pub proof fn law_stable_order_is_unique<K: SortKey>(
    keys: Seq<K>,
    greater_first: bool,
    one: Seq<usize>,
    other: Seq<usize>,
)
    requires
        is_stable_order(keys, greater_first, one),
        is_stable_order(keys, greater_first, other),
    ensures
        one == other,
{
    lemma_same_prefix(keys, greater_first, one, other, keys.len());
    assert(one =~= other) by {
        assert(one.take(keys.len() as int) =~= one);
        assert(other.take(keys.len() as int) =~= other);
    }
}

/// An arrangement leaves no index out.
pub proof fn lemma_arrangement_covers(order: Seq<usize>, n: nat, x: int)
    requires
        is_arrangement(order, n),
        0 <= x < n,
    ensures
        exists|a: int| 0 <= a < n && #[trigger] order[a] == x,
    decreases n,
{
    // Without x the indices would fit into one place too few.
    let ints = Seq::new(n, |a: int| order[a] as int);
    assert(ints.no_duplicates());
    let all = vstd::set_lib::set_int_range(0, n as int);
    vstd::set_lib::lemma_int_range(0, n as int);
    ints.unique_seq_to_set();
    assert(ints.to_set().subset_of(all)) by {
        assert forall|v: int| ints.to_set().contains(v) implies all.contains(v) by {
            let a = choose|a: int| 0 <= a < ints.len() && ints[a] == v;
            assert(order[a] < n);
        }
    }
    vstd::seq_lib::seq_to_set_is_finite(ints);
    vstd::set_lib::lemma_subset_equality(ints.to_set(), all);
    assert(ints.to_set().contains(x));
    let a = choose|a: int| 0 <= a < ints.len() && ints[a] == x;
    assert(order[a] == x);
}

proof fn lemma_same_prefix<K: SortKey>(
    keys: Seq<K>,
    greater_first: bool,
    one: Seq<usize>,
    other: Seq<usize>,
    n: nat,
)
    requires
        is_stable_order(keys, greater_first, one),
        is_stable_order(keys, greater_first, other),
        n <= keys.len(),
    ensures
        one.take(n as int) == other.take(n as int),
    decreases n,
{
    if n > 0 {
        let last = n - 1;
        lemma_same_prefix(keys, greater_first, one, other, last as nat);
        assert forall|a: int| 0 <= a < last implies one[a] == other[a] by {
            assert(one.take(last)[a] == other.take(last)[a]);
        }
        if one[last] != other[last] {
            lemma_arrangement_covers(other, keys.len(), one[last] as int);
            let b = choose|b: int| 0 <= b < keys.len() && #[trigger] other[b] == one[last];
            lemma_arrangement_covers(one, keys.len(), other[last] as int);
            let c = choose|c: int| 0 <= c < keys.len() && #[trigger] one[c] == other[last];
            assert(b > last) by {
                if b < last {
                    assert(one[b] == other[b]);
                }
            }
            assert(c > last) by {
                if c < last {
                    assert(one[c] == other[c]);
                }
            }
            assert(comes_before(keys, greater_first, other[last] as int, other[b] as int));
            assert(comes_before(keys, greater_first, one[last] as int, one[c] as int));
            K::asymmetric(keys[one[last] as int], keys[other[last] as int]);
            assert(false);
        }
        assert(one.take(n as int) =~= one.take(last).push(one[last]));
        assert(other.take(n as int) =~= other.take(last).push(other[last]));
    } else {
        assert(one.take(0) =~= other.take(0));
    }
}

// ---------------------------------------------------------------------------
// Entries in the order of their keys
// ---------------------------------------------------------------------------

/// Whether keys come in their order, none of them twice.
pub open spec fn keys_ascend<V>(entries: Seq<(Seq<char>, V)>) -> bool {
    forall|i: int, j: int|
        0 <= i < j < entries.len() ==> text_less(
            (#[trigger] entries[i]).0,
            (#[trigger] entries[j]).0,
        )
}

/// How many of the first keys come before `key`.
pub open spec fn rank<V>(entries: Seq<(Seq<char>, V)>, key: Seq<char>) -> nat
    decreases entries.len(),
{
    if entries.len() > 0 && text_less(entries[0].0, key) {
        1 + rank(entries.skip(1), key)
    } else {
        0
    }
}

/// Whether there is an entry with the key.
pub open spec fn has_entry<V>(entries: Seq<(Seq<char>, V)>, key: Seq<char>) -> bool {
    rank(entries, key) < entries.len() && entries[rank(entries, key) as int].0 == key
}

/// The entries with `value` under `key`, in the place of what was there.
pub open spec fn put<V>(entries: Seq<(Seq<char>, V)>, key: Seq<char>, value: V) -> Seq<
    (Seq<char>, V),
> {
    let at = rank(entries, key) as int;
    if has_entry(entries, key) {
        entries.update(at, (key, value))
    } else {
        entries.insert(at, (key, value))
    }
}

/// What comes before a rank comes before the key, and what comes at it does not.
pub proof fn lemma_rank<V>(entries: Seq<(Seq<char>, V)>, key: Seq<char>)
    ensures
        rank(entries, key) <= entries.len(),
        forall|i: int|
            0 <= i < rank(entries, key) ==> text_less((#[trigger] entries[i]).0, key),
        rank(entries, key) < entries.len() ==> !text_less(
            entries[rank(entries, key) as int].0,
            key,
        ),
    decreases entries.len(),
{
    if entries.len() > 0 && text_less(entries[0].0, key) {
        let rest = entries.skip(1);
        lemma_rank(rest, key);
        assert forall|i: int| 0 <= i < rank(entries, key) implies text_less(
            (#[trigger] entries[i]).0,
            key,
        ) by {
            if i > 0 {
                assert(rest[i - 1] == entries[i]);
            }
        }
        if rank(entries, key) < entries.len() {
            assert(rest[rank(rest, key) as int] == entries[rank(entries, key) as int]);
        }
    }
}

/// The rank of a key is where the keys before it end.
pub proof fn lemma_rank_is<V>(entries: Seq<(Seq<char>, V)>, key: Seq<char>, at: int)
    requires
        0 <= at <= entries.len(),
        forall|i: int| 0 <= i < at ==> text_less((#[trigger] entries[i]).0, key),
        at < entries.len() ==> !text_less(entries[at].0, key),
    ensures
        rank(entries, key) == at,
{
    lemma_rank(entries, key);
    if rank(entries, key) < at {
        assert(text_less(entries[rank(entries, key) as int].0, key));
    }
}

/// The keys stay in their order when an entry is put among them.
pub proof fn law_put_keeps_the_order<V>(entries: Seq<(Seq<char>, V)>, key: Seq<char>, value: V)
    requires
        keys_ascend(entries),
    ensures
        keys_ascend(put(entries, key, value)),
{
    lemma_rank(entries, key);
    let at = rank(entries, key) as int;
    let after = put(entries, key, value);
    assert forall|i: int, j: int| 0 <= i < j < after.len() implies text_less(
        (#[trigger] after[i]).0,
        (#[trigger] after[j]).0,
    ) by {
        if has_entry(entries, key) {
            assert(after[i].0 == entries[i].0);
            assert(after[j].0 == entries[j].0);
        } else if j < at {
            assert(after[i] == entries[i] && after[j] == entries[j]);
        } else if j == at {
            assert(after[i] == entries[i]);
        } else if i < at {
            assert(after[i] == entries[i] && after[j] == entries[j - 1]);
        } else {
            assert(after[j] == entries[j - 1]);
            lemma_text_total(key, entries[at].0);
            if i == at {
                if j - 1 > at {
                    lemma_text_transitive(key, entries[at].0, entries[j - 1].0);
                }
            } else {
                assert(after[i] == entries[i - 1]);
            }
        }
    }
}

/// The keys stay in their order when an entry is taken out.
pub proof fn law_removal_keeps_the_order<V>(entries: Seq<(Seq<char>, V)>, at: int)
    requires
        keys_ascend(entries),
        0 <= at < entries.len(),
    ensures
        keys_ascend(entries.remove(at)),
{
    let after = entries.remove(at);
    assert forall|i: int, j: int| 0 <= i < j < after.len() implies text_less(
        (#[trigger] after[i]).0,
        (#[trigger] after[j]).0,
    ) by {
        let a = if i < at { i } else { i + 1 };
        let b = if j < at { j } else { j + 1 };
        assert(after[i] == entries[a]);
        assert(after[j] == entries[b]);
    }
}

} // verus!
