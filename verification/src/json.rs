//! JSON values.
//!
//! [`Json`] is the value that the library works on; its meaning is a [`JsonTree`],
//! in which an object is a map from keys to trees. Reading and writing JSON text is
//! left to `serde_json`, behind the trusted items at the end of this file.

use vstd::prelude::*;
use vstd::string::*;

use crate::text::same_text;

verus! {

// ---------------------------------------------------------------------------
// Model
// ---------------------------------------------------------------------------

/// What a JSON value means.
#[verifier::ext_equal]
pub enum JsonTree {
    Null,
    Bool(bool),
    Integer(int),
    Decimal(Seq<char>),
    Text(Seq<char>),
    Array(Seq<JsonTree>),
    Object(Map<Seq<char>, JsonTree>),
}

/// The fields of a JSON object.
pub type Fields = Map<Seq<char>, JsonTree>;

impl JsonTree {
    /// The field `key` of an object; nothing for any other value.
    pub open spec fn get(self, key: Seq<char>) -> Option<JsonTree> {
        match self {
            JsonTree::Object(fields) => if fields.dom().contains(key) {
                Some(fields[key])
            } else {
                None
            },
            _ => None,
        }
    }

    /// The text of a string.
    pub open spec fn as_text(self) -> Option<Seq<char>> {
        match self {
            JsonTree::Text(text) => Some(text),
            _ => None,
        }
    }

    /// The value of an integer that fits in 64 unsigned bits.
    pub open spec fn as_unsigned(self) -> Option<u64> {
        match self {
            JsonTree::Integer(n) => if 0 <= n <= u64::MAX {
                Some(n as u64)
            } else {
                None
            },
            _ => None,
        }
    }

    /// The value of a truth value.
    pub open spec fn as_truth(self) -> Option<bool> {
        match self {
            JsonTree::Bool(b) => Some(b),
            _ => None,
        }
    }

    /// The text of the field `key`.
    pub open spec fn get_text(self, key: Seq<char>) -> Option<Seq<char>> {
        match self.get(key) {
            Some(value) => value.as_text(),
            None => None,
        }
    }

    /// The value of an integer that fits in 64 signed bits.
    pub open spec fn as_signed(self) -> Option<i64> {
        match self {
            JsonTree::Integer(n) => if i64::MIN <= n <= i64::MAX {
                Some(n as i64)
            } else {
                None
            },
            _ => None,
        }
    }

    /// The unsigned value of the field `key`.
    pub open spec fn get_unsigned(self, key: Seq<char>) -> Option<u64> {
        match self.get(key) {
            Some(value) => value.as_unsigned(),
            None => None,
        }
    }
}

/// The tree of an optional text: the text or null.
pub open spec fn text_or_null(text: Option<Seq<char>>) -> JsonTree {
    match text {
        Some(t) => JsonTree::Text(t),
        None => JsonTree::Null,
    }
}

/// The tree of an optional number: the number or null.
pub open spec fn integer_or_null(n: Option<i64>) -> JsonTree {
    match n {
        Some(i) => JsonTree::Integer(i as int),
        None => JsonTree::Null,
    }
}

/// The tree of a string literal.
pub open spec fn txt(text: &str) -> JsonTree {
    JsonTree::Text(text@)
}

/// No fields.
pub open spec fn no_fields() -> Fields {
    Map::empty()
}

/// Whether `key` is one of the first `n` keys.
pub open spec fn among(keys: Seq<Seq<char>>, n: int, key: Seq<char>) -> bool {
    exists|j: int| 0 <= j < n && j < keys.len() && #[trigger] keys[j] == key
}

/// One more key.
pub proof fn lemma_among_next(keys: Seq<Seq<char>>, n: int, key: Seq<char>)
    requires
        0 <= n < keys.len(),
    ensures
        among(keys, n + 1, key) == (among(keys, n, key) || keys[n] == key),
{
    if among(keys, n + 1, key) {
        let j = choose|j: int| 0 <= j < n + 1 && j < keys.len() && #[trigger] keys[j] == key;
        if j < n {
            assert(keys[j] == key);
        }
    }
    if among(keys, n, key) {
        let j = choose|j: int| 0 <= j < n && j < keys.len() && #[trigger] keys[j] == key;
        assert(keys[j] == key);
    }
    if keys[n] == key {
        assert(among(keys, n + 1, key));
    }
}

/// All keys.
pub proof fn lemma_among_all(keys: Seq<Seq<char>>, key: Seq<char>)
    ensures
        among(keys, keys.len() as int, key) == keys.to_set().contains(key),
{
    if keys.to_set().contains(key) {
        let j = choose|j: int| 0 <= j < keys.len() && keys[j] == key;
        assert(keys[j] == key);
    }
}

/// The trees of a sequence of values.
pub open spec fn trees(values: Seq<Json>) -> Seq<JsonTree> {
    Seq::new(values.len(), |i: int| values[i].tree())
}

/// The tree of an optional value.
pub open spec fn option_tree(value: Option<Json>) -> Option<JsonTree> {
    match value {
        Some(v) => Some(v.tree()),
        None => None,
    }
}

// ---------------------------------------------------------------------------
// Values
// ---------------------------------------------------------------------------

/// A JSON number as `serde_json` keeps it. Only reading JSON makes one, for a number
/// that is no 64-bit integer.
#[derive(Debug)]
pub struct JsonDecimal {
    number: serde_json::Number,
}

/// A JSON value.
#[derive(Debug)]
pub enum Json {
    Null,
    Bool(bool),
    Unsigned(u64),
    Signed(i64),
    Decimal(JsonDecimal),
    Text(String),
    Array(Vec<Json>),
    Object(JsonObject),
}

/// A JSON object: keys, no two of them equal, each with its value.
#[derive(Debug)]
pub struct JsonObject {
    entries: Vec<(String, Json)>,
}

/// Whether `key` is one of the keys of `entries`, at index `i`.
spec fn key_at(entries: Seq<(String, Json)>, key: Seq<char>, i: int) -> bool {
    0 <= i < entries.len() && entries[i].0@ == key
}

impl JsonDecimal {
    /// What the number means.
    pub closed spec fn tree(&self) -> JsonTree {
        number_tree(self.number)
    }
}

impl Json {
    /// What the value means.
    pub open spec fn tree(&self) -> JsonTree
        decreases self,
    {
        match *self {
            Json::Null => JsonTree::Null,
            Json::Bool(b) => JsonTree::Bool(b),
            Json::Unsigned(n) => JsonTree::Integer(n as int),
            Json::Signed(n) => JsonTree::Integer(n as int),
            Json::Decimal(d) => d.tree(),
            Json::Text(text) => JsonTree::Text(text@),
            Json::Array(values) => JsonTree::Array(
                Seq::new(
                    values@.len(),
                    |i: int|
                        if 0 <= i < values@.len() {
                            values@[i].tree()
                        } else {
                            JsonTree::Null
                        },
                ),
            ),
            Json::Object(object) => JsonTree::Object(object.fields()),
        }
    }
}

impl JsonObject {
    #[verifier::type_invariant]
    spec fn distinct_keys(self) -> bool {
        forall|i: int, j: int|
            0 <= i < j < self.entries@.len() ==> self.entries@[i].0@ != self.entries@[j].0@
    }

    /// The fields of the object.
    pub closed spec fn fields(&self) -> Fields
        decreases self,
    {
        Map::new(
            |key: Seq<char>| exists|i: int| key_at(self.entries@, key, i),
            |key: Seq<char>|
                {
                    let i = choose|i: int| key_at(self.entries@, key, i);
                    if 0 <= i < self.entries@.len() {
                        self.entries@[i].1.tree()
                    } else {
                        JsonTree::Null
                    }
                },
        )
    }

    /// The keys of the object, in the order in which it holds them.
    pub closed spec fn keys(&self) -> Seq<Seq<char>> {
        Seq::new(self.entries@.len(), |i: int| self.entries@[i].0@)
    }
}

/// The array of the trees of `values`.
pub proof fn lemma_array_tree(values: Vec<Json>)
    ensures
        Json::Array(values).tree() == JsonTree::Array(trees(values@)),
{
    assert(Json::Array(values).tree()->Array_0 =~= trees(values@));
}

impl JsonObject {
    /// What the object holds, entry by entry.
    proof fn lemma_entries(&self)
        requires
            self.distinct_keys(),
        ensures
            self.keys().len() == self.entries@.len(),
            forall|i: int|
                0 <= i < self.entries@.len() ==> {
                    &&& (#[trigger] self.keys()[i]) == self.entries@[i].0@
                    &&& self.fields().dom().contains(self.keys()[i])
                    &&& self.fields()[self.keys()[i]] == self.entries@[i].1.tree()
                },
            forall|key: Seq<char>| #[trigger]
                self.fields().dom().contains(key) ==> exists|i: int|
                    key_at(self.entries@, key, i),
    {
        assert forall|i: int| 0 <= i < self.entries@.len() implies {
            &&& (#[trigger] self.keys()[i]) == self.entries@[i].0@
            &&& self.fields().dom().contains(self.keys()[i])
            &&& self.fields()[self.keys()[i]] == self.entries@[i].1.tree()
        } by {
            let key = self.entries@[i].0@;
            assert(key_at(self.entries@, key, i));
            let j = choose|j: int| key_at(self.entries@, key, j);
            assert(key_at(self.entries@, key, j));
            assert(i == j);
        }
    }

    /// An empty object.
    pub fn new() -> (object: JsonObject)
        ensures
            object.fields() == no_fields(),
            object.keys().len() == 0,
    {
        let object = JsonObject { entries: Vec::new() };
        assert(object.fields() =~= no_fields());
        object
    }

    /// The index of the entry with the given key.
    fn find(&self, key: &str) -> (at: Option<usize>)
        ensures
            match at {
                Some(i) => key_at(self.entries@, key@, i as int),
                None => forall|i: int| !key_at(self.entries@, key@, i),
            },
    {
        let mut i: usize = 0;
        while i < self.entries.len()
            invariant
                i <= self.entries@.len(),
                forall|j: int| 0 <= j < i ==> !key_at(self.entries@, key@, j),
            decreases self.entries@.len() - i,
        {
            if same_text(self.entries[i].0.as_str(), key) {
                return Some(i);
            }
            i += 1;
        }
        None
    }

    /// The value of the field `key`.
    pub fn get(&self, key: &str) -> (value: Option<&Json>)
        ensures
            match value {
                Some(v) => self.fields().dom().contains(key@) && v.tree() == self.fields()[key@],
                None => !self.fields().dom().contains(key@),
            },
    {
        proof {
            use_type_invariant(self);
            self.lemma_entries();
        }
        match self.find(key) {
            Some(i) => {
                assert(self.keys()[i as int] == key@);
                Some(&self.entries[i].1)
            },
            None => None,
        }
    }

    /// The object with the field `key` set to `value`.
    pub fn with(self, key: &str, value: Json) -> (object: JsonObject)
        ensures
            object.fields() == self.fields().insert(key@, value.tree()),
    {
        proof {
            use_type_invariant(&self);
            self.lemma_entries();
        }
        let ghost before = self;
        let at = self.find(key);
        let mut entries = self.entries;
        let name = key.to_owned();
        match at {
            Some(i) => {
                entries.set(i, (name, value));
            },
            None => {
                entries.push((name, value));
            },
        }
        let ghost position: int = match at {
            Some(i) => i as int,
            None => before.entries@.len() as int,
        };
        assert forall|i: int, j: int| 0 <= i < j < entries@.len() implies entries@[i].0@
            != entries@[j].0@ by {
            assert(!key_at(before.entries@, key@, i) || i == position);
            assert(!key_at(before.entries@, key@, j) || j == position);
        }
        let object = JsonObject { entries };
        proof {
            object.lemma_entries();
            assert(object.keys()[position] == key@);
            assert forall|k: Seq<char>|
                object.fields().dom().contains(k) == before.fields().insert(
                    key@,
                    value.tree(),
                ).dom().contains(k) by {
                if object.fields().dom().contains(k) && k != key@ {
                    let i = choose|i: int| key_at(object.entries@, k, i);
                    assert(key_at(before.entries@, k, i));
                    assert(before.keys()[i] == k);
                }
                if before.fields().dom().contains(k) && k != key@ {
                    let i = choose|i: int| key_at(before.entries@, k, i);
                    assert(object.keys()[i] == k);
                }
            }
            assert forall|k: Seq<char>| object.fields().dom().contains(k) implies (
            #[trigger] object.fields()[k]) == before.fields().insert(key@, value.tree())[k] by {
                if k != key@ {
                    let i = choose|i: int| key_at(object.entries@, k, i);
                    assert(object.keys()[i] == k);
                    assert(before.keys()[i] == k);
                }
            }
            assert(object.fields() =~= before.fields().insert(key@, value.tree()));
        }
        object
    }

    /// The number of fields. The keys are distinct, and they are those of the fields.
    pub fn len(&self) -> (n: usize)
        ensures
            n == self.keys().len(),
            self.keys().no_duplicates(),
            self.keys().to_set() == self.fields().dom(),
            self.fields().dom().finite(),
            self.fields().dom().len() == n,
    {
        proof {
            use_type_invariant(self);
            self.lemma_entries();
            assert forall|key: Seq<char>|
                self.keys().to_set().contains(key) == self.fields().dom().contains(key) by {
                if self.fields().dom().contains(key) {
                    let i = choose|i: int| key_at(self.entries@, key, i);
                    assert(self.keys()[i] == key);
                }
                if self.keys().contains(key) {
                    let i = choose|i: int| 0 <= i < self.keys().len() && self.keys()[i] == key;
                    assert(self.fields().dom().contains(self.keys()[i]));
                }
            }
            assert(self.keys().to_set() =~= self.fields().dom());
            vstd::seq_lib::seq_to_set_is_finite(self.keys());
            self.keys().unique_seq_to_set();
        }
        self.entries.len()
    }

    /// The key of the entry at `i`.
    pub fn key(&self, i: usize) -> (key: &str)
        requires
            i < self.keys().len(),
        ensures
            key@ == self.keys()[i as int],
    {
        self.entries[i].0.as_str()
    }

    /// The value of the entry at `i`.
    pub fn value(&self, i: usize) -> (value: &Json)
        requires
            i < self.keys().len(),
        ensures
            value.tree() == self.fields()[self.keys()[i as int]],
            decreases_to!(self => value),
    {
        proof {
            use_type_invariant(self);
            self.lemma_entries();
            assert(self.keys()[i as int] == self.entries@[i as int].0@);
            assert(decreases_to!(self => self.entries));
            assert(decreases_to!(self.entries => self.entries@[i as int]));
            assert(decreases_to!(self.entries@[i as int] => self.entries@[i as int].1));
        }
        &self.entries[i].1
    }
}

impl Clone for JsonDecimal {
    fn clone(&self) -> (res: Self)
        ensures
            res.tree() == self.tree(),
    {
        proof {
            use_type_invariant(self);
        }
        JsonDecimal { number: self.number.clone() }
    }
}

impl Clone for JsonObject {
    fn clone(&self) -> (res: Self)
        ensures
            res.fields() == self.fields(),
            res.keys() == self.keys(),
        decreases self,
    {
        proof {
            use_type_invariant(self);
        }
        let mut entries: Vec<(String, Json)> = Vec::new();
        let mut i: usize = 0;
        while i < self.entries.len()
            invariant
                i <= self.entries@.len(),
                entries@.len() == i,
                forall|j: int|
                    0 <= j < i ==> (#[trigger] entries@[j]).0@ == self.entries@[j].0@
                        && entries@[j].1.tree() == self.entries@[j].1.tree(),
            decreases self.entries@.len() - i,
        {
            let name = self.entries[i].0.clone();
            proof {
                assert(decreases_to!(self => self.entries));
                assert(decreases_to!(self.entries => self.entries@[i as int]));
                assert(decreases_to!(self.entries@[i as int] => self.entries@[i as int].1));
            }
            let value = self.entries[i].1.clone();
            entries.push((name, value));
            i += 1;
        }
        assert forall|a: int, b: int| 0 <= a < b < entries@.len() implies entries@[a].0@
            != entries@[b].0@ by {
            assert(entries@[a].0@ == self.entries@[a].0@);
            assert(entries@[b].0@ == self.entries@[b].0@);
        }
        let res = JsonObject { entries };
        proof {
            self.lemma_entries();
            res.lemma_entries();
            assert(res.keys() =~= self.keys()) by {
                assert forall|j: int| 0 <= j < res.entries@.len() implies res.keys()[j]
                    == self.keys()[j] by {
                    assert(res.entries@[j].0@ == self.entries@[j].0@);
                }
            }
            assert forall|key: Seq<char>|
                res.fields().dom().contains(key) == self.fields().dom().contains(key) by {
                if res.fields().dom().contains(key) {
                    let j = choose|j: int| key_at(res.entries@, key, j);
                    assert(self.keys()[j] == res.keys()[j]);
                }
                if self.fields().dom().contains(key) {
                    let j = choose|j: int| key_at(self.entries@, key, j);
                    assert(self.keys()[j] == res.keys()[j]);
                }
            }
            assert forall|key: Seq<char>| res.fields().dom().contains(key) implies (
            #[trigger] res.fields()[key]) == self.fields()[key] by {
                let j = choose|j: int| key_at(res.entries@, key, j);
                assert(self.keys()[j] == res.keys()[j]);
                assert(res.entries@[j].0@ == self.entries@[j].0@);
            }
            assert(res.fields() =~= self.fields());
        }
        res
    }
}

impl Clone for Json {
    fn clone(&self) -> (res: Self)
        ensures
            res.tree() == self.tree(),
        decreases self,
    {
        match self {
            Json::Null => Json::Null,
            Json::Bool(b) => Json::Bool(*b),
            Json::Unsigned(n) => Json::Unsigned(*n),
            Json::Signed(n) => Json::Signed(*n),
            Json::Decimal(d) => Json::Decimal(d.clone()),
            Json::Text(text) => Json::Text(text.clone()),
            Json::Array(values) => {
                let mut copies: Vec<Json> = Vec::new();
                let mut i: usize = 0;
                while i < values.len()
                    invariant
                        i <= values@.len(),
                        *self == Json::Array(*values),
                        trees(copies@) == trees(values@).take(i as int),
                    decreases values@.len() - i,
                {
                    proof {
                        assert(decreases_to!(*self => self->Array_0));
                        assert(decreases_to!(*values => values@[i as int]));
                    }
                    let copy = values[i].clone();
                    let ghost before = copies@;
                    copies.push(copy);
                    assert(trees(copies@) =~= trees(before).push(copy.tree()));
                    assert(trees(values@).take(i + 1) =~= trees(values@).take(i as int).push(
                        values@[i as int].tree(),
                    ));
                    i += 1;
                }
                assert(trees(values@).take(i as int) =~= trees(values@));
                proof {
                    lemma_array_tree(copies);
                    lemma_array_tree(*values);
                }
                Json::Array(copies)
            },
            Json::Object(object) => {
                proof {
                    assert(decreases_to!(*self => self->Object_0));
                }
                Json::Object(object.clone())
            },
        }
    }
}

impl Json {
    /// A string.
    pub fn text(text: &str) -> (value: Json)
        ensures
            value.tree() == JsonTree::Text(text@),
    {
        Json::Text(text.to_owned())
    }

    /// An array of the given values.
    pub fn array(values: Vec<Json>) -> (value: Json)
        ensures
            value.tree() == JsonTree::Array(trees(values@)),
    {
        proof {
            lemma_array_tree(values);
        }
        Json::Array(values)
    }

    /// A string, or null where there is none.
    pub fn optional_text(text: &Option<String>) -> (value: Json)
        ensures
            value.tree() == text_or_null(crate::text::option_text(*text)),
    {
        match text {
            Some(t) => Json::Text(t.clone()),
            None => Json::Null,
        }
    }

    /// An integer, or null where there is none.
    pub fn optional_integer(n: Option<i64>) -> (value: Json)
        ensures
            value.tree() == integer_or_null(n),
    {
        match n {
            Some(i) => Json::Signed(i),
            None => Json::Null,
        }
    }

    /// A value, or null where there is none.
    pub fn or_null(value: Option<&Json>) -> (copy: Json)
        ensures
            copy.tree() == (match value {
                Some(v) => v.tree(),
                None => JsonTree::Null,
            }),
    {
        match value {
            Some(v) => v.clone(),
            None => Json::Null,
        }
    }

    /// The field `key` of an object; nothing for any other value.
    pub fn get(&self, key: &str) -> (value: Option<&Json>)
        ensures
            match value {
                Some(v) => self.tree().get(key@) == Some(v.tree()),
                None => self.tree().get(key@) is None,
            },
    {
        match self {
            Json::Object(object) => object.get(key),
            Json::Decimal(d) => {
                d.scalar();
                None
            },
            _ => None,
        }
    }

    /// The text of a string.
    pub fn as_str(&self) -> (text: Option<&str>)
        ensures
            match text {
                Some(t) => self.tree().as_text() == Some(t@),
                None => self.tree().as_text() is None,
            },
    {
        match self {
            Json::Text(text) => Some(text.as_str()),
            Json::Decimal(d) => {
                d.scalar();
                None
            },
            _ => None,
        }
    }

    /// The value of an integer that fits in 64 unsigned bits.
    pub fn as_u64(&self) -> (n: Option<u64>)
        ensures
            n == self.tree().as_unsigned(),
    {
        match self {
            Json::Unsigned(n) => Some(*n),
            Json::Signed(n) => if *n >= 0 {
                Some(*n as u64)
            } else {
                None
            },
            Json::Decimal(d) => {
                d.scalar();
                None
            },
            _ => None,
        }
    }

    /// The value of a truth value.
    pub fn as_bool(&self) -> (b: Option<bool>)
        ensures
            b == self.tree().as_truth(),
    {
        match self {
            Json::Bool(b) => Some(*b),
            Json::Decimal(d) => {
                d.scalar();
                None
            },
            _ => None,
        }
    }

    /// A number that is kept as a decimal is no integer.
    pub(crate) fn scalar(&self)
        ensures
            self matches Json::Decimal(d) ==> d.tree() is Decimal,
    {
        match self {
            Json::Decimal(d) => d.scalar(),
            _ => {},
        }
    }

    /// The text of the field `key`.
    pub fn get_str(&self, key: &str) -> (text: Option<&str>)
        ensures
            match text {
                Some(t) => self.tree().get_text(key@) == Some(t@),
                None => self.tree().get_text(key@) is None,
            },
    {
        match self.get(key) {
            Some(value) => value.as_str(),
            None => None,
        }
    }

    /// The unsigned value of the field `key`.
    pub fn get_u64(&self, key: &str) -> (n: Option<u64>)
        ensures
            n == self.tree().get_unsigned(key@),
    {
        match self.get(key) {
            Some(value) => value.as_u64(),
            None => None,
        }
    }
}

impl JsonDecimal {
    #[verifier::type_invariant]
    spec fn no_integer(self) -> bool {
        number_tree(self.number) is Decimal
    }

    /// What is kept here is no integer.
    fn scalar(&self)
        ensures
            self.tree() is Decimal,
    {
        proof {
            use_type_invariant(self);
        }
    }
}

// ---------------------------------------------------------------------------
// serde_json
// ---------------------------------------------------------------------------

/// `serde_json::Number`, a JSON number.
#[verifier::external_type_specification]
#[verifier::external_body]
pub struct ExNumber(serde_json::Number);

/// `serde_json::Value`, a JSON value.
#[verifier::external_type_specification]
#[verifier::external_body]
pub struct ExValue(serde_json::Value);

/// What a `serde_json::Number` holds: an integer, or the text of a number that is none.
pub uninterp spec fn number_tree(number: serde_json::Number) -> JsonTree;

/// What a `serde_json::Value` holds.
pub uninterp spec fn value_tree(value: serde_json::Value) -> JsonTree;

/// What `serde_json::from_str` makes of a text: the value, or the error's message.
pub uninterp spec fn parsed(text: Seq<char>) -> Result<JsonTree, Seq<char>>;

/// What `serde_json::Value::to_string` writes for a value. Objects come out in the
/// order of their keys, so the text follows from the tree.
pub uninterp spec fn written(tree: JsonTree) -> Seq<char>;

/// `serde_json::Number::clone` keeps what the number holds.
pub assume_specification[ <serde_json::Number as Clone>::clone ](
    number: &serde_json::Number,
) -> (copy: serde_json::Number)
    ensures
        number_tree(copy) == number_tree(*number),
;

/// `serde_json::Number::as_u64` gives the integer where it fits in 64 unsigned bits.
pub assume_specification[ serde_json::Number::as_u64 ](number: &serde_json::Number) -> (n: Option<
    u64,
>)
    ensures
        n == number_tree(*number).as_unsigned(),
;

/// `serde_json::Number::as_i64` gives the integer where it fits in 64 signed bits. A
/// number that fits neither there nor in 64 unsigned bits is kept as a decimal.
pub assume_specification[ serde_json::Number::as_i64 ](number: &serde_json::Number) -> (n: Option<
    i64,
>)
    ensures
        n == number_tree(*number).as_signed(),
        n is None ==> number_tree(*number) is Decimal || number_tree(*number).as_unsigned()
            is Some,
;

/// One level of a `serde_json::Value`.
pub enum ValueShape {
    Null,
    Bool(bool),
    Number(serde_json::Number),
    Text(String),
    Array(Vec<serde_json::Value>),
    Object(Vec<(String, serde_json::Value)>),
}

/// Whether `key` is the key at index `i`.
pub open spec fn pair_at(
    pairs: Seq<(String, serde_json::Value)>,
    key: Seq<char>,
    i: int,
) -> bool {
    0 <= i < pairs.len() && pairs[i].0@ == key
}

/// The fields that pairs of keys and values make.
pub open spec fn pair_fields(pairs: Seq<(String, serde_json::Value)>) -> Fields {
    Map::new(
        |key: Seq<char>| exists|i: int| pair_at(pairs, key, i),
        |key: Seq<char>| value_tree(pairs[choose|i: int| pair_at(pairs, key, i)].1),
    )
}

/// Whether no two pairs have the same key.
pub open spec fn distinct_pairs(pairs: Seq<(String, serde_json::Value)>) -> bool {
    forall|i: int, j: int| 0 <= i < j < pairs.len() ==> pairs[i].0@ != pairs[j].0@
}

impl ValueShape {
    /// What the value means.
    pub open spec fn tree(self) -> JsonTree {
        match self {
            ValueShape::Null => JsonTree::Null,
            ValueShape::Bool(b) => JsonTree::Bool(b),
            ValueShape::Number(n) => number_tree(n),
            ValueShape::Text(text) => JsonTree::Text(text@),
            ValueShape::Array(values) => JsonTree::Array(
                Seq::new(values@.len(), |i: int| value_tree(values@[i])),
            ),
            ValueShape::Object(pairs) => JsonTree::Object(pair_fields(pairs@)),
        }
    }
}

/// Takes one level off a `serde_json::Value`, variant by variant. The keys of a
/// `serde_json::Map` are distinct, so the pairs that its iterator gives are too.
#[verifier::external_body]
pub(crate) fn open_value(value: serde_json::Value) -> (shape: ValueShape)
    ensures
        shape.tree() == value_tree(value),
        shape matches ValueShape::Object(pairs) ==> distinct_pairs(pairs@),
{
    match value {
        serde_json::Value::Null => ValueShape::Null,
        serde_json::Value::Bool(b) => ValueShape::Bool(b),
        serde_json::Value::Number(n) => ValueShape::Number(n),
        serde_json::Value::String(text) => ValueShape::Text(text),
        serde_json::Value::Array(values) => ValueShape::Array(values),
        serde_json::Value::Object(map) => ValueShape::Object(map.into_iter().collect()),
    }
}

/// Makes a `serde_json::Value` of one level, variant by variant. Pairs with distinct
/// keys make the `serde_json::Map` with just these fields.
#[verifier::external_body]
pub(crate) fn seal_value(shape: ValueShape) -> (value: serde_json::Value)
    requires
        shape matches ValueShape::Object(pairs) ==> distinct_pairs(pairs@),
    ensures
        value_tree(value) == shape.tree(),
{
    match shape {
        ValueShape::Null => serde_json::Value::Null,
        ValueShape::Bool(b) => serde_json::Value::Bool(b),
        ValueShape::Number(n) => serde_json::Value::Number(n),
        ValueShape::Text(text) => serde_json::Value::String(text),
        ValueShape::Array(values) => serde_json::Value::Array(values),
        ValueShape::Object(pairs) => serde_json::Value::Object(pairs.into_iter().collect()),
    }
}

/// `serde_json::Number::from` of an unsigned integer holds that integer.
#[verifier::external_body]
fn number_of_unsigned(n: u64) -> (number: serde_json::Number)
    ensures
        number_tree(number) == JsonTree::Integer(n as int),
{
    serde_json::Number::from(n)
}

/// `serde_json::Number::from` of a signed integer holds that integer.
#[verifier::external_body]
fn number_of_signed(n: i64) -> (number: serde_json::Number)
    ensures
        number_tree(number) == JsonTree::Integer(n as int),
{
    serde_json::Number::from(n)
}

/// `serde_json::from_str` to a `serde_json::Value`: what it gives follows from the text.
/// An error is given by its message.
#[verifier::external_body]
fn read_value(text: &str) -> (result: Result<serde_json::Value, String>)
    ensures
        match result {
            Ok(value) => parsed(text@) == Ok::<JsonTree, Seq<char>>(value_tree(value)),
            Err(message) => parsed(text@) == Err::<JsonTree, Seq<char>>(message@),
        },
{
    serde_json::from_str::<serde_json::Value>(text).map_err(|error| error.to_string())
}

/// `serde_json::Value::to_string`: the text follows from what the value holds.
#[verifier::external_body]
fn write_value(value: &serde_json::Value) -> (text: String)
    ensures
        text@ == written(value_tree(*value)),
{
    value.to_string()
}

impl Json {
    /// The value that a `serde_json::Value` holds.
    pub fn from_value(value: serde_json::Value) -> (json: Json)
        ensures
            json.tree() == value_tree(value),
        decreases value_tree(value),
    {
        match open_value(value) {
            ValueShape::Null => Json::Null,
            ValueShape::Bool(b) => Json::Bool(b),
            ValueShape::Number(number) => match number.as_u64() {
                Some(n) => Json::Unsigned(n),
                None => match number.as_i64() {
                    Some(n) => Json::Signed(n),
                    None => Json::Decimal(JsonDecimal { number }),
                },
            },
            ValueShape::Text(text) => Json::Text(text),
            ValueShape::Array(values) => {
                let ghost all = values@;
                let mut rest = values;
                let mut back: Vec<Json> = Vec::new();
                while rest.len() > 0
                    invariant
                        rest@.len() + back@.len() == all.len(),
                        rest@ == all.take(rest@.len() as int),
                        value_tree(value) == JsonTree::Array(
                            Seq::new(all.len(), |i: int| value_tree(all[i])),
                        ),
                        forall|k: int|
                            0 <= k < back@.len() ==> (#[trigger] back@[k]).tree() == value_tree(
                                all[all.len() - 1 - k],
                            ),
                    decreases rest@.len(),
                {
                    let ghost at = rest@.len() - 1;
                    match rest.pop() {
                        Some(last) => {
                            proof {
                                assert(last == all[at]);
                                let whole = value_tree(value);
                                assert(whole->Array_0[at] == value_tree(last));
                                assert(decreases_to!(whole => whole->Array_0));
                                assert(decreases_to!(whole->Array_0 => whole->Array_0[at]));
                            }
                            let item = Json::from_value(last);
                            back.push(item);
                        },
                        None => {},
                    }
                    assert(rest@ =~= all.take(rest@.len() as int));
                }
                let mut items: Vec<Json> = Vec::new();
                let ghost total = back@;
                while back.len() > 0
                    invariant
                        total.len() == all.len(),
                        back@ == total.take(back@.len() as int),
                        items@.len() + back@.len() == all.len(),
                        forall|k: int|
                            0 <= k < total.len() ==> (#[trigger] total[k]).tree() == value_tree(
                                all[all.len() - 1 - k],
                            ),
                        forall|k: int|
                            0 <= k < items@.len() ==> (#[trigger] items@[k]).tree() == value_tree(
                                all[k],
                            ),
                    decreases back@.len(),
                {
                    let ghost at = back@.len() - 1;
                    match back.pop() {
                        Some(item) => {
                            assert(item == total[at]);
                            items.push(item);
                        },
                        None => {},
                    }
                    assert(back@ =~= total.take(back@.len() as int));
                }
                proof {
                    lemma_array_tree(items);
                    assert(trees(items@) =~= Seq::new(all.len(), |i: int| value_tree(all[i])));
                }
                Json::Array(items)
            },
            ValueShape::Object(pairs) => {
                let ghost all = pairs@;
                let mut rest = pairs;
                let mut object = JsonObject::new();
                assert(object.fields() =~= pair_fields(all.skip(all.len() as int)));
                while rest.len() > 0
                    invariant
                        rest@.len() <= all.len(),
                        rest@ == all.take(rest@.len() as int),
                        value_tree(value) == JsonTree::Object(pair_fields(all)),
                        distinct_pairs(all),
                        object.fields() == pair_fields(all.skip(rest@.len() as int)),
                    decreases rest@.len(),
                {
                    let ghost at = rest@.len() - 1;
                    let ghost before = object.fields();
                    match rest.pop() {
                        Some(pair) => {
                            proof {
                                assert(pair == all[at]);
                                lemma_pair_fields(all, at);
                                let whole = value_tree(value);
                                assert(decreases_to!(whole => whole->Object_0[pair.0@]));
                            }
                            let item = Json::from_value(pair.1);
                            object = object.with(pair.0.as_str(), item);
                            proof {
                                lemma_pair_step(all, at);
                            }
                        },
                        None => {},
                    }
                    assert(rest@ =~= all.take(rest@.len() as int));
                }
                assert(all.skip(0) =~= all);
                Json::Object(object)
            },
        }
    }
}

impl Json {
    /// The `serde_json::Value` that holds the value.
    pub fn into_value(&self) -> (value: serde_json::Value)
        ensures
            value_tree(value) == self.tree(),
        decreases self,
    {
        match self {
            Json::Null => seal_value(ValueShape::Null),
            Json::Bool(b) => seal_value(ValueShape::Bool(*b)),
            Json::Unsigned(n) => seal_value(ValueShape::Number(number_of_unsigned(*n))),
            Json::Signed(n) => seal_value(ValueShape::Number(number_of_signed(*n))),
            Json::Decimal(d) => seal_value(ValueShape::Number(d.number.clone())),
            Json::Text(text) => seal_value(ValueShape::Text(text.clone())),
            Json::Array(items) => {
                let mut values: Vec<serde_json::Value> = Vec::new();
                let mut i: usize = 0;
                while i < items.len()
                    invariant
                        i <= items@.len(),
                        *self == Json::Array(*items),
                        values@.len() == i,
                        forall|k: int|
                            0 <= k < i ==> value_tree(#[trigger] values@[k]) == items@[k].tree(),
                    decreases items@.len() - i,
                {
                    proof {
                        assert(decreases_to!(*self => self->Array_0));
                        assert(decreases_to!(*items => items@[i as int]));
                    }
                    let value = items[i].into_value();
                    values.push(value);
                    i += 1;
                }
                proof {
                    lemma_array_tree(*items);
                    assert(trees(items@) =~= Seq::new(
                        values@.len(),
                        |i: int| value_tree(values@[i]),
                    ));
                }
                seal_value(ValueShape::Array(values))
            },
            Json::Object(object) => {
                proof {
                    use_type_invariant(object);
                    object.lemma_entries();
                }
                let mut pairs: Vec<(String, serde_json::Value)> = Vec::new();
                let mut i: usize = 0;
                while i < object.entries.len()
                    invariant
                        i <= object.entries@.len(),
                        *self == Json::Object(*object),
                        pairs@.len() == i,
                        forall|k: int|
                            0 <= k < i ==> (#[trigger] pairs@[k]).0@ == object.entries@[k].0@
                                && value_tree(pairs@[k].1) == object.entries@[k].1.tree(),
                    decreases object.entries@.len() - i,
                {
                    proof {
                        assert(decreases_to!(*self => self->Object_0));
                        assert(decreases_to!(*object => object.entries));
                        assert(decreases_to!(object.entries => object.entries@[i as int]));
                        assert(decreases_to!(
                            object.entries@[i as int] => object.entries@[i as int].1
                        ));
                    }
                    let key = object.entries[i].0.clone();
                    let value = object.entries[i].1.into_value();
                    pairs.push((key, value));
                    i += 1;
                }
                proof {
                    assert forall|a: int, b: int| 0 <= a < b < pairs@.len() implies pairs@[a].0@
                        != pairs@[b].0@ by {
                        assert(pairs@[a].0@ == object.entries@[a].0@);
                        assert(pairs@[b].0@ == object.entries@[b].0@);
                    }
                    let fields = pair_fields(pairs@);
                    assert forall|key: Seq<char>|
                        fields.dom().contains(key) == object.fields().dom().contains(key) by {
                        if fields.dom().contains(key) {
                            let k = choose|k: int| pair_at(pairs@, key, k);
                            assert(object.keys()[k] == key);
                        }
                        if object.fields().dom().contains(key) {
                            let k = choose|k: int| key_at(object.entries@, key, k);
                            assert(pairs@[k].0@ == key);
                            assert(pair_at(pairs@, key, k));
                        }
                    }
                    assert forall|key: Seq<char>| fields.dom().contains(key) implies fields[key]
                        == object.fields()[key] by {
                        let k = choose|k: int| pair_at(pairs@, key, k);
                        lemma_pair_fields(pairs@, k);
                        assert(object.keys()[k] == key);
                    }
                    assert(fields =~= object.fields());
                }
                seal_value(ValueShape::Object(pairs))
            },
        }
    }

    /// The value that a text says, or why it says none.
    pub fn parse(text: &str) -> (result: Result<Json, String>)
        ensures
            match result {
                Ok(json) => parsed(text@) == Ok::<JsonTree, Seq<char>>(json.tree()),
                Err(message) => parsed(text@) == Err::<JsonTree, Seq<char>>(message@),
            },
    {
        match read_value(text) {
            Ok(value) => Ok(Json::from_value(value)),
            Err(message) => Err(message),
        }
    }

    /// The value as a text without spaces.
    pub fn to_text(&self) -> (text: String)
        ensures
            text@ == written(self.tree()),
    {
        write_value(&self.into_value())
    }
}

/// The field that the pair at `at` makes.
proof fn lemma_pair_fields(pairs: Seq<(String, serde_json::Value)>, at: int)
    requires
        distinct_pairs(pairs),
        0 <= at < pairs.len(),
    ensures
        pair_fields(pairs).dom().contains(pairs[at].0@),
        pair_fields(pairs)[pairs[at].0@] == value_tree(pairs[at].1),
{
    let key = pairs[at].0@;
    assert(pair_at(pairs, key, at));
    let i = choose|i: int| pair_at(pairs, key, i);
    assert(pair_at(pairs, key, i));
    assert(i == at);
}

/// One more pair in front adds its field.
proof fn lemma_pair_step(pairs: Seq<(String, serde_json::Value)>, at: int)
    requires
        distinct_pairs(pairs),
        0 <= at < pairs.len(),
    ensures
        pair_fields(pairs.skip(at)) == pair_fields(pairs.skip(at + 1)).insert(
            pairs[at].0@,
            value_tree(pairs[at].1),
        ),
{
    let more = pairs.skip(at);
    let less = pairs.skip(at + 1);
    let key = pairs[at].0@;
    assert(distinct_pairs(more)) by {
        assert forall|i: int, j: int| 0 <= i < j < more.len() implies more[i].0@ != more[j].0@ by {
            assert(more[i] == pairs[at + i]);
            assert(more[j] == pairs[at + j]);
        }
    }
    assert(distinct_pairs(less)) by {
        assert forall|i: int, j: int| 0 <= i < j < less.len() implies less[i].0@ != less[j].0@ by {
            assert(less[i] == pairs[at + 1 + i]);
            assert(less[j] == pairs[at + 1 + j]);
        }
    }
    lemma_pair_fields(more, 0);
    let target = pair_fields(less).insert(key, value_tree(pairs[at].1));
    assert forall|k: Seq<char>|
        pair_fields(more).dom().contains(k) == target.dom().contains(k) by {
        if pair_fields(more).dom().contains(k) && k != key {
            let i = choose|i: int| pair_at(more, k, i);
            assert(pair_at(less, k, i - 1));
        }
        if pair_fields(less).dom().contains(k) {
            let i = choose|i: int| pair_at(less, k, i);
            assert(pair_at(more, k, i + 1));
        }
    }
    assert forall|k: Seq<char>| pair_fields(more).dom().contains(k) implies pair_fields(more)[k]
        == target[k] by {
        if k != key {
            let i = choose|i: int| pair_at(more, k, i);
            lemma_pair_fields(more, i);
            assert(less[i - 1] == more[i]);
            lemma_pair_fields(less, i - 1);
        }
    }
    assert(pair_fields(more) =~= target);
}

} // verus!
