//! The log that the server keeps in memory.
//!
//! Entries are numbered without gaps. The store keeps the most recent ones, drops the
//! oldest when it is full, and masks whatever looks like a secret before it keeps it.

use std::collections::VecDeque;
use vstd::prelude::*;
use vstd::string::*;

use crate::clock;
use crate::json;
use crate::json::{Json, JsonObject, JsonTree};
use crate::text;
use crate::throttle::{EmitGate, EmitPlan};

verus! {

/// The number of entries that the store keeps.
pub const MAX_LOGS: usize = 1_200_000;

/// The number of entries that one page holds at most.
pub const MAX_LOG_PAGE_LIMIT: usize = 500;

/// The event that tells listeners of new entries.
pub const LOG_STATS_EVENT: &'static str = "log-stats-updated";

/// Listeners are told once in this many milliseconds.
pub const LOG_STATS_EMIT_MS: u64 = 100;

/// What stands in the place of a secret.
pub const MASK: &'static str = "••••";

/// How serious an entry is.
#[derive(Debug, Clone, Copy, PartialEq, Eq, Structural)]
pub enum LogLevel {
    Debug,
    Info,
    Warn,
    Error,
}

/// An entry of the log.
#[derive(Debug)]
pub struct LogEntry {
    pub id: u64,
    pub time: String,
    pub level: LogLevel,
    pub source: String,
    pub request_id: Option<String>,
    pub task_id: Option<String>,
    pub summary: String,
    pub detail: Option<Json>,
}

/// What an entry says.
#[verifier::ext_equal]
pub struct LogEntryView {
    pub id: u64,
    pub time: Seq<char>,
    pub level: LogLevel,
    pub source: Seq<char>,
    pub request_id: Option<Seq<char>>,
    pub task_id: Option<Seq<char>>,
    pub summary: Seq<char>,
    pub detail: Option<JsonTree>,
}

impl View for LogEntry {
    type V = LogEntryView;

    open spec fn view(&self) -> LogEntryView {
        LogEntryView {
            id: self.id,
            time: self.time@,
            level: self.level,
            source: self.source@,
            request_id: text::option_text(self.request_id),
            task_id: text::option_text(self.task_id),
            summary: self.summary@,
            detail: json::option_tree(self.detail),
        }
    }
}

impl Clone for LogEntry {
    fn clone(&self) -> (copy: Self)
        ensures
            copy@ == self@,
    {
        LogEntry {
            id: self.id,
            time: self.time.clone(),
            level: self.level,
            source: self.source.clone(),
            request_id: text::copy_option(&self.request_id),
            task_id: text::copy_option(&self.task_id),
            summary: self.summary.clone(),
            detail: match &self.detail {
                Some(detail) => Some(detail.clone()),
                None => None,
            },
        }
    }
}

/// An entry as a page lists it: without its detail.
#[derive(Debug, Clone)]
pub struct LogListEntry {
    pub id: u64,
    pub time: String,
    pub level: LogLevel,
    pub source: String,
    pub request_id: Option<String>,
    pub task_id: Option<String>,
    pub summary: String,
    pub has_detail: bool,
}

impl LogListEntry {
    /// Whether this is how a page lists the entry.
    pub open spec fn lists(&self, entry: LogEntryView) -> bool {
        &&& self.id == entry.id
        &&& self.time@ == entry.time
        &&& self.level == entry.level
        &&& self.source@ == entry.source
        &&& text::option_text(self.request_id) == entry.request_id
        &&& text::option_text(self.task_id) == entry.task_id
        &&& self.summary@ == entry.summary
        &&& self.has_detail == (entry.detail is Some)
    }

    /// How a page lists an entry.
    pub fn from(entry: &LogEntry) -> (listed: LogListEntry)
        ensures
            listed.lists(entry@),
    {
        LogListEntry {
            id: entry.id,
            time: entry.time.clone(),
            level: entry.level,
            source: entry.source.clone(),
            request_id: text::copy_option(&entry.request_id),
            task_id: text::copy_option(&entry.task_id),
            summary: entry.summary.clone(),
            has_detail: entry.detail.is_some(),
        }
    }
}

/// How many entries there are.
#[derive(Debug, Clone, Copy, PartialEq, Eq, Structural)]
pub struct LogStats {
    pub total: usize,
    pub dropped: usize,
    pub debug: usize,
    pub info: usize,
    pub warn: usize,
    pub error: usize,
    pub latest_id: Option<u64>,
}

/// A part of the log.
#[derive(Debug, Clone)]
pub struct LogPage {
    pub entries: Vec<LogListEntry>,
    pub total: usize,
    pub offset: usize,
    pub limit: usize,
    pub dropped: usize,
    pub latest_id: Option<u64>,
}

/// An entry that is still to be written: all but its number and its time.
#[derive(Debug)]
pub struct LogDraft {
    pub level: LogLevel,
    pub source: String,
    pub request_id: Option<String>,
    pub task_id: Option<String>,
    pub summary: String,
    pub detail: Option<Json>,
}

/// What a draft says.
#[verifier::ext_equal]
pub struct LogDraftView {
    pub level: LogLevel,
    pub source: Seq<char>,
    pub request_id: Option<Seq<char>>,
    pub task_id: Option<Seq<char>>,
    pub summary: Seq<char>,
    pub detail: Option<JsonTree>,
}

impl View for LogDraft {
    type V = LogDraftView;

    open spec fn view(&self) -> LogDraftView {
        LogDraftView {
            level: self.level,
            source: self.source@,
            request_id: text::option_text(self.request_id),
            task_id: text::option_text(self.task_id),
            summary: self.summary@,
            detail: json::option_tree(self.detail),
        }
    }
}

impl LogDraft {
    /// A draft.
    pub fn new(
        level: LogLevel,
        source: &str,
        request_id: Option<String>,
        task_id: Option<String>,
        summary: &str,
        detail: Option<Json>,
    ) -> (draft: LogDraft)
        ensures
            draft@ == (LogDraftView {
                level,
                source: source@,
                request_id: text::option_text(request_id),
                task_id: text::option_text(task_id),
                summary: summary@,
                detail: json::option_tree(detail),
            }),
    {
        LogDraft {
            level,
            source: source.to_owned(),
            request_id,
            task_id,
            summary: summary.to_owned(),
            detail,
        }
    }
}

// ---------------------------------------------------------------------------
// Masking of secrets
// ---------------------------------------------------------------------------

/// What the name of a secret contains, in lower case.
pub open spec fn secret_words() -> Seq<Seq<char>> {
    seq!["key"@, "secret"@, "authorization"@, "token"@]
}

/// Whether a field with this name holds a secret.
pub open spec fn is_secret(key: Seq<char>) -> bool {
    text::has_any(text::lowered(key), secret_words())
}

/// A value with every secret in it masked, at any depth.
pub open spec fn redacted(tree: JsonTree) -> JsonTree
    decreases tree,
{
    match tree {
        JsonTree::Object(fields) => JsonTree::Object(
            Map::new(
                |key: Seq<char>| fields.dom().contains(key),
                |key: Seq<char>|
                    if is_secret(key) {
                        JsonTree::Text(MASK@)
                    } else if fields.dom().contains(key) {
                        redacted(fields[key])
                    } else {
                        JsonTree::Null
                    },
            ),
        ),
        JsonTree::Array(items) => JsonTree::Array(
            Seq::new(
                items.len(),
                |i: int|
                    if 0 <= i < items.len() {
                        redacted(items[i])
                    } else {
                        JsonTree::Null
                    },
            ),
        ),
        other => other,
    }
}

/// Whether no secret stands unmasked in a value, at any depth.
pub open spec fn is_masked(tree: JsonTree) -> bool
    decreases tree,
{
    match tree {
        JsonTree::Object(fields) => forall|key: Seq<char>| #[trigger]
            fields.dom().contains(key) ==> if is_secret(key) {
                fields[key] == JsonTree::Text(MASK@)
            } else {
                is_masked(fields[key])
            },
        JsonTree::Array(items) => forall|i: int|
            0 <= i < items.len() ==> is_masked(#[trigger] items[i]),
        _ => true,
    }
}

/// What a log keeps has no secret left unmasked, however deep it stands.
pub proof fn law_redaction_masks_every_secret(tree: JsonTree)
    ensures
        is_masked(redacted(tree)),
    decreases tree,
{
    match tree {
        JsonTree::Object(fields) => {
            let after = redacted(tree)->Object_0;
            assert forall|key: Seq<char>| #[trigger] after.dom().contains(key) implies if is_secret(
                key,
            ) {
                after[key] == JsonTree::Text(MASK@)
            } else {
                is_masked(after[key])
            } by {
                if !is_secret(key) {
                    law_redaction_masks_every_secret(fields[key]);
                }
            }
        },
        JsonTree::Array(items) => {
            let after = redacted(tree)->Array_0;
            assert forall|i: int| 0 <= i < after.len() implies is_masked(#[trigger] after[i]) by {
                law_redaction_masks_every_secret(items[i]);
            }
        },
        _ => {},
    }
}

/// Masking what is masked already changes nothing.
pub proof fn law_redaction_is_idempotent(tree: JsonTree)
    ensures
        redacted(redacted(tree)) == redacted(tree),
    decreases tree,
{
    match tree {
        JsonTree::Object(fields) => {
            let once = redacted(tree)->Object_0;
            let twice = redacted(redacted(tree))->Object_0;
            assert forall|key: Seq<char>| once.dom().contains(key) implies twice[key]
                == once[key] by {
                if !is_secret(key) {
                    law_redaction_is_idempotent(fields[key]);
                }
            }
            assert(twice =~= once);
        },
        JsonTree::Array(items) => {
            let once = redacted(tree)->Array_0;
            let twice = redacted(redacted(tree))->Array_0;
            assert forall|i: int| 0 <= i < once.len() implies twice[i] == once[i] by {
                law_redaction_is_idempotent(items[i]);
            }
            assert(twice =~= once);
        },
        _ => {},
    }
}

/// Tests whether a field with this name holds a secret.
fn names_secret(key: &str) -> (secret: bool)
    ensures
        secret == is_secret(key@),
{
    let lowered = text::to_lower(key);
    let words: [&str; 4] = ["key", "secret", "authorization", "token"];
    assert(text::each_text(words@) =~= secret_words());
    text::contains_any(lowered.as_str(), &words)
}

/// Masks every secret in a value.
pub fn redact_value(value: &Json) -> (masked: Json)
    ensures
        masked.tree() == redacted(value.tree()),
    decreases value,
{
    match value {
        Json::Object(object) => {
            proof {
                assert(decreases_to!(*value => value->Object_0));
            }
            Json::Object(redact_map(object))
        },
        Json::Array(items) => {
            proof {
                json::lemma_array_tree(*items);
            }
            let mut masked: Vec<Json> = Vec::new();
            let mut i: usize = 0;
            while i < items.len()
                invariant
                    i <= items@.len(),
                    *value == Json::Array(*items),
                    masked@.len() == i,
                    forall|j: int|
                        0 <= j < i ==> (#[trigger] masked@[j]).tree() == redacted(items@[j].tree()),
                decreases items@.len() - i,
            {
                proof {
                    assert(decreases_to!(*value => value->Array_0));
                    assert(decreases_to!(*items => items@[i as int]));
                }
                masked.push(redact_value(&items[i]));
                i += 1;
            }
            let result = Json::array(masked);
            assert(result.tree()->Array_0 =~= redacted(value.tree())->Array_0);
            result
        },
        other => {
            other.scalar();
            other.clone()
        },
    }
}

/// Masks every secret in an object.
pub fn redact_map(object: &JsonObject) -> (masked: JsonObject)
    ensures
        JsonTree::Object(masked.fields()) == redacted(JsonTree::Object(object.fields())),
    decreases object,
{
    let count: usize = object.len();
    let ghost keys = object.keys();
    let ghost target = redacted(JsonTree::Object(object.fields()))->Object_0;
    let mut masked = JsonObject::new();
    let mut i: usize = 0;
    while i < count
        invariant
            i <= count,
            count == keys.len(),
            keys == object.keys(),
            keys.to_set() == object.fields().dom(),
            target == redacted(JsonTree::Object(object.fields()))->Object_0,
            forall|key: Seq<char>| #[trigger]
                masked.fields().dom().contains(key) == json::among(keys, i as int, key),
            forall|key: Seq<char>| #[trigger]
                masked.fields().dom().contains(key) ==> masked.fields()[key] == target[key],
        decreases count - i,
    {
        let key = object.key(i);
        let item = object.value(i);
        assert(keys.to_set().contains(keys[i as int]));
        let kept = if names_secret(key) {
            Json::text(MASK)
        } else {
            redact_value(item)
        };
        let ghost before = masked.fields();
        masked = masked.with(key, kept);
        assert forall|k: Seq<char>| #[trigger]
            masked.fields().dom().contains(k) == json::among(keys, i + 1, k) by {
            json::lemma_among_next(keys, i as int, k);
            assert(masked.fields().dom().contains(k) == (k == key@ || before.dom().contains(k)));
        }
        assert forall|k: Seq<char>| #[trigger] masked.fields().dom().contains(k) implies
            masked.fields()[k] == target[k] by {
            if k != key@ {
                assert(before.dom().contains(k));
            }
        }
        i += 1;
    }
    assert(masked.fields() =~= target) by {
        assert forall|key: Seq<char>|
            masked.fields().dom().contains(key) == target.dom().contains(key) by {
            json::lemma_among_all(keys, key);
        }
    }
    masked
}

// ---------------------------------------------------------------------------
// The store
// ---------------------------------------------------------------------------

/// The entries of one level, as they stand.
pub open spec fn of_level(entries: Seq<LogEntryView>, level: LogLevel) -> Seq<LogEntryView>
    decreases entries.len(),
{
    if entries.len() == 0 {
        Seq::empty()
    } else {
        let front = of_level(entries.drop_last(), level);
        if entries.last().level == level {
            front.push(entries.last())
        } else {
            front
        }
    }
}

/// The entries of one level, or all of them.
pub open spec fn selected(entries: Seq<LogEntryView>, level: Option<LogLevel>) -> Seq<
    LogEntryView,
> {
    match level {
        Some(l) => of_level(entries, l),
        None => entries,
    }
}

/// The numbers of entries.
pub open spec fn entry_ids(entries: Seq<LogEntryView>) -> Seq<u64> {
    Seq::new(entries.len(), |i: int| entries[i].id)
}

/// What is kept when one more entry comes: where the store is full, the oldest goes.
pub open spec fn with_entry(entries: Seq<LogEntryView>, entry: LogEntryView) -> Seq<LogEntryView> {
    if entries.len() >= MAX_LOGS {
        entries.skip(1).push(entry)
    } else {
        entries.push(entry)
    }
}

/// The number of the latest entry.
pub open spec fn latest(entries: Seq<LogEntryView>) -> Option<u64> {
    if entries.len() == 0 {
        None
    } else {
        Some(entries.last().id)
    }
}

/// The smaller of two numbers.
pub open spec fn lesser(a: int, b: int) -> int {
    if a <= b {
        a
    } else {
        b
    }
}

/// The log.
pub struct LogStore {
    entries: VecDeque<LogEntry>,
    debug_ids: VecDeque<u64>,
    info_ids: VecDeque<u64>,
    warn_ids: VecDeque<u64>,
    error_ids: VecDeque<u64>,
    dropped: usize,
    next_id: u64,
    gate: EmitGate,
}

impl LogStore {
    /// The entries that the log keeps, the oldest first.
    pub closed spec fn entries(&self) -> Seq<LogEntryView> {
        Seq::new(self.entries@.len(), |i: int| self.entries@[i]@)
    }

    /// How many entries were dropped.
    pub closed spec fn dropped(&self) -> usize {
        self.dropped
    }

    /// The number of the last entry that was written.
    pub closed spec fn last_id(&self) -> u64 {
        self.next_id
    }

    /// When listeners were last told of new entries.
    pub closed spec fn gate(&self) -> EmitGate {
        self.gate
    }

    spec fn level_ids(&self, level: LogLevel) -> Seq<u64> {
        match level {
            LogLevel::Debug => self.debug_ids@,
            LogLevel::Info => self.info_ids@,
            LogLevel::Warn => self.warn_ids@,
            LogLevel::Error => self.error_ids@,
        }
    }

    /// The entries are numbered without gaps up to the last number, and the numbers of
    /// each level are at hand.
    pub closed spec fn wf(&self) -> bool {
        &&& self.entries().len() <= MAX_LOGS
        &&& self.entries().len() <= self.next_id
        &&& forall|i: int|
            0 <= i < self.entries().len() ==> (#[trigger] self.entries()[i]).id == self.next_id
                - self.entries().len() + 1 + i
        &&& forall|level: LogLevel|
            (#[trigger] self.level_ids(level)) == entry_ids(of_level(self.entries(), level))
    }

    /// What the log states of itself.
    pub open spec fn stats_view(&self) -> LogStats {
        LogStats {
            total: self.entries().len() as usize,
            dropped: self.dropped(),
            debug: of_level(self.entries(), LogLevel::Debug).len() as usize,
            info: of_level(self.entries(), LogLevel::Info).len() as usize,
            warn: of_level(self.entries(), LogLevel::Warn).len() as usize,
            error: of_level(self.entries(), LogLevel::Error).len() as usize,
            latest_id: latest(self.entries()),
        }
    }

    /// An empty log.
    pub fn new() -> (store: LogStore)
        ensures
            store.wf(),
            store.entries() == Seq::<LogEntryView>::empty(),
            store.dropped() == 0,
            store.last_id() == 0,
            store.gate() == (EmitGate { last_ms: 0, pending: false }),
    {
        let store = LogStore {
            entries: VecDeque::new(),
            debug_ids: VecDeque::new(),
            info_ids: VecDeque::new(),
            warn_ids: VecDeque::new(),
            error_ids: VecDeque::new(),
            dropped: 0,
            next_id: 0,
            gate: EmitGate::new(),
        };
        assert(store.entries() =~= Seq::<LogEntryView>::empty());
        assert forall|level: LogLevel|
            (#[trigger] store.level_ids(level)) == entry_ids(of_level(store.entries(), level)) by {
            assert(store.level_ids(level) =~= entry_ids(of_level(store.entries(), level)));
        }
        store
    }

    /// Tests whether there is a number left for another entry.
    pub fn has_room(&self) -> (room: bool)
        ensures
            room == (self.last_id() < u64::MAX),
    {
        self.next_id < u64::MAX
    }

    /// Writes an entry with the time now.
    pub fn push(
        &mut self,
        level: LogLevel,
        source: &str,
        request_id: Option<String>,
        task_id: Option<String>,
        summary: &str,
        detail: Option<Json>,
    ) -> (entry: LogEntry)
        requires
            old(self).wf(),
            old(self).last_id() < u64::MAX,
        ensures
            final(self).wf(),
            entry@ == new_entry(
                (old(self).last_id() + 1) as u64,
                entry.time@,
                LogDraftView {
                    level,
                    source: source@,
                    request_id: text::option_text(request_id),
                    task_id: text::option_text(task_id),
                    summary: summary@,
                    detail: json::option_tree(detail),
                },
            ),
            clock::is_time_of_day(entry.time@),
            final(self).entries() == with_entry(old(self).entries(), entry@),
            final(self).last_id() == old(self).last_id() + 1,
            final(self).dropped() == (if old(self).entries().len() >= MAX_LOGS {
                old(self).dropped().wrapping_add(1)
            } else {
                old(self).dropped()
            }),
            final(self).gate() == old(self).gate(),
    {
        let time = clock::local_time_of_day();
        let draft = LogDraft {
            level,
            source: source.to_owned(),
            request_id,
            task_id,
            summary: summary.to_owned(),
            detail,
        };
        self.push_at(time, draft)
    }

    /// Writes a drafted entry with the time now.
    pub fn push_draft(&mut self, draft: LogDraft) -> (entry: LogEntry)
        requires
            old(self).wf(),
            old(self).last_id() < u64::MAX,
        ensures
            final(self).wf(),
            entry@ == new_entry((old(self).last_id() + 1) as u64, entry.time@, draft@),
            clock::is_time_of_day(entry.time@),
            final(self).entries() == with_entry(old(self).entries(), entry@),
            final(self).last_id() == old(self).last_id() + 1,
            final(self).dropped() == (if old(self).entries().len() >= MAX_LOGS {
                old(self).dropped().wrapping_add(1)
            } else {
                old(self).dropped()
            }),
            final(self).gate() == old(self).gate(),
    {
        let time = clock::local_time_of_day();
        self.push_at(time, draft)
    }

    /// Writes a drafted entry with the given time.
    pub fn push_at(&mut self, time: String, draft: LogDraft) -> (entry: LogEntry)
        requires
            old(self).wf(),
            old(self).last_id() < u64::MAX,
        ensures
            final(self).wf(),
            entry@ == new_entry((old(self).last_id() + 1) as u64, time@, draft@),
            final(self).entries() == with_entry(old(self).entries(), entry@),
            final(self).last_id() == old(self).last_id() + 1,
            final(self).dropped() == (if old(self).entries().len() >= MAX_LOGS {
                old(self).dropped().wrapping_add(1)
            } else {
                old(self).dropped()
            }),
            final(self).gate() == old(self).gate(),
    {
        let id: u64 = self.next_id + 1;
        let entry = LogEntry {
            id,
            time,
            level: draft.level,
            source: draft.source,
            request_id: draft.request_id,
            task_id: draft.task_id,
            summary: draft.summary,
            detail: match draft.detail {
                Some(detail) => Some(redact_value(&detail)),
                None => None,
            },
        };
        let ghost before = self.entries();
        if self.entries.len() >= MAX_LOGS {
            self.drop_oldest();
        }
        let ghost kept = self.entries();
        let ghost middle = *self;
        assert(with_entry(before, entry@) == kept.push(entry@));
        self.next_id = id;
        assert forall|level: LogLevel|
            (#[trigger] self.level_ids(level)) == entry_ids(of_level(kept, level)) by {
            assert(middle.level_ids(level) == self.level_ids(level));
        }
        let ghost numbered = *self;
        self.add_level_id(entry.level, id);
        let ghost added = *self;
        self.entries.push_back(entry.clone());
        proof {
            assert(self.entries() =~= kept.push(entry@));
            assert(kept.push(entry@).drop_last() =~= kept);
            assert forall|level: LogLevel|
                (#[trigger] self.level_ids(level)) == entry_ids(
                    of_level(self.entries(), level),
                ) by {
                assert(added.level_ids(level) == self.level_ids(level));
                assert(numbered.level_ids(level) == entry_ids(of_level(kept, level)));
                assert(self.level_ids(level) =~= entry_ids(of_level(self.entries(), level)));
            }
        }
        entry
    }

    /// Takes the oldest entry out.
    fn drop_oldest(&mut self)
        requires
            old(self).wf(),
            old(self).entries().len() > 0,
        ensures
            final(self).wf(),
            final(self).entries() == old(self).entries().skip(1),
            final(self).last_id() == old(self).last_id(),
            final(self).dropped() == old(self).dropped().wrapping_add(1),
            final(self).gate() == old(self).gate(),
    {
        let ghost before = self.entries();
        let ghost first = *self;
        let removed = self.entries.pop_front();
        assert(self.entries() =~= before.skip(1));
        assert forall|level: LogLevel|
            (#[trigger] self.level_ids(level)) == entry_ids(of_level(before, level)) by {
            assert(first.level_ids(level) == self.level_ids(level));
        }
        if let Some(entry) = removed {
            proof {
                assert(entry@ == before[0]);
                assert forall|level: LogLevel|
                    (#[trigger] entry_ids(of_level(before.skip(1), level))) == (if entry.level
                        == level {
                        entry_ids(of_level(before, level)).skip(1)
                    } else {
                        entry_ids(of_level(before, level))
                    }) by {
                    lemma_of_level_skip(before, level);
                    assert(entry_ids(of_level(before.skip(1), level)) =~= (if entry.level == level {
                        entry_ids(of_level(before, level)).skip(1)
                    } else {
                        entry_ids(of_level(before, level))
                    }));
                }
            }
            proof {
                lemma_of_level_skip(before, entry.level);
                assert(self.level_ids(entry.level).len() > 0);
            }
            self.remove_level_id(entry.level);
        }
        let ghost middle = *self;
        self.dropped = self.dropped.wrapping_add(1);
        proof {
            assert forall|level: LogLevel|
                (#[trigger] self.level_ids(level)) == entry_ids(
                    of_level(self.entries(), level),
                ) by {
                assert(middle.level_ids(level) == self.level_ids(level));
                assert(entry_ids(of_level(before.skip(1), level)) == middle.level_ids(level));
            }
        }
    }

    /// Notes the number of an entry with its level.
    fn add_level_id(&mut self, level: LogLevel, id: u64)
        ensures
            final(self).entries == old(self).entries,
            final(self).dropped == old(self).dropped,
            final(self).next_id == old(self).next_id,
            final(self).gate == old(self).gate,
            forall|l: LogLevel|
                (#[trigger] final(self).level_ids(l)) == (if l == level {
                    old(self).level_ids(l).push(id)
                } else {
                    old(self).level_ids(l)
                }),
    {
        match level {
            LogLevel::Debug => self.debug_ids.push_back(id),
            LogLevel::Info => self.info_ids.push_back(id),
            LogLevel::Warn => self.warn_ids.push_back(id),
            LogLevel::Error => self.error_ids.push_back(id),
        }
    }

    /// Forgets the oldest number of a level.
    fn remove_level_id(&mut self, level: LogLevel)
        requires
            old(self).level_ids(level).len() > 0,
        ensures
            final(self).entries == old(self).entries,
            final(self).dropped == old(self).dropped,
            final(self).next_id == old(self).next_id,
            final(self).gate == old(self).gate,
            forall|l: LogLevel|
                (#[trigger] final(self).level_ids(l)) == (if l == level {
                    old(self).level_ids(l).skip(1)
                } else {
                    old(self).level_ids(l)
                }),
    {
        let ghost before = *self;
        let removed = match level {
            LogLevel::Debug => self.debug_ids.pop_front(),
            LogLevel::Info => self.info_ids.pop_front(),
            LogLevel::Warn => self.warn_ids.pop_front(),
            LogLevel::Error => self.error_ids.pop_front(),
        };
        assert(self.level_ids(level) =~= before.level_ids(level).skip(1));
    }

    /// Empties the log. The numbering goes on.
    pub fn clear_stats(&mut self) -> (stats: LogStats)
        requires
            old(self).wf(),
        ensures
            final(self).wf(),
            final(self).entries() == Seq::<LogEntryView>::empty(),
            final(self).dropped() == 0,
            final(self).last_id() == old(self).last_id(),
            final(self).gate() == old(self).gate(),
            stats == final(self).stats_view(),
    {
        self.entries = VecDeque::new();
        self.debug_ids = VecDeque::new();
        self.info_ids = VecDeque::new();
        self.warn_ids = VecDeque::new();
        self.error_ids = VecDeque::new();
        self.dropped = 0;
        assert(self.entries() =~= Seq::<LogEntryView>::empty());
        assert forall|level: LogLevel|
            (#[trigger] self.level_ids(level)) == entry_ids(of_level(self.entries(), level)) by {
            assert(self.level_ids(level) =~= entry_ids(of_level(self.entries(), level)));
        }
        self.stats()
    }

    /// How many entries there are.
    pub fn stats(&self) -> (stats: LogStats)
        requires
            self.wf(),
        ensures
            stats == self.stats_view(),
            stats.total == self.entries().len(),
            stats.debug == of_level(self.entries(), LogLevel::Debug).len(),
            stats.info == of_level(self.entries(), LogLevel::Info).len(),
            stats.warn == of_level(self.entries(), LogLevel::Warn).len(),
            stats.error == of_level(self.entries(), LogLevel::Error).len(),
    {
        assert(self.level_ids(LogLevel::Debug).len() == self.debug_ids@.len());
        assert(self.level_ids(LogLevel::Info).len() == self.info_ids@.len());
        assert(self.level_ids(LogLevel::Warn).len() == self.warn_ids@.len());
        assert(self.level_ids(LogLevel::Error).len() == self.error_ids@.len());
        LogStats {
            total: self.entries.len(),
            dropped: self.dropped,
            debug: self.debug_ids.len(),
            info: self.info_ids.len(),
            warn: self.warn_ids.len(),
            error: self.error_ids.len(),
            latest_id: self.latest_id(),
        }
    }

    /// The number of the latest entry that is kept.
    fn latest_id(&self) -> (id: Option<u64>)
        ensures
            id == latest(self.entries()),
    {
        let count: usize = self.entries.len();
        if count == 0 {
            None
        } else {
            assert(self.entries().last() == self.entries@[count - 1]@);
            Some(self.entries[count - 1].id)
        }
    }

    /// The number of the entry at `at` among those of one level, or among all.
    fn id_at(&self, level: Option<LogLevel>, at: usize) -> (id: u64)
        requires
            self.wf(),
            at < selected(self.entries(), level).len(),
        ensures
            id == selected(self.entries(), level)[at as int].id,
    {
        match level {
            None => self.entries[at].id,
            Some(LogLevel::Debug) => {
                assert(self.level_ids(LogLevel::Debug)[at as int] == self.debug_ids@[at as int]);
                self.debug_ids[at]
            },
            Some(LogLevel::Info) => {
                assert(self.level_ids(LogLevel::Info)[at as int] == self.info_ids@[at as int]);
                self.info_ids[at]
            },
            Some(LogLevel::Warn) => {
                assert(self.level_ids(LogLevel::Warn)[at as int] == self.warn_ids@[at as int]);
                self.warn_ids[at]
            },
            Some(LogLevel::Error) => {
                assert(self.level_ids(LogLevel::Error)[at as int] == self.error_ids@[at as int]);
                self.error_ids[at]
            },
        }
    }

    /// How many entries one level has, or all have.
    fn total_for_level(&self, level: Option<LogLevel>) -> (total: usize)
        requires
            self.wf(),
        ensures
            total == selected(self.entries(), level).len(),
    {
        match level {
            None => self.entries.len(),
            Some(l) => {
                assert(self.level_ids(l).len() == of_level(self.entries(), l).len());
                match l {
                    LogLevel::Debug => self.debug_ids.len(),
                    LogLevel::Info => self.info_ids.len(),
                    LogLevel::Warn => self.warn_ids.len(),
                    LogLevel::Error => self.error_ids.len(),
                }
            },
        }
    }

    /// The index of the entry with the given number.
    fn index_of(&self, id: u64) -> (index: Option<usize>)
        requires
            self.wf(),
        ensures
            match index {
                Some(i) => i < self.entries().len() && self.entries()[i as int].id == id,
                None => forall|i: int|
                    0 <= i < self.entries().len() ==> (#[trigger] self.entries()[i]).id != id,
            },
    {
        if self.entries.len() == 0 {
            return None;
        }
        assert(self.entries()[0] == self.entries@[0]@);
        let first: u64 = self.entries[0].id;
        if id < first || id - first >= self.entries.len() as u64 {
            return None;
        }
        let index: usize = (id - first) as usize;
        assert(self.entries()[index as int].id == id);
        Some(index)
    }

    /// A part of the log: of the entries of one level, or of all, the ones from `offset`
    /// on, at most `limit` of them.
    pub fn page(&self, level: Option<LogLevel>, offset: usize, limit: usize) -> (page: LogPage)
        requires
            self.wf(),
        ensures
            page.total == selected(self.entries(), level).len(),
            page.offset == lesser(offset as int, page.total as int),
            page.limit == lesser(limit as int, MAX_LOG_PAGE_LIMIT as int),
            page.entries@.len() == lesser(page.limit as int, page.total - page.offset),
            forall|i: int|
                0 <= i < page.entries@.len() ==> (#[trigger] page.entries@[i]).lists(
                    selected(self.entries(), level)[page.offset + i],
                ),
            page.dropped == self.dropped(),
            page.latest_id == latest(self.entries()),
    {
        let total: usize = self.total_for_level(level);
        let offset: usize = if offset <= total {
            offset
        } else {
            total
        };
        let limit: usize = if limit <= MAX_LOG_PAGE_LIMIT {
            limit
        } else {
            MAX_LOG_PAGE_LIMIT
        };
        let end: usize = if limit <= total - offset {
            offset + limit
        } else {
            total
        };
        let mut entries: Vec<LogListEntry> = Vec::new();
        let mut at: usize = offset;
        while at < end
            invariant
                self.wf(),
                offset <= at <= end <= total,
                total == selected(self.entries(), level).len(),
                entries@.len() == at - offset,
                forall|i: int|
                    0 <= i < entries@.len() ==> (#[trigger] entries@[i]).lists(
                        selected(self.entries(), level)[offset + i],
                    ),
            decreases end - at,
        {
            let id: u64 = self.id_at(level, at);
            proof {
                lemma_selected_is_kept(self.entries(), level, at as int);
            }
            match self.index_of(id) {
                Some(index) => {
                    proof {
                        let k = choose|k: int|
                            0 <= k < self.entries().len() && self.entries()[k] == selected(
                                self.entries(),
                                level,
                            )[at as int];
                        assert(self.entries()[index as int].id == self.entries()[k].id);
                        assert(index == k);
                    }
                    entries.push(LogListEntry::from(&self.entries[index]));
                },
                None => {
                    assert(false);
                },
            }
            at += 1;
        }
        LogPage {
            entries,
            total,
            offset,
            limit,
            dropped: self.dropped,
            latest_id: self.latest_id(),
        }
    }

    /// The entry with the given number, where the log keeps it.
    pub fn detail(&self, id: u64) -> (entry: Option<LogEntry>)
        requires
            self.wf(),
        ensures
            match entry {
                Some(e) => e.id == id && self.entries().contains(e@),
                None => forall|i: int|
                    0 <= i < self.entries().len() ==> (#[trigger] self.entries()[i]).id != id,
            },
    {
        match self.index_of(id) {
            Some(index) => {
                assert(self.entries()[index as int] == self.entries@[index as int]@);
                Some(self.entries[index].clone())
            },
            None => None,
        }
    }

    /// Notes at `now` that entries came, and says when to tell the listeners.
    pub fn schedule_stats_event(&mut self, now: u64) -> (plan: EmitPlan)
        requires
            old(self).wf(),
        ensures
            final(self).wf(),
            final(self).entries() == old(self).entries(),
            final(self).dropped() == old(self).dropped(),
            final(self).last_id() == old(self).last_id(),
            plan == old(self).gate().plan(now, LOG_STATS_EMIT_MS),
            final(self).gate() == (match plan {
                EmitPlan::Now => EmitGate { last_ms: now, pending: old(self).gate().pending },
                EmitPlan::After(_) => EmitGate {
                    last_ms: old(self).gate().last_ms,
                    pending: true,
                },
                EmitPlan::Covered => old(self).gate(),
            }),
    {
        let plan = self.gate.note(now, LOG_STATS_EMIT_MS);
        assert forall|level: LogLevel|
            (#[trigger] self.level_ids(level)) == entry_ids(of_level(self.entries(), level)) by {
            assert(old(self).level_ids(level) == self.level_ids(level));
        }
        plan
    }

    /// Notes at `now` that the waiting notice goes out.
    pub fn stats_event_fired(&mut self, now: u64)
        requires
            old(self).wf(),
        ensures
            final(self).wf(),
            final(self).entries() == old(self).entries(),
            final(self).dropped() == old(self).dropped(),
            final(self).last_id() == old(self).last_id(),
            final(self).gate() == (EmitGate { last_ms: now, pending: false }),
    {
        self.gate.fired(now);
        assert forall|level: LogLevel|
            (#[trigger] self.level_ids(level)) == entry_ids(of_level(self.entries(), level)) by {
            assert(old(self).level_ids(level) == self.level_ids(level));
        }
    }

    /// Notes at `now` that the listeners are told at once.
    pub fn emit_stats_event_now(&mut self, now: u64)
        requires
            old(self).wf(),
        ensures
            final(self).wf(),
            final(self).entries() == old(self).entries(),
            final(self).dropped() == old(self).dropped(),
            final(self).last_id() == old(self).last_id(),
            final(self).gate() == (EmitGate { last_ms: now, pending: old(self).gate().pending }),
    {
        self.gate.forced(now);
        assert forall|level: LogLevel|
            (#[trigger] self.level_ids(level)) == entry_ids(of_level(self.entries(), level)) by {
            assert(old(self).level_ids(level) == self.level_ids(level));
        }
    }
}

impl Default for LogStore {
    fn default() -> (store: Self)
        ensures
            store.wf(),
            store.entries() == Seq::<LogEntryView>::empty(),
            store.dropped() == 0,
            store.last_id() == 0,
            store.gate() == (EmitGate { last_ms: 0, pending: false }),
    {
        LogStore::new()
    }
}

/// The entry that a draft becomes: its detail is kept with the secrets masked.
pub open spec fn new_entry(id: u64, time: Seq<char>, draft: LogDraftView) -> LogEntryView {
    LogEntryView {
        id,
        time,
        level: draft.level,
        source: draft.source,
        request_id: draft.request_id,
        task_id: draft.task_id,
        summary: draft.summary,
        detail: match draft.detail {
            Some(detail) => Some(redacted(detail)),
            None => None,
        },
    }
}

/// Without the oldest entry, the entries of its level lose their first one.
proof fn lemma_of_level_skip(entries: Seq<LogEntryView>, level: LogLevel)
    requires
        entries.len() > 0,
    ensures
        of_level(entries.skip(1), level) == (if entries[0].level == level {
            of_level(entries, level).skip(1)
        } else {
            of_level(entries, level)
        }),
        entries[0].level == level ==> of_level(entries, level).len() > 0,
    decreases entries.len(),
{
    if entries.len() == 1 {
        assert(entries.skip(1) =~= Seq::empty());
        assert(entries.drop_last() =~= Seq::empty());
        assert(of_level(entries, level).skip(1) =~= of_level(entries.skip(1), level)
            || entries[0].level != level);
    } else {
        let front = entries.drop_last();
        lemma_of_level_skip(front, level);
        assert(entries.skip(1).drop_last() =~= front.skip(1));
        assert(entries.skip(1).last() == entries.last());
        let rest = of_level(front, level);
        if entries[0].level == level && entries.last().level == level {
            assert(rest.push(entries.last()).skip(1) =~= rest.skip(1).push(entries.last()));
        }
    }
}

/// What is selected is kept.
proof fn lemma_selected_is_kept(entries: Seq<LogEntryView>, level: Option<LogLevel>, at: int)
    requires
        0 <= at < selected(entries, level).len(),
    ensures
        exists|k: int|
            0 <= k < entries.len() && #[trigger] entries[k] == selected(entries, level)[at],
    decreases entries.len(),
{
    match level {
        None => {
            assert(entries[at] == selected(entries, level)[at]);
        },
        Some(l) => {
            if entries.len() > 0 {
                let front = entries.drop_last();
                if at < of_level(front, l).len() {
                    lemma_selected_is_kept(front, level, at);
                    let k = choose|k: int|
                        0 <= k < front.len() && #[trigger] front[k] == selected(front, level)[at];
                    assert(entries[k] == selected(entries, level)[at]);
                } else {
                    assert(entries[entries.len() - 1] == selected(entries, level)[at]);
                }
            }
        },
    }
}

/// The entries that a log keeps are numbered without gaps, up to the last number given
/// out; so a number names one entry at most.
pub proof fn law_numbers_have_no_gaps(store: &LogStore)
    requires
        store.wf(),
    ensures
        store.entries().len() <= MAX_LOGS,
        forall|i: int|
            0 <= i < store.entries().len() ==> (#[trigger] store.entries()[i]).id
                == store.last_id() - store.entries().len() + 1 + i,
{
}

/// Each entry is counted in just one level.
pub proof fn law_levels_add_up(entries: Seq<LogEntryView>)
    ensures
        of_level(entries, LogLevel::Debug).len() + of_level(entries, LogLevel::Info).len()
            + of_level(entries, LogLevel::Warn).len() + of_level(entries, LogLevel::Error).len()
            == entries.len(),
    decreases entries.len(),
{
    if entries.len() > 0 {
        law_levels_add_up(entries.drop_last());
    }
}

} // verus!
