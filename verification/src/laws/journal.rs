//! What is logged, and what is kept and shown of it.

use vstd::prelude::*;
use vstd::string::*;

use crate::json::JsonTree;
use crate::logs;
use crate::logs::{LogDraftView, LogEntryView, LogLevel};
use crate::text;

verus! {

/// Whether a field is one whose value must not be read: its name has one of four words in it, in
/// any case of letters.
pub open spec fn must_hide(key: Seq<char>) -> bool {
    let name = text::lowered(key);
    ||| text::has_text(name, "key"@)
    ||| text::has_text(name, "secret"@)
    ||| text::has_text(name, "authorization"@)
    ||| text::has_text(name, "token"@)
}

proof fn lemma_secret(key: Seq<char>)
    ensures
        logs::is_secret(key) == must_hide(key),
{
    let words = logs::secret_words();
    let name = text::lowered(key);
    assert(words[0] == "key"@ && words[1] == "secret"@ && words[2] == "authorization"@ && words[3]
        == "token"@);
    assert(words.len() == 4);
    if must_hide(key) {
        assert(text::has_text(name, words[0]) || text::has_text(name, words[1]) || text::has_text(
            name,
            words[2],
        ) || text::has_text(name, words[3]));
    }
}

/// What must not be read is replaced by dots before it is logged, at any depth, and all else is
/// logged as it is.
pub proof fn law_secrets_are_not_logged(tree: JsonTree)
    ensures
        tree matches JsonTree::Object(fields) ==> (logs::redacted(tree) matches JsonTree::Object(
            left,
        ) && left.dom() == fields.dom()),
        forall|key: Seq<char>|
            must_hide(key) && tree.get(key) is Some ==> (#[trigger] logs::redacted(tree).get(key))
                == Some(JsonTree::Text("••••"@)),
        forall|key: Seq<char>|
            !must_hide(key) ==> (#[trigger] logs::redacted(tree).get(key)) == (match tree.get(key) {
                Some(value) => Some(logs::redacted(value)),
                None => None,
            }),
        tree matches JsonTree::Array(items) ==> (logs::redacted(tree) matches JsonTree::Array(left)
            && left.len() == items.len() && forall|i: int|
            0 <= i < items.len() ==> (#[trigger] left[i]) == logs::redacted(items[i])),
        !(tree is Object) && !(tree is Array) ==> logs::redacted(tree) == tree,
{
    if tree is Object {
        let fields = tree->Object_0;
        assert(logs::redacted(tree)->Object_0.dom() =~= fields.dom());
    }
    assert forall|key: Seq<char>| logs::is_secret(key) == #[trigger] must_hide(key) by {
        lemma_secret(key);
    }
    assert forall|key: Seq<char>| must_hide(key) && tree.get(key) is Some implies (
    #[trigger] logs::redacted(tree).get(key)) == Some(JsonTree::Text("••••"@)) by {
        lemma_secret(key);
    }
    assert forall|key: Seq<char>| !must_hide(key) implies (#[trigger] logs::redacted(tree).get(key))
        == (match tree.get(key) {
        Some(value) => Some(logs::redacted(value)),
        None => None,
    }) by {
        lemma_secret(key);
    }
}

/// An entry says what was to be logged, with the next number and the time.
pub proof fn law_entries_say_what_was_logged(id: u64, time: Seq<char>, draft: LogDraftView)
    ensures
        ({
            let entry = logs::new_entry(id, time, draft);
            &&& entry.id == id
            &&& entry.time == time
            &&& entry.level == draft.level
            &&& entry.source == draft.source
            &&& entry.request_id == draft.request_id
            &&& entry.task_id == draft.task_id
            &&& entry.summary == draft.summary
            &&& draft.detail is None <==> entry.detail is None
            &&& draft.detail matches Some(detail) ==> entry.detail == Some(logs::redacted(detail))
        }),
{
}

/// A new entry stands behind all others; of 1,200,000 entries the oldest makes room for it.
pub proof fn law_new_entries_come_last(entries: Seq<LogEntryView>, entry: LogEntryView)
    requires
        entries.len() <= 1_200_000,
    ensures
        ({
            let after = logs::with_entry(entries, entry);
            &&& after.len() <= 1_200_000
            &&& after.last() == entry
            &&& entries.len() < 1_200_000 ==> after.drop_last() == entries
            &&& entries.len() == 1_200_000 ==> after.drop_last() == entries.drop_first()
        }),
{
    let after = logs::with_entry(entries, entry);
    if entries.len() < 1_200_000 {
        assert(after.drop_last() =~= entries);
    } else {
        assert(after.drop_last() =~= entries.drop_first());
    }
}

/// The entries of a level are those that have it, in their order; with no level, all.
pub proof fn law_levels_select_their_entries(
    entries: Seq<LogEntryView>,
    level: LogLevel,
    entry: LogEntryView,
)
    ensures
        logs::selected(entries, None) == entries,
        logs::selected(entries, Some(level)).contains(entry) <==> entries.contains(entry)
            && entry.level == level,
        entry.level == level ==> logs::selected(entries.push(entry), Some(level)) == logs::selected(
            entries,
            Some(level),
        ).push(entry),
        entry.level != level ==> logs::selected(entries.push(entry), Some(level)) == logs::selected(
            entries,
            Some(level),
        ),
    decreases entries.len(),
{
    assert(entries.push(entry).drop_last() =~= entries);
    if entries.len() > 0 {
        let front = entries.drop_last();
        law_levels_select_their_entries(front, level, entry);
        let before = logs::of_level(front, level);
        let after = logs::of_level(entries, level);
        if before.contains(entry) {
            let k = choose|k: int| 0 <= k < before.len() && before[k] == entry;
            assert(after[k] == entry);
        }
        if front.contains(entry) {
            let k = choose|k: int| 0 <= k < front.len() && front[k] == entry;
            assert(entries[k] == entry);
        }
        if entries.contains(entry) && entry != entries.last() {
            let k = choose|k: int| 0 <= k < entries.len() && entries[k] == entry;
            assert(front[k] == entry);
        }
        assert(entries[entries.len() - 1] == entries.last());
        if after.contains(entry) && !before.contains(entry) {
            let k = choose|k: int| 0 <= k < after.len() && after[k] == entry;
            if k < before.len() {
                assert(before[k] == entry);
            }
        }
        if entries.last().level == level {
            assert(after[after.len() - 1] == entries.last());
        }
    }
}

/// The latest entry is the last one.
pub proof fn law_the_latest_entry_is_the_last(entries: Seq<LogEntryView>)
    ensures
        logs::latest(entries) is None <==> entries.len() == 0,
        entries.len() > 0 ==> logs::latest(entries) == Some(entries[entries.len() - 1].id),
{
}

/// What is counted of the log is what it holds.
pub proof fn law_the_log_is_counted(store: logs::LogStore)
    ensures
        ({
            let stats = store.stats_view();
            &&& stats.total == store.entries().len() as usize
            &&& stats.dropped == store.dropped()
            &&& stats.debug == logs::selected(store.entries(), Some(LogLevel::Debug)).len() as usize
            &&& stats.info == logs::selected(store.entries(), Some(LogLevel::Info)).len() as usize
            &&& stats.warn == logs::selected(store.entries(), Some(LogLevel::Warn)).len() as usize
            &&& stats.error == logs::selected(store.entries(), Some(LogLevel::Error)).len() as usize
            &&& stats.latest_id == logs::latest(store.entries())
        }),
{
}

} // verus!
