//! Requests to the Messages API: what is sent, what of it is cached, and what is logged.

use vstd::prelude::*;
use vstd::string::*;

use crate::clock;
use crate::config;
use crate::config::{ConfigError, ConfigFile, ConfigFileView};
use crate::counts;
use crate::json;
use crate::json::{Json, JsonObject, JsonTree};
use crate::logs;
use crate::logs::{LogDraft, LogDraftView, LogLevel};
use crate::names;
use crate::stream::{ClaudeTurn, StreamEventStats, TurnView};
use crate::text;

verus! {

/// The number of tokens that a reply may have.
pub const MAX_TOKENS: u64 = 4096;

/// What a cache mark says.
pub const CACHE_CONTROL_TTL: &'static str = "ephemeral";

/// The number of words that keep the prompt long enough to be cached.
pub const CACHE_PRIMER_WORDS: usize = 5_200;

/// What marks the end of a text that was cut.
pub const TRUNCATED: &'static str = "\n...[truncated]";

/// Where a request goes, and as whom.
#[derive(Debug)]
pub struct RuntimeConfig {
    pub messages_url: String,
    pub api_key: String,
    pub model: String,
}

/// Whether `runtime` is what a configuration asks for.
pub open spec fn is_runtime_of(runtime: RuntimeConfig, file: ConfigFileView) -> bool {
    &&& config::messages_url(file.api_url) == Ok::<Seq<char>, ConfigError>(runtime.messages_url@)
    &&& config::usable_key(file.api_key) == Some(runtime.api_key@)
    &&& runtime.model@ == file.model
}

/// Why no request can be made under a configuration, if none can.
pub open spec fn runtime_refusal(file: ConfigFileView) -> Option<ConfigError> {
    match config::messages_url(file.api_url) {
        Err(error) => Some(error),
        Ok(_) => if config::usable_key(file.api_key) is None {
            Some(ConfigError::MissingKey)
        } else {
            None
        },
    }
}

/// Where requests go under the configuration that is kept.
pub fn load_runtime_config(stored: Option<ConfigFile>, assistant: &str) -> (result: Result<
    RuntimeConfig,
    ConfigError,
>)
    ensures
        match result {
            Ok(runtime) => is_runtime_of(
                runtime,
                config::in_force(config::stored_view(stored), assistant@),
            ),
            Err(error) => runtime_refusal(
                config::in_force(config::stored_view(stored), assistant@),
            ) == Some(
                error,
            ),
        },
{
    let file = config::load_config_file(stored, assistant);
    let ghost kept = file@;
    let model = file.model.clone();
    match config::normalize_messages_url(file.api_url.as_str()) {
        Ok(messages_url) => {
            proof {
                config::law_legacy_models_are_gone(config::stored_view(stored), assistant@);
            }
            match config::require_api_key(Some(file), assistant) {
                Ok(api_key) => Ok(RuntimeConfig { messages_url, api_key, model }),
                Err(error) => Err(error),
            }
        },
        Err(error) => Err(error),
    }
}

/// A text, cut behind its first `max_chars` characters.
pub fn truncate(input: &str, max_chars: usize) -> (result: String)
    ensures
        result@ == text::cut(input@, max_chars as nat, TRUNCATED@),
{
    text::cut_text(input, max_chars, TRUNCATED)
}

// ---------------------------------------------------------------------------
// Cache marks
// ---------------------------------------------------------------------------

/// A cache mark.
pub open spec fn cache_mark() -> JsonTree {
    JsonTree::Object(json::no_fields().insert("type"@, json::txt(CACHE_CONTROL_TTL)))
}

/// A cache mark.
pub fn cache_control() -> (mark: Json)
    ensures
        mark.tree() == cache_mark(),
{
    Json::Object(JsonObject::new().with("type", Json::text(CACHE_CONTROL_TTL)))
}

/// A value without the cache marks in it, at any depth.
pub open spec fn stripped(tree: JsonTree) -> JsonTree
    decreases tree,
{
    match tree {
        JsonTree::Object(fields) => JsonTree::Object(
            Map::new(
                |key: Seq<char>| fields.dom().contains(key) && key != "cache_control"@,
                |key: Seq<char>|
                    if fields.dom().contains(key) {
                        stripped(fields[key])
                    } else {
                        JsonTree::Null
                    },
            ),
        ),
        JsonTree::Array(items) => JsonTree::Array(
            Seq::new(
                items.len(),
                |i: int|
                    if 0 <= i < items.len() {
                        stripped(items[i])
                    } else {
                        JsonTree::Null
                    },
            ),
        ),
        other => other,
    }
}

/// Whether there is no cache mark in a value, at any depth.
pub open spec fn is_unmarked(tree: JsonTree) -> bool
    decreases tree,
{
    match tree {
        JsonTree::Object(fields) => {
            &&& !fields.dom().contains("cache_control"@)
            &&& forall|key: Seq<char>| #[trigger]
                fields.dom().contains(key) ==> is_unmarked(fields[key])
        },
        JsonTree::Array(items) => forall|i: int|
            0 <= i < items.len() ==> is_unmarked(#[trigger] items[i]),
        _ => true,
    }
}

/// Stripping leaves no cache mark, however deep it stands.
pub proof fn law_stripping_leaves_no_mark(tree: JsonTree)
    ensures
        is_unmarked(stripped(tree)),
    decreases tree,
{
    match tree {
        JsonTree::Object(fields) => {
            let after = stripped(tree)->Object_0;
            assert forall|key: Seq<char>| #[trigger] after.dom().contains(key) implies is_unmarked(
                after[key],
            ) by {
                law_stripping_leaves_no_mark(fields[key]);
            }
        },
        JsonTree::Array(items) => {
            let after = stripped(tree)->Array_0;
            assert forall|i: int| 0 <= i < after.len() implies is_unmarked(#[trigger] after[i]) by {
                law_stripping_leaves_no_mark(items[i]);
            }
        },
        _ => {},
    }
}

/// Strips the cache marks from a value.
pub fn strip_cache_control(value: &Json) -> (result: Json)
    ensures
        result.tree() == stripped(value.tree()),
    decreases value,
{
    match value {
        Json::Object(object) => {
            proof {
                assert(decreases_to!(*value => value->Object_0));
            }
            Json::Object(strip_object(object))
        },
        Json::Array(items) => {
            proof {
                json::lemma_array_tree(*items);
            }
            let mut kept: Vec<Json> = Vec::new();
            let mut i: usize = 0;
            while i < items.len()
                invariant
                    i <= items@.len(),
                    *value == Json::Array(*items),
                    kept@.len() == i,
                    forall|j: int|
                        0 <= j < i ==> (#[trigger] kept@[j]).tree() == stripped(items@[j].tree()),
                decreases items@.len() - i,
            {
                proof {
                    assert(decreases_to!(*value => value->Array_0));
                    assert(decreases_to!(*items => items@[i as int]));
                }
                kept.push(strip_cache_control(&items[i]));
                i += 1;
            }
            let result = Json::array(kept);
            assert(result.tree()->Array_0 =~= stripped(value.tree())->Array_0);
            result
        },
        other => {
            other.scalar();
            other.clone()
        },
    }
}

/// Strips the cache marks from an object.
fn strip_object(object: &JsonObject) -> (result: JsonObject)
    ensures
        JsonTree::Object(result.fields()) == stripped(JsonTree::Object(object.fields())),
    decreases object,
{
    let count: usize = object.len();
    let ghost keys = object.keys();
    let ghost target = stripped(JsonTree::Object(object.fields()))->Object_0;
    let mut kept = JsonObject::new();
    let mut i: usize = 0;
    while i < count
        invariant
            i <= count,
            count == keys.len(),
            keys == object.keys(),
            keys.to_set() == object.fields().dom(),
            target == stripped(JsonTree::Object(object.fields()))->Object_0,
            forall|key: Seq<char>| #[trigger]
                kept.fields().dom().contains(key) == (json::among(keys, i as int, key) && key
                    != "cache_control"@),
            forall|key: Seq<char>| #[trigger]
                kept.fields().dom().contains(key) ==> kept.fields()[key] == target[key],
        decreases count - i,
    {
        let key = object.key(i);
        let ghost before = kept.fields();
        if !text::same_text(key, "cache_control") {
            assert(keys.to_set().contains(keys[i as int]));
            kept = kept.with(key, strip_cache_control(object.value(i)));
        }
        assert forall|k: Seq<char>| #[trigger]
            kept.fields().dom().contains(k) == (json::among(keys, i + 1, k) && k
                != "cache_control"@) by {
            json::lemma_among_next(keys, i as int, k);
            assert(before.dom().contains(k) == (json::among(keys, i as int, k) && k
                != "cache_control"@));
        }
        assert forall|k: Seq<char>| #[trigger] kept.fields().dom().contains(k) implies
            kept.fields()[k] == target[k] by {
            if k != key@ {
                assert(before.dom().contains(k));
            }
        }
        i += 1;
    }
    assert(kept.fields() =~= target) by {
        assert forall|key: Seq<char>|
            kept.fields().dom().contains(key) == target.dom().contains(key) by {
            json::lemma_among_all(keys, key);
        }
    }
    kept
}

/// An object with a cache mark.
pub open spec fn marked_object(fields: json::Fields) -> JsonTree {
    JsonTree::Object(fields.insert("cache_control"@, cache_mark()))
}

/// A list of parts with a cache mark on the last one that is an object; nothing where none
/// is.
pub open spec fn marked_parts(parts: Seq<JsonTree>) -> Option<Seq<JsonTree>>
    decreases parts.len(),
{
    if parts.len() == 0 {
        None
    } else {
        match parts.last() {
            JsonTree::Object(fields) => Some(parts.drop_last().push(marked_object(fields))),
            _ => match marked_parts(parts.drop_last()) {
                Some(front) => Some(front.push(parts.last())),
                None => None,
            },
        }
    }
}

/// The content of a message with a cache mark; nothing where it cannot carry one.
pub open spec fn marked_content(content: JsonTree) -> Option<JsonTree> {
    match content {
        JsonTree::Text(text) => Some(
            JsonTree::Array(
                seq![
                    JsonTree::Object(
                        json::no_fields().insert("type"@, json::txt("text")).insert(
                            "text"@,
                            JsonTree::Text(text),
                        ).insert("cache_control"@, cache_mark()),
                    ),
                ],
            ),
        ),
        JsonTree::Array(parts) => match marked_parts(parts) {
            Some(marked) => Some(JsonTree::Array(marked)),
            None => None,
        },
        JsonTree::Object(fields) => Some(marked_object(fields)),
        _ => None,
    }
}

/// A message with a cache mark; nothing where it cannot carry one.
pub open spec fn marked_message(message: JsonTree) -> Option<JsonTree> {
    match message.get("content"@) {
        Some(content) => match marked_content(content) {
            Some(marked) => Some(JsonTree::Object(message->Object_0.insert("content"@, marked))),
            None => None,
        },
        None => None,
    }
}

/// Messages with a cache mark on the last one that can carry it.
pub open spec fn marked_messages(messages: Seq<JsonTree>) -> Seq<JsonTree>
    decreases messages.len(),
{
    if messages.len() == 0 {
        messages
    } else {
        match marked_message(messages.last()) {
            Some(marked) => messages.drop_last().push(marked),
            None => marked_messages(messages.drop_last()).push(messages.last()),
        }
    }
}

/// Messages without the cache marks in them.
pub open spec fn all_stripped(messages: Seq<JsonTree>) -> Seq<JsonTree> {
    Seq::new(messages.len(), |i: int| stripped(messages[i]))
}

/// Messages as they are sent: with just the last one that can carry it marked.
pub open spec fn cached(messages: Seq<JsonTree>) -> Seq<JsonTree> {
    marked_messages(all_stripped(messages))
}

/// Whether two lists differ at `at` at most.
pub open spec fn same_but(one: Seq<JsonTree>, other: Seq<JsonTree>, at: int) -> bool {
    &&& one.len() == other.len()
    &&& forall|i: int| 0 <= i < one.len() && i != at ==> one[i] == other[i]
}

/// Of the messages that are sent, one at most carries a cache mark: all others are as they
/// were, with their marks stripped.
pub proof fn law_one_message_is_marked(messages: Seq<JsonTree>)
    ensures
        exists|at: int|
            #[trigger] same_but(cached(messages), all_stripped(messages), at),
{
    let bare = all_stripped(messages);
    lemma_one_is_marked(bare);
    let at = choose|at: int| #[trigger] same_but(marked_messages(bare), bare, at);
    assert(same_but(cached(messages), all_stripped(messages), at));
}

proof fn lemma_one_is_marked(messages: Seq<JsonTree>)
    ensures
        exists|at: int| #[trigger] same_but(marked_messages(messages), messages, at),
    decreases messages.len(),
{
    if messages.len() > 0 {
        let front = messages.drop_last();
        lemma_one_is_marked(front);
        let before = choose|at: int| #[trigger] same_but(marked_messages(front), front, at);
        let at = match marked_message(messages.last()) {
            Some(_) => messages.len() - 1,
            None => before,
        };
        assert(same_but(marked_messages(messages), messages, at));
    } else {
        assert(same_but(marked_messages(messages), messages, 0));
    }
}

/// Marks the content of a message.
pub fn mark_content_for_cache(content: &Json) -> (marked: Option<Json>)
    ensures
        json::option_tree(marked) == marked_content(content.tree()),
{
    content.scalar();
    match content {
        Json::Text(text) => {
            let part = JsonObject::new().with("type", Json::text("text")).with(
                "text",
                Json::Text(text.clone()),
            ).with("cache_control", cache_control());
            let mut parts: Vec<Json> = Vec::new();
            parts.push(Json::Object(part));
            assert(json::trees(parts@) =~= seq![JsonTree::Object(part.fields())]);
            Some(Json::array(parts))
        },
        Json::Array(parts) => {
            proof {
                json::lemma_array_tree(*parts);
            }
            match mark_parts(parts) {
                Some(marked) => Some(Json::array(marked)),
                None => None,
            }
        },
        Json::Object(object) => Some(
            Json::Object(object.clone().with("cache_control", cache_control())),
        ),
        _ => None,
    }
}

/// A copy of a list of values.
pub fn copy_values(values: &Vec<Json>) -> (copies: Vec<Json>)
    ensures
        json::trees(copies@) == json::trees(values@),
{
    let mut copies: Vec<Json> = Vec::new();
    let mut i: usize = 0;
    while i < values.len()
        invariant
            i <= values@.len(),
            copies@.len() == i,
            forall|j: int| 0 <= j < i ==> (#[trigger] copies@[j]).tree() == values@[j].tree(),
        decreases values@.len() - i,
    {
        copies.push(values[i].clone());
        i += 1;
    }
    assert(json::trees(copies@) =~= json::trees(values@));
    copies
}

/// Marks the last part of a list that is an object.
fn mark_parts(parts: &Vec<Json>) -> (marked: Option<Vec<Json>>)
    ensures
        match marked {
            Some(m) => marked_parts(json::trees(parts@)) == Some(json::trees(m@)),
            None => marked_parts(json::trees(parts@)) is None,
        },
{
    let ghost all = json::trees(parts@);
    let mut at: usize = parts.len();
    proof {
        lemma_unmarkable_tail(all, all.len() as int);
    }
    while at > 0
        invariant
            at <= parts@.len(),
            all == json::trees(parts@),
            forall|i: int| at <= i < all.len() ==> !(#[trigger] all[i] is Object),
        decreases at,
    {
        at -= 1;
        parts[at].scalar();
        if let Json::Object(object) = &parts[at] {
            let mut marked = copy_values(parts);
            marked.set(at, Json::Object(object.clone().with("cache_control", cache_control())));
            proof {
                assert(all[at as int] == JsonTree::Object(object.fields()));
                lemma_unmarkable_tail(all, at + 1);
                assert(all.take(at + 1).drop_last() =~= all.take(at as int));
                assert(json::trees(marked@) =~= all.take(at as int).push(
                    marked_object(object.fields()),
                ) + all.skip(at + 1));
            }
            return Some(marked);
        }
        assert(!(all[at as int] is Object));
    }
    proof {
        lemma_unmarkable_tail(all, 0);
    }
    None
}

/// Behind the last part that is an object nothing is marked.
proof fn lemma_unmarkable_tail(parts: Seq<JsonTree>, n: int)
    requires
        0 <= n <= parts.len(),
        forall|i: int| n <= i < parts.len() ==> !(#[trigger] parts[i] is Object),
    ensures
        marked_parts(parts) == (match marked_parts(parts.take(n)) {
            Some(front) => Some(front + parts.skip(n)),
            None => None::<Seq<JsonTree>>,
        }),
    decreases parts.len(),
{
    if n == parts.len() {
        assert(parts.take(n) =~= parts);
        assert(parts.skip(n) =~= Seq::empty());
        match marked_parts(parts) {
            Some(front) => {
                assert(front + parts.skip(n) =~= front);
            },
            None => {},
        }
    } else {
        let front = parts.drop_last();
        assert(!(parts[parts.len() - 1] is Object));
        assert forall|i: int| n <= i < front.len() implies !(#[trigger] front[i] is Object) by {
            assert(front[i] == parts[i]);
        }
        lemma_unmarkable_tail(front, n);
        assert(front.take(n) =~= parts.take(n));
        match marked_parts(parts.take(n)) {
            Some(marked) => {
                assert((marked + front.skip(n)).push(parts.last()) =~= marked + parts.skip(n));
            },
            None => {},
        }
    }
}

/// Marks the last message that can carry a mark.
pub fn mark_last_message_for_cache(messages: Vec<Json>) -> (result: Vec<Json>)
    ensures
        json::trees(result@) == marked_messages(json::trees(messages@)),
{
    let ghost all = json::trees(messages@);
    let mut list = messages;
    let mut at: usize = list.len();
    proof {
        lemma_unmarked_tail(all, all.len() as int);
    }
    while at > 0
        invariant
            at <= list@.len(),
            all == json::trees(list@),
            all == json::trees(messages@),
            forall|i: int|
                at <= i < all.len() ==> marked_message(#[trigger] all[i]) is None,
        decreases at,
    {
        at -= 1;
        assert(all[at as int] == list@[at as int].tree());
        if let Some(marked) = mark_message(&list[at]) {
            list.set(at, marked);
            proof {
                lemma_unmarked_tail(all, at + 1);
                assert(all.take(at + 1).drop_last() =~= all.take(at as int));
                assert(json::trees(list@) =~= all.take(at as int).push(marked.tree())
                    + all.skip(at + 1));
            }
            return list;
        }
    }
    proof {
        lemma_unmarked_tail(all, 0);
        assert(all.take(0) + all.skip(0) =~= all);
    }
    list
}

/// Marks a message.
fn mark_message(message: &Json) -> (marked: Option<Json>)
    ensures
        json::option_tree(marked) == marked_message(message.tree()),
{
    message.scalar();
    match message {
        Json::Object(object) => match object.get("content") {
            Some(content) => match mark_content_for_cache(content) {
                Some(marked) => Some(Json::Object(object.clone().with("content", marked))),
                None => None,
            },
            None => None,
        },
        _ => None,
    }
}

/// Behind the last message that can carry a mark nothing changes.
proof fn lemma_unmarked_tail(messages: Seq<JsonTree>, n: int)
    requires
        0 <= n <= messages.len(),
        forall|i: int| n <= i < messages.len() ==> marked_message(#[trigger] messages[i]) is None,
    ensures
        marked_messages(messages) == marked_messages(messages.take(n)) + messages.skip(n),
    decreases messages.len(),
{
    if n == messages.len() {
        assert(messages.take(n) =~= messages);
        assert(marked_messages(messages) + messages.skip(n) =~= marked_messages(messages));
    } else {
        let front = messages.drop_last();
        assert(marked_message(messages[messages.len() - 1]) is None);
        assert forall|i: int| n <= i < front.len() implies marked_message(
            #[trigger] front[i],
        ) is None by {
            assert(front[i] == messages[i]);
        }
        lemma_unmarked_tail(front, n);
        assert(front.take(n) =~= messages.take(n));
        assert((marked_messages(messages.take(n)) + front.skip(n)).push(messages.last())
            =~= marked_messages(messages.take(n)) + messages.skip(n));
    }
}

/// The messages as they are sent.
pub fn cached_messages(messages: &Vec<Json>) -> (result: Vec<Json>)
    ensures
        json::trees(result@) == cached(json::trees(messages@)),
{
    let mut bare: Vec<Json> = Vec::new();
    let mut i: usize = 0;
    while i < messages.len()
        invariant
            i <= messages@.len(),
            bare@.len() == i,
            forall|j: int|
                0 <= j < i ==> (#[trigger] bare@[j]).tree() == stripped(messages@[j].tree()),
        decreases messages@.len() - i,
    {
        bare.push(strip_cache_control(&messages[i]));
        i += 1;
    }
    let ghost trees = json::trees(messages@);
    assert(json::trees(bare@) =~= all_stripped(trees));
    mark_last_message_for_cache(bare)
}

// ---------------------------------------------------------------------------
// Results of tools
// ---------------------------------------------------------------------------

/// The result of a tool as a part of a message.
pub open spec fn result_part(tool_use_id: Seq<char>, content: Seq<char>, is_error: bool) -> JsonTree {
    JsonTree::Object(
        json::no_fields().insert("type"@, json::txt("tool_result")).insert(
            "tool_use_id"@,
            JsonTree::Text(tool_use_id),
        ).insert("content"@, JsonTree::Text(content)).insert(
            "is_error"@,
            JsonTree::Bool(is_error),
        ),
    )
}

/// Makes the result of a tool a part of a message.
pub fn tool_result_block(tool_use_id: &str, content: String, is_error: bool) -> (block: Json)
    ensures
        block.tree() == result_part(tool_use_id@, content@, is_error),
{
    Json::Object(
        JsonObject::new().with("type", Json::text("tool_result")).with(
            "tool_use_id",
            Json::text(tool_use_id),
        ).with("content", Json::Text(content)).with("is_error", Json::Bool(is_error)),
    )
}

/// Results with a cache mark on the last one.
pub open spec fn marked_results(results: Seq<JsonTree>) -> Seq<JsonTree> {
    if results.len() > 0 && results.last() is Object {
        results.drop_last().push(marked_object(results.last()->Object_0))
    } else {
        results
    }
}

/// Marks the last result.
pub fn mark_last_tool_result_for_cache(tool_results: &mut Vec<Json>)
    ensures
        json::trees(final(tool_results)@) == marked_results(json::trees(old(tool_results)@)),
{
    let ghost before = json::trees(tool_results@);
    match tool_results.pop() {
        Some(last) => {
            let ghost front = json::trees(tool_results@);
            last.scalar();
            let last = match last {
                Json::Object(object) => Json::Object(object.with("cache_control", cache_control())),
                other => other,
            };
            tool_results.push(last);
            proof {
                assert(front =~= before.drop_last());
                assert(json::trees(tool_results@) =~= front.push(last.tree()));
                assert(before =~= before.drop_last().push(before.last()));
            }
        },
        None => {
            assert(before =~= json::trees(tool_results@));
        },
    }
}

// ---------------------------------------------------------------------------
// The request
// ---------------------------------------------------------------------------

/// What the model is told of its task, after who it is.
pub const SYSTEM_PROMPT: &'static str =
    " Code running through a local MCP desktop server on the user's real local machine, not a Linux sandbox. Use the provided workdir as the default project root, but you have full local tool access and should follow the user's requested paths and commands. Prefer rg over grep/find for repository searches, and avoid scanning .git, node_modules, target, dist, build, release, cache, and other generated directories unless needed. Use bounded commands, give recursive searches/builds/tests enough timeout, run relevant verification commands when possible, and return a concise summary of what changed and what was verified.";

/// What the model is told of its task.
pub open spec fn system_text(name: Seq<char>) -> Seq<char> {
    names::sentence(name, "You are ", SYSTEM_PROMPT)
}

/// The start of the text that keeps the prompt long enough to be cached.
pub const CACHE_PRIMER: &'static str =
    "Ignore the following cache anchor. It exists only to keep prompt caching active and has no task meaning.\n";

/// The word that keeps the prompt long enough to be cached.
pub const CACHE_ANCHOR: &'static str = "cache-anchor ";

/// A text, `n` times.
pub open spec fn repeated(word: Seq<char>, n: nat) -> Seq<char>
    decreases n,
{
    if n == 0 {
        Seq::empty()
    } else {
        repeated(word, (n - 1) as nat) + word
    }
}

/// The text that keeps the prompt long enough to be cached.
pub open spec fn primer() -> Seq<char> {
    CACHE_PRIMER@ + repeated(CACHE_ANCHOR@, CACHE_PRIMER_WORDS as nat)
}

/// The system prompt: what the model is told, and a marked text that makes it cacheable.
pub open spec fn system_parts(name: Seq<char>) -> Seq<JsonTree> {
    seq![
        JsonTree::Object(
            json::no_fields().insert("type"@, json::txt("text")).insert(
                "text"@,
                JsonTree::Text(system_text(name)),
            ),
        ),
        JsonTree::Object(
            json::no_fields().insert("type"@, json::txt("text")).insert(
                "text"@,
                JsonTree::Text(primer()),
            ).insert("cache_control"@, cache_mark()),
        ),
    ]
}

/// What the model is told of its task.
pub fn system_prompt(assistant: &str) -> (prompt: String)
    ensures
        prompt@ == system_text(assistant@),
{
    names::naming(assistant, "You are ", SYSTEM_PROMPT)
}

/// The text that keeps the prompt long enough to be cached.
pub fn cache_primer_text() -> (result: String)
    ensures
        result@ == primer(),
{
    let mut result = CACHE_PRIMER.to_owned();
    let mut n: usize = 0;
    assert(result@ =~= CACHE_PRIMER@ + repeated(CACHE_ANCHOR@, 0));
    while n < CACHE_PRIMER_WORDS
        invariant
            n <= CACHE_PRIMER_WORDS,
            result@ == CACHE_PRIMER@ + repeated(CACHE_ANCHOR@, n as nat),
        decreases CACHE_PRIMER_WORDS - n,
    {
        let ghost before = result@;
        result.append(CACHE_ANCHOR);
        n += 1;
        assert(result@ =~= CACHE_PRIMER@ + repeated(CACHE_ANCHOR@, n as nat));
    }
    result
}

/// The system prompt.
pub fn cached_system_prompt(assistant: &str) -> (parts: Vec<Json>)
    ensures
        json::trees(parts@) == system_parts(assistant@),
{
    let mut parts: Vec<Json> = Vec::new();
    parts.push(
        Json::Object(
            JsonObject::new().with("type", Json::text("text")).with(
                "text",
                Json::text(system_prompt(assistant).as_str()),
            ),
        ),
    );
    parts.push(
        Json::Object(
            JsonObject::new().with("type", Json::text("text")).with(
                "text",
                Json::Text(cache_primer_text()),
            ).with("cache_control", cache_control()),
        ),
    );
    assert(json::trees(parts@) =~= system_parts(assistant@));
    parts
}

/// A property of a tool's input: a string with a description.
pub open spec fn string_property(description: &str) -> JsonTree {
    JsonTree::Object(
        json::no_fields().insert("type"@, json::txt("string")).insert(
            "description"@,
            json::txt(description),
        ),
    )
}

/// A list of one name.
pub open spec fn one_name(name: &str) -> JsonTree {
    JsonTree::Array(seq![json::txt(name)])
}

/// A tool as the model sees it.
pub open spec fn tool(name: &str, description: &str, schema: json::Fields) -> json::Fields {
    json::no_fields().insert("name"@, json::txt(name)).insert(
        "description"@,
        json::txt(description),
    ).insert("input_schema"@, JsonTree::Object(schema))
}

/// The schema of an input with the given properties.
pub open spec fn input_schema(properties: json::Fields) -> json::Fields {
    json::no_fields().insert("type"@, json::txt("object")).insert(
        "properties"@,
        JsonTree::Object(properties),
    )
}

/// The description of a path.
pub const PATH_DESCRIPTION: &'static str = "Absolute path or path relative to workdir.";

/// The bounds of a command's timeout.
pub open spec fn timeout_property() -> JsonTree {
    JsonTree::Object(
        json::no_fields().insert("type"@, json::txt("integer")).insert(
            "minimum"@,
            JsonTree::Integer(1),
        ).insert("maximum"@, JsonTree::Integer(600)),
    )
}

/// The tools that the model may call.
pub open spec fn tool_list() -> Seq<JsonTree> {
    seq![
        JsonTree::Object(
            tool(
                "read_file",
                "Read a UTF-8 file from the local machine.",
                input_schema(
                    json::no_fields().insert("path"@, string_property(PATH_DESCRIPTION)),
                ).insert("required"@, one_name("path")),
            ),
        ),
        JsonTree::Object(
            tool(
                "write_file",
                "Write a UTF-8 file to the local machine, creating parent directories when needed.",
                input_schema(
                    json::no_fields().insert("path"@, string_property(PATH_DESCRIPTION)).insert(
                        "content"@,
                        string_property("Full file content to write."),
                    ),
                ).insert("required"@, JsonTree::Array(seq![json::txt("path"), json::txt("content")])),
            ),
        ),
        JsonTree::Object(
            tool(
                "list_dir",
                "List files and folders in a directory.",
                input_schema(
                    json::no_fields().insert("path"@, string_property(PATH_DESCRIPTION)),
                ),
            ),
        ),
        JsonTree::Object(
            tool(
                "run_command",
                "Run a shell command in workdir. Use sh -lc on macOS/Linux and cmd /C on Windows.",
                input_schema(
                    json::no_fields().insert(
                        "command"@,
                        string_property("Command line to execute."),
                    ).insert("timeout_seconds"@, timeout_property()),
                ).insert("required"@, one_name("command")),
            ).insert("cache_control"@, cache_mark()),
        ),
    ]
}

fn make_string_property(description: &str) -> (property: Json)
    ensures
        property.tree() == string_property(description),
{
    Json::Object(
        JsonObject::new().with("type", Json::text("string")).with(
            "description",
            Json::text(description),
        ),
    )
}

fn make_tool(name: &str, description: &str, schema: JsonObject) -> (object: JsonObject)
    ensures
        object.fields() == tool(name, description, schema.fields()),
{
    JsonObject::new().with("name", Json::text(name)).with("description", Json::text(description)).with(
        "input_schema",
        Json::Object(schema),
    )
}

fn make_input_schema(properties: JsonObject) -> (schema: JsonObject)
    ensures
        schema.fields() == input_schema(properties.fields()),
{
    JsonObject::new().with("type", Json::text("object")).with(
        "properties",
        Json::Object(properties),
    )
}

fn make_one_name(name: &str) -> (list: Json)
    ensures
        list.tree() == one_name(name),
{
    let mut names: Vec<Json> = Vec::new();
    names.push(Json::text(name));
    assert(json::trees(names@) =~= seq![json::txt(name)]);
    Json::array(names)
}

/// The tools that the model may call.
pub fn local_tools_schema() -> (tools: Vec<Json>)
    ensures
        json::trees(tools@) == tool_list(),
{
    let read_schema = make_input_schema(
        JsonObject::new().with("path", make_string_property(PATH_DESCRIPTION)),
    ).with("required", make_one_name("path"));
    let read = make_tool(
        "read_file",
        "Read a UTF-8 file from the local machine.",
        read_schema,
    );

    let mut both: Vec<Json> = Vec::new();
    both.push(Json::text("path"));
    both.push(Json::text("content"));
    assert(json::trees(both@) =~= seq![json::txt("path"), json::txt("content")]);
    let write_schema = make_input_schema(
        JsonObject::new().with("path", make_string_property(PATH_DESCRIPTION)).with(
            "content",
            make_string_property("Full file content to write."),
        ),
    ).with("required", Json::array(both));
    let write = make_tool(
        "write_file",
        "Write a UTF-8 file to the local machine, creating parent directories when needed.",
        write_schema,
    );

    let list_schema = make_input_schema(
        JsonObject::new().with("path", make_string_property(PATH_DESCRIPTION)),
    );
    let list = make_tool("list_dir", "List files and folders in a directory.", list_schema);

    let timeout = Json::Object(
        JsonObject::new().with("type", Json::text("integer")).with(
            "minimum",
            Json::Unsigned(1),
        ).with("maximum", Json::Unsigned(600)),
    );
    let run_schema = make_input_schema(
        JsonObject::new().with("command", make_string_property("Command line to execute.")).with(
            "timeout_seconds",
            timeout,
        ),
    ).with("required", make_one_name("command"));
    let run = make_tool(
        "run_command",
        "Run a shell command in workdir. Use sh -lc on macOS/Linux and cmd /C on Windows.",
        run_schema,
    ).with("cache_control", cache_control());

    let mut tools: Vec<Json> = Vec::new();
    tools.push(Json::Object(read));
    tools.push(Json::Object(write));
    tools.push(Json::Object(list));
    tools.push(Json::Object(run));
    assert(json::trees(tools@) =~= tool_list());
    tools
}

/// The body of a request.
pub open spec fn request_body(
    name: Seq<char>,
    model: Seq<char>,
    messages: Seq<JsonTree>,
) -> JsonTree {
    JsonTree::Object(
        json::no_fields().insert("model"@, JsonTree::Text(model)).insert(
            "max_tokens"@,
            JsonTree::Integer(MAX_TOKENS as int),
        ).insert("cache_control"@, cache_mark()).insert(
            "system"@,
            JsonTree::Array(system_parts(name)),
        ).insert("messages"@, JsonTree::Array(cached(messages))).insert(
            "tools"@,
            JsonTree::Array(tool_list()),
        ).insert("stream"@, JsonTree::Bool(true)),
    )
}

/// The body of a request for the next turn.
pub fn claude_request_body(runtime: &RuntimeConfig, messages: &Vec<Json>, assistant: &str) -> (
    body: Json)
    ensures
        body.tree() == request_body(assistant@, runtime.model@, json::trees(messages@)),
{
    let object = JsonObject::new().with("model", Json::text(runtime.model.as_str())).with(
        "max_tokens",
        Json::Unsigned(MAX_TOKENS),
    ).with("cache_control", cache_control()).with(
        "system",
        Json::array(cached_system_prompt(assistant)),
    ).with("messages", Json::array(cached_messages(messages))).with(
        "tools",
        Json::array(local_tools_schema()),
    ).with("stream", Json::Bool(true));
    Json::Object(object)
}

// ---------------------------------------------------------------------------
// Usage
// ---------------------------------------------------------------------------

/// What the names of the models with the largest minimum contain.
pub open spec fn large_models() -> Seq<Seq<char>> {
    seq!["opus-4-7"@, "opus-4-6"@, "opus-4-5"@, "mythos"@, "haiku-4-5"@]
}

/// The least number of input tokens that a model caches.
pub open spec fn cacheable_minimum(model: Seq<char>) -> u64 {
    let name = text::lowered(model);
    if text::has_any(name, large_models()) {
        4096
    } else if text::has_text(name, "haiku-3-5"@) {
        2048
    } else {
        1024
    }
}

/// The least number of input tokens that a model caches.
pub fn minimum_cacheable_tokens(model: &str) -> (tokens: u64)
    ensures
        tokens == cacheable_minimum(model@),
{
    let name = text::to_lower(model);
    let large: [&str; 5] = ["opus-4-7", "opus-4-6", "opus-4-5", "mythos", "haiku-4-5"];
    assert(text::each_text(large@) =~= large_models());
    if text::contains_any(name.as_str(), &large) {
        4096
    } else if text::contains(name.as_str(), "haiku-3-5") {
        2048
    } else {
        1024
    }
}

/// The sum of all numbers in a field, modulo 2^64.
pub open spec fn field_sum(tree: JsonTree, key: Seq<char>) -> u64 {
    match tree.get(key) {
        Some(value) => (counts::number_sum(value) % counts::word()) as u64,
        None => 0,
    }
}

/// The sum of all numbers in a field, modulo 2^64.
pub fn sum_field(value: &Json, key: &str) -> (sum: u64)
    ensures
        sum == field_sum(value.tree(), key@),
{
    match value.get(key) {
        Some(field) => counts::sum_numbers(field),
        None => 0,
    }
}

/// The tokens that a report says were read from the cache. The sum wraps around.
pub open spec fn cache_reads(usage: JsonTree) -> u64 {
    counts::field_number(usage, "cache_read_input_tokens"@).wrapping_add(
        counts::field_number(usage, "cache_read_tokens"@),
    ).wrapping_add(counts::field_number(usage, "cache_read"@)).wrapping_add(
        counts::field_number(usage, "cached_tokens"@),
    ).wrapping_add(
        counts::inner_number(usage, "input_token_details"@, "cache_read"@),
    ).wrapping_add(counts::inner_number(usage, "prompt_tokens_details"@, "cached_tokens"@))
}

/// The tokens that a report says were written to the cache. The sum wraps around.
pub open spec fn cache_writes(usage: JsonTree) -> u64 {
    counts::field_number(usage, "cache_creation_input_tokens"@).wrapping_add(
        counts::field_number(usage, "cache_write_tokens"@),
    ).wrapping_add(counts::field_number(usage, "cache_creation_tokens"@)).wrapping_add(
        counts::field_number(usage, "cache_write"@),
    ).wrapping_add(field_sum(usage, "cache_creation"@)).wrapping_add(
        counts::inner_number(usage, "input_token_details"@, "cache_creation"@),
    ).wrapping_add(
        counts::inner_number(usage, "prompt_tokens_details"@, "cache_creation_tokens"@),
    )
}

/// The tokens that a report says were read from the cache.
pub fn cache_read_tokens(usage: &Json) -> (tokens: u64)
    ensures
        tokens == cache_reads(usage.tree()),
{
    counts::number_field(usage, "cache_read_input_tokens").wrapping_add(
        counts::number_field(usage, "cache_read_tokens"),
    ).wrapping_add(counts::number_field(usage, "cache_read")).wrapping_add(
        counts::number_field(usage, "cached_tokens"),
    ).wrapping_add(
        counts::nested_number_field(usage, "input_token_details", "cache_read"),
    ).wrapping_add(counts::nested_number_field(usage, "prompt_tokens_details", "cached_tokens"))
}

/// The tokens that a report says were written to the cache.
pub fn cache_write_tokens(usage: &Json) -> (tokens: u64)
    ensures
        tokens == cache_writes(usage.tree()),
{
    counts::number_field(usage, "cache_creation_input_tokens").wrapping_add(
        counts::number_field(usage, "cache_write_tokens"),
    ).wrapping_add(counts::number_field(usage, "cache_creation_tokens")).wrapping_add(
        counts::number_field(usage, "cache_write"),
    ).wrapping_add(sum_field(usage, "cache_creation")).wrapping_add(
        counts::nested_number_field(usage, "input_token_details", "cache_creation"),
    ).wrapping_add(
        counts::nested_number_field(usage, "prompt_tokens_details", "cache_creation_tokens"),
    )
}

/// What is logged when nothing was cached because the input was too short.
pub open spec fn cache_hint(
    model: Seq<char>,
    usage: JsonTree,
    request_id: Option<Seq<char>>,
    task_id: Option<Seq<char>>,
) -> Option<LogDraftView> {
    let input = counts::field_number(usage, "input_tokens"@);
    if cache_reads(usage) > 0 || cache_writes(usage) > 0 || input == 0 || input
        >= cacheable_minimum(model) {
        None
    } else {
        Some(
            LogDraftView {
                level: LogLevel::Info,
                source: "usage"@,
                request_id,
                task_id,
                summary: "未触发缓存：输入低于最低缓存长度"@,
                detail: Some(
                    JsonTree::Object(
                        json::no_fields().insert("model"@, JsonTree::Text(model)).insert(
                            "input_tokens"@,
                            JsonTree::Integer(input as int),
                        ).insert(
                            "minimum_cache_tokens"@,
                            JsonTree::Integer(cacheable_minimum(model) as int),
                        ),
                    ),
                ),
            },
        )
    }
}

/// What is logged when nothing was cached because the input was too short.
pub fn log_cache_usage_hint(
    runtime: &RuntimeConfig,
    usage: &Json,
    request_id: Option<String>,
    task_id: Option<String>,
) -> (draft: Option<LogDraft>)
    ensures
        match draft {
            Some(d) => cache_hint(
                runtime.model@,
                usage.tree(),
                text::option_text(request_id),
                text::option_text(task_id),
            ) == Some(d@),
            None => cache_hint(
                runtime.model@,
                usage.tree(),
                text::option_text(request_id),
                text::option_text(task_id),
            ) is None,
        },
{
    if cache_read_tokens(usage) > 0 || cache_write_tokens(usage) > 0 {
        return None;
    }
    let input_tokens: u64 = counts::number_field(usage, "input_tokens");
    let minimum: u64 = minimum_cacheable_tokens(runtime.model.as_str());
    if input_tokens == 0 || input_tokens >= minimum {
        return None;
    }
    let detail = JsonObject::new().with("model", Json::text(runtime.model.as_str())).with(
        "input_tokens",
        Json::Unsigned(input_tokens),
    ).with("minimum_cache_tokens", Json::Unsigned(minimum));
    Some(
        LogDraft::new(
            LogLevel::Info,
            "usage",
            request_id,
            task_id,
            "未触发缓存：输入低于最低缓存长度",
            Some(Json::Object(detail)),
        ),
    )
}

/// What is logged when the usage could not be kept.
pub fn usage_failure_log(
    error: &str,
    request_id: Option<String>,
    task_id: Option<String>,
) -> (draft: LogDraft)
    ensures
        draft@ == (LogDraftView {
            level: LogLevel::Warn,
            source: "usage"@,
            request_id: text::option_text(request_id),
            task_id: text::option_text(task_id),
            summary: "Token 统计写入失败"@,
            detail: Some(
                JsonTree::Object(json::no_fields().insert("error"@, JsonTree::Text(error@))),
            ),
        }),
{
    LogDraft::new(
        LogLevel::Warn,
        "usage",
        request_id,
        task_id,
        "Token 统计写入失败",
        Some(Json::Object(JsonObject::new().with("error", Json::text(error)))),
    )
}

// ---------------------------------------------------------------------------
// The test of the connection
// ---------------------------------------------------------------------------

/// Whether a status says that a request succeeded.
pub open spec fn is_success(status: u16) -> bool {
    200 <= status < 300
}

/// The body of the request that tests the connection.
pub open spec fn test_body(model: Seq<char>) -> JsonTree {
    JsonTree::Object(
        json::no_fields().insert("model"@, JsonTree::Text(model)).insert(
            "max_tokens"@,
            JsonTree::Integer(1),
        ).insert(
            "messages"@,
            JsonTree::Array(
                seq![
                    JsonTree::Object(
                        json::no_fields().insert("role"@, json::txt("user")).insert(
                            "content"@,
                            json::txt("ping"),
                        ),
                    ),
                ],
            ),
        ).insert("stream"@, JsonTree::Bool(false)),
    )
}

/// Makes the body of the request that tests the connection.
pub fn connection_test_body(runtime: &RuntimeConfig) -> (body: Json)
    ensures
        body.tree() == test_body(runtime.model@),
{
    let mut messages: Vec<Json> = Vec::new();
    messages.push(
        Json::Object(
            JsonObject::new().with("role", Json::text("user")).with("content", Json::text("ping")),
        ),
    );
    assert(json::trees(messages@) =~= seq![
        JsonTree::Object(
            json::no_fields().insert("role"@, json::txt("user")).insert(
                "content"@,
                json::txt("ping"),
            ),
        ),
    ]);
    Json::Object(
        JsonObject::new().with("model", Json::text(runtime.model.as_str())).with(
            "max_tokens",
            Json::Unsigned(1),
        ).with("messages", Json::array(messages)).with("stream", Json::Bool(false)),
    )
}

/// What is logged when a request goes out.
pub open spec fn target_detail(runtime: RuntimeConfig) -> json::Fields {
    json::no_fields().insert("url"@, JsonTree::Text(runtime.messages_url@)).insert(
        "model"@,
        JsonTree::Text(runtime.model@),
    ).insert("api_key"@, JsonTree::Text(runtime.api_key@))
}

fn make_target_detail(runtime: &RuntimeConfig) -> (detail: JsonObject)
    ensures
        detail.fields() == target_detail(*runtime),
{
    JsonObject::new().with("url", Json::text(runtime.messages_url.as_str())).with(
        "model",
        Json::text(runtime.model.as_str()),
    ).with("api_key", Json::text(runtime.api_key.as_str()))
}

/// Starts a test of the connection: gives it an identifier and says what to log.
pub fn begin_connection_test(runtime: &RuntimeConfig) -> (started: (String, LogDraft))
    ensures
        clock::is_hyphenated(started.0@),
        started.1@ == (LogDraftView {
            level: LogLevel::Info,
            source: "new-api"@,
            request_id: Some(started.0@),
            task_id: None,
            summary: "开始测试 new-api 连接"@,
            detail: Some(JsonTree::Object(target_detail(*runtime))),
        }),
{
    let request_id = clock::fresh_id();
    let draft = LogDraft::new(
        LogLevel::Info,
        "new-api",
        Some(request_id.clone()),
        None,
        "开始测试 new-api 连接",
        Some(Json::Object(make_target_detail(runtime))),
    );
    (request_id, draft)
}

/// What came of a test of the connection.
#[derive(Debug)]
pub struct ConnectionOutcome {
    /// The usage to record.
    pub usage: Option<Json>,
    /// What to log.
    pub log: LogDraft,
    /// What to tell the user: that the connection works, or why it does not.
    pub result: Result<String, String>,
}

/// The usage that the body of a reply reports.
pub open spec fn reported_usage(body: Seq<char>) -> Option<JsonTree> {
    match json::parsed(body) {
        Ok(payload) => payload.get("usage"@),
        Err(_) => None,
    }
}

/// What is logged when the test of the connection succeeds.
pub open spec fn test_success_log(
    status: u16,
    usage: Option<JsonTree>,
    request_id: Seq<char>,
) -> LogDraftView {
    LogDraftView {
        level: LogLevel::Info,
        source: "new-api"@,
        request_id: Some(request_id),
        task_id: None,
        summary: "new-api 连接成功"@,
        detail: Some(
            JsonTree::Object(
                json::no_fields().insert("status"@, JsonTree::Integer(status as int)).insert(
                    "usage"@,
                    match usage {
                        Some(tree) => tree,
                        None => JsonTree::Null,
                    },
                ),
            ),
        ),
    }
}

/// What is logged when a request fails.
pub open spec fn failure_log(
    summary: Seq<char>,
    status: u16,
    body: Seq<char>,
    limit: nat,
    request_id: Seq<char>,
    task_id: Option<Seq<char>>,
) -> LogDraftView {
    LogDraftView {
        level: LogLevel::Error,
        source: "new-api"@,
        request_id: Some(request_id),
        task_id,
        summary,
        detail: Some(
            JsonTree::Object(
                json::no_fields().insert("status"@, JsonTree::Integer(status as int)).insert(
                    "body"@,
                    JsonTree::Text(text::cut(body, limit, TRUNCATED@)),
                ),
            ),
        ),
    }
}

fn make_failure_log(
    summary: &str,
    status: u16,
    body: &str,
    limit: usize,
    request_id: &str,
    task_id: Option<String>,
) -> (draft: LogDraft)
    ensures
        draft@ == failure_log(
            summary@,
            status,
            body@,
            limit as nat,
            request_id@,
            text::option_text(task_id),
        ),
{
    LogDraft::new(
        LogLevel::Error,
        "new-api",
        Some(request_id.to_owned()),
        task_id,
        summary,
        Some(
            Json::Object(
                JsonObject::new().with("status", Json::Unsigned(status as u64)).with(
                    "body",
                    Json::Text(truncate(body, limit)),
                ),
            ),
        ),
    )
}

/// What the user is told when a request fails.
pub open spec fn failure_text(
    start: Seq<char>,
    status: u16,
    body: Seq<char>,
    limit: nat,
) -> Seq<char> {
    start + text::numeral(status as nat) + "："@ + text::cut(body, limit, TRUNCATED@)
}

fn make_failure_text(start: &str, status: u16, body: &str, limit: usize) -> (message: String)
    ensures
        message@ == failure_text(start@, status, body@, limit as nat),
{
    let mut message = start.to_owned();
    message.append(text::decimal(status as u64).as_str());
    message.append("：");
    message.append(truncate(body, limit).as_str());
    message
}

/// Reads the reply to the test of the connection.
pub fn connection_outcome(status: u16, body: &str, request_id: &str) -> (outcome: ConnectionOutcome)
    ensures
        is_success(status) ==> {
            &&& json::option_tree(outcome.usage) == reported_usage(body@)
            &&& outcome.log@ == test_success_log(status, reported_usage(body@), request_id@)
            &&& outcome.result matches Ok(message) && message@ == "连接成功"@
        },
        !is_success(status) ==> {
            &&& outcome.usage is None
            &&& outcome.log@ == failure_log(
                "new-api 连接失败"@,
                status,
                body@,
                2000,
                request_id@,
                None,
            )
            &&& outcome.result matches Err(message) && message@ == failure_text(
                "new-api 返回 "@,
                status,
                body@,
                400,
            )
        },
{
    if status >= 200 && status < 300 {
        let usage = match Json::parse(body) {
            Ok(payload) => match payload.get("usage") {
                Some(usage) => Some(usage.clone()),
                None => None,
            },
            Err(_) => None,
        };
        let detail = JsonObject::new().with("status", Json::Unsigned(status as u64)).with(
            "usage",
            Json::or_null(usage.as_ref()),
        );
        let log = LogDraft::new(
            LogLevel::Info,
            "new-api",
            Some(request_id.to_owned()),
            None,
            "new-api 连接成功",
            Some(Json::Object(detail)),
        );
        ConnectionOutcome { usage, log, result: Ok("连接成功".to_owned()) }
    } else {
        ConnectionOutcome {
            usage: None,
            log: make_failure_log("new-api 连接失败", status, body, 2000, request_id, None),
            result: Err(make_failure_text("new-api 返回 ", status, body, 400)),
        }
    }
}

// ---------------------------------------------------------------------------
// A turn
// ---------------------------------------------------------------------------

/// Starts a turn: gives the request an identifier and says what to log.
pub fn begin_turn(
    runtime: &RuntimeConfig,
    message_count: usize,
    task_id: &str,
    assistant: &str,
) -> (started: (String, LogDraft))
    ensures
        clock::is_hyphenated(started.0@),
        started.1@ == (LogDraftView {
            level: LogLevel::Info,
            source: "new-api"@,
            request_id: Some(started.0@),
            task_id: Some(task_id@),
            summary: names::sentence(assistant@, "发送 ", " Messages 流式请求"),
            detail: Some(
                JsonTree::Object(
                    target_detail(*runtime).insert(
                        "message_count"@,
                        JsonTree::Integer(message_count as int),
                    ),
                ),
            ),
        }),
{
    let request_id = clock::fresh_id();
    let draft = LogDraft::new(
        LogLevel::Info,
        "new-api",
        Some(request_id.clone()),
        Some(task_id.to_owned()),
        names::naming(assistant, "发送 ", " Messages 流式请求").as_str(),
        Some(
            Json::Object(
                make_target_detail(runtime).with(
                    "message_count",
                    Json::Unsigned(message_count as u64),
                ),
            ),
        ),
    );
    (request_id, draft)
}

/// What to log and what to tell the user when the request of a turn fails.
pub fn turn_failure(
    status: u16,
    body: &str,
    request_id: &str,
    task_id: &str,
    assistant: &str,
) -> (failure: (LogDraft, String))
    ensures
        failure.0@ == failure_log(
            names::sentence(assistant@, "", " Messages 请求失败"),
            status,
            body@,
            3000,
            request_id@,
            Some(task_id@),
        ),
        failure.1@ == failure_text(
            names::sentence(assistant@, "", " Messages 请求失败 "),
            status,
            body@,
            500,
        ),
{
    (
        make_failure_log(
            names::naming(assistant, "", " Messages 请求失败").as_str(),
            status,
            body,
            3000,
            request_id,
            Some(task_id.to_owned()),
        ),
        make_failure_text(
            names::naming(assistant, "", " Messages 请求失败 ").as_str(),
            status,
            body,
            500,
        ),
    )
}

/// What is logged when a turn is complete.
pub open spec fn turn_log(
    name: Seq<char>,
    turn: TurnView,
    stats: StreamEventStats,
    elapsed_ms: u64,
    request_id: Seq<char>,
    task_id: Seq<char>,
) -> LogDraftView {
    LogDraftView {
        level: LogLevel::Info,
        source: "new-api"@,
        request_id: Some(request_id),
        task_id: Some(task_id),
        summary: names::sentence(name, "", " Messages 流式请求完成"),
        detail: Some(
            JsonTree::Object(
                json::no_fields().insert("elapsed_ms"@, JsonTree::Integer(elapsed_ms as int)).insert(
                    "tool_uses"@,
                    JsonTree::Integer(turn.tool_uses.len() as int),
                ).insert("stop_reason"@, json::text_or_null(turn.stop_reason)).insert(
                    "usage"@,
                    match turn.usage {
                        Some(usage) => usage,
                        None => JsonTree::Null,
                    },
                ).insert("stream_events"@, JsonTree::Integer(stats.events as int)).insert(
                    "stream_text_chars"@,
                    JsonTree::Integer(stats.text_chars as int),
                ).insert("stream_usage_events"@, JsonTree::Integer(stats.usage_events as int)),
            ),
        ),
    }
}

/// What to log when a turn is complete.
pub fn turn_completed_log(
    turn: &ClaudeTurn,
    stats: &StreamEventStats,
    elapsed_ms: u64,
    request_id: &str,
    task_id: &str,
    assistant: &str,
) -> (draft: LogDraft)
    ensures
        draft@ == turn_log(assistant@, turn@, *stats, elapsed_ms, request_id@, task_id@),
{
    let detail = JsonObject::new().with("elapsed_ms", Json::Unsigned(elapsed_ms)).with(
        "tool_uses",
        Json::Unsigned(turn.tool_uses.len() as u64),
    ).with("stop_reason", Json::optional_text(&turn.stop_reason)).with(
        "usage",
        Json::or_null(turn.usage.as_ref()),
    ).with("stream_events", Json::Unsigned(stats.events)).with(
        "stream_text_chars",
        Json::Unsigned(stats.text_chars as u64),
    ).with("stream_usage_events", Json::Unsigned(stats.usage_events));
    LogDraft::new(
        LogLevel::Info,
        "new-api",
        Some(request_id.to_owned()),
        Some(task_id.to_owned()),
        names::naming(assistant, "", " Messages 流式请求完成").as_str(),
        Some(Json::Object(detail)),
    )
}

/// Whatever else is logged of a request, the key that it is made with is masked.
pub proof fn law_the_key_is_not_logged(runtime: RuntimeConfig, more: json::Fields)
    ensures
        logs::redacted(
            JsonTree::Object(target_detail(runtime).union_prefer_right(more)),
        )->Object_0["api_key"@] == JsonTree::Text(logs::MASK@),
{
    reveal_strlit("api_key");
    reveal_strlit("key");
    let name = "api_key"@;
    let lower = text::lowered(name);
    assert(name.len() == 7 && "key"@.len() == 3);
    assert(lower.subrange(4, 7) =~= "key"@);
    assert(text::stands_at(lower, "key"@, 4));
    assert(text::has_text(lower, "key"@));
    assert(logs::secret_words()[0] == "key"@);
    assert(logs::is_secret(name));
    let fields = target_detail(runtime).union_prefer_right(more);
    assert(fields.dom().contains(name));
}

} // verus!
