//! What is sent to the model, and how a task goes on.

use vstd::prelude::*;
use vstd::string::*;

use crate::agent_loop;
use crate::agent_loop::LoopView;
use crate::claude;
use crate::config;
use crate::config::{ConfigError, ConfigFileView};
use crate::counts;
use crate::json;
use crate::json::JsonTree;
use crate::logs::{LogDraftView, LogLevel};
use crate::stream;
use crate::stream::TurnView;
use crate::text;

verus! {

/// The words of a request are different ones.
proof fn lemma_request_words()
    ensures
        "type"@ != "text"@,
        "type"@ != "cache_control"@,
        "type"@ != "role"@,
        "type"@ != "content"@,
        "type"@ != "model"@,
        "type"@ != "max_tokens"@,
        "type"@ != "system"@,
        "type"@ != "messages"@,
        "type"@ != "tools"@,
        "type"@ != "stream"@,
        "type"@ != "tool_use_id"@,
        "type"@ != "is_error"@,
        "type"@ != "tool_result"@,
        "type"@ != "name"@,
        "type"@ != "description"@,
        "type"@ != "input_schema"@,
        "type"@ != "properties"@,
        "type"@ != "required"@,
        "type"@ != "path"@,
        "type"@ != "command"@,
        "type"@ != "timeout_seconds"@,
        "type"@ != "minimum"@,
        "type"@ != "maximum"@,
        "text"@ != "cache_control"@,
        "text"@ != "role"@,
        "text"@ != "content"@,
        "text"@ != "model"@,
        "text"@ != "max_tokens"@,
        "text"@ != "system"@,
        "text"@ != "messages"@,
        "text"@ != "tools"@,
        "text"@ != "stream"@,
        "text"@ != "tool_use_id"@,
        "text"@ != "is_error"@,
        "text"@ != "tool_result"@,
        "text"@ != "name"@,
        "text"@ != "description"@,
        "text"@ != "input_schema"@,
        "text"@ != "properties"@,
        "text"@ != "required"@,
        "text"@ != "path"@,
        "text"@ != "command"@,
        "text"@ != "timeout_seconds"@,
        "text"@ != "minimum"@,
        "text"@ != "maximum"@,
        "cache_control"@ != "role"@,
        "cache_control"@ != "content"@,
        "cache_control"@ != "model"@,
        "cache_control"@ != "max_tokens"@,
        "cache_control"@ != "system"@,
        "cache_control"@ != "messages"@,
        "cache_control"@ != "tools"@,
        "cache_control"@ != "stream"@,
        "cache_control"@ != "tool_use_id"@,
        "cache_control"@ != "is_error"@,
        "cache_control"@ != "tool_result"@,
        "cache_control"@ != "name"@,
        "cache_control"@ != "description"@,
        "cache_control"@ != "input_schema"@,
        "cache_control"@ != "properties"@,
        "cache_control"@ != "required"@,
        "cache_control"@ != "path"@,
        "cache_control"@ != "command"@,
        "cache_control"@ != "timeout_seconds"@,
        "cache_control"@ != "minimum"@,
        "cache_control"@ != "maximum"@,
        "role"@ != "content"@,
        "role"@ != "model"@,
        "role"@ != "max_tokens"@,
        "role"@ != "system"@,
        "role"@ != "messages"@,
        "role"@ != "tools"@,
        "role"@ != "stream"@,
        "role"@ != "tool_use_id"@,
        "role"@ != "is_error"@,
        "role"@ != "tool_result"@,
        "role"@ != "name"@,
        "role"@ != "description"@,
        "role"@ != "input_schema"@,
        "role"@ != "properties"@,
        "role"@ != "required"@,
        "role"@ != "path"@,
        "role"@ != "command"@,
        "role"@ != "timeout_seconds"@,
        "role"@ != "minimum"@,
        "role"@ != "maximum"@,
        "content"@ != "model"@,
        "content"@ != "max_tokens"@,
        "content"@ != "system"@,
        "content"@ != "messages"@,
        "content"@ != "tools"@,
        "content"@ != "stream"@,
        "content"@ != "tool_use_id"@,
        "content"@ != "is_error"@,
        "content"@ != "tool_result"@,
        "content"@ != "name"@,
        "content"@ != "description"@,
        "content"@ != "input_schema"@,
        "content"@ != "properties"@,
        "content"@ != "required"@,
        "content"@ != "path"@,
        "content"@ != "command"@,
        "content"@ != "timeout_seconds"@,
        "content"@ != "minimum"@,
        "content"@ != "maximum"@,
        "model"@ != "max_tokens"@,
        "model"@ != "system"@,
        "model"@ != "messages"@,
        "model"@ != "tools"@,
        "model"@ != "stream"@,
        "model"@ != "tool_use_id"@,
        "model"@ != "is_error"@,
        "model"@ != "tool_result"@,
        "model"@ != "name"@,
        "model"@ != "description"@,
        "model"@ != "input_schema"@,
        "model"@ != "properties"@,
        "model"@ != "required"@,
        "model"@ != "path"@,
        "model"@ != "command"@,
        "model"@ != "timeout_seconds"@,
        "model"@ != "minimum"@,
        "model"@ != "maximum"@,
        "max_tokens"@ != "system"@,
        "max_tokens"@ != "messages"@,
        "max_tokens"@ != "tools"@,
        "max_tokens"@ != "stream"@,
        "max_tokens"@ != "tool_use_id"@,
        "max_tokens"@ != "is_error"@,
        "max_tokens"@ != "tool_result"@,
        "max_tokens"@ != "name"@,
        "max_tokens"@ != "description"@,
        "max_tokens"@ != "input_schema"@,
        "max_tokens"@ != "properties"@,
        "max_tokens"@ != "required"@,
        "max_tokens"@ != "path"@,
        "max_tokens"@ != "command"@,
        "max_tokens"@ != "timeout_seconds"@,
        "max_tokens"@ != "minimum"@,
        "max_tokens"@ != "maximum"@,
        "system"@ != "messages"@,
        "system"@ != "tools"@,
        "system"@ != "stream"@,
        "system"@ != "tool_use_id"@,
        "system"@ != "is_error"@,
        "system"@ != "tool_result"@,
        "system"@ != "name"@,
        "system"@ != "description"@,
        "system"@ != "input_schema"@,
        "system"@ != "properties"@,
        "system"@ != "required"@,
        "system"@ != "path"@,
        "system"@ != "command"@,
        "system"@ != "timeout_seconds"@,
        "system"@ != "minimum"@,
        "system"@ != "maximum"@,
        "messages"@ != "tools"@,
        "messages"@ != "stream"@,
        "messages"@ != "tool_use_id"@,
        "messages"@ != "is_error"@,
        "messages"@ != "tool_result"@,
        "messages"@ != "name"@,
        "messages"@ != "description"@,
        "messages"@ != "input_schema"@,
        "messages"@ != "properties"@,
        "messages"@ != "required"@,
        "messages"@ != "path"@,
        "messages"@ != "command"@,
        "messages"@ != "timeout_seconds"@,
        "messages"@ != "minimum"@,
        "messages"@ != "maximum"@,
        "tools"@ != "stream"@,
        "tools"@ != "tool_use_id"@,
        "tools"@ != "is_error"@,
        "tools"@ != "tool_result"@,
        "tools"@ != "name"@,
        "tools"@ != "description"@,
        "tools"@ != "input_schema"@,
        "tools"@ != "properties"@,
        "tools"@ != "required"@,
        "tools"@ != "path"@,
        "tools"@ != "command"@,
        "tools"@ != "timeout_seconds"@,
        "tools"@ != "minimum"@,
        "tools"@ != "maximum"@,
        "stream"@ != "tool_use_id"@,
        "stream"@ != "is_error"@,
        "stream"@ != "tool_result"@,
        "stream"@ != "name"@,
        "stream"@ != "description"@,
        "stream"@ != "input_schema"@,
        "stream"@ != "properties"@,
        "stream"@ != "required"@,
        "stream"@ != "path"@,
        "stream"@ != "command"@,
        "stream"@ != "timeout_seconds"@,
        "stream"@ != "minimum"@,
        "stream"@ != "maximum"@,
        "tool_use_id"@ != "is_error"@,
        "tool_use_id"@ != "tool_result"@,
        "tool_use_id"@ != "name"@,
        "tool_use_id"@ != "description"@,
        "tool_use_id"@ != "input_schema"@,
        "tool_use_id"@ != "properties"@,
        "tool_use_id"@ != "required"@,
        "tool_use_id"@ != "path"@,
        "tool_use_id"@ != "command"@,
        "tool_use_id"@ != "timeout_seconds"@,
        "tool_use_id"@ != "minimum"@,
        "tool_use_id"@ != "maximum"@,
        "is_error"@ != "tool_result"@,
        "is_error"@ != "name"@,
        "is_error"@ != "description"@,
        "is_error"@ != "input_schema"@,
        "is_error"@ != "properties"@,
        "is_error"@ != "required"@,
        "is_error"@ != "path"@,
        "is_error"@ != "command"@,
        "is_error"@ != "timeout_seconds"@,
        "is_error"@ != "minimum"@,
        "is_error"@ != "maximum"@,
        "tool_result"@ != "name"@,
        "tool_result"@ != "description"@,
        "tool_result"@ != "input_schema"@,
        "tool_result"@ != "properties"@,
        "tool_result"@ != "required"@,
        "tool_result"@ != "path"@,
        "tool_result"@ != "command"@,
        "tool_result"@ != "timeout_seconds"@,
        "tool_result"@ != "minimum"@,
        "tool_result"@ != "maximum"@,
        "name"@ != "description"@,
        "name"@ != "input_schema"@,
        "name"@ != "properties"@,
        "name"@ != "required"@,
        "name"@ != "path"@,
        "name"@ != "command"@,
        "name"@ != "timeout_seconds"@,
        "name"@ != "minimum"@,
        "name"@ != "maximum"@,
        "description"@ != "input_schema"@,
        "description"@ != "properties"@,
        "description"@ != "required"@,
        "description"@ != "path"@,
        "description"@ != "command"@,
        "description"@ != "timeout_seconds"@,
        "description"@ != "minimum"@,
        "description"@ != "maximum"@,
        "input_schema"@ != "properties"@,
        "input_schema"@ != "required"@,
        "input_schema"@ != "path"@,
        "input_schema"@ != "command"@,
        "input_schema"@ != "timeout_seconds"@,
        "input_schema"@ != "minimum"@,
        "input_schema"@ != "maximum"@,
        "properties"@ != "required"@,
        "properties"@ != "path"@,
        "properties"@ != "command"@,
        "properties"@ != "timeout_seconds"@,
        "properties"@ != "minimum"@,
        "properties"@ != "maximum"@,
        "required"@ != "path"@,
        "required"@ != "command"@,
        "required"@ != "timeout_seconds"@,
        "required"@ != "minimum"@,
        "required"@ != "maximum"@,
        "path"@ != "command"@,
        "path"@ != "timeout_seconds"@,
        "path"@ != "minimum"@,
        "path"@ != "maximum"@,
        "command"@ != "timeout_seconds"@,
        "command"@ != "minimum"@,
        "command"@ != "maximum"@,
        "timeout_seconds"@ != "minimum"@,
        "timeout_seconds"@ != "maximum"@,
        "minimum"@ != "maximum"@,
{
    reveal_strlit("type");
    reveal_strlit("text");
    reveal_strlit("cache_control");
    reveal_strlit("role");
    reveal_strlit("content");
    reveal_strlit("model");
    reveal_strlit("max_tokens");
    reveal_strlit("system");
    reveal_strlit("messages");
    reveal_strlit("tools");
    reveal_strlit("stream");
    reveal_strlit("tool_use_id");
    reveal_strlit("is_error");
    reveal_strlit("tool_result");
    reveal_strlit("name");
    reveal_strlit("description");
    reveal_strlit("input_schema");
    reveal_strlit("properties");
    reveal_strlit("required");
    reveal_strlit("path");
    reveal_strlit("command");
    reveal_strlit("timeout_seconds");
    reveal_strlit("minimum");
    reveal_strlit("maximum");
    assert("type"@.len() == 4);
    assert("text"@.len() == 4);
    assert("cache_control"@.len() == 13);
    assert("role"@.len() == 4);
    assert("content"@.len() == 7);
    assert("model"@.len() == 5);
    assert("max_tokens"@.len() == 10);
    assert("system"@.len() == 6);
    assert("messages"@.len() == 8);
    assert("tools"@.len() == 5);
    assert("stream"@.len() == 6);
    assert("tool_use_id"@.len() == 11);
    assert("is_error"@.len() == 8);
    assert("tool_result"@.len() == 11);
    assert("name"@.len() == 4);
    assert("description"@.len() == 11);
    assert("input_schema"@.len() == 12);
    assert("properties"@.len() == 10);
    assert("required"@.len() == 8);
    assert("path"@.len() == 4);
    assert("command"@.len() == 7);
    assert("timeout_seconds"@.len() == 15);
    assert("minimum"@.len() == 7);
    assert("maximum"@.len() == 7);
    assert("type"@[1] == 'y' && "text"@[1] == 'e');
    assert("type"@[0] == 't' && "role"@[0] == 'r');
    assert("type"@[0] == 't' && "name"@[0] == 'n');
    assert("type"@[0] == 't' && "path"@[0] == 'p');
    assert("text"@[0] == 't' && "role"@[0] == 'r');
    assert("text"@[0] == 't' && "name"@[0] == 'n');
    assert("text"@[0] == 't' && "path"@[0] == 'p');
    assert("role"@[0] == 'r' && "name"@[0] == 'n');
    assert("role"@[0] == 'r' && "path"@[0] == 'p');
    assert("content"@[2] == 'n' && "command"@[2] == 'm');
    assert("content"@[0] == 'c' && "minimum"@[0] == 'm');
    assert("content"@[0] == 'c' && "maximum"@[0] == 'm');
    assert("model"@[0] == 'm' && "tools"@[0] == 't');
    assert("max_tokens"@[0] == 'm' && "properties"@[0] == 'p');
    assert("system"@[1] == 'y' && "stream"@[1] == 't');
    assert("messages"@[0] == 'm' && "is_error"@[0] == 'i');
    assert("messages"@[0] == 'm' && "required"@[0] == 'r');
    assert("tool_use_id"@[5] == 'u' && "tool_result"@[5] == 'r');
    assert("tool_use_id"@[0] == 't' && "description"@[0] == 'd');
    assert("is_error"@[0] == 'i' && "required"@[0] == 'r');
    assert("tool_result"@[0] == 't' && "description"@[0] == 'd');
    assert("name"@[0] == 'n' && "path"@[0] == 'p');
    assert("command"@[0] == 'c' && "minimum"@[0] == 'm');
    assert("command"@[0] == 'c' && "maximum"@[0] == 'm');
    assert("minimum"@[1] == 'i' && "maximum"@[1] == 'a');
}

/// The words of what is logged of a request are different ones.
proof fn lemma_log_words()
    ensures
        "status"@ != "usage"@,
        "status"@ != "body"@,
        "status"@ != "url"@,
        "status"@ != "model"@,
        "status"@ != "api_key"@,
        "status"@ != "elapsed_ms"@,
        "status"@ != "tool_uses"@,
        "status"@ != "stop_reason"@,
        "status"@ != "stream_events"@,
        "status"@ != "stream_text_chars"@,
        "status"@ != "stream_usage_events"@,
        "status"@ != "input_tokens"@,
        "status"@ != "minimum_cache_tokens"@,
        "status"@ != "workdir"@,
        "usage"@ != "body"@,
        "usage"@ != "url"@,
        "usage"@ != "model"@,
        "usage"@ != "api_key"@,
        "usage"@ != "elapsed_ms"@,
        "usage"@ != "tool_uses"@,
        "usage"@ != "stop_reason"@,
        "usage"@ != "stream_events"@,
        "usage"@ != "stream_text_chars"@,
        "usage"@ != "stream_usage_events"@,
        "usage"@ != "input_tokens"@,
        "usage"@ != "minimum_cache_tokens"@,
        "usage"@ != "workdir"@,
        "body"@ != "url"@,
        "body"@ != "model"@,
        "body"@ != "api_key"@,
        "body"@ != "elapsed_ms"@,
        "body"@ != "tool_uses"@,
        "body"@ != "stop_reason"@,
        "body"@ != "stream_events"@,
        "body"@ != "stream_text_chars"@,
        "body"@ != "stream_usage_events"@,
        "body"@ != "input_tokens"@,
        "body"@ != "minimum_cache_tokens"@,
        "body"@ != "workdir"@,
        "url"@ != "model"@,
        "url"@ != "api_key"@,
        "url"@ != "elapsed_ms"@,
        "url"@ != "tool_uses"@,
        "url"@ != "stop_reason"@,
        "url"@ != "stream_events"@,
        "url"@ != "stream_text_chars"@,
        "url"@ != "stream_usage_events"@,
        "url"@ != "input_tokens"@,
        "url"@ != "minimum_cache_tokens"@,
        "url"@ != "workdir"@,
        "model"@ != "api_key"@,
        "model"@ != "elapsed_ms"@,
        "model"@ != "tool_uses"@,
        "model"@ != "stop_reason"@,
        "model"@ != "stream_events"@,
        "model"@ != "stream_text_chars"@,
        "model"@ != "stream_usage_events"@,
        "model"@ != "input_tokens"@,
        "model"@ != "minimum_cache_tokens"@,
        "model"@ != "workdir"@,
        "api_key"@ != "elapsed_ms"@,
        "api_key"@ != "tool_uses"@,
        "api_key"@ != "stop_reason"@,
        "api_key"@ != "stream_events"@,
        "api_key"@ != "stream_text_chars"@,
        "api_key"@ != "stream_usage_events"@,
        "api_key"@ != "input_tokens"@,
        "api_key"@ != "minimum_cache_tokens"@,
        "api_key"@ != "workdir"@,
        "elapsed_ms"@ != "tool_uses"@,
        "elapsed_ms"@ != "stop_reason"@,
        "elapsed_ms"@ != "stream_events"@,
        "elapsed_ms"@ != "stream_text_chars"@,
        "elapsed_ms"@ != "stream_usage_events"@,
        "elapsed_ms"@ != "input_tokens"@,
        "elapsed_ms"@ != "minimum_cache_tokens"@,
        "elapsed_ms"@ != "workdir"@,
        "tool_uses"@ != "stop_reason"@,
        "tool_uses"@ != "stream_events"@,
        "tool_uses"@ != "stream_text_chars"@,
        "tool_uses"@ != "stream_usage_events"@,
        "tool_uses"@ != "input_tokens"@,
        "tool_uses"@ != "minimum_cache_tokens"@,
        "tool_uses"@ != "workdir"@,
        "stop_reason"@ != "stream_events"@,
        "stop_reason"@ != "stream_text_chars"@,
        "stop_reason"@ != "stream_usage_events"@,
        "stop_reason"@ != "input_tokens"@,
        "stop_reason"@ != "minimum_cache_tokens"@,
        "stop_reason"@ != "workdir"@,
        "stream_events"@ != "stream_text_chars"@,
        "stream_events"@ != "stream_usage_events"@,
        "stream_events"@ != "input_tokens"@,
        "stream_events"@ != "minimum_cache_tokens"@,
        "stream_events"@ != "workdir"@,
        "stream_text_chars"@ != "stream_usage_events"@,
        "stream_text_chars"@ != "input_tokens"@,
        "stream_text_chars"@ != "minimum_cache_tokens"@,
        "stream_text_chars"@ != "workdir"@,
        "stream_usage_events"@ != "input_tokens"@,
        "stream_usage_events"@ != "minimum_cache_tokens"@,
        "stream_usage_events"@ != "workdir"@,
        "input_tokens"@ != "minimum_cache_tokens"@,
        "input_tokens"@ != "workdir"@,
        "minimum_cache_tokens"@ != "workdir"@,
{
    reveal_strlit("status");
    reveal_strlit("usage");
    reveal_strlit("body");
    reveal_strlit("url");
    reveal_strlit("model");
    reveal_strlit("api_key");
    reveal_strlit("elapsed_ms");
    reveal_strlit("tool_uses");
    reveal_strlit("stop_reason");
    reveal_strlit("stream_events");
    reveal_strlit("stream_text_chars");
    reveal_strlit("stream_usage_events");
    reveal_strlit("input_tokens");
    reveal_strlit("minimum_cache_tokens");
    reveal_strlit("workdir");
    assert("status"@.len() == 6);
    assert("usage"@.len() == 5);
    assert("body"@.len() == 4);
    assert("url"@.len() == 3);
    assert("model"@.len() == 5);
    assert("api_key"@.len() == 7);
    assert("elapsed_ms"@.len() == 10);
    assert("tool_uses"@.len() == 9);
    assert("stop_reason"@.len() == 11);
    assert("stream_events"@.len() == 13);
    assert("stream_text_chars"@.len() == 17);
    assert("stream_usage_events"@.len() == 19);
    assert("input_tokens"@.len() == 12);
    assert("minimum_cache_tokens"@.len() == 20);
    assert("workdir"@.len() == 7);
    assert("usage"@[0] == 'u' && "model"@[0] == 'm');
    assert("api_key"@[0] == 'a' && "workdir"@[0] == 'w');
}

// ---------------------------------------------------------------------------
// Cache marks
// ---------------------------------------------------------------------------

/// Whether a value is the mark up to which a request is cached.
pub open spec fn is_mark(value: JsonTree) -> bool {
    value.get("type"@) == Some(JsonTree::Text("ephemeral"@))
}

/// Whether an object is another one with a cache mark.
pub open spec fn is_marked_copy(after: JsonTree, before: JsonTree) -> bool {
    &&& after is Object && before is Object
    &&& after.get("cache_control"@) matches Some(mark) && is_mark(mark)
    &&& forall|key: Seq<char>|
        key != "cache_control"@ ==> (#[trigger] after.get(key)) == before.get(key)
}

/// To strip a value takes the cache marks out, at any depth, and leaves everything else.
pub proof fn law_stripping_leaves_the_rest(tree: JsonTree)
    ensures
        tree is Object ==> claude::stripped(tree) is Object,
        tree is Object ==> claude::stripped(tree).get("cache_control"@) is None,
        forall|key: Seq<char>|
            key != "cache_control"@ ==> (#[trigger] claude::stripped(tree).get(key)) == (
            match tree.get(key) {
                Some(value) => Some(claude::stripped(value)),
                None => None,
            }),
        tree matches JsonTree::Array(items) ==> (claude::stripped(
            tree,
        ) matches JsonTree::Array(left) && left.len() == items.len() && forall|i: int|
            0 <= i < items.len() ==> (#[trigger] left[i]) == claude::stripped(items[i])),
        !(tree is Object) && !(tree is Array) ==> claude::stripped(tree) == tree,
{
}

/// The last message is marked where its content is a text: the text is then sent as the one
/// part of the content. All other messages are sent as they are, without marks.
pub proof fn law_a_last_text_is_marked(messages: Seq<JsonTree>, said: Seq<char>)
    requires
        messages.len() > 0,
        messages.last().get("content"@) == Some(JsonTree::Text(said)),
    ensures
        ({
            let sent = claude::cached(messages);
            let last = sent.last();
            &&& sent.len() == messages.len()
            &&& forall|i: int|
                0 <= i < messages.len() - 1 ==> (#[trigger] sent[i]) == claude::stripped(
                    messages[i],
                )
            &&& last.get("content"@) matches Some(JsonTree::Array(parts)) && parts.len() == 1
                && parts[0].get("type"@) == Some(JsonTree::Text("text"@)) && parts[0].get("text"@)
                == Some(JsonTree::Text(said)) && (parts[0].get(
                "cache_control"@,
            ) matches Some(mark) && is_mark(mark))
            &&& forall|key: Seq<char>|
                key != "content"@ ==> (#[trigger] last.get(key)) == claude::stripped(
                    messages.last(),
                ).get(key)
        }),
{
    lemma_request_words();
    let bare = claude::all_stripped(messages);
    let message = claude::stripped(messages.last());
    assert(bare.last() == message);
    law_stripping_leaves_the_rest(messages.last());
    law_stripping_leaves_the_rest(JsonTree::Text(said));
    assert(message.get("content"@) == Some(JsonTree::Text(said)));
    assert(claude::marked_message(message) is Some);
}

/// The last message is marked where the last part of its content is an object: that part is
/// sent with a mark. All other parts and messages are sent as they are, without marks.
pub proof fn law_a_last_part_is_marked(messages: Seq<JsonTree>, parts: Seq<JsonTree>)
    requires
        messages.len() > 0,
        messages.last().get("content"@) == Some(JsonTree::Array(parts)),
        parts.len() > 0,
        parts.last() is Object,
    ensures
        ({
            let sent = claude::cached(messages);
            let last = sent.last();
            &&& sent.len() == messages.len()
            &&& forall|i: int|
                0 <= i < messages.len() - 1 ==> (#[trigger] sent[i]) == claude::stripped(
                    messages[i],
                )
            &&& last.get("content"@) matches Some(JsonTree::Array(marked)) && {
                &&& marked.len() == parts.len()
                &&& is_marked_copy(marked.last(), claude::stripped(parts.last()))
                &&& forall|k: int|
                    0 <= k < parts.len() - 1 ==> (#[trigger] marked[k]) == claude::stripped(
                        parts[k],
                    )
            }
            &&& forall|key: Seq<char>|
                key != "content"@ ==> (#[trigger] last.get(key)) == claude::stripped(
                    messages.last(),
                ).get(key)
        }),
{
    lemma_request_words();
    let bare = claude::all_stripped(messages);
    let message = claude::stripped(messages.last());
    let content = claude::stripped(JsonTree::Array(parts));
    let left = content->Array_0;
    assert(bare.last() == message);
    assert(message.get("content"@) == Some(content));
    assert(left.len() == parts.len());
    assert(left.last() == claude::stripped(parts.last()));
    assert(left.last() is Object);
    assert(claude::marked_message(message) is Some);
    assert(claude::cache_mark().get("type"@) == Some(JsonTree::Text("ephemeral"@)));
}

/// Of the results of tools the last one is sent with a mark, and all others as they are.
pub proof fn law_the_last_result_is_marked(results: Seq<JsonTree>)
    ensures
        claude::marked_results(results).len() == results.len(),
        forall|i: int|
            0 <= i < results.len() - 1 ==> (#[trigger] claude::marked_results(results)[i])
                == results[i],
        results.len() > 0 && results.last() is Object ==> is_marked_copy(
            claude::marked_results(results).last(),
            results.last(),
        ),
{
    lemma_request_words();
}

// ---------------------------------------------------------------------------
// Requests
// ---------------------------------------------------------------------------

/// A request asks the model that is configured for a streamed reply to all messages, offers
/// the tools, and tells the model who it is.
pub proof fn law_requests_say_what_is_asked(
    name: Seq<char>,
    model: Seq<char>,
    messages: Seq<JsonTree>,
)
    ensures
        ({
            let body = claude::request_body(name, model, messages);
            &&& body.get("model"@) == Some(JsonTree::Text(model))
            &&& body.get("max_tokens"@) == Some(JsonTree::Integer(4096))
            &&& body.get("stream"@) == Some(JsonTree::Bool(true))
            &&& body.get("cache_control"@) matches Some(mark) && is_mark(mark)
            &&& body.get("messages"@) == Some(JsonTree::Array(claude::cached(messages)))
            &&& body.get("tools"@) == Some(JsonTree::Array(claude::tool_list()))
            &&& body.get("system"@) matches Some(JsonTree::Array(parts)) && {
                &&& parts.len() == 2
                &&& parts[0].get("text"@) == Some(
                    JsonTree::Text("You are "@ + name + claude::SYSTEM_PROMPT@),
                )
                &&& parts[0].get("type"@) == Some(JsonTree::Text("text"@))
                &&& parts[1].get("type"@) == Some(JsonTree::Text("text"@))
                &&& parts[1].get("text"@) == Some(
                    JsonTree::Text(
                        claude::CACHE_PRIMER@ + claude::repeated("cache-anchor "@, 5200),
                    ),
                )
                &&& parts[1].get("cache_control"@) matches Some(mark) && is_mark(mark)
            }
        }),
{
    lemma_request_words();
}

/// What is sent to keep the prompt long enough to be cached is as long as the word that it
/// repeats, so many times, and what it begins with.
pub proof fn law_repeated_words_add_up(word: Seq<char>, n: nat)
    ensures
        claude::repeated(word, n).len() == n * word.len(),
        claude::primer().len() == "cache-anchor "@.len() * 5200 + claude::CACHE_PRIMER@.len(),
{
    lemma_repeated(word, n);
    lemma_repeated(claude::CACHE_ANCHOR@, 5200);
}

proof fn lemma_repeated(word: Seq<char>, n: nat)
    ensures
        claude::repeated(word, n).len() == n * word.len(),
    decreases n,
{
    if n > 0 {
        lemma_repeated(word, (n - 1) as nat);
        let m = n - 1;
        let l = word.len() as int;
        assert((m + 1) * l == m * l + l) by (nonlinear_arith);
    } else {
        assert(0 * word.len() == 0) by (nonlinear_arith);
    }
}

/// The result of a tool says which call it answers, what came of it and whether it failed.
pub proof fn law_results_answer_their_call(id: Seq<char>, said: Seq<char>, failed: bool)
    ensures
        ({
            let part = claude::result_part(id, said, failed);
            &&& part is Object
            &&& part.get("type"@) == Some(JsonTree::Text("tool_result"@))
            &&& part.get("tool_use_id"@) == Some(JsonTree::Text(id))
            &&& part.get("content"@) == Some(JsonTree::Text(said))
            &&& part.get("is_error"@) == Some(JsonTree::Bool(failed))
            &&& part.get("cache_control"@) is None
        }),
{
    lemma_request_words();
}

/// Whether a tool is offered under a name, with these properties of its input, of which
/// those in `required` must be given.
pub open spec fn offers(
    tool: JsonTree,
    name: Seq<char>,
    properties: Seq<Seq<char>>,
    required: Option<Seq<JsonTree>>,
) -> bool {
    &&& tool.get("name"@) == Some(JsonTree::Text(name))
    &&& tool.get("description"@) matches Some(JsonTree::Text(_))
    &&& tool.get("input_schema"@) matches Some(schema) && {
        &&& schema.get("type"@) == Some(JsonTree::Text("object"@))
        &&& schema.get("required"@) == (match required {
            Some(names) => Some(JsonTree::Array(names)),
            None => None,
        })
        &&& schema.get("properties"@) matches Some(JsonTree::Object(fields))
            && fields.dom() == properties.to_set()
    }
}

/// The model is offered four tools: to read a file, to write one, to list a directory and to
/// run a command. What is needed for each is required.
pub proof fn law_four_tools_are_offered()
    ensures
        claude::tool_list().len() == 4,
        claude::tool_list()[3].get("cache_control"@) matches Some(mark) && is_mark(mark),
        claude::tool_list()[0].get("cache_control"@) is None,
        claude::tool_list()[1].get("cache_control"@) is None,
        claude::tool_list()[2].get("cache_control"@) is None,
        offers(
            claude::tool_list()[0],
            "read_file"@,
            seq!["path"@],
            Some(seq![JsonTree::Text("path"@)]),
        ),
        offers(
            claude::tool_list()[1],
            "write_file"@,
            seq!["path"@, "content"@],
            Some(seq![JsonTree::Text("path"@), JsonTree::Text("content"@)]),
        ),
        offers(claude::tool_list()[2], "list_dir"@, seq!["path"@], None),
        offers(
            claude::tool_list()[3],
            "run_command"@,
            seq!["command"@, "timeout_seconds"@],
            Some(seq![JsonTree::Text("command"@)]),
        ),
{
    lemma_request_words();
    let one = seq!["path"@];
    let two = seq!["path"@, "content"@];
    let run = seq!["command"@, "timeout_seconds"@];
    assert(one[0] == "path"@);
    assert(two[0] == "path"@ && two[1] == "content"@);
    assert(run[0] == "command"@ && run[1] == "timeout_seconds"@);
    let tools = claude::tool_list();
    assert(tools[0].get("input_schema"@)->0.get("properties"@)->0->Object_0.dom() =~= one.to_set());
    assert(tools[1].get("input_schema"@)->0.get("properties"@)->0->Object_0.dom() =~= two.to_set());
    assert(tools[2].get("input_schema"@)->0.get("properties"@)->0->Object_0.dom() =~= one.to_set());
    assert(tools[3].get("input_schema"@)->0.get("properties"@)->0->Object_0.dom() =~= run.to_set());
}

/// The test of the connection asks the model that is configured for one token, not streamed.
pub proof fn law_tests_ask_for_little(model: Seq<char>)
    ensures
        ({
            let body = claude::test_body(model);
            &&& body.get("model"@) == Some(JsonTree::Text(model))
            &&& body.get("max_tokens"@) == Some(JsonTree::Integer(1))
            &&& body.get("stream"@) == Some(JsonTree::Bool(false))
            &&& body.get("messages"@) matches Some(JsonTree::Array(messages)) && messages.len()
                == 1 && messages[0].get("role"@) == Some(JsonTree::Text("user"@))
                && messages[0].get("content"@) == Some(JsonTree::Text("ping"@))
        }),
{
    lemma_request_words();
}

/// A reply is a success just where its status begins with a two. What the user is told of a
/// failure begins as given, goes on with the status and ends with what came, as far as that
/// is not too long; and the same stands in the log, as an error.
pub proof fn law_failures_are_told(
    status: u16,
    start: Seq<char>,
    body: Seq<char>,
    limit: nat,
    request_id: Seq<char>,
    task_id: Option<Seq<char>>,
)
    ensures
        claude::is_success(status) == (status / 100 == 2),
        claude::failure_text(start, status, body, limit) == start + text::numeral(status as nat)
            + "："@ + (if body.len() <= limit {
            body
        } else {
            body.take(limit as int) + "\n...[truncated]"@
        }),
        body.len() <= limit ==> body.is_suffix_of(
            claude::failure_text(start, status, body, limit),
        ),
        body.len() > limit ==> (body.take(limit as int) + "\n...[truncated]"@).is_suffix_of(
            claude::failure_text(start, status, body, limit),
        ),
        ({
            let log = claude::failure_log(start, status, body, limit, request_id, task_id);
            &&& log.level == LogLevel::Error
            &&& log.source == "new-api"@
            &&& log.summary == start
            &&& log.request_id == Some(request_id)
            &&& log.task_id == task_id
            &&& log.detail matches Some(detail) && detail.get("status"@) == Some(
                JsonTree::Integer(status as int),
            ) && detail.get("body"@) == Some(
                JsonTree::Text(
                    if body.len() <= limit {
                        body
                    } else {
                        body.take(limit as int) + "\n...[truncated]"@
                    },
                ),
            )
        }),
{
    lemma_log_words();
    let told = claude::failure_text(start, status, body, limit);
    let head = start + text::numeral(status as nat);
    let tail = text::cut(body, limit, claude::TRUNCATED@);
    assert(head =~= told.subrange(0, head.len() as int));
    assert(tail =~= told.subrange(told.len() - tail.len(), told.len() as int));
}

/// What is logged of a request says where it goes and which model it asks.
pub proof fn law_targets_are_logged(runtime: claude::RuntimeConfig)
    ensures
        claude::target_detail(runtime)["url"@] == JsonTree::Text(runtime.messages_url@),
        claude::target_detail(runtime)["model"@] == JsonTree::Text(runtime.model@),
        claude::target_detail(runtime)["api_key"@] == JsonTree::Text(runtime.api_key@),
        claude::target_detail(runtime).dom().contains("url"@),
        claude::target_detail(runtime).dom().contains("api_key"@),
        claude::target_detail(runtime).dom().contains("model"@),
{
    lemma_log_words();
}

/// What is logged of a reply that is complete says how long it took, what was called, why it
/// stopped and what it used.
pub proof fn law_replies_are_logged(
    name: Seq<char>,
    turn: TurnView,
    stats: stream::StreamEventStats,
    elapsed_ms: u64,
    request_id: Seq<char>,
    task_id: Seq<char>,
)
    ensures
        ({
            let log = claude::turn_log(name, turn, stats, elapsed_ms, request_id, task_id);
            &&& log.level == LogLevel::Info
            &&& log.request_id == Some(request_id)
            &&& log.task_id == Some(task_id)
            &&& log.source == "new-api"@
            &&& log.summary == ""@ + name + " Messages 流式请求完成"@
            &&& log.detail matches Some(detail) && {
                &&& detail.get("elapsed_ms"@) == Some(JsonTree::Integer(elapsed_ms as int))
                &&& detail.get("tool_uses"@) == Some(
                    JsonTree::Integer(turn.tool_uses.len() as int),
                )
                &&& turn.stop_reason matches Some(reason) ==> detail.get("stop_reason"@) == Some(
                    JsonTree::Text(reason),
                )
                &&& turn.stop_reason is None ==> detail.get("stop_reason"@) == Some(JsonTree::Null)
                &&& turn.usage matches Some(usage) ==> detail.get("usage"@) == Some(usage)
                &&& turn.usage is None ==> detail.get("usage"@) == Some(JsonTree::Null)
                &&& detail.get("stream_events"@) == Some(JsonTree::Integer(stats.events as int))
                &&& detail.get("stream_text_chars"@) == Some(
                    JsonTree::Integer(stats.text_chars as int),
                )
                &&& detail.get("stream_usage_events"@) == Some(
                    JsonTree::Integer(stats.usage_events as int),
                )
            }
        }),
{
    lemma_log_words();
}

/// The usage that a reply to the test of the connection reports is that under `usage`.
pub proof fn law_reported_usage_is_found(body: Seq<char>)
    ensures
        json::parsed(body) matches Ok(payload) ==> claude::reported_usage(body) == payload.get(
            "usage"@,
        ),
        json::parsed(body) is Err ==> claude::reported_usage(body) is None,
{
}

/// The user is told that nothing was cached just where the input is too short for that and
/// nothing was read from the cache or written to it.
pub proof fn law_short_inputs_are_hinted_at(
    model: Seq<char>,
    usage: JsonTree,
    request_id: Option<Seq<char>>,
    task_id: Option<Seq<char>>,
)
    ensures
        ({
            let hint = claude::cache_hint(model, usage, request_id, task_id);
            let input = counts::field_number(usage, "input_tokens"@);
            let least = claude::cacheable_minimum(model);
            &&& hint is Some <==> claude::cache_reads(usage) == 0 && claude::cache_writes(usage)
                == 0 && 0 < input < least
            &&& hint matches Some(log) ==> {
                &&& log.level == LogLevel::Info
                &&& log.source == "usage"@
                &&& log.summary == "未触发缓存：输入低于最低缓存长度"@
                &&& log.request_id == request_id
                &&& log.task_id == task_id
                &&& log.detail matches Some(detail) && detail.get("model"@) == Some(
                    JsonTree::Text(model),
                ) && detail.get("input_tokens"@) == Some(JsonTree::Integer(input as int))
                    && detail.get("minimum_cache_tokens"@) == Some(
                    JsonTree::Integer(least as int),
                )
            }
        }),
{
    lemma_log_words();
}

/// The least input that is cached is that of the model, by a part of its name in any case of
/// letters.
pub proof fn law_models_cache_from_their_minimum(model: Seq<char>)
    ensures
        ({
            let name = text::lowered(model);
            let large = text::has_text(name, "opus-4-7"@) || text::has_text(name, "opus-4-6"@)
                || text::has_text(name, "opus-4-5"@) || text::has_text(name, "mythos"@)
                || text::has_text(name, "haiku-4-5"@);
            let medium = text::has_text(name, "haiku-3-5"@);
            &&& large ==> claude::cacheable_minimum(model) == 4096
            &&& !large && medium ==> claude::cacheable_minimum(model) == 2048
            &&& !large && !medium ==> claude::cacheable_minimum(model) == 1024
        }),
{
    let name = text::lowered(model);
    let all = claude::large_models();
    assert(all.len() == 5);
    assert(all[0] == "opus-4-7"@ && all[1] == "opus-4-6"@ && all[2] == "opus-4-5"@ && all[3]
        == "mythos"@ && all[4] == "haiku-4-5"@);
    assert(text::has_any(name, all) == (text::has_text(name, all[0]) || text::has_text(
        name,
        all[1],
    ) || text::has_text(name, all[2]) || text::has_text(name, all[3]) || text::has_text(
        name,
        all[4],
    )));
}

// ---------------------------------------------------------------------------
// Tasks
// ---------------------------------------------------------------------------

/// A task begins with the user's prompt.
pub proof fn law_tasks_begin_with_the_prompt(prompt: Seq<char>, name: Seq<char>)
    ensures
        ({
            let state = agent_loop::first_state(prompt, name);
            &&& state.messages.len() == 1
            &&& state.messages[0].get("role"@) == Some(JsonTree::Text("user"@))
            &&& state.messages[0].get("content"@) == Some(JsonTree::Text(prompt))
            &&& state.text.len() == 0
            &&& state.turns == 0
            &&& state.results.len() == 0
            &&& state.assistant == name
        }),
{
    lemma_request_words();
}

/// A reply adds its message to the task, as the assistant's, and its text to the result.
pub proof fn law_replies_join_the_task(state: LoopView, turn: TurnView)
    ensures
        ({
            let after = agent_loop::after_turn(state, turn);
            &&& after.messages.len() == state.messages.len() + 1
            &&& after.messages.drop_last() == state.messages
            &&& after.messages.last().get("role"@) == Some(JsonTree::Text("assistant"@))
            &&& after.messages.last().get("content"@) == Some(JsonTree::Array(turn.content))
            &&& after.text == state.text + turn.text
            &&& after.turns == state.turns
            &&& after.results == state.results
            &&& after.assistant == state.assistant
        }),
{
    lemma_request_words();
    assert(agent_loop::after_turn(state, turn).messages.drop_last() =~= state.messages);
}

/// The results of the tools join the task as one message of the user's, in their order, the
/// last of them marked; and no result is left over.
pub proof fn law_results_join_the_task(state: LoopView)
    ensures
        ({
            let after = agent_loop::after_tools(state);
            &&& after.messages.len() == state.messages.len() + 1
            &&& after.messages.drop_last() == state.messages
            &&& after.messages.last().get("role"@) == Some(JsonTree::Text("user"@))
            &&& after.messages.last().get("content"@) matches Some(JsonTree::Array(sent)) && {
                &&& sent.len() == state.results.len()
                &&& forall|i: int|
                    0 <= i < sent.len() - 1 ==> (#[trigger] sent[i]) == state.results[i]
                &&& sent.len() > 0 && state.results.last() is Object ==> is_marked_copy(
                    sent.last(),
                    state.results.last(),
                )
            }
            &&& after.results.len() == 0
            &&& after.text == state.text
            &&& after.turns == state.turns
            &&& after.assistant == state.assistant
        }),
{
    lemma_request_words();
    law_the_last_result_is_marked(state.results);
    assert(agent_loop::after_tools(state).messages.drop_last() =~= state.messages);
}

/// A task ends after twenty replies, and when it is cancelled; otherwise it goes on.
pub proof fn law_tasks_end_after_twenty_replies(state: LoopView, cancelled: bool)
    ensures
        agent_loop::turn_refusal(state, cancelled) is Some <==> state.turns >= 20 || cancelled,
        state.turns < 20 && cancelled ==> agent_loop::turn_refusal(state, cancelled) == Some(
            "任务已取消"@,
        ),
        state.turns >= 20 ==> agent_loop::turn_refusal(state, cancelled) == Some(
            ""@ + state.assistant + " 工具循环超过 "@ + text::numeral(20) + " 轮，已停止"@,
        ),
{
}

/// What is logged of a task names the task and says where it runs, with which model, and at
/// the end why the model stopped.
pub proof fn law_tasks_are_logged(
    name: Seq<char>,
    turns: usize,
    cwd: Seq<char>,
    model: Seq<char>,
    task_id: Seq<char>,
    stop_reason: Option<Seq<char>>,
)
    ensures
        ({
            let start = agent_loop::turn_start_log(name, turns, cwd, model, task_id);
            let end = agent_loop::final_log(name, stop_reason, task_id);
            &&& start.task_id == Some(task_id)
            &&& end.task_id == Some(task_id)
            &&& start.level == LogLevel::Info
            &&& end.level == LogLevel::Info
            &&& start.source == "agent"@ && start.request_id is None
            &&& end.source == "agent"@ && end.request_id is None
            &&& start.summary == "开始第 "@ + text::numeral((turns + 1) as nat) + (" 轮 "@ + name
                + " 调用"@)
            &&& end.summary == ""@ + name + " 返回最终结果"@
            &&& start.detail matches Some(detail) && detail.get("workdir"@) == Some(
                JsonTree::Text(cwd),
            ) && detail.get("model"@) == Some(JsonTree::Text(model))
            &&& end.detail matches Some(detail) && detail.get("stop_reason"@) == Some(
                match stop_reason {
                    Some(reason) => JsonTree::Text(reason),
                    None => JsonTree::Null,
                },
            )
        }),
{
    lemma_log_words();
}

/// A request needs an address of the web and a key, and is made with those that are in force and
/// the model.
pub proof fn law_requests_need_a_key(file: ConfigFileView, runtime: claude::RuntimeConfig)
    ensures
        ({
            let refusal = claude::runtime_refusal(file);
            let url = config::messages_url(file.api_url);
            let key = config::usable_key(file.api_key);
            &&& refusal is None <==> url is Ok && key is Some
            &&& url matches Err(error) ==> refusal == Some(error)
            &&& url is Ok && key is None ==> refusal == Some(ConfigError::MissingKey)
            &&& claude::is_runtime_of(runtime, file) ==> refusal is None && url == Ok::<
                Seq<char>,
                ConfigError,
            >(runtime.messages_url@) && key == Some(runtime.api_key@) && runtime.model@
                == file.model
        }),
{
}

/// A connection that works is logged with its status and what it used.
pub proof fn law_connections_are_logged(
    status: u16,
    usage: Option<JsonTree>,
    request_id: Seq<char>,
)
    ensures
        ({
            let log = claude::test_success_log(status, usage, request_id);
            &&& log.level == LogLevel::Info
            &&& log.source == "new-api"@
            &&& log.summary == "new-api 连接成功"@
            &&& log.request_id == Some(request_id)
            &&& log.task_id is None
            &&& log.detail matches Some(detail) && detail.get("status"@) == Some(
                JsonTree::Integer(status as int),
            ) && (usage is Some ==> detail.get("usage"@) == usage) && (usage is None ==> detail.get(
                "usage"@,
            ) == Some(JsonTree::Null))
        }),
{
    lemma_log_words();
}

/// Whether a property is described as a text.
pub open spec fn is_text_property(tool: JsonTree, key: Seq<char>) -> bool {
    tool.get("input_schema"@) matches Some(schema) && (schema.get("properties"@) matches Some(
        properties,
    ) && (properties.get(key) matches Some(property) && property.get("type"@) == Some(
        JsonTree::Text("string"@),
    ) && (property.get("description"@) matches Some(JsonTree::Text(_)))))
}

/// Paths, contents and commands are asked for as texts, and the time for a command as a number of
/// seconds between one and 600.
pub proof fn law_inputs_are_described()
    ensures
        is_text_property(claude::tool_list()[0], "path"@),
        is_text_property(claude::tool_list()[1], "path"@),
        is_text_property(claude::tool_list()[1], "content"@),
        is_text_property(claude::tool_list()[2], "path"@),
        is_text_property(claude::tool_list()[3], "command"@),
        claude::tool_list()[3].get("input_schema"@) matches Some(schema) && (schema.get(
            "properties"@,
        ) matches Some(properties) && (properties.get("timeout_seconds"@) matches Some(property)
            && property.get("type"@) == Some(JsonTree::Text("integer"@)) && property.get(
            "minimum"@,
        ) == Some(JsonTree::Integer(1)) && property.get("maximum"@) == Some(
            JsonTree::Integer(600),
        ))),
{
    lemma_request_words();
}

/// Of a list of parts the last object is marked, wherever it stands; all other parts stay as they
/// are, and a list without objects cannot be marked.
pub proof fn law_the_last_object_is_marked(parts: Seq<JsonTree>, at: int)
    requires
        -1 <= at < parts.len(),
        at >= 0 ==> parts[at] is Object,
        forall|k: int| at < k < parts.len() ==> !((#[trigger] parts[k]) is Object),
    ensures
        at < 0 <==> claude::marked_parts(parts) is None,
        claude::marked_parts(parts) matches Some(marked) ==> {
            &&& marked.len() == parts.len()
            &&& is_marked_copy(marked[at], parts[at])
            &&& forall|k: int|
                0 <= k < parts.len() && k != at ==> (#[trigger] marked[k]) == parts[k]
        },
    decreases parts.len(),
{
    lemma_request_words();
    if parts.len() > 0 && at < parts.len() - 1 {
        let front = parts.drop_last();
        assert forall|k: int| at < k < front.len() implies !((#[trigger] front[k]) is Object) by {
            assert(front[k] == parts[k]);
        }
        law_the_last_object_is_marked(front, at);
        assert(!(parts[parts.len() - 1] is Object));
    }
}

/// Of the messages the last that can be marked is marked, wherever it stands, and all others are
/// sent as they are. A message can be marked where its content is a text or an object, or a list
/// with an object in it.
pub proof fn law_the_last_markable_message_is_marked(messages: Seq<JsonTree>, at: int)
    requires
        -1 <= at < messages.len(),
        at >= 0 ==> claude::marked_message(messages[at]) is Some,
        forall|k: int|
            at < k < messages.len() ==> claude::marked_message(#[trigger] messages[k]) is None,
    ensures
        ({
            let marked = claude::marked_messages(messages);
            &&& marked.len() == messages.len()
            &&& at >= 0 ==> Some(marked[at]) == claude::marked_message(messages[at])
            &&& forall|k: int|
                0 <= k < messages.len() && k != at ==> (#[trigger] marked[k]) == messages[k]
        }),
    decreases messages.len(),
{
    if messages.len() > 0 && at < messages.len() - 1 {
        let front = messages.drop_last();
        assert forall|k: int| at < k < front.len() implies claude::marked_message(
            #[trigger] front[k],
        ) is None by {
            assert(front[k] == messages[k]);
        }
        law_the_last_markable_message_is_marked(front, at);
        assert(claude::marked_message(messages[messages.len() - 1]) is None);
    }
}

/// Which messages can be marked, by what they hold.
pub proof fn law_contents_that_can_be_marked(message: JsonTree)
    ensures
        message.get("content"@) is None ==> claude::marked_message(message) is None,
        message.get("content"@) matches Some(content) ==> {
            &&& content is Text || content is Object ==> claude::marked_message(message) is Some
            &&& content is Null || content is Bool || content is Integer
                ==> claude::marked_message(message) is None
            &&& content matches JsonTree::Object(_) ==> (claude::marked_message(
                message,
            ) matches Some(marked) && (marked.get("content"@) matches Some(copy) && is_marked_copy(
                copy,
                content,
            )))
        },
{
    lemma_request_words();
}

} // verus!
