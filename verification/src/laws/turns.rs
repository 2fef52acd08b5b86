//! What a streamed reply comes to.

use vstd::prelude::*;
use vstd::string::*;

use crate::json;
use crate::json::JsonTree;
use crate::stream;
use crate::stream::{BlockView, StreamView, ToolUseView};
use crate::text;

verus! {

/// The words of a stream are different ones.
proof fn lemma_stream_words()
    ensures
        "type"@ != "id"@,
        "type"@ != "name"@,
        "type"@ != "input"@,
        "type"@ != "text"@,
        "type"@ != "tool_use"@,
        "type"@ != "index"@,
        "type"@ != "message_start"@,
        "type"@ != "content_block_start"@,
        "type"@ != "content_block_delta"@,
        "type"@ != "message_delta"@,
        "type"@ != "unknown"@,
        "type"@ != "text_delta"@,
        "type"@ != "input_json_delta"@,
        "type"@ != "partial_json"@,
        "type"@ != "delta"@,
        "type"@ != "content_block"@,
        "type"@ != "stop_reason"@,
        "type"@ != "usage"@,
        "type"@ != "message"@,
        "type"@ != ""@,
        "id"@ != "name"@,
        "id"@ != "input"@,
        "id"@ != "text"@,
        "id"@ != "tool_use"@,
        "id"@ != "index"@,
        "id"@ != "message_start"@,
        "id"@ != "content_block_start"@,
        "id"@ != "content_block_delta"@,
        "id"@ != "message_delta"@,
        "id"@ != "unknown"@,
        "id"@ != "text_delta"@,
        "id"@ != "input_json_delta"@,
        "id"@ != "partial_json"@,
        "id"@ != "delta"@,
        "id"@ != "content_block"@,
        "id"@ != "stop_reason"@,
        "id"@ != "usage"@,
        "id"@ != "message"@,
        "id"@ != ""@,
        "name"@ != "input"@,
        "name"@ != "text"@,
        "name"@ != "tool_use"@,
        "name"@ != "index"@,
        "name"@ != "message_start"@,
        "name"@ != "content_block_start"@,
        "name"@ != "content_block_delta"@,
        "name"@ != "message_delta"@,
        "name"@ != "unknown"@,
        "name"@ != "text_delta"@,
        "name"@ != "input_json_delta"@,
        "name"@ != "partial_json"@,
        "name"@ != "delta"@,
        "name"@ != "content_block"@,
        "name"@ != "stop_reason"@,
        "name"@ != "usage"@,
        "name"@ != "message"@,
        "name"@ != ""@,
        "input"@ != "text"@,
        "input"@ != "tool_use"@,
        "input"@ != "index"@,
        "input"@ != "message_start"@,
        "input"@ != "content_block_start"@,
        "input"@ != "content_block_delta"@,
        "input"@ != "message_delta"@,
        "input"@ != "unknown"@,
        "input"@ != "text_delta"@,
        "input"@ != "input_json_delta"@,
        "input"@ != "partial_json"@,
        "input"@ != "delta"@,
        "input"@ != "content_block"@,
        "input"@ != "stop_reason"@,
        "input"@ != "usage"@,
        "input"@ != "message"@,
        "input"@ != ""@,
        "text"@ != "tool_use"@,
        "text"@ != "index"@,
        "text"@ != "message_start"@,
        "text"@ != "content_block_start"@,
        "text"@ != "content_block_delta"@,
        "text"@ != "message_delta"@,
        "text"@ != "unknown"@,
        "text"@ != "text_delta"@,
        "text"@ != "input_json_delta"@,
        "text"@ != "partial_json"@,
        "text"@ != "delta"@,
        "text"@ != "content_block"@,
        "text"@ != "stop_reason"@,
        "text"@ != "usage"@,
        "text"@ != "message"@,
        "text"@ != ""@,
        "tool_use"@ != "index"@,
        "tool_use"@ != "message_start"@,
        "tool_use"@ != "content_block_start"@,
        "tool_use"@ != "content_block_delta"@,
        "tool_use"@ != "message_delta"@,
        "tool_use"@ != "unknown"@,
        "tool_use"@ != "text_delta"@,
        "tool_use"@ != "input_json_delta"@,
        "tool_use"@ != "partial_json"@,
        "tool_use"@ != "delta"@,
        "tool_use"@ != "content_block"@,
        "tool_use"@ != "stop_reason"@,
        "tool_use"@ != "usage"@,
        "tool_use"@ != "message"@,
        "tool_use"@ != ""@,
        "index"@ != "message_start"@,
        "index"@ != "content_block_start"@,
        "index"@ != "content_block_delta"@,
        "index"@ != "message_delta"@,
        "index"@ != "unknown"@,
        "index"@ != "text_delta"@,
        "index"@ != "input_json_delta"@,
        "index"@ != "partial_json"@,
        "index"@ != "delta"@,
        "index"@ != "content_block"@,
        "index"@ != "stop_reason"@,
        "index"@ != "usage"@,
        "index"@ != "message"@,
        "index"@ != ""@,
        "message_start"@ != "content_block_start"@,
        "message_start"@ != "content_block_delta"@,
        "message_start"@ != "message_delta"@,
        "message_start"@ != "unknown"@,
        "message_start"@ != "text_delta"@,
        "message_start"@ != "input_json_delta"@,
        "message_start"@ != "partial_json"@,
        "message_start"@ != "delta"@,
        "message_start"@ != "content_block"@,
        "message_start"@ != "stop_reason"@,
        "message_start"@ != "usage"@,
        "message_start"@ != "message"@,
        "message_start"@ != ""@,
        "content_block_start"@ != "content_block_delta"@,
        "content_block_start"@ != "message_delta"@,
        "content_block_start"@ != "unknown"@,
        "content_block_start"@ != "text_delta"@,
        "content_block_start"@ != "input_json_delta"@,
        "content_block_start"@ != "partial_json"@,
        "content_block_start"@ != "delta"@,
        "content_block_start"@ != "content_block"@,
        "content_block_start"@ != "stop_reason"@,
        "content_block_start"@ != "usage"@,
        "content_block_start"@ != "message"@,
        "content_block_start"@ != ""@,
        "content_block_delta"@ != "message_delta"@,
        "content_block_delta"@ != "unknown"@,
        "content_block_delta"@ != "text_delta"@,
        "content_block_delta"@ != "input_json_delta"@,
        "content_block_delta"@ != "partial_json"@,
        "content_block_delta"@ != "delta"@,
        "content_block_delta"@ != "content_block"@,
        "content_block_delta"@ != "stop_reason"@,
        "content_block_delta"@ != "usage"@,
        "content_block_delta"@ != "message"@,
        "content_block_delta"@ != ""@,
        "message_delta"@ != "unknown"@,
        "message_delta"@ != "text_delta"@,
        "message_delta"@ != "input_json_delta"@,
        "message_delta"@ != "partial_json"@,
        "message_delta"@ != "delta"@,
        "message_delta"@ != "content_block"@,
        "message_delta"@ != "stop_reason"@,
        "message_delta"@ != "usage"@,
        "message_delta"@ != "message"@,
        "message_delta"@ != ""@,
        "unknown"@ != "text_delta"@,
        "unknown"@ != "input_json_delta"@,
        "unknown"@ != "partial_json"@,
        "unknown"@ != "delta"@,
        "unknown"@ != "content_block"@,
        "unknown"@ != "stop_reason"@,
        "unknown"@ != "usage"@,
        "unknown"@ != "message"@,
        "unknown"@ != ""@,
        "text_delta"@ != "input_json_delta"@,
        "text_delta"@ != "partial_json"@,
        "text_delta"@ != "delta"@,
        "text_delta"@ != "content_block"@,
        "text_delta"@ != "stop_reason"@,
        "text_delta"@ != "usage"@,
        "text_delta"@ != "message"@,
        "text_delta"@ != ""@,
        "input_json_delta"@ != "partial_json"@,
        "input_json_delta"@ != "delta"@,
        "input_json_delta"@ != "content_block"@,
        "input_json_delta"@ != "stop_reason"@,
        "input_json_delta"@ != "usage"@,
        "input_json_delta"@ != "message"@,
        "input_json_delta"@ != ""@,
        "partial_json"@ != "delta"@,
        "partial_json"@ != "content_block"@,
        "partial_json"@ != "stop_reason"@,
        "partial_json"@ != "usage"@,
        "partial_json"@ != "message"@,
        "partial_json"@ != ""@,
        "delta"@ != "content_block"@,
        "delta"@ != "stop_reason"@,
        "delta"@ != "usage"@,
        "delta"@ != "message"@,
        "delta"@ != ""@,
        "content_block"@ != "stop_reason"@,
        "content_block"@ != "usage"@,
        "content_block"@ != "message"@,
        "content_block"@ != ""@,
        "stop_reason"@ != "usage"@,
        "stop_reason"@ != "message"@,
        "stop_reason"@ != ""@,
        "usage"@ != "message"@,
        "usage"@ != ""@,
        "message"@ != ""@,
{
    reveal_strlit("type");
    reveal_strlit("id");
    reveal_strlit("name");
    reveal_strlit("input");
    reveal_strlit("text");
    reveal_strlit("tool_use");
    reveal_strlit("index");
    reveal_strlit("message_start");
    reveal_strlit("content_block_start");
    reveal_strlit("content_block_delta");
    reveal_strlit("message_delta");
    reveal_strlit("unknown");
    reveal_strlit("text_delta");
    reveal_strlit("input_json_delta");
    reveal_strlit("partial_json");
    reveal_strlit("delta");
    reveal_strlit("content_block");
    reveal_strlit("stop_reason");
    reveal_strlit("usage");
    reveal_strlit("message");
    reveal_strlit("");
    assert("type"@.len() == 4);
    assert("id"@.len() == 2);
    assert("name"@.len() == 4);
    assert("input"@.len() == 5);
    assert("text"@.len() == 4);
    assert("tool_use"@.len() == 8);
    assert("index"@.len() == 5);
    assert("message_start"@.len() == 13);
    assert("content_block_start"@.len() == 19);
    assert("content_block_delta"@.len() == 19);
    assert("message_delta"@.len() == 13);
    assert("unknown"@.len() == 7);
    assert("text_delta"@.len() == 10);
    assert("input_json_delta"@.len() == 16);
    assert("partial_json"@.len() == 12);
    assert("delta"@.len() == 5);
    assert("content_block"@.len() == 13);
    assert("stop_reason"@.len() == 11);
    assert("usage"@.len() == 5);
    assert("message"@.len() == 7);
    assert(""@.len() == 0);
    assert("type"@[0] == 't' && "name"@[0] == 'n');
    assert("type"@[1] == 'y' && "text"@[1] == 'e');
    assert("name"@[0] == 'n' && "text"@[0] == 't');
    assert("input"@[2] == 'p' && "index"@[2] == 'd');
    assert("input"@[0] == 'i' && "delta"@[0] == 'd');
    assert("input"@[0] == 'i' && "usage"@[0] == 'u');
    assert("index"@[0] == 'i' && "delta"@[0] == 'd');
    assert("index"@[0] == 'i' && "usage"@[0] == 'u');
    assert("message_start"@[8] == 's' && "message_delta"@[8] == 'd');
    assert("message_start"@[0] == 'm' && "content_block"@[0] == 'c');
    assert("content_block_start"@[14] == 's' && "content_block_delta"@[14] == 'd');
    assert("message_delta"@[0] == 'm' && "content_block"@[0] == 'c');
    assert("unknown"@[0] == 'u' && "message"@[0] == 'm');
    assert("delta"@[0] == 'd' && "usage"@[0] == 'u');
}

// ---------------------------------------------------------------------------
// Events
// ---------------------------------------------------------------------------

/// Whether an event is of a kind and speaks of the block with an index.
pub open spec fn speaks_of(event: JsonTree, kind: Seq<char>, index: int) -> bool {
    &&& event.get_text("type"@) == Some(kind)
    &&& event.get("index"@) == Some(JsonTree::Integer(index))
    &&& 0 <= index < usize::MAX
    &&& index <= u64::MAX
}

/// The text of the block with an index; none where there is no such block yet.
pub open spec fn block_text(stream: StreamView, index: int) -> Seq<char> {
    if index < stream.blocks.len() {
        stream.blocks[index].text
    } else {
        Seq::empty()
    }
}

/// The input of the block with an index, as far as it came in.
pub open spec fn block_input(stream: StreamView, index: int) -> Seq<char> {
    if index < stream.blocks.len() {
        stream.blocks[index].input_json
    } else {
        Seq::empty()
    }
}

/// Text that comes in is put behind the text of the reply and behind that of its block, and
/// its characters are counted. Nothing else changes but the number of events.
pub proof fn law_text_is_put_behind_the_reply(
    before: StreamView,
    event: JsonTree,
    index: int,
    delta: JsonTree,
    more: Seq<char>,
)
    requires
        speaks_of(event, "content_block_delta"@, index),
        event.get("delta"@) == Some(delta),
        delta.get_text("type"@) == Some("text_delta"@),
        delta.get_text("text"@) == Some(more),
    ensures
        !stream::out_of_range(event),
        ({
            let after = stream::after_event(before, event);
            &&& after.turn.text == before.turn.text + more
            &&& block_text(after, index) == block_text(before, index) + more
            &&& block_input(after, index) == block_input(before, index)
            &&& after.stats.text_chars == before.stats.text_chars.wrapping_add(more.len() as usize)
            &&& after.stats.events == before.stats.events.wrapping_add(1)
            &&& after.stats.tool_uses == before.stats.tool_uses
            &&& after.stats.usage_events == before.stats.usage_events
            &&& after.turn.stop_reason == before.turn.stop_reason
            &&& after.turn.usage == before.turn.usage
            &&& after.turn.content == before.turn.content
            &&& after.turn.tool_uses == before.turn.tool_uses
            &&& forall|i: int|
                0 <= i < before.blocks.len() && i != index ==> (#[trigger] after.blocks[i])
                    == before.blocks[i]
            &&& index < before.blocks.len() ==> after.blocks[index].kind
                == before.blocks[index].kind && after.blocks[index].id == before.blocks[index].id
                && after.blocks[index].name == before.blocks[index].name
        }),
{
    lemma_stream_words();
}

/// Input for a tool that comes in is put behind the input of its block. The text of the reply
/// does not change.
pub proof fn law_input_is_put_behind_its_block(
    before: StreamView,
    event: JsonTree,
    index: int,
    delta: JsonTree,
    more: Seq<char>,
)
    requires
        speaks_of(event, "content_block_delta"@, index),
        event.get("delta"@) == Some(delta),
        delta.get_text("type"@) == Some("input_json_delta"@),
        delta.get_text("partial_json"@) == Some(more),
    ensures
        !stream::out_of_range(event),
        ({
            let after = stream::after_event(before, event);
            &&& after.turn == before.turn
            &&& block_input(after, index) == block_input(before, index) + more
            &&& block_text(after, index) == block_text(before, index)
            &&& after.stats.text_chars == before.stats.text_chars
            &&& after.stats.events == before.stats.events.wrapping_add(1)
            &&& after.stats.tool_uses == before.stats.tool_uses
            &&& after.stats.usage_events == before.stats.usage_events
            &&& forall|i: int|
                0 <= i < before.blocks.len() && i != index ==> (#[trigger] after.blocks[i])
                    == before.blocks[i]
            &&& index < before.blocks.len() ==> after.blocks[index].kind
                == before.blocks[index].kind && after.blocks[index].id == before.blocks[index].id
                && after.blocks[index].name == before.blocks[index].name
        }),
{
    lemma_stream_words();
}

/// A block of a call begins with the identifier and the name that the event gives, and with
/// its input where that is not empty.
pub proof fn law_calls_begin_with_their_names(
    before: StreamView,
    event: JsonTree,
    index: int,
    start: JsonTree,
)
    requires
        speaks_of(event, "content_block_start"@, index),
        event.get("content_block"@) == Some(start),
        start.get_text("type"@) == Some("tool_use"@),
    ensures
        !stream::out_of_range(event),
        ({
            let after = stream::after_event(before, event);
            &&& index < after.blocks.len()
            &&& after.turn == before.turn
            &&& after.blocks[index].kind == "tool_use"@
            &&& after.blocks[index].id == start.get_text("id"@)
            &&& after.blocks[index].name == start.get_text("name"@)
            &&& start.get("input"@) is None ==> block_input(after, index) == block_input(
                before,
                index,
            )
            &&& start.get("input"@) matches Some(JsonTree::Object(fields)) ==> block_input(
                after,
                index,
            ) == (if fields.dom() == Set::<Seq<char>>::empty() {
                block_input(before, index)
            } else {
                json::written(JsonTree::Object(fields))
            })
            &&& after.stats.events == before.stats.events.wrapping_add(1)
            &&& after.stats.tool_uses == before.stats.tool_uses.wrapping_add(1)
            &&& after.stats.text_chars == before.stats.text_chars
            &&& forall|i: int|
                0 <= i < before.blocks.len() && i != index ==> (#[trigger] after.blocks[i])
                    == before.blocks[i]
        }),
{
    lemma_stream_words();
}

/// A block of text begins with the text that the event gives, which is put behind the reply.
pub proof fn law_texts_begin_with_their_start(
    before: StreamView,
    event: JsonTree,
    index: int,
    start: JsonTree,
    more: Seq<char>,
)
    requires
        speaks_of(event, "content_block_start"@, index),
        event.get("content_block"@) == Some(start),
        start.get_text("type"@) == Some("text"@),
        start.get_text("text"@) == Some(more),
    ensures
        !stream::out_of_range(event),
        ({
            let after = stream::after_event(before, event);
            &&& index < after.blocks.len()
            &&& after.blocks[index].kind == "text"@
            &&& after.turn.text == before.turn.text + more
            &&& block_text(after, index) == block_text(before, index) + more
            &&& block_input(after, index) == block_input(before, index)
            &&& after.stats.text_chars == before.stats.text_chars.wrapping_add(more.len() as usize)
            &&& after.stats.events == before.stats.events.wrapping_add(1)
            &&& after.stats.tool_uses == before.stats.tool_uses
            &&& after.turn.stop_reason == before.turn.stop_reason
            &&& after.turn.usage == before.turn.usage
            &&& forall|i: int|
                0 <= i < before.blocks.len() && i != index ==> (#[trigger] after.blocks[i])
                    == before.blocks[i]
        }),
{
    lemma_stream_words();
}

/// What usage is known after a report: each field of the report, and of what was known before
/// what the report does not have.
pub open spec fn knows(after: JsonTree, before: JsonTree, report: JsonTree) -> bool {
    forall|key: Seq<char>|
        (#[trigger] after.get(key)) == (if report.get(key) is Some {
            report.get(key)
        } else {
            before.get(key)
        })
}

/// Usage is reported at the start of a message and with its changes. The fields of a later
/// report take the place of those of an earlier one, and the others stay.
pub proof fn law_later_usage_wins(before: StreamView, event: JsonTree, report: JsonTree)
    requires
        report is Object,
        ({
            ||| {
                &&& event.get_text("type"@) == Some("message_start"@)
                &&& event.get("message"@) matches Some(message) && message.get("usage"@) == Some(
                    report,
                )
            }
            ||| {
                &&& event.get_text("type"@) == Some("message_delta"@)
                &&& event.get("usage"@) == Some(report)
            }
        }),
    ensures
        !stream::out_of_range(event),
        ({
            let after = stream::after_event(before, event);
            &&& before.turn.usage is None ==> after.turn.usage == Some(report)
            &&& before.turn.usage matches Some(JsonTree::Object(_)) ==> (
            after.turn.usage matches Some(known) && known is Object && knows(
                known,
                before.turn.usage->0,
                report,
            ))
            &&& after.turn.text == before.turn.text
            &&& after.blocks == before.blocks
            &&& after.stats.events == before.stats.events.wrapping_add(1)
            &&& after.stats.usage_events == before.stats.usage_events.wrapping_add(1)
            &&& after.stats.text_chars == before.stats.text_chars
            &&& after.stats.tool_uses == before.stats.tool_uses
        }),
{
    lemma_stream_words();
}

/// Why the model stopped is what the last change of the message that says so says.
pub proof fn law_the_reason_to_stop_is_kept(before: StreamView, event: JsonTree)
    requires
        event.get_text("type"@) == Some("message_delta"@),
    ensures
        ({
            let said = match event.get("delta"@) {
                Some(delta) => delta.get_text("stop_reason"@),
                None => None,
            };
            let after = stream::after_event(before, event);
            &&& said is Some ==> after.turn.stop_reason == said
            &&& said is None ==> after.turn.stop_reason == before.turn.stop_reason
            &&& after.turn.text == before.turn.text
            &&& after.blocks == before.blocks
            &&& event.get("usage"@) is None ==> after.turn.usage == before.turn.usage
        }),
{
    lemma_stream_words();
}

/// An event of another kind is counted and does nothing else.
pub proof fn law_other_events_are_only_counted(before: StreamView, event: JsonTree, kind: Seq<char>)
    requires
        event.get_text("type"@) == Some(kind),
        kind != "message_start"@,
        kind != "message_delta"@,
        kind != "content_block_start"@,
        kind != "content_block_delta"@,
    ensures
        !stream::out_of_range(event),
        ({
            let after = stream::after_event(before, event);
            &&& after.turn == before.turn
            &&& after.blocks == before.blocks
            &&& after.stats.events == before.stats.events.wrapping_add(1)
            &&& after.stats.text_chars == before.stats.text_chars
            &&& after.stats.tool_uses == before.stats.tool_uses
            &&& after.stats.usage_events == before.stats.usage_events
        }),
{
}

/// No event touches the message or the calls: those are made when the reply has ended.
pub proof fn law_the_message_is_made_at_the_end(before: StreamView, event: JsonTree)
    ensures
        stream::after_event(before, event).turn.content == before.turn.content,
        stream::after_event(before, event).turn.tool_uses == before.turn.tool_uses,
        stream::empty_stream().turn.content.len() == 0,
        stream::empty_stream().turn.tool_uses.len() == 0,
        stream::empty_stream().turn.text.len() == 0,
        stream::empty_stream().blocks.len() == 0,
{
}

// ---------------------------------------------------------------------------
// Lines
// ---------------------------------------------------------------------------

/// What stands behind `data:` in a line is taken in as an event, with a blank before it or
/// without.
pub proof fn law_data_lines_are_events(before: StreamView, data: Seq<char>)
    requires
        data.len() > 0,
        !text::is_white(data[0]),
        !text::is_white(data.last()),
        data != "[DONE]"@,
    ensures
        stream::after_line(before, "data:"@ + data) == stream::after_line(
            before,
            "data: "@ + data,
        ),
        stream::after_line(before, "data:"@ + data) == (match json::parsed(data) {
            Ok(event) => if stream::out_of_range(event) {
                Err(stream::StreamFault::BlockIndex)
            } else {
                Ok(stream::after_event(before, event))
            },
            Err(message) => Err::<StreamView, stream::StreamFault>(
                stream::StreamFault::Json(message),
            ),
        }),
{
    reveal_strlit("data:");
    reveal_strlit("data: ");
    let start = "data:"@;
    let spaced = "data: "@;
    assert(start.len() == 5 && spaced.len() == 6);
    let one = start + data;
    let other = spaced + data;
    assert(one[0] == 'd' && other[0] == 'd');
    assert(one.last() == data.last() && other.last() == data.last());
    assert(text::trimmed(one) == one);
    assert(text::trimmed(other) == other);
    assert(start =~= one.subrange(0, 5));
    assert(start =~= other.subrange(0, 5));
    assert(one.skip(5) =~= data);
    let rest = other.skip(5);
    assert(rest.len() == data.len() + 1);
    assert(rest[0] == ' ');
    assert(rest.skip(1) =~= data);
    assert(text::trimmed_start(rest) == text::trimmed_start(rest.skip(1)));
    assert(text::trimmed(data) == data);
}

/// A line that does not begin with `data:`, a blank one, and the mark of the end change
/// nothing.
pub proof fn law_other_lines_are_skipped(before: StreamView, line: Seq<char>)
    requires
        !"data:"@.is_prefix_of(text::trimmed(line)),
    ensures
        stream::after_line(before, line) == Ok::<StreamView, stream::StreamFault>(before),
        stream::after_line(before, "data: [DONE]"@) == Ok::<StreamView, stream::StreamFault>(
            before,
        ),
{
    reveal_strlit("data: [DONE]");
    reveal_strlit("data:");
    reveal_strlit("[DONE]");
    let end = "data: [DONE]"@;
    assert(end.len() == 12 && "data:"@.len() == 5 && "[DONE]"@.len() == 6);
    assert(end[0] == 'd' && end.last() == ']');
    assert(text::trimmed(end) == end);
    assert("data:"@ =~= end.subrange(0, 5));
    let rest = end.skip(5);
    assert(rest[0] == ' ' && rest.skip(1)[0] == '[');
    assert(rest.skip(1) =~= "[DONE]"@);
    assert(text::trimmed_start(rest) == text::trimmed_start(rest.skip(1)));
    assert(rest.skip(1).last() == ']');
    assert(text::trimmed(rest) == "[DONE]"@);
}

/// A line is taken in when it ends, and what follows is taken in after it. What has no end
/// yet waits.
pub proof fn law_lines_are_taken_in_order(
    before: StreamView,
    line: Seq<char>,
    rest: Seq<char>,
)
    requires
        forall|i: int| 0 <= i < line.len() ==> line[i] != '\n',
    ensures
        stream::after_text(before, line) == Ok::<(StreamView, Seq<char>), stream::StreamFault>(
            (before, line),
        ),
        stream::after_text(before, line.push('\n') + rest) == (match stream::after_line(
            before,
            line,
        ) {
            Ok(next) => stream::after_text(next, rest),
            Err(fault) => Err(fault),
        }),
{
    let all = line.push('\n') + rest;
    lemma_line_ends(line, seq![]);
    lemma_line_ends(line, seq!['\n'] + rest);
    assert(line + Seq::<char>::empty() =~= line);
    assert(line + (seq!['\n'] + rest) =~= all);
    assert(all.take(line.len() as int) =~= line);
    assert(all.skip(line.len() as int + 1) =~= rest);
}

proof fn lemma_line_ends(line: Seq<char>, rest: Seq<char>)
    requires
        forall|i: int| 0 <= i < line.len() ==> line[i] != '\n',
        rest.len() == 0 || rest[0] == '\n',
    ensures
        stream::line_end(line + rest) == line.len(),
    decreases line.len(),
{
    let all = line + rest;
    if line.len() > 0 {
        assert(all.skip(1) =~= line.skip(1) + rest);
        assert forall|i: int| 0 <= i < line.skip(1).len() implies line.skip(1)[i] != '\n' by {
            assert(line.skip(1)[i] == line[i + 1]);
        }
        lemma_line_ends(line.skip(1), rest);
    }
}

// ---------------------------------------------------------------------------
// The finished turn
// ---------------------------------------------------------------------------

/// Whether a part of a message is a call: of the tool with this name, with this identifier
/// and this input.
pub open spec fn is_call_part(part: JsonTree, call: ToolUseView) -> bool {
    &&& part.get("type"@) == Some(JsonTree::Text("tool_use"@))
    &&& part.get("id"@) == Some(JsonTree::Text(call.id))
    &&& part.get("name"@) == Some(JsonTree::Text(call.name))
    &&& part.get("input"@) == Some(call.input)
}

/// Whether a part of a message is a text.
pub open spec fn is_text_part(part: JsonTree, said: Seq<char>) -> bool {
    &&& part.get("type"@) == Some(JsonTree::Text("text"@))
    &&& part.get("text"@) == Some(JsonTree::Text(said))
}

/// Every call of a finished turn stands in its message, with its identifier, its name and its
/// input, so that each result of a tool answers an identifier in the message before it.
pub proof fn law_calls_stand_in_the_message(ended: StreamView, i: int)
    requires
        ended.turn.content.len() == 0,
        ended.turn.tool_uses.len() == 0,
        0 <= i < stream::finished(ended).tool_uses.len(),
    ensures
        exists|k: int|
            0 <= k < stream::finished(ended).content.len() && is_call_part(
                #[trigger] stream::finished(ended).content[k],
                stream::finished(ended).tool_uses[i],
            ),
{
    let turn = stream::finished(ended);
    assert(turn.tool_uses =~= stream::block_calls(ended.blocks));
    assert(ended.turn.content + stream::block_parts(ended.blocks) =~= stream::block_parts(
        ended.blocks,
    ));
    let call = turn.tool_uses[i];
    stream::law_calls_are_parts(ended.blocks, i);
    lemma_stream_words();
    let k = choose|k: int|
        0 <= k < stream::block_parts(ended.blocks).len() && stream::block_parts(ended.blocks)[k]
            == stream::tool_part(call);
    assert(is_call_part(turn.content[k], call));
}

/// Whether a block is a call that has an identifier and a name.
pub open spec fn is_call_block(block: BlockView) -> bool {
    block.kind == "tool_use"@ && block.id is Some && block.name is Some
}

/// The calls of a turn are those of its blocks, in their order: a block with an identifier
/// and a name gives one call with them, and no other block gives any. The input is what the
/// text that came in says, or an empty object where that says nothing.
pub proof fn law_calls_follow_the_blocks(blocks: Seq<BlockView>, b: int)
    requires
        0 <= b < blocks.len(),
    ensures
        stream::block_calls(blocks.take(0)).len() == 0,
        ({
            let sooner = stream::block_calls(blocks.take(b));
            let later = stream::block_calls(blocks.take(b + 1));
            let block = blocks[b];
            &&& !is_call_block(block) ==> later == sooner
            &&& is_call_block(block) ==> {
                &&& later.len() == sooner.len() + 1
                &&& later.drop_last() == sooner
                &&& later.last().id == block.id->0
                &&& later.last().name == block.name->0
                &&& later.last().input == (if text::is_blank(block.input_json) {
                    JsonTree::Object(Map::empty())
                } else {
                    match json::parsed(block.input_json) {
                        Ok(input) => input,
                        Err(_) => JsonTree::Object(Map::empty()),
                    }
                })
            }
        }),
{
    let long = blocks.take(b + 1);
    assert(long.drop_last() =~= blocks.take(b));
    assert(long.last() == blocks[b]);
    if is_call_block(blocks[b]) {
        assert(stream::block_calls(long).drop_last() =~= stream::block_calls(blocks.take(b)));
    }
}

/// The message of a turn has a part for each block with text and for each call, in the order
/// of the blocks, and none for any other block.
pub proof fn law_the_message_follows_the_blocks(blocks: Seq<BlockView>, b: int)
    requires
        0 <= b < blocks.len(),
    ensures
        stream::block_parts(blocks.take(0)).len() == 0,
        ({
            let sooner = stream::block_parts(blocks.take(b));
            let later = stream::block_parts(blocks.take(b + 1));
            let block = blocks[b];
            let says = block.kind == "text"@ && block.text.len() > 0;
            &&& !is_call_block(block) && !says ==> later == sooner
            &&& is_call_block(block) || says ==> later.len() == sooner.len() + 1
                && later.drop_last() == sooner
            &&& says ==> is_text_part(later.last(), block.text)
            &&& is_call_block(block) ==> is_call_part(
                later.last(),
                stream::block_calls(blocks.take(b + 1)).last(),
            )
        }),
{
    lemma_stream_words();
    let long = blocks.take(b + 1);
    assert(long.drop_last() =~= blocks.take(b));
    assert(long.last() == blocks[b]);
    if stream::block_part(blocks[b]) is Some {
        assert(stream::block_parts(long).drop_last() =~= stream::block_parts(blocks.take(b)));
    }
}

/// A finished turn says what the reply said, why it stopped and what it used. Its message is
/// made of the blocks; where they give none, it is the text.
pub proof fn law_finished_turns_say_what_came_in(ended: StreamView)
    requires
        ended.turn.content.len() == 0,
        ended.turn.tool_uses.len() == 0,
    ensures
        ({
            let turn = stream::finished(ended);
            let parts = stream::block_parts(ended.blocks);
            &&& turn.text == ended.turn.text
            &&& turn.stop_reason == ended.turn.stop_reason
            &&& turn.usage == ended.turn.usage
            &&& turn.tool_uses == stream::block_calls(ended.blocks)
            &&& parts.len() > 0 ==> turn.content == parts
            &&& parts.len() == 0 && ended.turn.text.len() == 0 ==> turn.content.len() == 0
            &&& parts.len() == 0 && ended.turn.text.len() > 0 ==> turn.content.len() == 1
                && is_text_part(turn.content[0], ended.turn.text)
        }),
{
    lemma_stream_words();
    assert(ended.turn.content + stream::block_parts(ended.blocks) =~= stream::block_parts(
        ended.blocks,
    ));
    assert(ended.turn.tool_uses + stream::block_calls(ended.blocks) =~= stream::block_calls(
        ended.blocks,
    ));
}

/// A reply may keep the server waiting 45 seconds for its start and 90 seconds for more; the
/// user is told how long it was.
pub proof fn law_replies_have_time(waiting: stream::TurnStream)
    ensures
        waiting.patience() == (if waiting.waits_for_first() {
            45u64
        } else {
            90u64
        }),
        text::has_text(
            stream::silence_text(waiting.assistant(), waiting.patience()),
            text::numeral(waiting.patience() as nat),
        ),
        waiting.assistant().is_prefix_of(
            stream::silence_text(waiting.assistant(), waiting.patience()),
        ),
{
    let name = waiting.assistant();
    let seconds = text::numeral(waiting.patience() as nat);
    let told = stream::silence_text(name, waiting.patience());
    let middle = " Messages 流式响应超过 "@;
    reveal_strlit("");
    assert(""@.len() == 0);
    let at = (name.len() + middle.len()) as int;
    assert(told.subrange(at, at + seconds.len()) =~= seconds);
    assert(text::stands_at(told, seconds, at));
    assert(name =~= told.subrange(0, name.len() as int));
}

/// A line that cannot be read ends the reply where it stands: what came before it is kept.
pub proof fn law_what_came_before_a_fault_is_kept(
    before: StreamView,
    line: Seq<char>,
    rest: Seq<char>,
)
    requires
        forall|i: int| 0 <= i < line.len() ==> line[i] != '\n',
    ensures
        stream::before_fault(before, line) == before,
        stream::before_fault(before, line.push('\n') + rest) == (match stream::after_line(
            before,
            line,
        ) {
            Ok(next) => stream::before_fault(next, rest),
            Err(_) => before,
        }),
{
    let all = line.push('\n') + rest;
    lemma_line_ends(line, seq![]);
    lemma_line_ends(line, seq!['\n'] + rest);
    assert(line + Seq::<char>::empty() =~= line);
    assert(line + (seq!['\n'] + rest) =~= all);
    assert(all.take(line.len() as int) =~= line);
    assert(all.skip(line.len() as int + 1) =~= rest);
}

/// What is said of a reply that cannot be read.
pub proof fn law_faults_are_told(message: Seq<char>)
    ensures
        stream::fault_text(stream::StreamFault::Json(message)) == message,
        stream::fault_text(stream::StreamFault::BlockIndex) == "content block index out of range"@,
{
}

/// A reply begins with nothing.
pub proof fn law_replies_begin_empty()
    ensures
        ({
            let empty = stream::empty_stream();
            &&& empty.blocks.len() == 0
            &&& empty.turn.text.len() == 0
            &&& empty.turn.content.len() == 0
            &&& empty.turn.tool_uses.len() == 0
            &&& empty.turn.stop_reason is None
            &&& empty.turn.usage is None
            &&& empty.stats.events == 0
            &&& empty.stats.text_chars == 0
            &&& empty.stats.tool_uses == 0
            &&& empty.stats.usage_events == 0
        }),
{
}

/// A block that an event speaks of is made where it is not there, with empty ones before it, and
/// no other.
pub proof fn law_blocks_are_made_as_needed(before: StreamView, event: JsonTree, index: int)
    requires
        speaks_of(event, "content_block_start"@, index) || speaks_of(
            event,
            "content_block_delta"@,
            index,
        ),
    ensures
        ({
            let after = stream::after_event(before, event);
            &&& index < before.blocks.len() ==> after.blocks.len() == before.blocks.len()
            &&& index >= before.blocks.len() ==> after.blocks.len() == index + 1
            &&& forall|i: int|
                before.blocks.len() <= i < index ==> {
                    let block = #[trigger] after.blocks[i];
                    &&& block.kind.len() == 0
                    &&& block.id is None
                    &&& block.name is None
                    &&& block.text.len() == 0
                    &&& block.input_json.len() == 0
                }
        }),
{
    lemma_stream_words();
}

/// An event is out of range just where it speaks of a block whose number no list can have.
pub proof fn law_only_blocks_can_be_out_of_range(event: JsonTree)
    ensures
        stream::out_of_range(event) ==> event.get_text("type"@) == Some("content_block_start"@)
            || event.get_text("type"@) == Some("content_block_delta"@),
        event.get("index"@) is None ==> !stream::out_of_range(event),
        event.get("index"@) matches Some(JsonTree::Integer(n)) ==> (0 <= n < usize::MAX
            ==> !stream::out_of_range(event)),
        (event.get_text("type"@) == Some("content_block_start"@) || event.get_text("type"@) == Some(
            "content_block_delta"@,
        )) && event.get("index"@) == Some(JsonTree::Integer(usize::MAX as int))
            ==> stream::out_of_range(event),
{
    lemma_stream_words();
}

/// An event that gives no number speaks of the first block.
pub proof fn law_events_without_a_number_speak_of_the_first(
    before: StreamView,
    event: JsonTree,
    start: JsonTree,
)
    requires
        event.get_text("type"@) == Some("content_block_start"@),
        event.get("index"@) is None,
        event.get("content_block"@) == Some(start),
        start.get_text("type"@) == Some("tool_use"@),
    ensures
        ({
            let after = stream::after_event(before, event);
            &&& before.blocks.len() == 0 ==> after.blocks.len() == 1
            &&& before.blocks.len() > 0 ==> after.blocks.len() == before.blocks.len()
            &&& after.blocks[0].kind == "tool_use"@
            &&& after.blocks[0].id == start.get_text("id"@)
            &&& after.blocks[0].name == start.get_text("name"@)
            &&& forall|i: int|
                0 < i < before.blocks.len() ==> (#[trigger] after.blocks[i]) == before.blocks[i]
        }),
{
    lemma_stream_words();
}

/// What is said of a model that is silent for too long.
pub proof fn law_silence_is_told(name: Seq<char>, seconds: u64)
    ensures
        stream::silence_text(name, seconds) == ""@ + name + " Messages 流式响应超过 "@
            + text::numeral(seconds as nat) + " 秒没有数据"@,
{
}

} // verus!
