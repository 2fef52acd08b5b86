//! The reply of the Messages API, as it streams in.
//!
//! The server sends lines; a line that starts with `data:` carries an event as JSON. The
//! events build up content blocks, from which the turn is made when the stream ends.

use vstd::prelude::*;
use vstd::string::*;

use crate::json;
use crate::json::{Json, JsonObject, JsonTree};
use crate::names;
use crate::text;

verus! {

/// How long to wait for the first part of a reply, in seconds.
pub const API_FIRST_BYTE_TIMEOUT_SECONDS: u64 = 45;

/// How long to wait for the next part of a reply, in seconds.
pub const API_STREAM_IDLE_TIMEOUT_SECONDS: u64 = 90;

// ---------------------------------------------------------------------------
// Model
// ---------------------------------------------------------------------------

/// A content block under construction.
#[derive(Debug)]
pub struct ContentBlockBuilder {
    pub kind: String,
    pub id: Option<String>,
    pub name: Option<String>,
    pub text: String,
    pub input_json: String,
}

/// What a content block under construction holds.
#[verifier::ext_equal]
pub struct BlockView {
    pub kind: Seq<char>,
    pub id: Option<Seq<char>>,
    pub name: Option<Seq<char>>,
    pub text: Seq<char>,
    pub input_json: Seq<char>,
}

impl View for ContentBlockBuilder {
    type V = BlockView;

    open spec fn view(&self) -> BlockView {
        BlockView {
            kind: self.kind@,
            id: text::option_text(self.id),
            name: text::option_text(self.name),
            text: self.text@,
            input_json: self.input_json@,
        }
    }
}

/// A content block of which nothing is known yet.
pub open spec fn empty_block() -> BlockView {
    BlockView {
        kind: Seq::empty(),
        id: None,
        name: None,
        text: Seq::empty(),
        input_json: Seq::empty(),
    }
}

impl Default for ContentBlockBuilder {
    fn default() -> (block: Self)
        ensures
            block@ == empty_block(),
    {
        let block = ContentBlockBuilder {
            kind: String::new(),
            id: None,
            name: None,
            text: String::new(),
            input_json: String::new(),
        };
        assert(block@ =~= empty_block());
        block
    }
}

/// What the blocks hold.
pub open spec fn block_views(blocks: Seq<ContentBlockBuilder>) -> Seq<BlockView> {
    Seq::new(blocks.len(), |i: int| blocks[i]@)
}

/// A call of a tool that the model asks for.
#[derive(Debug)]
pub struct ToolUse {
    pub id: String,
    pub name: String,
    pub input: Json,
}

/// What a call of a tool says.
#[verifier::ext_equal]
pub struct ToolUseView {
    pub id: Seq<char>,
    pub name: Seq<char>,
    pub input: JsonTree,
}

impl View for ToolUse {
    type V = ToolUseView;

    open spec fn view(&self) -> ToolUseView {
        ToolUseView { id: self.id@, name: self.name@, input: self.input.tree() }
    }
}

/// What calls of tools say.
pub open spec fn tool_views(uses: Seq<ToolUse>) -> Seq<ToolUseView> {
    Seq::new(uses.len(), |i: int| uses[i]@)
}

/// One reply of the model.
#[derive(Debug)]
pub struct ClaudeTurn {
    pub text: String,
    pub stop_reason: Option<String>,
    pub content: Vec<Json>,
    pub tool_uses: Vec<ToolUse>,
    pub usage: Option<Json>,
}

/// What a reply says.
#[verifier::ext_equal]
pub struct TurnView {
    pub text: Seq<char>,
    pub stop_reason: Option<Seq<char>>,
    pub content: Seq<JsonTree>,
    pub tool_uses: Seq<ToolUseView>,
    pub usage: Option<JsonTree>,
}

impl View for ClaudeTurn {
    type V = TurnView;

    open spec fn view(&self) -> TurnView {
        TurnView {
            text: self.text@,
            stop_reason: text::option_text(self.stop_reason),
            content: json::trees(self.content@),
            tool_uses: tool_views(self.tool_uses@),
            usage: json::option_tree(self.usage),
        }
    }
}

/// A reply of which nothing is known yet.
pub open spec fn empty_turn() -> TurnView {
    TurnView {
        text: Seq::empty(),
        stop_reason: None,
        content: Seq::empty(),
        tool_uses: Seq::empty(),
        usage: None,
    }
}

impl Default for ClaudeTurn {
    fn default() -> (turn: Self)
        ensures
            turn@ == empty_turn(),
    {
        let turn = ClaudeTurn {
            text: String::new(),
            stop_reason: None,
            content: Vec::new(),
            tool_uses: Vec::new(),
            usage: None,
        };
        assert(turn@ =~= empty_turn());
        turn
    }
}

/// How much came in. The counters wrap around.
#[derive(Debug, Clone, Copy, PartialEq, Eq, Structural)]
pub struct StreamEventStats {
    pub events: u64,
    pub text_chars: usize,
    pub tool_uses: u64,
    pub usage_events: u64,
}

impl Default for StreamEventStats {
    fn default() -> (stats: Self)
        ensures
            stats == no_stats(),
    {
        StreamEventStats { events: 0, text_chars: 0, tool_uses: 0, usage_events: 0 }
    }
}

/// Nothing came in yet.
pub open spec fn no_stats() -> StreamEventStats {
    StreamEventStats { events: 0, text_chars: 0, tool_uses: 0, usage_events: 0 }
}

/// What is known of a reply while it streams in.
#[verifier::ext_equal]
pub struct StreamView {
    pub blocks: Seq<BlockView>,
    pub turn: TurnView,
    pub stats: StreamEventStats,
}

/// Nothing is known of the reply yet.
pub open spec fn empty_stream() -> StreamView {
    StreamView { blocks: Seq::empty(), turn: empty_turn(), stats: no_stats() }
}

/// Why a reply cannot be read.
#[derive(Debug)]
pub enum StreamError {
    /// An event is no JSON; with the message of the JSON reader.
    Json(String),
    /// An event speaks of a block with an index that no list can have.
    BlockIndex,
}

/// What a [`StreamError`] says.
#[verifier::ext_equal]
pub enum StreamFault {
    Json(Seq<char>),
    BlockIndex,
}

impl View for StreamError {
    type V = StreamFault;

    open spec fn view(&self) -> StreamFault {
        match *self {
            StreamError::Json(message) => StreamFault::Json(message@),
            StreamError::BlockIndex => StreamFault::BlockIndex,
        }
    }
}

/// The message of a fault.
pub open spec fn fault_text(fault: StreamFault) -> Seq<char> {
    match fault {
        StreamFault::Json(message) => message,
        StreamFault::BlockIndex => "content block index out of range"@,
    }
}

impl StreamError {
    /// The message of the error.
    pub fn message(&self) -> (message: String)
        ensures
            message@ == fault_text(self@),
    {
        match self {
            StreamError::Json(message) => message.clone(),
            StreamError::BlockIndex => "content block index out of range".to_owned(),
        }
    }
}

// ---------------------------------------------------------------------------
// Events
// ---------------------------------------------------------------------------

/// The text of the field `key`, or `default`.
pub open spec fn text_or(tree: JsonTree, key: Seq<char>, default: Seq<char>) -> Seq<char> {
    match tree.get_text(key) {
        Some(t) => t,
        None => default,
    }
}

/// The kind of an event.
pub open spec fn event_kind(event: JsonTree) -> Seq<char> {
    text_or(event, "type"@, "unknown"@)
}

/// The index of the block that an event speaks of.
pub open spec fn event_index(event: JsonTree) -> usize {
    match event.get_unsigned("index"@) {
        Some(n) => n as usize,
        None => 0,
    }
}

/// Whether an event speaks of a block with an index that no list can have.
pub open spec fn out_of_range(event: JsonTree) -> bool {
    &&& event_kind(event) == "content_block_start"@ || event_kind(event)
        == "content_block_delta"@
    &&& event_index(event) == usize::MAX
}

/// The blocks, with empty ones added until there is one at `index`.
pub open spec fn padded(blocks: Seq<BlockView>, index: usize) -> Seq<BlockView> {
    if blocks.len() > index {
        blocks
    } else {
        blocks + Seq::new((index + 1 - blocks.len()) as nat, |i: int| empty_block())
    }
}

/// What is known of the usage when a report of it comes in: the fields of the report
/// replace those known so far.
pub open spec fn merged_usage(known: Option<JsonTree>, report: JsonTree) -> Option<JsonTree> {
    match report {
        JsonTree::Object(fields) => match known {
            None => Some(report),
            Some(JsonTree::Object(so_far)) => Some(
                JsonTree::Object(so_far.union_prefer_right(fields)),
            ),
            Some(other) => Some(other),
        },
        _ => known,
    }
}

/// The stream when a report of the usage comes in.
pub open spec fn with_usage(stream: StreamView, report: JsonTree) -> StreamView {
    StreamView {
        turn: TurnView { usage: merged_usage(stream.turn.usage, report), ..stream.turn },
        stats: StreamEventStats {
            usage_events: stream.stats.usage_events.wrapping_add(1),
            ..stream.stats
        },
        ..stream
    }
}

/// The stream when text comes in for the block at `index`.
pub open spec fn with_text(stream: StreamView, index: int, more: Seq<char>) -> StreamView {
    StreamView {
        blocks: stream.blocks.update(
            index,
            BlockView { text: stream.blocks[index].text + more, ..stream.blocks[index] },
        ),
        turn: TurnView { text: stream.turn.text + more, ..stream.turn },
        stats: StreamEventStats {
            text_chars: stream.stats.text_chars.wrapping_add(more.len() as usize),
            ..stream.stats
        },
    }
}

/// Whether a value is an object without fields.
pub open spec fn is_empty_object(tree: JsonTree) -> bool {
    tree matches JsonTree::Object(fields) && fields.dom() == Set::<Seq<char>>::empty()
}

/// A block of the kind `kind`.
pub open spec fn with_kind(block: BlockView, kind: Seq<char>) -> BlockView {
    BlockView { kind, ..block }
}

/// A block that calls a tool, as its start describes it.
pub open spec fn started_tool(block: BlockView, start: JsonTree) -> BlockView {
    BlockView {
        kind: "tool_use"@,
        id: start.get_text("id"@),
        name: start.get_text("name"@),
        text: block.text,
        input_json: match start.get("input"@) {
            Some(input) => if is_empty_object(input) {
                block.input_json
            } else {
                json::written(input)
            },
            None => block.input_json,
        },
    }
}

/// The stream when the block at `index` starts.
pub open spec fn with_start(stream: StreamView, index: int, start: JsonTree) -> StreamView {
    let kind = text_or(start, "type"@, ""@);
    let block = stream.blocks[index];
    if kind == "tool_use"@ {
        StreamView {
            blocks: stream.blocks.update(index, started_tool(block, start)),
            stats: StreamEventStats {
                tool_uses: stream.stats.tool_uses.wrapping_add(1),
                ..stream.stats
            },
            ..stream
        }
    } else {
        let named = StreamView {
            blocks: stream.blocks.update(index, with_kind(block, kind)),
            ..stream
        };
        if kind == "text"@ {
            match start.get_text("text"@) {
                Some(more) => with_text(named, index, more),
                None => named,
            }
        } else {
            named
        }
    }
}

/// The stream when more of the block at `index` comes in.
pub open spec fn with_delta(stream: StreamView, index: int, delta: JsonTree) -> StreamView {
    let kind = text_or(delta, "type"@, ""@);
    let block = stream.blocks[index];
    if kind == "text_delta"@ {
        match delta.get_text("text"@) {
            Some(more) => with_text(stream, index, more),
            None => stream,
        }
    } else if kind == "input_json_delta"@ {
        match delta.get_text("partial_json"@) {
            Some(more) => StreamView {
                blocks: stream.blocks.update(
                    index,
                    BlockView { input_json: block.input_json + more, ..block },
                ),
                ..stream
            },
            None => stream,
        }
    } else {
        stream
    }
}

/// The stream with one more event counted.
pub open spec fn counted(stream: StreamView) -> StreamView {
    StreamView {
        stats: StreamEventStats {
            events: stream.stats.events.wrapping_add(1),
            ..stream.stats
        },
        ..stream
    }
}

/// The stream with room for the block that an event speaks of.
pub open spec fn with_room(stream: StreamView, event: JsonTree) -> StreamView {
    StreamView { blocks: padded(stream.blocks, event_index(event)), ..stream }
}

/// The stream with the reason why the model stopped, where an event gives one.
pub open spec fn with_stop(stream: StreamView, event: JsonTree) -> StreamView {
    match event.get("delta"@) {
        Some(delta) => match delta.get_text("stop_reason"@) {
            Some(reason) => StreamView {
                turn: TurnView { stop_reason: Some(reason), ..stream.turn },
                ..stream
            },
            None => stream,
        },
        None => stream,
    }
}

/// The stream when an event comes in.
pub open spec fn after_event(stream: StreamView, event: JsonTree) -> StreamView {
    let stream = counted(stream);
    let kind = event_kind(event);
    let index = event_index(event) as int;
    if kind == "message_start"@ {
        match event.get("message"@) {
            Some(message) => match message.get("usage"@) {
                Some(report) => with_usage(stream, report),
                None => stream,
            },
            None => stream,
        }
    } else if kind == "content_block_start"@ {
        match event.get("content_block"@) {
            Some(start) => with_start(with_room(stream, event), index, start),
            None => with_room(stream, event),
        }
    } else if kind == "content_block_delta"@ {
        match event.get("delta"@) {
            Some(delta) => with_delta(with_room(stream, event), index, delta),
            None => with_room(stream, event),
        }
    } else if kind == "message_delta"@ {
        match event.get("usage"@) {
            Some(report) => with_usage(with_stop(stream, event), report),
            None => with_stop(stream, event),
        }
    } else {
        stream
    }
}

/// The stream when the data of a line come in, or why they cannot be read.
pub open spec fn after_data(stream: StreamView, data: Seq<char>) -> Result<StreamView, StreamFault> {
    match json::parsed(data) {
        Ok(event) => if out_of_range(event) {
            Err(StreamFault::BlockIndex)
        } else {
            Ok(after_event(stream, event))
        },
        Err(message) => Err(StreamFault::Json(message)),
    }
}

/// What the three parts of a stream hold together.
pub open spec fn stream_view(
    blocks: Seq<ContentBlockBuilder>,
    turn: ClaudeTurn,
    stats: StreamEventStats,
) -> StreamView {
    StreamView { blocks: block_views(blocks), turn: turn@, stats }
}

/// Adds the fields of a report to what is known of the usage.
pub fn merge_usage(target: &mut Option<Json>, usage: &Json)
    ensures
        json::option_tree(*final(target)) == merged_usage(
            json::option_tree(*old(target)),
            usage.tree(),
        ),
{
    usage.scalar();
    let Json::Object(incoming) = usage else {
        return;
    };
    let known = target.take();
    match known {
        None => {
            *target = Some(Json::Object(incoming.clone()));
        },
        Some(Json::Object(so_far)) => {
            let merged = merge_objects(so_far, incoming);
            *target = Some(Json::Object(merged));
        },
        Some(other) => {
            other.scalar();
            *target = Some(other);
        },
    }
}

/// An object with the fields of another one put over its own.
fn merge_objects(below: JsonObject, above: &JsonObject) -> (merged: JsonObject)
    ensures
        merged.fields() == below.fields().union_prefer_right(above.fields()),
{
    let ghost start = below.fields();
    let ghost top = above.fields();
    let count: usize = above.len();
    let ghost keys = above.keys();
    let mut merged = below;
    let mut i: usize = 0;
    while i < count
        invariant
            i <= count,
            count == keys.len(),
            keys == above.keys(),
            top == above.fields(),
            forall|key: Seq<char>| #[trigger]
                merged.fields().dom().contains(key) == (start.dom().contains(key) || json::among(
                    keys,
                    i as int,
                    key,
                )),
            forall|key: Seq<char>| #[trigger]
                merged.fields().dom().contains(key) ==> merged.fields()[key] == (if json::among(
                    keys,
                    i as int,
                    key,
                ) {
                    top[key]
                } else {
                    start[key]
                }),
        decreases count - i,
    {
        let key = above.key(i);
        let ghost before = merged.fields();
        merged = merged.with(key, above.value(i).clone());
        assert forall|k: Seq<char>| #[trigger]
            merged.fields().dom().contains(k) == (start.dom().contains(k) || json::among(
                keys,
                i + 1,
                k,
            )) by {
            json::lemma_among_next(keys, i as int, k);
            assert(merged.fields().dom().contains(k) == (k == key@ || before.dom().contains(k)));
        }
        assert forall|k: Seq<char>| #[trigger]
            merged.fields().dom().contains(k) implies merged.fields()[k] == (if json::among(
            keys,
            i + 1,
            k,
        ) {
            top[k]
        } else {
            start[k]
        }) by {
            json::lemma_among_next(keys, i as int, k);
            if k != key@ {
                assert(before.dom().contains(k));
            }
        }
        i += 1;
    }
    proof {
        let target = start.union_prefer_right(top);
        assert forall|key: Seq<char>|
            merged.fields().dom().contains(key) == target.dom().contains(key) by {
            json::lemma_among_all(keys, key);
        }
        assert forall|key: Seq<char>| merged.fields().dom().contains(key) implies (
        #[trigger] merged.fields()[key]) == target[key] by {
            json::lemma_among_all(keys, key);
        }
        assert(merged.fields() =~= target);
    }
    merged
}

/// Adds empty blocks until there is one at `index`.
pub fn ensure_block(blocks: &mut Vec<ContentBlockBuilder>, index: usize)
    requires
        index < usize::MAX,
    ensures
        block_views(final(blocks)@) == padded(block_views(old(blocks)@), index),
        final(blocks)@.len() > index,
{
    let ghost before = block_views(blocks@);
    while blocks.len() <= index
        invariant
            index < usize::MAX,
            before.len() <= blocks@.len(),
            blocks@.len() <= index + 1 || blocks@.len() == before.len(),
            block_views(blocks@) == before + Seq::new(
                (blocks@.len() - before.len()) as nat,
                |i: int| empty_block(),
            ),
        decreases index + 1 - blocks@.len(),
    {
        let ghost so_far = block_views(blocks@);
        let block = ContentBlockBuilder::default();
        blocks.push(block);
        assert(block_views(blocks@) =~= so_far.push(empty_block()));
        assert(block_views(blocks@) =~= before + Seq::new(
            (blocks@.len() - before.len()) as nat,
            |i: int| empty_block(),
        ));
    }
    assert(block_views(blocks@) =~= padded(before, index));
}

/// Takes in the data of a line.
pub fn handle_stream_event(
    data: &str,
    blocks: &mut Vec<ContentBlockBuilder>,
    turn: &mut ClaudeTurn,
    stats: &mut StreamEventStats,
) -> (result: Result<(), StreamError>)
    ensures
        match result {
            Ok(()) => after_data(stream_view(old(blocks)@, *old(turn), *old(stats)), data@) == Ok::<
                StreamView,
                StreamFault,
            >(stream_view(final(blocks)@, *final(turn), *final(stats))),
            Err(error) => after_data(stream_view(old(blocks)@, *old(turn), *old(stats)), data@)
                == Err::<StreamView, StreamFault>(error@) && stream_view(
                final(blocks)@,
                *final(turn),
                *final(stats),
            ) == stream_view(old(blocks)@, *old(turn), *old(stats)),
        },
{
    match Json::parse(data) {
        Ok(event) => if handle_event(&event, blocks, turn, stats) {
            Ok(())
        } else {
            Err(StreamError::BlockIndex)
        },
        Err(message) => Err(StreamError::Json(message)),
    }
}

/// Takes in an event. An event that speaks of a block with an index that no list can have
/// is refused and changes nothing.
pub fn handle_event(
    event: &Json,
    blocks: &mut Vec<ContentBlockBuilder>,
    turn: &mut ClaudeTurn,
    stats: &mut StreamEventStats,
) -> (taken: bool)
    ensures
        taken == !out_of_range(event.tree()),
        stream_view(final(blocks)@, *final(turn), *final(stats)) == (if taken {
            after_event(stream_view(old(blocks)@, *old(turn), *old(stats)), event.tree())
        } else {
            stream_view(old(blocks)@, *old(turn), *old(stats))
        }),
{
    let ghost start = stream_view(blocks@, *turn, *stats);
    proof {
        reveal_strlit("message_start");
        reveal_strlit("content_block_start");
        reveal_strlit("content_block_delta");
        reveal_strlit("message_delta");
        assert("message_start"@.len() == 13);
        assert("content_block_start"@.len() == 19);
        assert("content_block_delta"@.len() == 19);
        assert("message_delta"@.len() == 13);
    }
    let kind = match event.get_str("type") {
        Some(kind) => kind,
        None => "unknown",
    };
    if text::same_text(kind, "message_start") {
        stats.events = stats.events.wrapping_add(1);
        if let Some(message) = event.get("message") {
            if let Some(usage) = message.get("usage") {
                merge_usage(&mut turn.usage, usage);
                stats.usage_events = stats.usage_events.wrapping_add(1);
            }
        }
        assert(stream_view(blocks@, *turn, *stats) =~= after_event(start, event.tree()));
    } else if text::same_text(kind, "content_block_start") {
        let index = block_index(event);
        if index == usize::MAX {
            return false;
        }
        stats.events = stats.events.wrapping_add(1);
        ensure_block(blocks, index);
        assert(stream_view(blocks@, *turn, *stats) =~= with_room(counted(start), event.tree()));
        if let Some(block) = event.get("content_block") {
            start_block(block, index, blocks, turn, stats);
        }
    } else if text::same_text(kind, "content_block_delta") {
        let index = block_index(event);
        if index == usize::MAX {
            return false;
        }
        stats.events = stats.events.wrapping_add(1);
        ensure_block(blocks, index);
        assert(stream_view(blocks@, *turn, *stats) =~= with_room(counted(start), event.tree()));
        if let Some(delta) = event.get("delta") {
            extend_block(delta, index, blocks, turn, stats);
        }
    } else if text::same_text(kind, "message_delta") {
        stats.events = stats.events.wrapping_add(1);
        if let Some(delta) = event.get("delta") {
            if let Some(reason) = delta.get_str("stop_reason") {
                turn.stop_reason = Some(reason.to_owned());
            }
        }
        assert(stream_view(blocks@, *turn, *stats) =~= with_stop(counted(start), event.tree()));
        let ghost stopped = stream_view(blocks@, *turn, *stats);
        if let Some(usage) = event.get("usage") {
            merge_usage(&mut turn.usage, usage);
            stats.usage_events = stats.usage_events.wrapping_add(1);
            assert(stream_view(blocks@, *turn, *stats) =~= with_usage(stopped, usage.tree()));
        }
    } else {
        stats.events = stats.events.wrapping_add(1);
        assert(stream_view(blocks@, *turn, *stats) =~= counted(start));
    }
    true
}

/// The index of the block that an event speaks of.
fn block_index(event: &Json) -> (index: usize)
    ensures
        index == event_index(event.tree()),
{
    match event.get_u64("index") {
        Some(n) => n as usize,
        None => 0,
    }
}

/// Adds text to the block at `index`.
fn add_text(
    more: &str,
    index: usize,
    blocks: &mut Vec<ContentBlockBuilder>,
    turn: &mut ClaudeTurn,
    stats: &mut StreamEventStats,
)
    requires
        index < old(blocks)@.len(),
    ensures
        stream_view(final(blocks)@, *final(turn), *final(stats)) == with_text(
            stream_view(old(blocks)@, *old(turn), *old(stats)),
            index as int,
            more@,
        ),
{
    let ghost start = stream_view(blocks@, *turn, *stats);
    let block = &mut blocks[index];
    block.text.append(more);
    turn.text.append(more);
    let count: usize = more.unicode_len();
    stats.text_chars = stats.text_chars.wrapping_add(count);
    assert(stream_view(blocks@, *turn, *stats).blocks =~= with_text(
        start,
        index as int,
        more@,
    ).blocks);
    assert(stream_view(blocks@, *turn, *stats) =~= with_text(start, index as int, more@));
}

/// Takes in the start of the block at `index`.
fn start_block(
    start: &Json,
    index: usize,
    blocks: &mut Vec<ContentBlockBuilder>,
    turn: &mut ClaudeTurn,
    stats: &mut StreamEventStats,
)
    requires
        index < old(blocks)@.len(),
    ensures
        stream_view(final(blocks)@, *final(turn), *final(stats)) == with_start(
            stream_view(old(blocks)@, *old(turn), *old(stats)),
            index as int,
            start.tree(),
        ),
{
    let ghost before = stream_view(blocks@, *turn, *stats);
    let kind = match start.get_str("type") {
        Some(kind) => kind,
        None => "",
    };
    if text::same_text(kind, "tool_use") {
        stats.tool_uses = stats.tool_uses.wrapping_add(1);
        let id = match start.get_str("id") {
            Some(id) => Some(id.to_owned()),
            None => None,
        };
        let name = match start.get_str("name") {
            Some(name) => Some(name.to_owned()),
            None => None,
        };
        let block = &mut blocks[index];
        block.kind = kind.to_owned();
        block.id = id;
        block.name = name;
        if let Some(input) = start.get("input") {
            if !empty_object(input) {
                block.input_json = input.to_text();
            }
        }
        assert(stream_view(blocks@, *turn, *stats).blocks =~= with_start(
            before,
            index as int,
            start.tree(),
        ).blocks);
        assert(stream_view(blocks@, *turn, *stats) =~= with_start(
            before,
            index as int,
            start.tree(),
        ));
    } else {
        let block = &mut blocks[index];
        block.kind = kind.to_owned();
        assert(stream_view(blocks@, *turn, *stats).blocks =~= before.blocks.update(
            index as int,
            with_kind(before.blocks[index as int], kind@),
        ));
        if text::same_text(kind, "text") {
            if let Some(more) = start.get_str("text") {
                add_text(more, index, blocks, turn, stats);
            }
        }
    }
}

/// Tests whether a value is an object without fields.
fn empty_object(value: &Json) -> (empty: bool)
    ensures
        empty == is_empty_object(value.tree()),
{
    value.scalar();
    match value {
        Json::Object(object) => {
            let count: usize = object.len();
            proof {
                if count == 0 {
                    assert(object.fields().dom() =~= Set::<Seq<char>>::empty());
                }
            }
            count == 0
        },
        _ => false,
    }
}

/// Takes in more of the block at `index`.
fn extend_block(
    delta: &Json,
    index: usize,
    blocks: &mut Vec<ContentBlockBuilder>,
    turn: &mut ClaudeTurn,
    stats: &mut StreamEventStats,
)
    requires
        index < old(blocks)@.len(),
    ensures
        stream_view(final(blocks)@, *final(turn), *final(stats)) == with_delta(
            stream_view(old(blocks)@, *old(turn), *old(stats)),
            index as int,
            delta.tree(),
        ),
{
    let ghost before = stream_view(blocks@, *turn, *stats);
    let kind = match delta.get_str("type") {
        Some(kind) => kind,
        None => "",
    };
    if text::same_text(kind, "text_delta") {
        if let Some(more) = delta.get_str("text") {
            add_text(more, index, blocks, turn, stats);
        }
    } else if text::same_text(kind, "input_json_delta") {
        if let Some(more) = delta.get_str("partial_json") {
            let block = &mut blocks[index];
            block.input_json.append(more);
            assert(stream_view(blocks@, *turn, *stats).blocks =~= with_delta(
                before,
                index as int,
                delta.tree(),
            ).blocks);
        }
    }
}

// ---------------------------------------------------------------------------
// Lines
// ---------------------------------------------------------------------------

/// The data that a line carries: what stands behind `data:`, unless there is nothing, or
/// it says that the stream is done.
pub open spec fn line_data(line: Seq<char>) -> Option<Seq<char>> {
    match text::behind(text::trimmed(line), "data:"@) {
        Some(rest) => if text::trimmed(rest).len() == 0 || text::trimmed(rest) == "[DONE]"@ {
            None
        } else {
            Some(text::trimmed(rest))
        },
        None => None,
    }
}

/// The stream when a line comes in, or why it cannot be read.
pub open spec fn after_line(stream: StreamView, line: Seq<char>) -> Result<StreamView, StreamFault> {
    match line_data(line) {
        Some(data) => after_data(stream, data),
        None => Ok(stream),
    }
}

/// The index of the first line feed; the length of the text where there is none.
pub open spec fn line_end(text: Seq<char>) -> nat
    decreases text.len(),
{
    if text.len() == 0 || text[0] == '\n' {
        0
    } else {
        1 + line_end(text.skip(1))
    }
}

proof fn lemma_line_end(text: Seq<char>)
    ensures
        line_end(text) <= text.len(),
        line_end(text) < text.len() ==> text[line_end(text) as int] == '\n',
        forall|i: int| 0 <= i < line_end(text) ==> text[i] != '\n',
    decreases text.len(),
{
    if text.len() == 0 || text[0] == '\n' {
    } else {
        lemma_line_end(text.skip(1));
        assert forall|i: int| 0 <= i < line_end(text) implies text[i] != '\n' by {
            if i > 0 {
                assert(text.skip(1)[i - 1] == text[i]);
            }
        }
    }
}

/// The first line feed stands where none stands before it.
proof fn lemma_line_end_is(text: Seq<char>, at: int)
    requires
        0 <= at < text.len(),
        text[at] == '\n',
        forall|i: int| 0 <= i < at ==> text[i] != '\n',
    ensures
        line_end(text) == at,
{
    lemma_line_end(text);
    if line_end(text) < at {
        assert(text[line_end(text) as int] == '\n');
    }
}

/// The stream when text comes in, with what is left of a line that has not ended; or why
/// it cannot be read.
pub open spec fn after_text(stream: StreamView, text: Seq<char>) -> Result<
    (StreamView, Seq<char>),
    StreamFault,
>
    decreases text.len(),
{
    let end = line_end(text) as int;
    if end >= text.len() {
        Ok((stream, text))
    } else {
        match after_line(stream, text.take(end)) {
            Ok(next) => after_text(next, text.skip(end + 1)),
            Err(fault) => Err(fault),
        }
    }
}

/// The stream after the lines that come before the first line that cannot be read.
pub open spec fn before_fault(stream: StreamView, text: Seq<char>) -> StreamView
    decreases text.len(),
{
    let end = line_end(text) as int;
    if end >= text.len() {
        stream
    } else {
        match after_line(stream, text.take(end)) {
            Ok(next) => before_fault(next, text.skip(end + 1)),
            Err(_) => stream,
        }
    }
}

/// How a reply is cut into pieces does not matter: to take in one piece and then the next
/// is to take in both at once.
pub proof fn law_pieces_do_not_matter(stream: StreamView, first: Seq<char>, second: Seq<char>)
    ensures
        after_text(stream, first + second) == (match after_text(stream, first) {
            Ok((next, rest)) => after_text(next, rest + second),
            Err(fault) => Err::<(StreamView, Seq<char>), StreamFault>(fault),
        }),
    decreases first.len(),
{
    let end = line_end(first) as int;
    let both = first + second;
    lemma_line_end(first);
    if end < first.len() {
        assert(both[end] == '\n');
        assert forall|i: int| 0 <= i < end implies both[i] != '\n' by {
            assert(both[i] == first[i]);
        }
        lemma_line_end_is(both, end);
        assert(both.take(end) =~= first.take(end));
        assert(both.skip(end + 1) =~= first.skip(end + 1) + second);
        match after_line(stream, first.take(end)) {
            Ok(next) => {
                law_pieces_do_not_matter(next, first.skip(end + 1), second);
            },
            Err(_) => {},
        }
    }
}

/// The text of a reply only grows while it streams in.
pub proof fn law_text_only_grows(stream: StreamView, event: JsonTree)
    ensures
        stream.turn.text.is_prefix_of(after_event(stream, event).turn.text),
{
    assert(stream.turn.text =~= stream.turn.text.take(stream.turn.text.len() as int));
    assert(stream.turn.text.is_prefix_of(after_event(stream, event).turn.text)) by {
        let after = after_event(stream, event).turn.text;
        if after != stream.turn.text {
            let more = after.skip(stream.turn.text.len() as int);
            assert(after.take(stream.turn.text.len() as int) =~= stream.turn.text);
        }
    }
}

/// A block, once there, stays: later events change its parts or add blocks behind it.
pub proof fn law_blocks_stay(stream: StreamView, event: JsonTree)
    requires
        !out_of_range(event),
    ensures
        stream.blocks.len() <= after_event(stream, event).blocks.len(),
        forall|i: int|
            0 <= i < stream.blocks.len() && i != event_index(event) ==> (
            #[trigger] after_event(stream, event).blocks[i]) == stream.blocks[i],
{
}

// ---------------------------------------------------------------------------
// The finished turn
// ---------------------------------------------------------------------------

/// The input of a call of a tool: an empty object where the text that came in is blank or
/// no JSON.
pub open spec fn tool_input(text: Seq<char>) -> JsonTree {
    if text::is_blank(text) {
        JsonTree::Object(json::no_fields())
    } else {
        match json::parsed(text) {
            Ok(input) => input,
            Err(_) => JsonTree::Object(json::no_fields()),
        }
    }
}

/// A text as a part of a message.
pub open spec fn text_part(text: Seq<char>) -> JsonTree {
    JsonTree::Object(
        json::no_fields().insert("type"@, JsonTree::Text("text"@)).insert(
            "text"@,
            JsonTree::Text(text),
        ),
    )
}

/// A call of a tool as a part of a message.
pub open spec fn tool_part(call: ToolUseView) -> JsonTree {
    JsonTree::Object(
        json::no_fields().insert("type"@, JsonTree::Text("tool_use"@)).insert(
            "id"@,
            JsonTree::Text(call.id),
        ).insert("name"@, JsonTree::Text(call.name)).insert("input"@, call.input),
    )
}

/// The call of a tool that a block describes.
pub open spec fn block_call(block: BlockView) -> Option<ToolUseView> {
    if block.kind == "tool_use"@ && block.id is Some && block.name is Some {
        Some(
            ToolUseView {
                id: block.id->0,
                name: block.name->0,
                input: tool_input(block.input_json),
            },
        )
    } else {
        None
    }
}

/// The part of the message that a block becomes.
pub open spec fn block_part(block: BlockView) -> Option<JsonTree> {
    if block.kind == "text"@ && block.text.len() > 0 {
        Some(text_part(block.text))
    } else {
        match block_call(block) {
            Some(call) => Some(tool_part(call)),
            None => None,
        }
    }
}

/// The parts that the blocks become.
pub open spec fn block_parts(blocks: Seq<BlockView>) -> Seq<JsonTree>
    decreases blocks.len(),
{
    if blocks.len() == 0 {
        Seq::empty()
    } else {
        match block_part(blocks.last()) {
            Some(part) => block_parts(blocks.drop_last()).push(part),
            None => block_parts(blocks.drop_last()),
        }
    }
}

/// The calls of tools that the blocks describe.
pub open spec fn block_calls(blocks: Seq<BlockView>) -> Seq<ToolUseView>
    decreases blocks.len(),
{
    if blocks.len() == 0 {
        Seq::empty()
    } else {
        match block_call(blocks.last()) {
            Some(call) => block_calls(blocks.drop_last()).push(call),
            None => block_calls(blocks.drop_last()),
        }
    }
}

/// The turn that a stream makes when it ends.
pub open spec fn finished(stream: StreamView) -> TurnView {
    let content = stream.turn.content + block_parts(stream.blocks);
    TurnView {
        content: if content.len() == 0 && stream.turn.text.len() > 0 {
            seq![text_part(stream.turn.text)]
        } else {
            content
        },
        tool_uses: stream.turn.tool_uses + block_calls(stream.blocks),
        ..stream.turn
    }
}

/// Each call of a tool in a finished turn is a part of its message.
pub proof fn law_calls_are_parts(blocks: Seq<BlockView>, i: int)
    requires
        0 <= i < block_calls(blocks).len(),
    ensures
        block_parts(blocks).contains(tool_part(block_calls(blocks)[i])),
    decreases blocks.len(),
{
    if blocks.len() > 0 {
        let front = blocks.drop_last();
        reveal_strlit("text");
        reveal_strlit("tool_use");
        assert("text"@.len() == 4);
        assert("tool_use"@.len() == 8);
        if i < block_calls(front).len() {
            law_calls_are_parts(front, i);
            let part = tool_part(block_calls(front)[i]);
            let k = choose|k: int| 0 <= k < block_parts(front).len() && block_parts(front)[k] == part;
            assert(block_parts(blocks)[k] == part);
        } else {
            let part = tool_part(block_calls(blocks)[i]);
            assert(block_parts(blocks).last() == part);
            assert(block_parts(blocks)[block_parts(blocks).len() - 1] == part);
        }
    }
}

/// Makes a text a part of a message.
fn make_text_part(text: &str) -> (part: Json)
    ensures
        part.tree() == text_part(text@),
{
    let object = JsonObject::new().with("type", Json::text("text")).with("text", Json::text(text));
    Json::Object(object)
}

/// Makes a call of a tool a part of a message.
fn make_tool_part(call: &ToolUse) -> (part: Json)
    ensures
        part.tree() == tool_part(call@),
{
    let object = JsonObject::new().with("type", Json::text("tool_use")).with(
        "id",
        Json::text(call.id.as_str()),
    ).with("name", Json::text(call.name.as_str())).with("input", call.input.clone());
    Json::Object(object)
}

/// Reads the input of a call of a tool.
pub fn read_tool_input(text: &str) -> (input: Json)
    ensures
        input.tree() == tool_input(text@),
{
    if text::blank(text) {
        return Json::Object(JsonObject::new());
    }
    match Json::parse(text) {
        Ok(input) => input,
        Err(_) => Json::Object(JsonObject::new()),
    }
}

/// The call of a tool that a block describes.
fn call_of(block: &ContentBlockBuilder) -> (call: Option<ToolUse>)
    ensures
        match call {
            Some(c) => block_call(block@) == Some(c@),
            None => block_call(block@) is None,
        },
{
    if !text::same_text(block.kind.as_str(), "tool_use") {
        return None;
    }
    match &block.id {
        Some(id) => match &block.name {
            Some(name) => Some(
                ToolUse {
                    id: id.clone(),
                    name: name.clone(),
                    input: read_tool_input(block.input_json.as_str()),
                },
            ),
            None => None,
        },
        None => None,
    }
}

/// Makes the turn of a stream that has ended.
pub fn finish_turn(blocks: &Vec<ContentBlockBuilder>, turn: ClaudeTurn) -> (finished_turn: ClaudeTurn)
    ensures
        finished_turn@ == finished(
            StreamView { blocks: block_views(blocks@), turn: turn@, stats: no_stats() },
        ),
{
    let ghost views = block_views(blocks@);
    let ghost start = turn@;
    let mut turn = turn;
    proof {
        reveal_strlit("text");
        reveal_strlit("tool_use");
        assert("text"@.len() == 4);
        assert("tool_use"@.len() == 8);
        assert(start.content + block_parts(views.take(0)) =~= start.content);
        assert(start.tool_uses + block_calls(views.take(0)) =~= start.tool_uses);
    }
    let mut i: usize = 0;
    while i < blocks.len()
        invariant
            i <= blocks@.len(),
            views == block_views(blocks@),
            "text"@ != "tool_use"@,
            json::trees(turn.content@) == start.content + block_parts(views.take(i as int)),
            tool_views(turn.tool_uses@) == start.tool_uses + block_calls(views.take(i as int)),
            turn@.text == start.text,
            turn@.stop_reason == start.stop_reason,
            turn@.usage == start.usage,
        decreases blocks@.len() - i,
    {
        let block = &blocks[i];
        let ghost content = json::trees(turn.content@);
        let ghost calls = tool_views(turn.tool_uses@);
        proof {
            assert(views.take(i + 1).drop_last() =~= views.take(i as int));
            assert(views.take(i + 1).last() == block@);
        }
        if text::same_text(block.kind.as_str(), "text") {
            if !block.text.as_str().is_empty() {
                let part = make_text_part(block.text.as_str());
                turn.content.push(part);
                assert(json::trees(turn.content@) =~= content.push(part.tree()));
                assert(json::trees(turn.content@) =~= start.content + block_parts(
                    views.take(i + 1),
                ));
            }
        } else {
            match call_of(block) {
                Some(call) => {
                    let part = make_tool_part(&call);
                    turn.content.push(part);
                    turn.tool_uses.push(call);
                    assert(json::trees(turn.content@) =~= content.push(part.tree()));
                    assert(tool_views(turn.tool_uses@) =~= calls.push(call@));
                    assert(json::trees(turn.content@) =~= start.content + block_parts(
                        views.take(i + 1),
                    ));
                    assert(tool_views(turn.tool_uses@) =~= start.tool_uses + block_calls(
                        views.take(i + 1),
                    ));
                },
                None => {},
            }
        }
        i += 1;
    }
    assert(views.take(blocks@.len() as int) =~= views);
    if turn.content.len() == 0 && !turn.text.as_str().is_empty() {
        let part = make_text_part(turn.text.as_str());
        turn.content.push(part);
        assert(json::trees(turn.content@) =~= seq![part.tree()]);
    }
    turn
}

// ---------------------------------------------------------------------------
// The stream as a whole
// ---------------------------------------------------------------------------

/// A reply that is streaming in.
pub struct TurnStream {
    buffer: String,
    blocks: Vec<ContentBlockBuilder>,
    turn: ClaudeTurn,
    stats: StreamEventStats,
    waiting_for_first_chunk: bool,
    assistant: String,
}

/// What came of waiting for more of a reply.
#[derive(Debug)]
pub enum StreamInput {
    /// The task was cancelled.
    Cancelled,
    /// Nothing came in time.
    TimedOut,
    /// The connection failed; with the message of the error.
    Failed(String),
    /// A part of the reply came.
    Chunk(Vec<u8>),
    /// The reply has ended.
    Ended,
}

/// What to do next about a reply.
pub enum StreamStep {
    /// Wait for more.
    Wait(TurnStream),
    /// The reply is complete.
    Done(ClaudeTurn, StreamEventStats),
    /// Give up; with the reason.
    Fail(String),
}

/// The error of a cancelled task.
pub const CANCELLED: &'static str = "任务已取消";

/// The error when nothing comes in time.
pub open spec fn silence_text(name: Seq<char>, seconds: u64) -> Seq<char> {
    names::sentence(name, "", " Messages 流式响应超过 ") + text::numeral(seconds as nat)
        + " 秒没有数据"@
}

/// The error when nothing comes in time.
fn silence_error(assistant: &str, seconds: u64) -> (message: String)
    ensures
        message@ == silence_text(assistant@, seconds),
{
    let mut message = names::naming(assistant, "", " Messages 流式响应超过 ");
    message.append(text::decimal(seconds).as_str());
    message.append(" 秒没有数据");
    message
}

impl TurnStream {
    /// What is known of the reply.
    pub closed spec fn stream(&self) -> StreamView {
        stream_view(self.blocks@, self.turn, self.stats)
    }

    /// What came in of a line that has not ended.
    pub closed spec fn pending(&self) -> Seq<char> {
        self.buffer@
    }

    /// Whether nothing came in yet.
    pub closed spec fn waits_for_first(&self) -> bool {
        self.waiting_for_first_chunk
    }

    /// The name of the assistant whose reply it is.
    pub closed spec fn assistant(&self) -> Seq<char> {
        self.assistant@
    }

    /// How long to wait for more, in seconds.
    pub open spec fn patience(&self) -> u64 {
        if self.waits_for_first() {
            API_FIRST_BYTE_TIMEOUT_SECONDS
        } else {
            API_STREAM_IDLE_TIMEOUT_SECONDS
        }
    }

    /// A reply of which nothing came in yet.
    pub fn new(assistant: &str) -> (stream: TurnStream)
        ensures
            stream.assistant() == assistant@,
            stream.stream() == empty_stream(),
            stream.pending() == Seq::<char>::empty(),
            stream.waits_for_first(),
    {
        let stream = TurnStream {
            buffer: String::new(),
            blocks: Vec::new(),
            turn: ClaudeTurn::default(),
            stats: StreamEventStats::default(),
            waiting_for_first_chunk: true,
            assistant: assistant.to_owned(),
        };
        assert(stream.stream() =~= empty_stream());
        stream
    }

    /// How long to wait for more, in seconds.
    pub fn timeout_seconds(&self) -> (seconds: u64)
        ensures
            seconds == self.patience(),
    {
        if self.waiting_for_first_chunk {
            API_FIRST_BYTE_TIMEOUT_SECONDS
        } else {
            API_STREAM_IDLE_TIMEOUT_SECONDS
        }
    }

    /// Takes in a line.
    fn take_line(&mut self, line: &str) -> (result: Result<(), StreamError>)
        ensures
            match result {
                Ok(()) => after_line(old(self).stream(), line@) == Ok::<StreamView, StreamFault>(
                    final(self).stream(),
                ),
                Err(error) => after_line(old(self).stream(), line@) == Err::<
                    StreamView,
                    StreamFault,
                >(error@) && final(self).stream() == old(self).stream(),
            },
            final(self).waiting_for_first_chunk == old(self).waiting_for_first_chunk,
            final(self).buffer == old(self).buffer,
            final(self).assistant == old(self).assistant,
    {
        let line = text::trim(line);
        match text::strip_prefix(line.as_str(), "data:") {
            Some(rest) => {
                let data = text::trim(rest.as_str());
                if data.as_str().is_empty() || text::same_text(data.as_str(), "[DONE]") {
                    return Ok(());
                }
                handle_stream_event(
                    data.as_str(),
                    &mut self.blocks,
                    &mut self.turn,
                    &mut self.stats,
                )
            },
            None => Ok(()),
        }
    }

    /// Takes in text.
    pub fn feed(&mut self, more: &str) -> (result: Result<(), StreamError>)
        ensures
            match result {
                Ok(()) => after_text(old(self).stream(), old(self).pending() + more@) == Ok::<
                    (StreamView, Seq<char>),
                    StreamFault,
                >((final(self).stream(), final(self).pending())),
                Err(error) => after_text(old(self).stream(), old(self).pending() + more@) == Err::<
                    (StreamView, Seq<char>),
                    StreamFault,
                >(error@) && final(self).stream() == before_fault(
                    old(self).stream(),
                    old(self).pending() + more@,
                ) && final(self).pending() == old(self).pending() + more@,
            },
            final(self).waits_for_first() == old(self).waits_for_first(),
            final(self).assistant() == old(self).assistant(),
    {
        let ghost start = self.stream();
        let ghost all = self.pending() + more@;
        self.buffer.append(more);
        let chars = text::chars_of(self.buffer.as_str());
        let mut from: usize = 0;
        let mut at: usize = 0;
        assert(all.skip(0) =~= all);
        while at < chars.len()
            invariant
                from <= at <= chars@.len(),
                chars@ == all,
                all == old(self).pending() + more@,
                start == old(self).stream(),
                self.waiting_for_first_chunk == old(self).waiting_for_first_chunk,
                self.assistant == old(self).assistant,
                self.buffer@ == all,
                forall|i: int| from <= i < at ==> chars@[i] != '\n',
                after_text(start, all) == after_text(self.stream(), all.skip(from as int)),
                before_fault(start, all) == before_fault(self.stream(), all.skip(from as int)),
            decreases chars@.len() - at,
        {
            if chars[at] == '\n' {
                let line = text::text_between(&chars, from, at);
                proof {
                    let left = all.skip(from as int);
                    assert forall|i: int| 0 <= i < at - from implies left[i] != '\n' by {
                        assert(left[i] == chars@[from + i]);
                    }
                    lemma_line_end_is(left, at - from);
                    assert(left.take(at - from) =~= chars@.subrange(from as int, at as int));
                    assert(left.skip(at - from + 1) =~= all.skip(at + 1));
                }
                match self.take_line(line.as_str()) {
                    Ok(()) => {},
                    Err(error) => {
                        return Err(error);
                    },
                }
                from = at + 1;
            }
            at += 1;
        }
        proof {
            let left = all.skip(from as int);
            lemma_line_end(left);
            if line_end(left) < left.len() {
                assert(left[line_end(left) as int] == chars@[from + line_end(left)]);
            }
            assert(chars@.subrange(from as int, chars@.len() as int) =~= left);
        }
        self.buffer = text::text_between(&chars, from, chars.len());
        Ok(())
    }

    /// Takes in what came of waiting for more.
    pub fn advance(self, input: StreamInput) -> (step: StreamStep)
        ensures
            match input {
                StreamInput::Cancelled => step matches StreamStep::Fail(reason) && reason@
                    == CANCELLED@,
                StreamInput::TimedOut => step matches StreamStep::Fail(reason) && reason@
                    == silence_text(self.assistant(), self.patience()),
                StreamInput::Failed(message) => step matches StreamStep::Fail(reason) && reason@
                    == message@,
                StreamInput::Chunk(bytes) => match after_text(
                    self.stream(),
                    self.pending() + text::lossy(bytes@),
                ) {
                    Ok((stream, pending)) => step matches StreamStep::Wait(next) && next.stream()
                        == stream && next.pending() == pending && !next.waits_for_first()
                        && next.assistant() == self.assistant(),
                    Err(fault) => step matches StreamStep::Fail(reason) && reason@ == fault_text(
                        fault,
                    ),
                },
                StreamInput::Ended => step matches StreamStep::Done(turn, stats) && turn@
                    == finished(self.stream()) && stats == self.stream().stats,
            },
    {
        match input {
            StreamInput::Cancelled => StreamStep::Fail(CANCELLED.to_owned()),
            StreamInput::TimedOut => StreamStep::Fail(
                silence_error(self.assistant.as_str(), self.timeout_seconds()),
            ),
            StreamInput::Failed(message) => StreamStep::Fail(message),
            StreamInput::Chunk(bytes) => {
                let more = text::decode_lossy(bytes.as_slice());
                let mut next = self;
                next.waiting_for_first_chunk = false;
                assert(next.stream() == self.stream());
                match next.feed(more.as_str()) {
                    Ok(()) => StreamStep::Wait(next),
                    Err(error) => StreamStep::Fail(error.message()),
                }
            },
            StreamInput::Ended => {
                let turn = finish_turn(&self.blocks, self.turn);
                StreamStep::Done(turn, self.stats)
            },
        }
    }
}

} // verus!
