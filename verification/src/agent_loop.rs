//! The loop in which the model works on a task: it replies, calls tools, gets their results
//! and replies again, until it calls none.

use vstd::prelude::*;
use vstd::string::*;

use crate::claude;
use crate::json;
use crate::json::{Json, JsonObject, JsonTree};
use crate::logs::{LogDraft, LogDraftView, LogLevel};
use crate::names;
use crate::stream;
use crate::stream::{ClaudeTurn, ToolUse, TurnView};
use crate::text;

verus! {

/// The number of replies that the model may take for a task.
pub const MAX_TURNS: usize = 20;

/// What was said so far of a task.
#[verifier::ext_equal]
pub struct LoopView {
    pub messages: Seq<JsonTree>,
    pub text: Seq<char>,
    pub turns: usize,
    pub results: Seq<JsonTree>,
    pub assistant: Seq<char>,
}

/// A task that the model works on.
pub struct AgentLoop {
    messages: Vec<Json>,
    final_text: String,
    turns: usize,
    results: Vec<Json>,
    assistant: String,
}

impl View for AgentLoop {
    type V = LoopView;

    closed spec fn view(&self) -> LoopView {
        LoopView {
            messages: json::trees(self.messages@),
            text: self.final_text@,
            turns: self.turns,
            results: json::trees(self.results@),
            assistant: self.assistant@,
        }
    }
}

/// A message.
pub open spec fn message(role: &str, content: JsonTree) -> JsonTree {
    JsonTree::Object(
        json::no_fields().insert("role"@, json::txt(role)).insert("content"@, content),
    )
}

/// A message.
fn make_message(role: &str, content: Json) -> (result: Json)
    ensures
        result.tree() == message(role, content.tree()),
{
    Json::Object(JsonObject::new().with("role", Json::text(role)).with("content", content))
}

/// A task of which only the prompt was said.
pub open spec fn first_state(prompt: Seq<char>, name: Seq<char>) -> LoopView {
    LoopView {
        messages: seq![message("user", JsonTree::Text(prompt))],
        text: Seq::empty(),
        turns: 0,
        results: Seq::empty(),
        assistant: name,
    }
}

/// Why the next reply is not asked for, if it is not.
pub open spec fn turn_refusal(state: LoopView, cancelled: bool) -> Option<Seq<char>> {
    if state.turns >= MAX_TURNS {
        Some(
            names::sentence(state.assistant, "", " 工具循环超过 ") + text::numeral(MAX_TURNS as nat)
                + " 轮，已停止"@,
        )
    } else if cancelled {
        Some(stream::CANCELLED@)
    } else {
        None
    }
}

/// What is logged when the next reply is asked for.
pub open spec fn turn_start_log(
    name: Seq<char>,
    turns: usize,
    cwd: Seq<char>,
    model: Seq<char>,
    task_id: Seq<char>,
) -> LogDraftView {
    LogDraftView {
        level: LogLevel::Info,
        source: "agent"@,
        request_id: None,
        task_id: Some(task_id),
        summary: "开始第 "@ + text::numeral((turns + 1) as nat) + names::sentence(
            name,
            " 轮 ",
            " 调用",
        ),
        detail: Some(
            JsonTree::Object(
                json::no_fields().insert("workdir"@, JsonTree::Text(cwd)).insert(
                    "model"@,
                    JsonTree::Text(model),
                ),
            ),
        ),
    }
}

/// What was said after a reply.
pub open spec fn after_turn(state: LoopView, turn: TurnView) -> LoopView {
    LoopView {
        messages: state.messages.push(message("assistant", JsonTree::Array(turn.content))),
        text: state.text + turn.text,
        ..state
    }
}

/// What was said when all tools that the model called have answered.
pub open spec fn after_tools(state: LoopView) -> LoopView {
    LoopView {
        messages: state.messages.push(
            message("user", JsonTree::Array(claude::marked_results(state.results))),
        ),
        results: Seq::empty(),
        ..state
    }
}

/// What is logged when the model has replied for the last time.
pub open spec fn final_log(
    name: Seq<char>,
    stop_reason: Option<Seq<char>>,
    task_id: Seq<char>,
) -> LogDraftView {
    LogDraftView {
        level: LogLevel::Info,
        source: "agent"@,
        request_id: None,
        task_id: Some(task_id),
        summary: names::sentence(name, "", " 返回最终结果"),
        detail: Some(
            JsonTree::Object(
                json::no_fields().insert("stop_reason"@, json::text_or_null(stop_reason)),
            ),
        ),
    }
}

/// What a reply asks for.
#[derive(Debug)]
pub enum TurnOutcome {
    /// The task is done; with the result and what to log.
    Final(String, LogDraft),
    /// These tools are to be called, in this order.
    Tools(Vec<ToolUse>),
}

/// Whether the messages are taken in turns, the user's first.
pub open spec fn alternates(messages: Seq<JsonTree>) -> bool {
    forall|i: int|
        0 <= i < messages.len() ==> (#[trigger] messages[i]).get_text("role"@) == Some(
            if i % 2 == 0 {
                "user"@
            } else {
                "assistant"@
            },
        )
}

/// The role of a message is what it was made with.
proof fn lemma_role(role: &str, content: JsonTree)
    ensures
        message(role, content).get_text("role"@) == Some(role@),
{
    reveal_strlit("role");
    reveal_strlit("content");
    assert("role"@.len() == 4);
    assert("content"@.len() == 7);
}

/// The user and the model take turns, however long the loop runs: the first message is the
/// user's, and a reply and the results of its tools add one message of each.
pub proof fn law_messages_take_turns(
    prompt: Seq<char>,
    name: Seq<char>,
    state: LoopView,
    turn: TurnView,
    results: Seq<JsonTree>,
)
    requires
        alternates(state.messages),
        state.messages.len() % 2 == 1,
    ensures
        alternates(first_state(prompt, name).messages),
        first_state(prompt, name).messages.len() % 2 == 1,
        alternates(after_turn(state, turn).messages),
        alternates(after_tools(LoopView { results, ..after_turn(state, turn) }).messages),
        after_tools(LoopView { results, ..after_turn(state, turn) }).messages.len() % 2 == 1,
{
    lemma_role("user", JsonTree::Text(prompt));
    lemma_role("assistant", JsonTree::Array(turn.content));
    lemma_role("user", JsonTree::Array(claude::marked_results(results)));
    let replied = after_turn(state, turn).messages;
    assert forall|i: int| 0 <= i < replied.len() implies (#[trigger] replied[i]).get_text("role"@)
        == Some(
        if i % 2 == 0 {
            "user"@
        } else {
            "assistant"@
        },
    ) by {
        if i < state.messages.len() {
            assert(replied[i] == state.messages[i]);
        }
    }
    let answered = after_tools(LoopView { results, ..after_turn(state, turn) }).messages;
    assert forall|i: int|
        0 <= i < answered.len() implies (#[trigger] answered[i]).get_text("role"@) == Some(
        if i % 2 == 0 {
            "user"@
        } else {
            "assistant"@
        },
    ) by {
        if i < replied.len() {
            assert(answered[i] == replied[i]);
        }
    }
}

impl AgentLoop {
    /// A task of which only the prompt was said.
    pub fn new(prompt: &str, assistant: &str) -> (state: AgentLoop)
        ensures
            state@ == first_state(prompt@, assistant@),
    {
        let mut messages: Vec<Json> = Vec::new();
        messages.push(make_message("user", Json::text(prompt)));
        let state = AgentLoop {
            messages,
            final_text: String::new(),
            turns: 0,
            results: Vec::new(),
            assistant: assistant.to_owned(),
        };
        assert(state@ =~= first_state(prompt@, assistant@));
        state
    }

    /// The body of the request for the next reply.
    pub fn request_body(&self, runtime: &claude::RuntimeConfig) -> (body: Json)
        ensures
            body.tree() == claude::request_body(self@.assistant, runtime.model@, self@.messages),
    {
        claude::claude_request_body(runtime, &self.messages, self.assistant.as_str())
    }

    /// The number of messages so far.
    pub fn message_count(&self) -> (count: usize)
        ensures
            count == self@.messages.len(),
    {
        self.messages.len()
    }

    /// Asks for the next reply. Gives what to log, or why the loop ends.
    pub fn begin_turn(&mut self, cancelled: bool, cwd: &str, model: &str, task_id: &str) -> (
        result: Result<LogDraft, String>)
        ensures
            match result {
                Ok(log) => turn_refusal(old(self)@, cancelled) is None && log@ == turn_start_log(
                    old(self)@.assistant,
                    old(self)@.turns,
                    cwd@,
                    model@,
                    task_id@,
                ) && final(self)@ == (LoopView {
                    turns: (old(self)@.turns + 1) as usize,
                    ..old(self)@
                }),
                Err(reason) => turn_refusal(old(self)@, cancelled) == Some(reason@)
                    && final(self)@ == old(self)@,
            },
    {
        if self.turns >= MAX_TURNS {
            let mut reason = names::naming(self.assistant.as_str(), "", " 工具循环超过 ");
            reason.append(text::decimal(MAX_TURNS as u64).as_str());
            reason.append(" 轮，已停止");
            return Err(reason);
        }
        if cancelled {
            return Err(stream::CANCELLED.to_owned());
        }
        self.turns = self.turns + 1;
        let mut summary = "开始第 ".to_owned();
        summary.append(text::decimal(self.turns as u64).as_str());
        summary.append(names::naming(self.assistant.as_str(), " 轮 ", " 调用").as_str());
        let detail = JsonObject::new().with("workdir", Json::text(cwd)).with(
            "model",
            Json::text(model),
        );
        Ok(
            LogDraft::new(
                LogLevel::Info,
                "agent",
                None,
                Some(task_id.to_owned()),
                summary.as_str(),
                Some(Json::Object(detail)),
            ),
        )
    }

    /// Takes a reply in and says what it asks for.
    pub fn take_turn(&mut self, turn: ClaudeTurn, task_id: &str) -> (outcome: TurnOutcome)
        ensures
            final(self)@ == after_turn(old(self)@, turn@),
            match outcome {
                TurnOutcome::Final(result, log) => turn@.tool_uses.len() == 0 && result@
                    == text::trimmed(old(self)@.text + turn@.text) && log@ == final_log(
                    old(self)@.assistant,
                    turn@.stop_reason,
                    task_id@,
                ),
                TurnOutcome::Tools(uses) => turn@.tool_uses.len() > 0 && stream::tool_views(uses@)
                    == turn@.tool_uses,
            },
    {
        let ghost before = self@;
        self.final_text.append(turn.text.as_str());
        let ghost content = json::trees(turn.content@);
        let said = make_message("assistant", Json::array(turn.content));
        let ghost messages = json::trees(self.messages@);
        self.messages.push(said);
        assert(json::trees(self.messages@) =~= messages.push(said.tree()));
        assert(self@ =~= after_turn(before, turn@));
        if turn.tool_uses.len() == 0 {
            let detail = JsonObject::new().with(
                "stop_reason",
                Json::optional_text(&turn.stop_reason),
            );
            let log = LogDraft::new(
                LogLevel::Info,
                "agent",
                None,
                Some(task_id.to_owned()),
                names::naming(self.assistant.as_str(), "", " 返回最终结果").as_str(),
                Some(Json::Object(detail)),
            );
            return TurnOutcome::Final(text::trim(self.final_text.as_str()), log);
        }
        TurnOutcome::Tools(turn.tool_uses)
    }

    /// Tests whether the next tool may be called: not in a cancelled task.
    pub fn before_tool(cancelled: bool) -> (result: Result<(), String>)
        ensures
            match result {
                Ok(()) => !cancelled,
                Err(reason) => cancelled && reason@ == stream::CANCELLED@,
            },
    {
        if cancelled {
            return Err(stream::CANCELLED.to_owned());
        }
        Ok(())
    }

    /// Takes the answer of a tool in, or why it failed.
    pub fn take_result(&mut self, tool_use_id: &str, outcome: Result<String, String>)
        ensures
            final(self)@ == (LoopView {
                results: old(self)@.results.push(
                    match outcome {
                        Ok(output) => claude::result_part(tool_use_id@, output@, false),
                        Err(error) => claude::result_part(tool_use_id@, error@, true),
                    },
                ),
                ..old(self)@
            }),
    {
        let ghost before = json::trees(self.results@);
        let block = match outcome {
            Ok(output) => claude::tool_result_block(tool_use_id, output, false),
            Err(error) => claude::tool_result_block(tool_use_id, error, true),
        };
        self.results.push(block);
        assert(json::trees(self.results@) =~= before.push(block.tree()));
    }

    /// Hands the results of the tools to the model.
    pub fn end_tools(&mut self)
        ensures
            final(self)@ == after_tools(old(self)@),
    {
        let ghost before = self@;
        let mut results: Vec<Json> = Vec::new();
        std::mem::swap(&mut results, &mut self.results);
        claude::mark_last_tool_result_for_cache(&mut results);
        let said = make_message("user", Json::array(results));
        let ghost messages = json::trees(self.messages@);
        self.messages.push(said);
        assert(json::trees(self.messages@) =~= messages.push(said.tree()));
        assert(self@ =~= after_tools(before));
    }
}

} // verus!
