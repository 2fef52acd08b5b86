//! The bridge to the agent: a process that runs jobs, and the lines that go to it and come
//! from it.

use vstd::prelude::*;
use vstd::string::*;

use crate::json;
use crate::json::{Json, JsonObject, JsonTree};
use crate::logs::{LogDraft, LogDraftView, LogLevel};
use crate::pending_table;
use crate::pending_table::{PendingTable, Tickets};
use crate::text;
use crate::tools;
use crate::tools::Platform;

verus! {

/// What the agent is told of the API.
#[derive(Debug)]
pub struct SdkRuntimeConfig {
    pub api_key: String,
    pub base_url: String,
    pub model: String,
}

/// The bridge as it is shown.
#[derive(Debug)]
pub struct AgentRuntimeStatus {
    pub runtime: String,
    pub bridge_started: bool,
    pub sdk_version: Option<String>,
    pub native_binary_path: Option<String>,
    pub bridge_script: Option<String>,
    pub node_executable: String,
    pub active_sessions: usize,
    pub last_error: Option<String>,
}

/// A line from the bridge.
#[derive(Debug)]
pub struct BridgeEvent {
    pub kind: String,
    pub job_id: Option<String>,
    pub request_id: Option<String>,
    pub level: Option<String>,
    pub source: Option<String>,
    pub summary: Option<String>,
    pub detail: Option<Json>,
    pub output: Option<String>,
    pub error: Option<String>,
    pub usage: Option<Json>,
    pub session_id: Option<String>,
    pub sdk_version: Option<String>,
    pub native_binary_path: Option<String>,
    pub active_jobs: Option<usize>,
    pub node: Option<String>,
    pub platform: Option<String>,
    pub arch: Option<String>,
}

/// What a line from the bridge says.
#[verifier::ext_equal]
pub struct EventView {
    pub kind: Seq<char>,
    pub job_id: Option<Seq<char>>,
    pub request_id: Option<Seq<char>>,
    pub level: Option<Seq<char>>,
    pub source: Option<Seq<char>>,
    pub summary: Option<Seq<char>>,
    pub detail: Option<JsonTree>,
    pub output: Option<Seq<char>>,
    pub error: Option<Seq<char>>,
    pub usage: Option<JsonTree>,
    pub session_id: Option<Seq<char>>,
    pub sdk_version: Option<Seq<char>>,
    pub native_binary_path: Option<Seq<char>>,
    pub active_jobs: Option<usize>,
    pub node: Option<Seq<char>>,
    pub platform: Option<Seq<char>>,
    pub arch: Option<Seq<char>>,
}

impl View for BridgeEvent {
    type V = EventView;

    open spec fn view(&self) -> EventView {
        EventView {
            kind: self.kind@,
            job_id: text::option_text(self.job_id),
            request_id: text::option_text(self.request_id),
            level: text::option_text(self.level),
            source: text::option_text(self.source),
            summary: text::option_text(self.summary),
            detail: json::option_tree(self.detail),
            output: text::option_text(self.output),
            error: text::option_text(self.error),
            usage: json::option_tree(self.usage),
            session_id: text::option_text(self.session_id),
            sdk_version: text::option_text(self.sdk_version),
            native_binary_path: text::option_text(self.native_binary_path),
            active_jobs: self.active_jobs,
            node: text::option_text(self.node),
            platform: text::option_text(self.platform),
            arch: text::option_text(self.arch),
        }
    }
}

/// What to do about a line from the bridge, in the order of the fields.
#[derive(Debug)]
pub struct BridgeEffect {
    /// The job whose session has an identifier now, and that identifier.
    pub session: Option<(String, String)>,
    /// The usage to record.
    pub usage: Option<Json>,
    /// The ticket whose job is over, and how it ended.
    pub completion: Option<(u64, Result<String, String>)>,
    /// What to log.
    pub log: LogDraft,
    /// Whether the runtime statistics changed.
    pub notify: bool,
}

// ---------------------------------------------------------------------------
// Events
// ---------------------------------------------------------------------------

/// What kind of event a line carries.
#[derive(Debug, Clone, Copy, PartialEq, Eq, Structural)]
pub enum EventKind {
    Ready,
    Status,
    Progress,
    Denied,
    Usage,
    Done,
    Cancelled,
    Error,
    Unknown,
}

/// What kind of event a line with this type carries.
pub open spec fn kind_of(name: Seq<char>) -> EventKind {
    if name == "ready"@ {
        EventKind::Ready
    } else if name == "status_response"@ {
        EventKind::Status
    } else if name == "started"@ || name == "init"@ || name == "log"@ || name == "stream_summary"@ {
        EventKind::Progress
    } else if name == "permission_denied"@ {
        EventKind::Denied
    } else if name == "usage"@ {
        EventKind::Usage
    } else if name == "done"@ {
        EventKind::Done
    } else if name == "cancelled"@ {
        EventKind::Cancelled
    } else if name == "error"@ || name == "bridge_error"@ {
        EventKind::Error
    } else {
        EventKind::Unknown
    }
}

/// What kind of event a line with this type carries.
pub fn event_kind(name: &str) -> (kind: EventKind)
    ensures
        kind == kind_of(name@),
{
    if text::same_text(name, "ready") {
        EventKind::Ready
    } else if text::same_text(name, "status_response") {
        EventKind::Status
    } else if text::same_text(name, "started") || text::same_text(name, "init") || text::same_text(
        name,
        "log",
    ) || text::same_text(name, "stream_summary") {
        EventKind::Progress
    } else if text::same_text(name, "permission_denied") {
        EventKind::Denied
    } else if text::same_text(name, "usage") {
        EventKind::Usage
    } else if text::same_text(name, "done") {
        EventKind::Done
    } else if text::same_text(name, "cancelled") {
        EventKind::Cancelled
    } else if text::same_text(name, "error") || text::same_text(name, "bridge_error") {
        EventKind::Error
    } else {
        EventKind::Unknown
    }
}

/// A text, or another one where there is none.
pub open spec fn text_or(text: Option<Seq<char>>, default: Seq<char>) -> Seq<char> {
    match text {
        Some(t) => t,
        None => default,
    }
}

/// The level that a name says.
pub open spec fn level_of(name: Option<Seq<char>>) -> Option<LogLevel> {
    if name == Some("debug"@) {
        Some(LogLevel::Debug)
    } else if name == Some("info"@) {
        Some(LogLevel::Info)
    } else if name == Some("warn"@) {
        Some(LogLevel::Warn)
    } else if name == Some("error"@) {
        Some(LogLevel::Error)
    } else {
        None
    }
}

/// The level that a name says.
pub fn parse_level(level: &Option<String>) -> (result: Option<LogLevel>)
    ensures
        result == level_of(text::option_text(*level)),
{
    if text::same_option(level, "debug") {
        Some(LogLevel::Debug)
    } else if text::same_option(level, "info") {
        Some(LogLevel::Info)
    } else if text::same_option(level, "warn") {
        Some(LogLevel::Warn)
    } else if text::same_option(level, "error") {
        Some(LogLevel::Error)
    } else {
        None
    }
}

/// A value, or null where there is none.
pub open spec fn tree_or_null(tree: Option<JsonTree>) -> JsonTree {
    match tree {
        Some(t) => t,
        None => JsonTree::Null,
    }
}

/// What the bridge says of itself.
pub open spec fn metadata(event: EventView) -> JsonTree {
    JsonTree::Object(
        json::no_fields().insert("sdk_version"@, json::text_or_null(event.sdk_version)).insert(
            "native_binary_path"@,
            json::text_or_null(event.native_binary_path),
        ).insert(
            "active_jobs"@,
            match event.active_jobs {
                Some(n) => JsonTree::Integer(n as int),
                None => JsonTree::Null,
            },
        ).insert("node"@, json::text_or_null(event.node)).insert(
            "platform"@,
            json::text_or_null(event.platform),
        ).insert("arch"@, json::text_or_null(event.arch)),
    )
}

/// The error that an event tells of.
pub open spec fn event_error(event: EventView) -> Seq<char> {
    text_or(event.error, "Agent SDK bridge 错误"@)
}

/// What is logged of an event.
pub open spec fn event_log(event: EventView) -> LogDraftView {
    let plain = LogDraftView {
        level: LogLevel::Info,
        source: "agent-sdk"@,
        request_id: None,
        task_id: event.job_id,
        summary: Seq::empty(),
        detail: event.detail,
    };
    match kind_of(event.kind) {
        EventKind::Ready => LogDraftView {
            source: "agent-bridge"@,
            request_id: event.request_id,
            summary: "Agent SDK bridge 就绪"@,
            detail: Some(metadata(event)),
            ..plain
        },
        EventKind::Status => LogDraftView {
            source: "agent-bridge"@,
            request_id: event.request_id,
            summary: "Agent SDK bridge 状态已更新"@,
            detail: Some(metadata(event)),
            ..plain
        },
        EventKind::Progress => LogDraftView {
            level: match level_of(event.level) {
                Some(level) => level,
                None => LogLevel::Info,
            },
            source: text_or(event.source, "agent-sdk"@),
            summary: text_or(event.summary, "Agent SDK 事件"@),
            ..plain
        },
        EventKind::Denied => LogDraftView {
            level: LogLevel::Warn,
            source: "permission"@,
            summary: text_or(event.summary, "Agent SDK 权限已拒绝"@),
            ..plain
        },
        EventKind::Usage => LogDraftView {
            level: LogLevel::Debug,
            summary: "Agent SDK usage 已记录"@,
            ..plain
        },
        EventKind::Done => LogDraftView {
            summary: text_or(event.summary, "Agent SDK 任务完成"@),
            detail: Some(
                JsonTree::Object(
                    json::no_fields().insert(
                        "session_id"@,
                        json::text_or_null(event.session_id),
                    ).insert("detail"@, tree_or_null(event.detail)),
                ),
            ),
            ..plain
        },
        EventKind::Cancelled => LogDraftView {
            level: LogLevel::Warn,
            summary: "Agent SDK 任务已取消"@,
            ..plain
        },
        EventKind::Error => LogDraftView {
            level: LogLevel::Error,
            source: text_or(event.source, "agent-sdk"@),
            summary: text_or(event.summary, "Agent SDK 执行失败"@),
            detail: Some(
                JsonTree::Object(
                    json::no_fields().insert("error"@, JsonTree::Text(event_error(event))).insert(
                        "detail"@,
                        tree_or_null(event.detail),
                    ),
                ),
            ),
            ..plain
        },
        EventKind::Unknown => LogDraftView {
            level: LogLevel::Debug,
            source: "agent-bridge"@,
            summary: "Agent SDK bridge 未识别事件："@ + event.kind,
            ..plain
        },
    }
}

/// How the job of an event ended, where the event says that it did.
pub open spec fn event_outcome(event: EventView) -> Option<Result<Seq<char>, Seq<char>>> {
    match kind_of(event.kind) {
        EventKind::Done => Some(Ok(text_or(event.output, Seq::empty()))),
        EventKind::Cancelled => Some(Err(text_or(event.error, "任务已取消"@))),
        EventKind::Error => Some(Err(event_error(event))),
        _ => None,
    }
}

/// The usage that an event reports.
pub open spec fn event_usage(event: EventView) -> Option<JsonTree> {
    if kind_of(event.kind) == EventKind::Usage {
        event.usage
    } else {
        None
    }
}

/// The job that an event names and the identifier of its session, where it names both.
pub open spec fn event_session(event: EventView) -> Option<(Seq<char>, Seq<char>)> {
    match (event.job_id, event.session_id) {
        (Some(job_id), Some(session_id)) => Some((job_id, session_id)),
        _ => None,
    }
}

/// What a pair of texts says.
pub open spec fn pair_view(pair: Option<(String, String)>) -> Option<(Seq<char>, Seq<char>)> {
    match pair {
        Some((first, second)) => Some((first@, second@)),
        None => None,
    }
}

/// Takes the job that an event names and the identifier of its session out of the event.
fn session_of(event: &BridgeEvent) -> (session: Option<(String, String)>)
    ensures
        pair_view(session) == event_session(event@),
{
    match (&event.job_id, &event.session_id) {
        (Some(job_id), Some(session_id)) => Some((job_id.clone(), session_id.clone())),
        _ => None,
    }
}

/// What an outcome says.
pub open spec fn outcome_view(outcome: Result<String, String>) -> Result<Seq<char>, Seq<char>> {
    match outcome {
        Ok(output) => Ok(output@),
        Err(error) => Err(error@),
    }
}

/// What a completion says.
pub open spec fn completion_view(completion: Option<(u64, Result<String, String>)>) -> Option<
    (u64, Result<Seq<char>, Seq<char>>),
> {
    match completion {
        Some((ticket, outcome)) => Some((ticket, outcome_view(outcome))),
        None => None,
    }
}

/// What the bridge holds.
#[verifier::ext_equal]
pub struct BridgeView {
    pub started: bool,
    pub pending: Tickets,
    pub next_ticket: u64,
    pub sdk_version: Option<Seq<char>>,
    pub native_binary_path: Option<Seq<char>>,
    pub bridge_script: Option<Seq<char>>,
    pub node_executable: Seq<char>,
    pub last_error: Option<Seq<char>>,
    pub active_sessions: usize,
}

/// Whether `tickets` are those of the jobs `ids`, one for each of the jobs that wait.
pub open spec fn lists_tickets(ids: Seq<Seq<char>>, tickets: Seq<u64>, pending: Tickets) -> bool {
    &&& ids.no_duplicates()
    &&& ids.to_set() == pending.dom()
    &&& tickets.len() == ids.len()
    &&& forall|k: int| 0 <= k < ids.len() ==> (#[trigger] tickets[k]) == pending[ids[k]]
}

/// Whether `tickets` are the tickets of all jobs that wait, one for each of them, in any
/// order.
pub open spec fn is_all_tickets(tickets: Seq<u64>, pending: Tickets) -> bool {
    exists|ids: Seq<Seq<char>>| #[trigger] lists_tickets(ids, tickets, pending)
}

/// Whether no two jobs wait with the same ticket.
pub open spec fn tickets_differ(pending: Tickets) -> bool {
    forall|a: Seq<char>, b: Seq<char>|
        pending.dom().contains(a) && pending.dom().contains(b) && a != b
            ==> #[trigger] pending[a] != #[trigger] pending[b]
}

/// All tickets are as many as the jobs that wait, each of them is the ticket of one, and
/// where no two jobs have the same none occurs twice.
pub proof fn law_each_ticket_is_given_once(tickets: Seq<u64>, pending: Tickets)
    requires
        is_all_tickets(tickets, pending),
    ensures
        tickets.len() == pending.dom().len(),
        tickets.to_set() == pending.values(),
        tickets_differ(pending) ==> tickets.no_duplicates(),
{
    let ids = choose|ids: Seq<Seq<char>>| #[trigger] lists_tickets(ids, tickets, pending);
    ids.unique_seq_to_set();
    assert forall|t: u64| tickets.to_set().contains(t) == pending.values().contains(t) by {
        if tickets.to_set().contains(t) {
            let k = choose|k: int| 0 <= k < tickets.len() && tickets[k] == t;
            assert(ids.to_set().contains(ids[k]));
            assert(pending.dom().contains(ids[k]));
        }
        if pending.values().contains(t) {
            let id = choose|id: Seq<char>| pending.dom().contains(id) && pending[id] == t;
            assert(ids.to_set().contains(id));
            let k = choose|k: int| 0 <= k < ids.len() && ids[k] == id;
            assert(tickets[k] == t);
        }
    }
    assert(tickets.to_set() =~= pending.values());
    if tickets_differ(pending) {
        assert forall|a: int, b: int| 0 <= a < b < tickets.len() implies tickets[a]
            != tickets[b] by {
            assert(ids.to_set().contains(ids[a]));
            assert(ids.to_set().contains(ids[b]));
            assert(pending[ids[a]] != pending[ids[b]]);
        }
    }
}

/// The bridge when a job waits for the agent, with the next ticket.
pub open spec fn after_entry(bridge: BridgeView, job_id: Seq<char>) -> BridgeView {
    BridgeView {
        pending: bridge.pending.insert(job_id, bridge.next_ticket),
        next_ticket: bridge.next_ticket.wrapping_add(1),
        active_sessions: bridge.active_sessions.wrapping_add(1),
        ..bridge
    }
}

/// The bridge when a job is given up.
pub open spec fn after_abandon(bridge: BridgeView, job_id: Seq<char>) -> BridgeView {
    BridgeView {
        pending: bridge.pending.remove(job_id),
        active_sessions: bridge.active_sessions.wrapping_sub(1),
        ..bridge
    }
}

/// The ticket of the job that an event ends.
pub open spec fn ended_ticket(bridge: BridgeView, event: EventView) -> Option<u64> {
    match event.job_id {
        Some(job_id) => if event_outcome(event) is Some && bridge.pending.dom().contains(job_id) {
            Some(bridge.pending[job_id])
        } else {
            None
        },
        None => None,
    }
}

/// What the bridge holds after an event.
pub open spec fn after_event(bridge: BridgeView, event: EventView) -> BridgeView {
    let kind = kind_of(event.kind);
    let told = kind == EventKind::Ready || kind == EventKind::Status;
    BridgeView {
        pending: match event.job_id {
            Some(job_id) => if event_outcome(event) is Some {
                bridge.pending.remove(job_id)
            } else {
                bridge.pending
            },
            None => bridge.pending,
        },
        sdk_version: if told && event.sdk_version is Some {
            event.sdk_version
        } else {
            bridge.sdk_version
        },
        native_binary_path: if told && event.native_binary_path is Some {
            event.native_binary_path
        } else {
            bridge.native_binary_path
        },
        last_error: if kind == EventKind::Error {
            Some(event_error(event))
        } else {
            bridge.last_error
        },
        ..bridge
    }
}

/// The job of an event is completed once at most: after the event its ticket is gone.
pub proof fn law_a_job_ends_once(bridge: BridgeView, event: EventView, again: EventView)
    requires
        event_outcome(event) is Some,
        again.job_id == event.job_id,
    ensures
        ended_ticket(after_event(bridge, event), again) is None,
{
}

/// An event leaves the tickets of all other jobs alone.
pub proof fn law_other_jobs_go_on(bridge: BridgeView, event: EventView, job_id: Seq<char>)
    requires
        event.job_id != Some(job_id),
        bridge.pending.dom().contains(job_id),
    ensures
        after_event(bridge, event).pending.dom().contains(job_id),
        after_event(bridge, event).pending[job_id] == bridge.pending[job_id],
{
}

/// The bridge to the agent.
pub struct AgentBridge {
    started: bool,
    pending: PendingTable,
    next_ticket: u64,
    sdk_version: Option<String>,
    native_binary_path: Option<String>,
    bridge_script: Option<String>,
    node_executable: String,
    last_error: Option<String>,
    active_sessions: usize,
}

impl View for AgentBridge {
    type V = BridgeView;

    closed spec fn view(&self) -> BridgeView {
        BridgeView {
            started: self.started,
            pending: pending_table::tickets_in(self.pending),
            next_ticket: self.next_ticket,
            sdk_version: text::option_text(self.sdk_version),
            native_binary_path: text::option_text(self.native_binary_path),
            bridge_script: text::option_text(self.bridge_script),
            node_executable: self.node_executable@,
            last_error: text::option_text(self.last_error),
            active_sessions: self.active_sessions,
        }
    }
}

/// A text, or another one where there is none.
fn or_default(text: Option<String>, default: &str) -> (result: String)
    ensures
        result@ == text_or(text::option_text(text), default@),
{
    match text {
        Some(t) => t,
        None => default.to_owned(),
    }
}

/// What the bridge says of itself.
fn make_metadata(event: &BridgeEvent) -> (detail: Json)
    ensures
        detail.tree() == metadata(event@),
{
    let active_jobs = match event.active_jobs {
        Some(n) => Json::Unsigned(n as u64),
        None => Json::Null,
    };
    Json::Object(
        JsonObject::new().with("sdk_version", Json::optional_text(&event.sdk_version)).with(
            "native_binary_path",
            Json::optional_text(&event.native_binary_path),
        ).with("active_jobs", active_jobs).with("node", Json::optional_text(&event.node)).with(
            "platform",
            Json::optional_text(&event.platform),
        ).with("arch", Json::optional_text(&event.arch)),
    )
}

/// The bridge before it is started.
pub open spec fn idle_bridge(node: Seq<char>) -> BridgeView {
    BridgeView {
        started: false,
        pending: pending_table::no_tickets(),
        next_ticket: 0,
        sdk_version: None,
        native_binary_path: None,
        bridge_script: None,
        node_executable: node,
        last_error: None,
        active_sessions: 0,
    }
}

impl AgentBridge {
    /// A bridge that is not started.
    pub fn new(node: String) -> (bridge: AgentBridge)
        ensures
            bridge@ == idle_bridge(node@),
    {
        let bridge = AgentBridge {
            started: false,
            pending: pending_table::new_table(),
            next_ticket: 0,
            sdk_version: None,
            native_binary_path: None,
            bridge_script: None,
            node_executable: node,
            last_error: None,
            active_sessions: 0,
        };
        assert(bridge@ =~= idle_bridge(node@));
        bridge
    }

    /// How the bridge is shown.
    pub fn status(&self, runtime: &str) -> (status: AgentRuntimeStatus)
        ensures
            status.runtime@ == runtime@,
            status.bridge_started == self@.started,
            text::option_text(status.sdk_version) == self@.sdk_version,
            text::option_text(status.native_binary_path) == self@.native_binary_path,
            text::option_text(status.bridge_script) == self@.bridge_script,
            status.node_executable@ == self@.node_executable,
            status.active_sessions == self@.active_sessions,
            text::option_text(status.last_error) == self@.last_error,
    {
        AgentRuntimeStatus {
            runtime: runtime.to_owned(),
            bridge_started: self.started,
            sdk_version: text::copy_option(&self.sdk_version),
            native_binary_path: text::copy_option(&self.native_binary_path),
            bridge_script: text::copy_option(&self.bridge_script),
            node_executable: self.node_executable.clone(),
            active_sessions: self.active_sessions,
            last_error: text::copy_option(&self.last_error),
        }
    }

    /// Takes in a line from the bridge and says what to do about it.
    pub fn handle_bridge_event(&mut self, event: BridgeEvent) -> (effect: BridgeEffect)
        ensures
            final(self)@ == after_event(old(self)@, event@),
            pair_view(effect.session) == event_session(event@),
            json::option_tree(effect.usage) == event_usage(event@),
            effect.log@ == event_log(event@),
            completion_view(effect.completion) == (match ended_ticket(old(self)@, event@) {
                Some(ticket) => Some((ticket, event_outcome(event@)->0)),
                None => None,
            }),
            effect.notify == (event_outcome(event@) is Some),
    {
        let ghost before = self@;
        let ghost told = event@;
        let kind = event_kind(event.kind.as_str());
        let session = session_of(&event);
        let job_id = text::copy_option(&event.job_id);
        match kind {
            EventKind::Ready | EventKind::Status => {
                self.update_bridge_metadata(&event);
                let summary = if kind == EventKind::Ready {
                    "Agent SDK bridge 就绪"
                } else {
                    "Agent SDK bridge 状态已更新"
                };
                let detail = make_metadata(&event);
                let log = LogDraft::new(
                    LogLevel::Info,
                    "agent-bridge",
                    event.request_id,
                    job_id,
                    summary,
                    Some(detail),
                );
                assert(self@ =~= after_event(before, told));
                BridgeEffect { session, usage: None, completion: None, log, notify: false }
            },
            EventKind::Progress => {
                let level = match parse_level(&event.level) {
                    Some(level) => level,
                    None => LogLevel::Info,
                };
                let source = or_default(event.source, "agent-sdk");
                let summary = or_default(event.summary, "Agent SDK 事件");
                let log = LogDraft::new(
                    level,
                    source.as_str(),
                    None,
                    job_id,
                    summary.as_str(),
                    event.detail,
                );
                assert(self@ =~= after_event(before, told));
                BridgeEffect { session, usage: None, completion: None, log, notify: false }
            },
            EventKind::Denied => {
                let summary = or_default(event.summary, "Agent SDK 权限已拒绝");
                let log = LogDraft::new(
                    LogLevel::Warn,
                    "permission",
                    None,
                    job_id,
                    summary.as_str(),
                    event.detail,
                );
                assert(self@ =~= after_event(before, told));
                BridgeEffect { session, usage: None, completion: None, log, notify: false }
            },
            EventKind::Usage => {
                let log = LogDraft::new(
                    LogLevel::Debug,
                    "agent-sdk",
                    None,
                    job_id,
                    "Agent SDK usage 已记录",
                    event.detail,
                );
                assert(self@ =~= after_event(before, told));
                BridgeEffect { session, usage: event.usage, completion: None, log, notify: false }
            },
            EventKind::Done => {
                let output = or_default(event.output, "");
                proof {
                    reveal_strlit("");
                    assert(""@ =~= Seq::<char>::empty());
                }
                let completion = self.complete_pending(&event.job_id, Ok(output));
                let detail = JsonObject::new().with(
                    "session_id",
                    Json::optional_text(&event.session_id),
                ).with("detail", Json::or_null(event.detail.as_ref()));
                let summary = or_default(event.summary, "Agent SDK 任务完成");
                let log = LogDraft::new(
                    LogLevel::Info,
                    "agent-sdk",
                    None,
                    job_id,
                    summary.as_str(),
                    Some(Json::Object(detail)),
                );
                assert(self@ =~= after_event(before, told));
                BridgeEffect { session, usage: None, completion, log, notify: true }
            },
            EventKind::Cancelled => {
                let error = or_default(event.error, "任务已取消");
                let completion = self.complete_pending(&event.job_id, Err(error));
                let log = LogDraft::new(
                    LogLevel::Warn,
                    "agent-sdk",
                    None,
                    job_id,
                    "Agent SDK 任务已取消",
                    event.detail,
                );
                assert(self@ =~= after_event(before, told));
                BridgeEffect { session, usage: None, completion, log, notify: true }
            },
            EventKind::Error => {
                let error = or_default(event.error, "Agent SDK bridge 错误");
                self.set_last_error(error.as_str());
                let completion = self.complete_pending(&event.job_id, Err(error.clone()));
                let detail = JsonObject::new().with("error", Json::Text(error)).with(
                    "detail",
                    Json::or_null(event.detail.as_ref()),
                );
                let source = or_default(event.source, "agent-sdk");
                let summary = or_default(event.summary, "Agent SDK 执行失败");
                let log = LogDraft::new(
                    LogLevel::Error,
                    source.as_str(),
                    None,
                    job_id,
                    summary.as_str(),
                    Some(Json::Object(detail)),
                );
                assert(self@ =~= after_event(before, told));
                BridgeEffect { session, usage: None, completion, log, notify: true }
            },
            EventKind::Unknown => {
                let mut summary = "Agent SDK bridge 未识别事件：".to_owned();
                summary.append(event.kind.as_str());
                let log = LogDraft::new(
                    LogLevel::Debug,
                    "agent-bridge",
                    None,
                    job_id,
                    summary.as_str(),
                    event.detail,
                );
                assert(self@ =~= after_event(before, told));
                BridgeEffect { session, usage: None, completion: None, log, notify: false }
            },
        }
    }

    /// Takes the ticket of a job out, where it has one.
    fn complete_pending(&mut self, job_id: &Option<String>, outcome: Result<String, String>) -> (
        completion: Option<(u64, Result<String, String>)>)
        ensures
            match text::option_text(*job_id) {
                Some(id) => final(self)@ == (BridgeView {
                    pending: old(self)@.pending.remove(id),
                    ..old(self)@
                }) && completion_view(completion) == (if old(self)@.pending.dom().contains(id) {
                    Some((old(self)@.pending[id], outcome_view(outcome)))
                } else {
                    None
                }),
                None => final(self)@ == old(self)@ && completion is None,
            },
    {
        match job_id {
            Some(id) => match pending_table::take_ticket(&mut self.pending, id.as_str()) {
                Some(ticket) => Some((ticket, outcome)),
                None => None,
            },
            None => None,
        }
    }

    /// Notes what the bridge says of itself.
    fn update_bridge_metadata(&mut self, event: &BridgeEvent)
        ensures
            final(self)@ == (BridgeView {
                sdk_version: if event@.sdk_version is Some {
                    event@.sdk_version
                } else {
                    old(self)@.sdk_version
                },
                native_binary_path: if event@.native_binary_path is Some {
                    event@.native_binary_path
                } else {
                    old(self)@.native_binary_path
                },
                ..old(self)@
            }),
    {
        if event.sdk_version.is_some() {
            self.sdk_version = text::copy_option(&event.sdk_version);
        }
        if event.native_binary_path.is_some() {
            self.native_binary_path = text::copy_option(&event.native_binary_path);
        }
    }

    /// Notes an error.
    pub fn set_last_error(&mut self, error: &str)
        ensures
            final(self)@ == (BridgeView { last_error: Some(error@), ..old(self)@ }),
    {
        self.last_error = Some(error.to_owned());
    }

    /// Enters a job that waits for the agent. Gives its ticket.
    pub fn enter_job(&mut self, job_id: &str) -> (ticket: u64)
        ensures
            ticket == old(self)@.next_ticket,
            final(self)@ == after_entry(old(self)@, job_id@),
    {
        let ticket: u64 = self.next_ticket;
        pending_table::put_ticket(&mut self.pending, job_id.to_owned(), ticket);
        self.next_ticket = ticket.wrapping_add(1);
        self.active_sessions = self.active_sessions.wrapping_add(1);
        ticket
    }

    /// Gives a job up that was not sent to the agent, or was cancelled.
    pub fn abandon_job(&mut self, job_id: &str)
        ensures
            final(self)@ == after_abandon(old(self)@, job_id@),
    {
        let ticket = pending_table::take_ticket(&mut self.pending, job_id);
        self.active_sessions = self.active_sessions.wrapping_sub(1);
    }

    /// Notes that the agent answered a job, or never will.
    pub fn leave_job(&mut self)
        ensures
            final(self)@ == (BridgeView {
                active_sessions: old(self)@.active_sessions.wrapping_sub(1),
                ..old(self)@
            }),
    {
        self.active_sessions = self.active_sessions.wrapping_sub(1);
    }

    /// Takes all tickets out.
    pub fn fail_all_pending(&mut self) -> (tickets: Vec<u64>)
        ensures
            final(self)@ == (BridgeView { pending: pending_table::no_tickets(), ..old(self)@ }),
            is_all_tickets(tickets@, old(self)@.pending),
    {
        let ghost before = self@;
        let list = pending_table::list_ids(&self.pending);
        let ghost ids = text::texts(list@);
        let mut tickets: Vec<u64> = Vec::new();
        let mut i: usize = 0;
        while i < list.len()
            invariant
                i <= list@.len(),
                ids == text::texts(list@),
                ids.no_duplicates(),
                ids.to_set() == before.pending.dom(),
                tickets@.len() == i,
                forall|k: int| 0 <= k < i ==> (#[trigger] tickets@[k]) == before.pending[ids[k]],
                self@ == (BridgeView { pending: self@.pending, ..before }),
                forall|id: Seq<char>| #[trigger]
                    self@.pending.dom().contains(id) == (before.pending.dom().contains(id)
                        && !ids.take(i as int).contains(id)),
                forall|id: Seq<char>| #[trigger]
                    self@.pending.dom().contains(id) ==> self@.pending[id] == before.pending[id],
            decreases list@.len() - i,
        {
            proof {
                assert(ids.to_set().contains(ids[i as int]));
                if ids.take(i as int).contains(ids[i as int]) {
                    let short = ids.take(i as int);
                    let k = choose|k: int| 0 <= k < short.len() && short[k] == ids[i as int];
                    assert(ids[k] == ids[i as int]);
                }
                assert(self@.pending.dom().contains(ids[i as int]));
            }
            let ghost middle = self@;
            match pending_table::take_ticket(&mut self.pending, list[i].as_str()) {
                Some(ticket) => tickets.push(ticket),
                None => {},
            }
            proof {
                let short = ids.take(i as int);
                let long = ids.take(i + 1);
                assert(long =~= short.push(ids[i as int]));
                assert forall|id: Seq<char>| #[trigger]
                    self@.pending.dom().contains(id) == (before.pending.dom().contains(id)
                        && !long.contains(id)) by {
                    assert(long.contains(id) == (short.contains(id) || id == ids[i as int])) by {
                        if long.contains(id) {
                            let k = choose|k: int| 0 <= k < long.len() && long[k] == id;
                            if k < i {
                                assert(short[k] == id);
                            }
                        }
                        if short.contains(id) {
                            let k = choose|k: int| 0 <= k < short.len() && short[k] == id;
                            assert(long[k] == id);
                        }
                        assert(long[i as int] == ids[i as int]);
                    }
                    assert(middle.pending.dom().contains(id) == (before.pending.dom().contains(id)
                        && !short.contains(id)));
                }
                assert forall|id: Seq<char>| #[trigger]
                    self@.pending.dom().contains(id) implies self@.pending[id]
                    == before.pending[id] by {
                    assert(middle.pending.dom().contains(id));
                }
            }
            i += 1;
        }
        proof {
            assert(ids.take(list@.len() as int) =~= ids);
            assert forall|id: Seq<char>| !#[trigger] self@.pending.dom().contains(id) by {
                assert(ids.to_set().contains(id) == before.pending.dom().contains(id));
            }
            assert(self@.pending =~= pending_table::no_tickets());
            assert(lists_tickets(ids, tickets@, before.pending));
        }
        tickets
    }
}

// ---------------------------------------------------------------------------
// Starting and ending the bridge
// ---------------------------------------------------------------------------

/// How the process of the bridge ended.
#[derive(Debug)]
pub enum BridgeExit {
    /// With an exit code, where there was one, and whether that means success.
    Exited(Option<i32>, bool),
    /// It is not known; with the message of the error.
    Lost(String),
}

/// What is logged when the process of the bridge ends.
pub open spec fn exit_log(exit: BridgeExit) -> LogDraftView {
    let (level, summary, detail) = match exit {
        BridgeExit::Exited(code, success) => (
            if success {
                LogLevel::Info
            } else {
                LogLevel::Error
            },
            if success {
                "Agent SDK bridge 已退出"@
            } else {
                "Agent SDK bridge 异常退出"@
            },
            json::no_fields().insert(
                "status"@,
                match code {
                    Some(n) => JsonTree::Integer(n as int),
                    None => JsonTree::Null,
                },
            ),
        ),
        BridgeExit::Lost(error) => (
            LogLevel::Error,
            "Agent SDK bridge 等待失败"@,
            json::no_fields().insert("error"@, JsonTree::Text(error@)),
        ),
    };
    LogDraftView {
        level,
        source: "agent-bridge"@,
        request_id: None,
        task_id: None,
        summary,
        detail: Some(JsonTree::Object(detail)),
    }
}

/// What the jobs are told that still wait when the process of the bridge ends: nothing,
/// where it ended as it should.
pub open spec fn exit_reason(exit: BridgeExit) -> Option<Seq<char>> {
    match exit {
        BridgeExit::Exited(_, success) => if success {
            None
        } else {
            Some("Agent SDK bridge 异常退出"@)
        },
        BridgeExit::Lost(_) => Some("Agent SDK bridge 等待失败"@),
    }
}

/// What to do when the process of the bridge has ended.
#[derive(Debug)]
pub struct ExitEffect {
    /// What to log.
    pub log: LogDraft,
    /// The tickets whose jobs fail.
    pub tickets: Vec<u64>,
    /// Why they fail.
    pub reason: Option<String>,
}

/// The bridge when it is about to be started.
pub open spec fn after_launch(
    bridge: BridgeView,
    script: Seq<char>,
    node: Seq<char>,
) -> BridgeView {
    BridgeView { bridge_script: Some(script), node_executable: node, ..bridge }
}

/// The bridge when its process is running.
pub open spec fn after_start(bridge: BridgeView) -> BridgeView {
    BridgeView { started: true, ..bridge }
}

/// The bridge when its process has ended.
pub open spec fn after_exit(bridge: BridgeView, exit: BridgeExit) -> BridgeView {
    BridgeView {
        started: false,
        pending: if exit_reason(exit) is Some {
            pending_table::no_tickets()
        } else {
            bridge.pending
        },
        last_error: match exit {
            BridgeExit::Lost(error) => Some(error@),
            _ => bridge.last_error,
        },
        ..bridge
    }
}

/// What to do before the bridge is used.
#[derive(Debug)]
pub enum StartPlan {
    /// Nothing: its process is running.
    Running,
    /// Start it with this script.
    Launch(String),
    /// Give up; with the reason.
    Refuse(String),
}

/// What is to be done before the bridge is used.
pub enum StartView {
    Running,
    Launch(Seq<char>),
    Refuse(Seq<char>),
}

impl View for StartPlan {
    type V = StartView;

    open spec fn view(&self) -> StartView {
        match *self {
            StartPlan::Running => StartView::Running,
            StartPlan::Launch(script) => StartView::Launch(script@),
            StartPlan::Refuse(reason) => StartView::Refuse(reason@),
        }
    }
}

/// Whether no two jobs wait with the same ticket, and none with one that is still to come.
pub open spec fn tickets_are_in_order(bridge: BridgeView) -> bool {
    &&& tickets_differ(bridge.pending)
    &&& forall|id: Seq<char>|
        bridge.pending.dom().contains(id) ==> #[trigger] bridge.pending[id] < bridge.next_ticket
}

/// No two jobs ever wait with the same ticket, whatever the bridge does, until the numbers
/// of tickets are used up.
pub proof fn law_tickets_stay_in_order(
    bridge: BridgeView,
    node: Seq<char>,
    job_id: Seq<char>,
    event: EventView,
    exit: BridgeExit,
)
    requires
        tickets_are_in_order(bridge),
        bridge.next_ticket < u64::MAX,
    ensures
        tickets_are_in_order(idle_bridge(node)),
        tickets_are_in_order(after_entry(bridge, job_id)),
        tickets_are_in_order(after_abandon(bridge, job_id)),
        tickets_are_in_order(after_event(bridge, event)),
        tickets_are_in_order(after_exit(bridge, exit)),
{
    let entered = after_entry(bridge, job_id).pending;
    assert forall|a: Seq<char>, b: Seq<char>|
        entered.dom().contains(a) && entered.dom().contains(b) && a != b implies
        #[trigger] entered[a] != #[trigger] entered[b] by {
        if a != job_id {
            assert(entered[a] == bridge.pending[a]);
        }
        if b != job_id {
            assert(entered[b] == bridge.pending[b]);
        }
    }
}

/// What is to be done before the bridge is used, where its script was found or not.
pub open spec fn start_plan(bridge: BridgeView, script: Option<Seq<char>>) -> StartView {
    if bridge.started {
        StartView::Running
    } else {
        match script {
            Some(path) => StartView::Launch(path),
            None => StartView::Refuse(NO_SCRIPT@),
        }
    }
}

/// The bridge after an attempt to have it running, and the error where it is not: where the
/// plan is to launch it, `spawn_error` says why the process could not be started, if so.
pub open spec fn ensured(
    bridge: BridgeView,
    script: Option<Seq<char>>,
    node: Seq<char>,
    spawn_error: Option<Seq<char>>,
) -> (BridgeView, Option<Seq<char>>) {
    match start_plan(bridge, script) {
        StartView::Running => (bridge, None),
        StartView::Refuse(reason) => (bridge, Some(reason)),
        StartView::Launch(path) => {
            let launched = after_launch(bridge, path, node);
            match spawn_error {
                Some(error) => (launched, Some(launch_text(error))),
                None => (after_start(launched), None),
            }
        },
    }
}

/// Once its process runs, the bridge is not started again, whatever script is found, until
/// the process ends. Where there is no script, or the process cannot be started, the next
/// job tries again.
pub proof fn law_the_bridge_is_started_once(
    bridge: BridgeView,
    script: Seq<char>,
    node: Seq<char>,
    found: Option<Seq<char>>,
    exit: BridgeExit,
)
    ensures
        start_plan(after_start(bridge), found) == StartView::Running,
        start_plan(after_launch(bridge, script, node), found) == start_plan(bridge, found),
        !(start_plan(after_exit(bridge, exit), found) is Running),
        start_plan(after_exit(bridge, exit), Some(script)) == StartView::Launch(script),
{
}

impl AgentBridge {
    /// Says what to do before the bridge is used, where its script was found or not.
    pub fn plan_start(&self, script: Option<String>) -> (plan: StartPlan)
        ensures
            plan@ == start_plan(self@, text::option_text(script)),
    {
        if self.started {
            return StartPlan::Running;
        }
        match script {
            Some(path) => StartPlan::Launch(path),
            None => StartPlan::Refuse(NO_SCRIPT.to_owned()),
        }
    }

    /// Tests whether the process of the bridge is running.
    pub fn is_started(&self) -> (started: bool)
        ensures
            started == self@.started,
    {
        self.started
    }

    /// Notes what the bridge is about to be started with.
    pub fn note_launch(&mut self, script: &str, node: &str)
        ensures
            final(self)@ == after_launch(old(self)@, script@, node@),
    {
        self.bridge_script = Some(script.to_owned());
        self.node_executable = node.to_owned();
    }

    /// Notes that the process of the bridge is running. Gives what to log.
    pub fn note_started(&mut self, script: &str, node: &str) -> (log: LogDraft)
        ensures
            final(self)@ == after_start(old(self)@),
            log@ == (LogDraftView {
                level: LogLevel::Info,
                source: "agent-bridge"@,
                request_id: None,
                task_id: None,
                summary: "Agent SDK bridge 已启动"@,
                detail: Some(
                    JsonTree::Object(
                        json::no_fields().insert("script"@, JsonTree::Text(script@)).insert(
                            "node"@,
                            JsonTree::Text(node@),
                        ),
                    ),
                ),
            }),
    {
        self.started = true;
        let detail = JsonObject::new().with("script", Json::text(script)).with(
            "node",
            Json::text(node),
        );
        LogDraft::new(
            LogLevel::Info,
            "agent-bridge",
            None,
            None,
            "Agent SDK bridge 已启动",
            Some(Json::Object(detail)),
        )
    }

    /// Notes that the process of the bridge has ended. Says what to do about it.
    pub fn note_exit(&mut self, exit: BridgeExit) -> (effect: ExitEffect)
        ensures
            effect.log@ == exit_log(exit),
            text::option_text(effect.reason) == exit_reason(exit),
            final(self)@ == after_exit(old(self)@, exit),
            exit_reason(exit) is Some ==> is_all_tickets(effect.tickets@, old(self)@.pending),
            exit_reason(exit) is None ==> effect.tickets@.len() == 0,
    {
        self.started = false;
        match exit {
            BridgeExit::Exited(code, success) => {
                let status = match code {
                    Some(n) => Json::Signed(n as i64),
                    None => Json::Null,
                };
                let detail = Some(Json::Object(JsonObject::new().with("status", status)));
                if success {
                    let log = LogDraft::new(
                        LogLevel::Info,
                        "agent-bridge",
                        None,
                        None,
                        "Agent SDK bridge 已退出",
                        detail,
                    );
                    return ExitEffect { log, tickets: Vec::new(), reason: None };
                }
                let log = LogDraft::new(
                    LogLevel::Error,
                    "agent-bridge",
                    None,
                    None,
                    "Agent SDK bridge 异常退出",
                    detail,
                );
                let tickets = self.fail_all_pending();
                ExitEffect { log, tickets, reason: Some("Agent SDK bridge 异常退出".to_owned()) }
            },
            BridgeExit::Lost(error) => {
                self.set_last_error(error.as_str());
                let log = LogDraft::new(
                    LogLevel::Error,
                    "agent-bridge",
                    None,
                    None,
                    "Agent SDK bridge 等待失败",
                    Some(Json::Object(JsonObject::new().with("error", Json::Text(error)))),
                );
                let tickets = self.fail_all_pending();
                ExitEffect { log, tickets, reason: Some("Agent SDK bridge 等待失败".to_owned()) }
            },
        }
    }
}

/// The error when the process of the bridge cannot be started.
pub open spec fn launch_text(error: Seq<char>) -> Seq<char> {
    "无法启动 Agent SDK bridge（需要可用的 Node.js 18+）："@ + error
}

/// The error when the process of the bridge cannot be started.
pub fn launch_error(error: &str) -> (message: String)
    ensures
        message@ == launch_text(error@),
{
    let mut message = "无法启动 Agent SDK bridge（需要可用的 Node.js 18+）：".to_owned();
    message.append(error);
    message
}

/// The error when the script of the bridge is not found.
pub const NO_SCRIPT: &'static str = "找不到 Agent SDK bridge 脚本";

/// The error when the bridge is not running.
pub const NOT_STARTED: &'static str = "Agent SDK bridge 尚未启动";

/// The error when the bridge never answered.
pub const NO_ANSWER: &'static str = "Agent SDK bridge 没有返回任务结果";

/// The command that runs the bridge, unless another one is configured.
pub fn node_executable(configured: Option<String>) -> (node: String)
    ensures
        node@ == text_or(text::option_text(configured), "node"@),
{
    or_default(configured, "node")
}

/// Where the script of the bridge may be, the first place to look coming first.
pub open spec fn candidates(
    separator: char,
    current_dir: Option<Seq<char>>,
    exe_dir: Option<Seq<char>>,
    contents_dir: Option<Seq<char>>,
) -> Seq<Seq<char>> {
    let near = match current_dir {
        Some(dir) => seq![
            tools::resolved(separator, dir, "agent-bridge/bridge.mjs"@),
            tools::resolved(separator, dir, "../agent-bridge/bridge.mjs"@),
        ],
        None => seq![],
    };
    let installed = match exe_dir {
        Some(dir) => seq![
            tools::resolved(separator, dir, "agent-bridge/bridge.mjs"@),
            tools::resolved(separator, dir, "resources/agent-bridge/bridge.mjs"@),
        ] + (match contents_dir {
            Some(contents) => seq![
                tools::resolved(separator, contents, "Resources/agent-bridge/bridge.mjs"@),
            ],
            None => seq![],
        }),
        None => seq![],
    };
    near + installed
}

/// Where the script of the bridge may be, the first place to look coming first.
pub fn bridge_candidates(
    platform: &Platform,
    current_dir: Option<String>,
    exe_dir: Option<String>,
    contents_dir: Option<String>,
) -> (paths: Vec<String>)
    ensures
        text::texts(paths@) == candidates(
            platform.separator(),
            text::option_text(current_dir),
            text::option_text(exe_dir),
            text::option_text(contents_dir),
        ),
{
    let mut paths: Vec<String> = Vec::new();
    if let Some(dir) = &current_dir {
        paths.push(tools::resolve_path(platform, dir.as_str(), "agent-bridge/bridge.mjs"));
        paths.push(tools::resolve_path(platform, dir.as_str(), "../agent-bridge/bridge.mjs"));
    }
    if let Some(dir) = &exe_dir {
        paths.push(tools::resolve_path(platform, dir.as_str(), "agent-bridge/bridge.mjs"));
        paths.push(
            tools::resolve_path(platform, dir.as_str(), "resources/agent-bridge/bridge.mjs"),
        );
        if let Some(contents) = &contents_dir {
            paths.push(
                tools::resolve_path(
                    platform,
                    contents.as_str(),
                    "Resources/agent-bridge/bridge.mjs",
                ),
            );
        }
    }
    assert(text::texts(paths@) =~= candidates(
        platform.separator(),
        text::option_text(current_dir),
        text::option_text(exe_dir),
        text::option_text(contents_dir),
    ));
    paths
}

// ---------------------------------------------------------------------------
// Lines
// ---------------------------------------------------------------------------

/// The line that starts a job. Where an earlier session is to be resumed, it is named.
pub open spec fn start_line(
    job_id: Seq<char>,
    prompt: Seq<char>,
    cwd: Seq<char>,
    runtime: SdkRuntimeConfig,
    resume_session_id: Option<Seq<char>>,
) -> JsonTree {
    let fields = json::no_fields().insert("type"@, json::txt("start")).insert(
        "job_id"@,
        JsonTree::Text(job_id),
    ).insert("prompt"@, JsonTree::Text(prompt)).insert("cwd"@, JsonTree::Text(cwd)).insert(
        "api_key"@,
        JsonTree::Text(runtime.api_key@),
    ).insert("base_url"@, JsonTree::Text(runtime.base_url@)).insert(
        "model"@,
        JsonTree::Text(runtime.model@),
    );
    match resume_session_id {
        Some(session) => JsonTree::Object(
            fields.insert("resume_session_id"@, JsonTree::Text(session)),
        ),
        None => JsonTree::Object(fields),
    }
}

/// The line that starts a job.
pub fn start_message(
    job_id: &str,
    prompt: &str,
    cwd: &str,
    runtime: &SdkRuntimeConfig,
    resume_session_id: &Option<String>,
) -> (message: Json)
    ensures
        message.tree() == start_line(
            job_id@,
            prompt@,
            cwd@,
            *runtime,
            text::option_text(*resume_session_id),
        ),
{
    let fields = JsonObject::new().with("type", Json::text("start")).with(
        "job_id",
        Json::text(job_id),
    ).with("prompt", Json::text(prompt)).with("cwd", Json::text(cwd)).with(
        "api_key",
        Json::text(runtime.api_key.as_str()),
    ).with("base_url", Json::text(runtime.base_url.as_str())).with(
        "model",
        Json::text(runtime.model.as_str()),
    );
    match resume_session_id {
        Some(session) => Json::Object(
            fields.with("resume_session_id", Json::text(session.as_str())),
        ),
        None => Json::Object(fields),
    }
}

/// The line that cancels a job.
pub fn cancel_message(job_id: &str) -> (message: Json)
    ensures
        message.tree() == JsonTree::Object(
            json::no_fields().insert("type"@, json::txt("cancel")).insert(
                "job_id"@,
                JsonTree::Text(job_id@),
            ),
        ),
{
    Json::Object(
        JsonObject::new().with("type", Json::text("cancel")).with("job_id", Json::text(job_id)),
    )
}

/// A message as a line.
pub fn message_line(message: &Json) -> (line: String)
    ensures
        line@ == json::written(message.tree()).push('\n'),
{
    let mut line = message.to_text();
    line.push('\n');
    line
}

/// What to log of a line from the bridge that cannot be read.
pub fn unreadable_line_log(error: &str, line: &str) -> (log: LogDraft)
    ensures
        log@ == (LogDraftView {
            level: LogLevel::Warn,
            source: "agent-bridge"@,
            request_id: None,
            task_id: None,
            summary: "Agent SDK bridge 输出无法解析"@,
            detail: Some(
                JsonTree::Object(
                    json::no_fields().insert("error"@, JsonTree::Text(error@)).insert(
                        "line"@,
                        JsonTree::Text(line@),
                    ),
                ),
            ),
        }),
{
    let detail = JsonObject::new().with("error", Json::text(error)).with("line", Json::text(line));
    LogDraft::new(
        LogLevel::Warn,
        "agent-bridge",
        None,
        None,
        "Agent SDK bridge 输出无法解析",
        Some(Json::Object(detail)),
    )
}

/// What to log of a line that the bridge wrote to its error output; nothing of a blank one.
pub fn stderr_log(line: &str) -> (log: Option<LogDraft>)
    ensures
        match log {
            Some(l) => !text::is_blank(line@) && l@ == (LogDraftView {
                level: LogLevel::Warn,
                source: "agent-bridge"@,
                request_id: None,
                task_id: None,
                summary: "Agent SDK bridge stderr"@,
                detail: Some(
                    JsonTree::Object(json::no_fields().insert("stderr"@, JsonTree::Text(line@))),
                ),
            }),
            None => text::is_blank(line@),
        },
{
    if text::blank(line) {
        return None;
    }
    Some(
        LogDraft::new(
            LogLevel::Warn,
            "agent-bridge",
            None,
            None,
            "Agent SDK bridge stderr",
            Some(Json::Object(JsonObject::new().with("stderr", Json::text(line)))),
        ),
    )
}

} // verus!
