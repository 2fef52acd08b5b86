//! What is said to the bridge of the agent, and what becomes of what it says.

use vstd::prelude::*;
use vstd::string::*;

use crate::agent_bridge;
use crate::agent_bridge::{BridgeExit, BridgeView, EventView, SdkRuntimeConfig, StartView};
use crate::json::JsonTree;
use crate::laws::answers;
use crate::logs::LogLevel;
use crate::tools;

verus! {

/// The words of the bridge are different ones.
proof fn lemma_event_words()
    ensures
        "ready"@ != "status_response"@,
        "ready"@ != "started"@,
        "ready"@ != "init"@,
        "ready"@ != "log"@,
        "ready"@ != "stream_summary"@,
        "ready"@ != "permission_denied"@,
        "ready"@ != "usage"@,
        "ready"@ != "done"@,
        "ready"@ != "cancelled"@,
        "ready"@ != "error"@,
        "ready"@ != "bridge_error"@,
        "ready"@ != "debug"@,
        "ready"@ != "info"@,
        "ready"@ != "warn"@,
        "status_response"@ != "started"@,
        "status_response"@ != "init"@,
        "status_response"@ != "log"@,
        "status_response"@ != "stream_summary"@,
        "status_response"@ != "permission_denied"@,
        "status_response"@ != "usage"@,
        "status_response"@ != "done"@,
        "status_response"@ != "cancelled"@,
        "status_response"@ != "error"@,
        "status_response"@ != "bridge_error"@,
        "status_response"@ != "debug"@,
        "status_response"@ != "info"@,
        "status_response"@ != "warn"@,
        "started"@ != "init"@,
        "started"@ != "log"@,
        "started"@ != "stream_summary"@,
        "started"@ != "permission_denied"@,
        "started"@ != "usage"@,
        "started"@ != "done"@,
        "started"@ != "cancelled"@,
        "started"@ != "error"@,
        "started"@ != "bridge_error"@,
        "started"@ != "debug"@,
        "started"@ != "info"@,
        "started"@ != "warn"@,
        "init"@ != "log"@,
        "init"@ != "stream_summary"@,
        "init"@ != "permission_denied"@,
        "init"@ != "usage"@,
        "init"@ != "done"@,
        "init"@ != "cancelled"@,
        "init"@ != "error"@,
        "init"@ != "bridge_error"@,
        "init"@ != "debug"@,
        "init"@ != "info"@,
        "init"@ != "warn"@,
        "log"@ != "stream_summary"@,
        "log"@ != "permission_denied"@,
        "log"@ != "usage"@,
        "log"@ != "done"@,
        "log"@ != "cancelled"@,
        "log"@ != "error"@,
        "log"@ != "bridge_error"@,
        "log"@ != "debug"@,
        "log"@ != "info"@,
        "log"@ != "warn"@,
        "stream_summary"@ != "permission_denied"@,
        "stream_summary"@ != "usage"@,
        "stream_summary"@ != "done"@,
        "stream_summary"@ != "cancelled"@,
        "stream_summary"@ != "error"@,
        "stream_summary"@ != "bridge_error"@,
        "stream_summary"@ != "debug"@,
        "stream_summary"@ != "info"@,
        "stream_summary"@ != "warn"@,
        "permission_denied"@ != "usage"@,
        "permission_denied"@ != "done"@,
        "permission_denied"@ != "cancelled"@,
        "permission_denied"@ != "error"@,
        "permission_denied"@ != "bridge_error"@,
        "permission_denied"@ != "debug"@,
        "permission_denied"@ != "info"@,
        "permission_denied"@ != "warn"@,
        "usage"@ != "done"@,
        "usage"@ != "cancelled"@,
        "usage"@ != "error"@,
        "usage"@ != "bridge_error"@,
        "usage"@ != "debug"@,
        "usage"@ != "info"@,
        "usage"@ != "warn"@,
        "done"@ != "cancelled"@,
        "done"@ != "error"@,
        "done"@ != "bridge_error"@,
        "done"@ != "debug"@,
        "done"@ != "info"@,
        "done"@ != "warn"@,
        "cancelled"@ != "error"@,
        "cancelled"@ != "bridge_error"@,
        "cancelled"@ != "debug"@,
        "cancelled"@ != "info"@,
        "cancelled"@ != "warn"@,
        "error"@ != "bridge_error"@,
        "error"@ != "debug"@,
        "error"@ != "info"@,
        "error"@ != "warn"@,
        "bridge_error"@ != "debug"@,
        "bridge_error"@ != "info"@,
        "bridge_error"@ != "warn"@,
        "debug"@ != "info"@,
        "debug"@ != "warn"@,
        "info"@ != "warn"@,
{
    reveal_strlit("ready");
    reveal_strlit("status_response");
    reveal_strlit("started");
    reveal_strlit("init");
    reveal_strlit("log");
    reveal_strlit("stream_summary");
    reveal_strlit("permission_denied");
    reveal_strlit("usage");
    reveal_strlit("done");
    reveal_strlit("cancelled");
    reveal_strlit("error");
    reveal_strlit("bridge_error");
    reveal_strlit("debug");
    reveal_strlit("info");
    reveal_strlit("warn");
    assert("ready"@.len() == 5);
    assert("status_response"@.len() == 15);
    assert("started"@.len() == 7);
    assert("init"@.len() == 4);
    assert("log"@.len() == 3);
    assert("stream_summary"@.len() == 14);
    assert("permission_denied"@.len() == 17);
    assert("usage"@.len() == 5);
    assert("done"@.len() == 4);
    assert("cancelled"@.len() == 9);
    assert("error"@.len() == 5);
    assert("bridge_error"@.len() == 12);
    assert("debug"@.len() == 5);
    assert("info"@.len() == 4);
    assert("warn"@.len() == 4);
    assert("ready"@[0] == 'r' && "usage"@[0] == 'u');
    assert("ready"@[0] == 'r' && "error"@[0] == 'e');
    assert("ready"@[0] == 'r' && "debug"@[0] == 'd');
    assert("init"@[0] == 'i' && "done"@[0] == 'd');
    assert("init"@[2] == 'i' && "info"@[2] == 'f');
    assert("init"@[0] == 'i' && "warn"@[0] == 'w');
    assert("usage"@[0] == 'u' && "error"@[0] == 'e');
    assert("usage"@[0] == 'u' && "debug"@[0] == 'd');
    assert("done"@[0] == 'd' && "info"@[0] == 'i');
    assert("done"@[0] == 'd' && "warn"@[0] == 'w');
    assert("error"@[0] == 'e' && "debug"@[0] == 'd');
    assert("info"@[0] == 'i' && "warn"@[0] == 'w');
}

/// The words of what is sent and logged are different ones.
proof fn lemma_line_words()
    ensures
        "type"@ != "job_id"@,
        "type"@ != "prompt"@,
        "type"@ != "cwd"@,
        "type"@ != "api_key"@,
        "type"@ != "base_url"@,
        "type"@ != "model"@,
        "type"@ != "resume_session_id"@,
        "type"@ != "sdk_version"@,
        "type"@ != "native_binary_path"@,
        "type"@ != "active_jobs"@,
        "type"@ != "node"@,
        "type"@ != "platform"@,
        "type"@ != "arch"@,
        "type"@ != "session_id"@,
        "type"@ != "detail"@,
        "type"@ != "error"@,
        "type"@ != "status"@,
        "job_id"@ != "prompt"@,
        "job_id"@ != "cwd"@,
        "job_id"@ != "api_key"@,
        "job_id"@ != "base_url"@,
        "job_id"@ != "model"@,
        "job_id"@ != "resume_session_id"@,
        "job_id"@ != "sdk_version"@,
        "job_id"@ != "native_binary_path"@,
        "job_id"@ != "active_jobs"@,
        "job_id"@ != "node"@,
        "job_id"@ != "platform"@,
        "job_id"@ != "arch"@,
        "job_id"@ != "session_id"@,
        "job_id"@ != "detail"@,
        "job_id"@ != "error"@,
        "job_id"@ != "status"@,
        "prompt"@ != "cwd"@,
        "prompt"@ != "api_key"@,
        "prompt"@ != "base_url"@,
        "prompt"@ != "model"@,
        "prompt"@ != "resume_session_id"@,
        "prompt"@ != "sdk_version"@,
        "prompt"@ != "native_binary_path"@,
        "prompt"@ != "active_jobs"@,
        "prompt"@ != "node"@,
        "prompt"@ != "platform"@,
        "prompt"@ != "arch"@,
        "prompt"@ != "session_id"@,
        "prompt"@ != "detail"@,
        "prompt"@ != "error"@,
        "prompt"@ != "status"@,
        "cwd"@ != "api_key"@,
        "cwd"@ != "base_url"@,
        "cwd"@ != "model"@,
        "cwd"@ != "resume_session_id"@,
        "cwd"@ != "sdk_version"@,
        "cwd"@ != "native_binary_path"@,
        "cwd"@ != "active_jobs"@,
        "cwd"@ != "node"@,
        "cwd"@ != "platform"@,
        "cwd"@ != "arch"@,
        "cwd"@ != "session_id"@,
        "cwd"@ != "detail"@,
        "cwd"@ != "error"@,
        "cwd"@ != "status"@,
        "api_key"@ != "base_url"@,
        "api_key"@ != "model"@,
        "api_key"@ != "resume_session_id"@,
        "api_key"@ != "sdk_version"@,
        "api_key"@ != "native_binary_path"@,
        "api_key"@ != "active_jobs"@,
        "api_key"@ != "node"@,
        "api_key"@ != "platform"@,
        "api_key"@ != "arch"@,
        "api_key"@ != "session_id"@,
        "api_key"@ != "detail"@,
        "api_key"@ != "error"@,
        "api_key"@ != "status"@,
        "base_url"@ != "model"@,
        "base_url"@ != "resume_session_id"@,
        "base_url"@ != "sdk_version"@,
        "base_url"@ != "native_binary_path"@,
        "base_url"@ != "active_jobs"@,
        "base_url"@ != "node"@,
        "base_url"@ != "platform"@,
        "base_url"@ != "arch"@,
        "base_url"@ != "session_id"@,
        "base_url"@ != "detail"@,
        "base_url"@ != "error"@,
        "base_url"@ != "status"@,
        "model"@ != "resume_session_id"@,
        "model"@ != "sdk_version"@,
        "model"@ != "native_binary_path"@,
        "model"@ != "active_jobs"@,
        "model"@ != "node"@,
        "model"@ != "platform"@,
        "model"@ != "arch"@,
        "model"@ != "session_id"@,
        "model"@ != "detail"@,
        "model"@ != "error"@,
        "model"@ != "status"@,
        "resume_session_id"@ != "sdk_version"@,
        "resume_session_id"@ != "native_binary_path"@,
        "resume_session_id"@ != "active_jobs"@,
        "resume_session_id"@ != "node"@,
        "resume_session_id"@ != "platform"@,
        "resume_session_id"@ != "arch"@,
        "resume_session_id"@ != "session_id"@,
        "resume_session_id"@ != "detail"@,
        "resume_session_id"@ != "error"@,
        "resume_session_id"@ != "status"@,
        "sdk_version"@ != "native_binary_path"@,
        "sdk_version"@ != "active_jobs"@,
        "sdk_version"@ != "node"@,
        "sdk_version"@ != "platform"@,
        "sdk_version"@ != "arch"@,
        "sdk_version"@ != "session_id"@,
        "sdk_version"@ != "detail"@,
        "sdk_version"@ != "error"@,
        "sdk_version"@ != "status"@,
        "native_binary_path"@ != "active_jobs"@,
        "native_binary_path"@ != "node"@,
        "native_binary_path"@ != "platform"@,
        "native_binary_path"@ != "arch"@,
        "native_binary_path"@ != "session_id"@,
        "native_binary_path"@ != "detail"@,
        "native_binary_path"@ != "error"@,
        "native_binary_path"@ != "status"@,
        "active_jobs"@ != "node"@,
        "active_jobs"@ != "platform"@,
        "active_jobs"@ != "arch"@,
        "active_jobs"@ != "session_id"@,
        "active_jobs"@ != "detail"@,
        "active_jobs"@ != "error"@,
        "active_jobs"@ != "status"@,
        "node"@ != "platform"@,
        "node"@ != "arch"@,
        "node"@ != "session_id"@,
        "node"@ != "detail"@,
        "node"@ != "error"@,
        "node"@ != "status"@,
        "platform"@ != "arch"@,
        "platform"@ != "session_id"@,
        "platform"@ != "detail"@,
        "platform"@ != "error"@,
        "platform"@ != "status"@,
        "arch"@ != "session_id"@,
        "arch"@ != "detail"@,
        "arch"@ != "error"@,
        "arch"@ != "status"@,
        "session_id"@ != "detail"@,
        "session_id"@ != "error"@,
        "session_id"@ != "status"@,
        "detail"@ != "error"@,
        "detail"@ != "status"@,
        "error"@ != "status"@,
{
    reveal_strlit("type");
    reveal_strlit("job_id");
    reveal_strlit("prompt");
    reveal_strlit("cwd");
    reveal_strlit("api_key");
    reveal_strlit("base_url");
    reveal_strlit("model");
    reveal_strlit("resume_session_id");
    reveal_strlit("sdk_version");
    reveal_strlit("native_binary_path");
    reveal_strlit("active_jobs");
    reveal_strlit("node");
    reveal_strlit("platform");
    reveal_strlit("arch");
    reveal_strlit("session_id");
    reveal_strlit("detail");
    reveal_strlit("error");
    reveal_strlit("status");
    assert("type"@.len() == 4);
    assert("job_id"@.len() == 6);
    assert("prompt"@.len() == 6);
    assert("cwd"@.len() == 3);
    assert("api_key"@.len() == 7);
    assert("base_url"@.len() == 8);
    assert("model"@.len() == 5);
    assert("resume_session_id"@.len() == 17);
    assert("sdk_version"@.len() == 11);
    assert("native_binary_path"@.len() == 18);
    assert("active_jobs"@.len() == 11);
    assert("node"@.len() == 4);
    assert("platform"@.len() == 8);
    assert("arch"@.len() == 4);
    assert("session_id"@.len() == 10);
    assert("detail"@.len() == 6);
    assert("error"@.len() == 5);
    assert("status"@.len() == 6);
    assert("type"@[0] == 't' && "node"@[0] == 'n');
    assert("type"@[0] == 't' && "arch"@[0] == 'a');
    assert("job_id"@[0] == 'j' && "prompt"@[0] == 'p');
    assert("job_id"@[0] == 'j' && "detail"@[0] == 'd');
    assert("job_id"@[0] == 'j' && "status"@[0] == 's');
    assert("prompt"@[0] == 'p' && "detail"@[0] == 'd');
    assert("prompt"@[0] == 'p' && "status"@[0] == 's');
    assert("base_url"@[0] == 'b' && "platform"@[0] == 'p');
    assert("model"@[0] == 'm' && "error"@[0] == 'e');
    assert("sdk_version"@[0] == 's' && "active_jobs"@[0] == 'a');
    assert("node"@[0] == 'n' && "arch"@[0] == 'a');
    assert("detail"@[0] == 'd' && "status"@[0] == 's');
}

/// Each event is taken for what its name says; of a name that is not known nothing is expected.
pub proof fn law_events_are_known_by_name(name: Seq<char>)
    ensures
        ({
            let kind = agent_bridge::kind_of(name);
            &&& kind is Ready <==> name == "ready"@
            &&& kind is Status <==> name == "status_response"@
            &&& kind is Progress <==> name == "started"@ || name == "init"@ || name == "log"@ || name
                == "stream_summary"@
            &&& kind is Denied <==> name == "permission_denied"@
            &&& kind is Usage <==> name == "usage"@
            &&& kind is Done <==> name == "done"@
            &&& kind is Cancelled <==> name == "cancelled"@
            &&& kind is Error <==> name == "error"@ || name == "bridge_error"@
        }),
{
    lemma_event_words();
}

/// A task ends with what the bridge says of it: its output where it is done, and its error where
/// it failed or was cancelled. No other event ends a task.
pub proof fn law_tasks_end_as_the_bridge_says(event: EventView)
    ensures
        ({
            let outcome = agent_bridge::event_outcome(event);
            let fails = event.kind == "error"@ || event.kind == "bridge_error"@;
            &&& outcome is Some <==> event.kind == "done"@ || event.kind == "cancelled"@ || fails
            &&& event.kind == "done"@ ==> (event.output matches Some(output) ==> outcome == Some(
                Ok::<Seq<char>, Seq<char>>(output),
            ))
            &&& event.kind == "done"@ && event.output is None ==> outcome == Some(
                Ok::<Seq<char>, Seq<char>>(Seq::empty()),
            )
            &&& event.kind == "cancelled"@ || fails ==> (event.error matches Some(error) ==> outcome
                == Some(Err::<Seq<char>, Seq<char>>(error)))
            &&& event.kind == "cancelled"@ && event.error is None ==> outcome == Some(
                Err::<Seq<char>, Seq<char>>("任务已取消"@),
            )
            &&& fails && event.error is None ==> outcome == Some(
                Err::<Seq<char>, Seq<char>>("Agent SDK bridge 错误"@),
            )
        }),
{
    lemma_event_words();
}

/// What an event reports is counted where it is a report, and the identifier of a session is
/// noted for the job of the event.
pub proof fn law_reports_and_sessions_are_taken(event: EventView)
    ensures
        event.kind == "usage"@ ==> agent_bridge::event_usage(event) == event.usage,
        event.kind != "usage"@ ==> agent_bridge::event_usage(event) is None,
        agent_bridge::event_session(event) matches Some((job_id, session_id)) ==> event.job_id
            == Some(job_id) && event.session_id == Some(session_id),
        agent_bridge::event_session(event) is None <==> event.job_id is None || event.session_id
            is None,
{
    lemma_event_words();
}

/// The job that is answered is the one that the event names, where it waits and the event ends it;
/// it waits no longer, and all others do.
pub proof fn law_the_job_of_the_event_is_answered(
    bridge: BridgeView,
    event: EventView,
    job_id: Seq<char>,
)
    ensures
        ({
            let after = agent_bridge::after_event(bridge, event);
            let ticket = agent_bridge::ended_ticket(bridge, event);
            let ends = event.kind == "done"@ || event.kind == "cancelled"@ || event.kind
                == "error"@ || event.kind == "bridge_error"@;
            &&& ticket is Some <==> ends && (event.job_id matches Some(id)
                && bridge.pending.dom().contains(id))
            &&& ticket matches Some(n) ==> n == bridge.pending[event.job_id->0]
            &&& ends && event.job_id == Some(job_id) ==> !after.pending.dom().contains(job_id)
            &&& !ends || event.job_id != Some(job_id) ==> (after.pending.dom().contains(job_id)
                <==> bridge.pending.dom().contains(job_id)) && (bridge.pending.dom().contains(job_id)
                ==> after.pending[job_id] == bridge.pending[job_id])
        }),
{
    lemma_event_words();
    law_tasks_end_as_the_bridge_says(event);
}

/// What the bridge says of itself is noted when it is ready or asked, and its last error when it
/// fails; nothing else of it changes by an event.
pub proof fn law_the_bridge_is_noted(bridge: BridgeView, event: EventView)
    ensures
        ({
            let after = agent_bridge::after_event(bridge, event);
            let told = event.kind == "ready"@ || event.kind == "status_response"@;
            let fails = event.kind == "error"@ || event.kind == "bridge_error"@;
            &&& after.started == bridge.started
            &&& after.next_ticket == bridge.next_ticket
            &&& after.bridge_script == bridge.bridge_script
            &&& after.node_executable == bridge.node_executable
            &&& after.active_sessions == bridge.active_sessions
            &&& told && event.sdk_version is Some ==> after.sdk_version == event.sdk_version
            &&& !told || event.sdk_version is None ==> after.sdk_version == bridge.sdk_version
            &&& told && event.native_binary_path is Some ==> after.native_binary_path
                == event.native_binary_path
            &&& !told || event.native_binary_path is None ==> after.native_binary_path
                == bridge.native_binary_path
            &&& !fails ==> after.last_error == bridge.last_error
            &&& fails && event.error is Some ==> after.last_error == event.error
            &&& fails && event.error is None ==> after.last_error == Some("Agent SDK bridge 错误"@)
        }),
{
    lemma_event_words();
}

/// A job that is handed to the bridge waits with the next ticket, and is counted while it does;
/// one that is given up waits no longer.
pub proof fn law_jobs_wait_with_their_ticket(
    bridge: BridgeView,
    job_id: Seq<char>,
    other: Seq<char>,
)
    ensures
        ({
            let after = agent_bridge::after_entry(bridge, job_id);
            let left = agent_bridge::after_abandon(bridge, job_id);
            &&& after.pending.dom().contains(job_id)
            &&& after.pending[job_id] == bridge.next_ticket
            &&& bridge.next_ticket < u64::MAX ==> after.next_ticket == bridge.next_ticket + 1
            &&& bridge.active_sessions < usize::MAX ==> after.active_sessions
                == bridge.active_sessions + 1
            &&& !left.pending.dom().contains(job_id)
            &&& left.next_ticket == bridge.next_ticket
            &&& bridge.active_sessions > 0 ==> left.active_sessions == bridge.active_sessions - 1
            &&& other != job_id ==> (after.pending.dom().contains(other)
                <==> bridge.pending.dom().contains(other)) && (left.pending.dom().contains(other)
                <==> bridge.pending.dom().contains(other))
            &&& other != job_id && bridge.pending.dom().contains(other) ==> after.pending[other]
                == bridge.pending[other] && left.pending[other] == bridge.pending[other]
            &&& after.started == bridge.started && left.started == bridge.started
            &&& after.last_error == bridge.last_error && left.last_error == bridge.last_error
        }),
{
}

/// A bridge begins without a process and without jobs.
pub proof fn law_the_bridge_begins_idle(node: Seq<char>, job_id: Seq<char>)
    ensures
        ({
            let bridge = agent_bridge::idle_bridge(node);
            &&& !bridge.started
            &&& !bridge.pending.dom().contains(job_id)
            &&& bridge.next_ticket == 0
            &&& bridge.active_sessions == 0
            &&& bridge.node_executable == node
            &&& bridge.sdk_version is None
            &&& bridge.native_binary_path is None
            &&& bridge.bridge_script is None
            &&& bridge.last_error is None
        }),
{
}

/// When the process ends the bridge does not run. Where it did not end well no job waits any
/// longer, and each is told why; where it did they wait on.
pub proof fn law_jobs_are_told_of_the_end(bridge: BridgeView, exit: BridgeExit, job_id: Seq<char>)
    ensures
        ({
            let after = agent_bridge::after_exit(bridge, exit);
            let reason = agent_bridge::exit_reason(exit);
            &&& !after.started
            &&& after.next_ticket == bridge.next_ticket
            &&& after.active_sessions == bridge.active_sessions
            &&& after.sdk_version == bridge.sdk_version
            &&& after.native_binary_path == bridge.native_binary_path
            &&& after.bridge_script == bridge.bridge_script
            &&& after.node_executable == bridge.node_executable
            &&& exit matches BridgeExit::Exited(_, true) ==> reason is None && after.pending
                == bridge.pending && after.last_error == bridge.last_error
            &&& exit matches BridgeExit::Exited(_, false) ==> reason == Some(
                "Agent SDK bridge 异常退出"@,
            ) && !after.pending.dom().contains(job_id) && after.last_error == bridge.last_error
            &&& exit matches BridgeExit::Lost(error) ==> reason == Some(
                "Agent SDK bridge 等待失败"@,
            ) && !after.pending.dom().contains(job_id) && after.last_error == Some(error@)
        }),
{
}

/// What is logged of the end says how the process ended.
pub proof fn law_the_end_is_logged(exit: BridgeExit)
    ensures
        ({
            let log = agent_bridge::exit_log(exit);
            &&& log.source == "agent-bridge"@
            &&& log.request_id is None && log.task_id is None
            &&& log.level == LogLevel::Info <==> (exit matches BridgeExit::Exited(_, true))
            &&& log.level == LogLevel::Error <==> !(exit matches BridgeExit::Exited(_, true))
            &&& exit matches BridgeExit::Exited(Some(code), _) ==> (log.detail matches Some(detail)
                && detail.get("status"@) == Some(JsonTree::Integer(code as int)))
            &&& exit matches BridgeExit::Exited(None, _) ==> (log.detail matches Some(detail)
                && detail.get("status"@) == Some(JsonTree::Null))
            &&& exit matches BridgeExit::Exited(_, true) ==> log.summary == "Agent SDK bridge 已退出"@
            &&& exit matches BridgeExit::Exited(_, false) ==> log.summary
                == "Agent SDK bridge 异常退出"@
            &&& exit matches BridgeExit::Lost(error) ==> log.summary == "Agent SDK bridge 等待失败"@
                && (log.detail matches Some(detail) && detail.get("error"@) == Some(
                JsonTree::Text(error@),
            ))
        }),
{
}

/// A bridge that runs is used as it is. One that does not is started with the script that was
/// found; where none was, or the process cannot be started, that is said.
pub proof fn law_the_bridge_is_started_when_needed(
    bridge: BridgeView,
    script: Option<Seq<char>>,
    node: Seq<char>,
    spawn_error: Option<Seq<char>>,
)
    ensures
        ({
            let plan = agent_bridge::start_plan(bridge, script);
            let (after, problem) = agent_bridge::ensured(bridge, script, node, spawn_error);
            &&& plan is Running <==> bridge.started
            &&& bridge.started ==> after == bridge && problem is None
            &&& !bridge.started && script is None ==> after == bridge && problem == Some(
                "找不到 Agent SDK bridge 脚本"@,
            )
            &&& !bridge.started ==> (script matches Some(path) ==> {
                &&& plan == StartView::Launch(path)
                &&& after.bridge_script == Some(path)
                &&& after.node_executable == node
                &&& after.started <==> spawn_error is None
                &&& spawn_error is None ==> problem is None
                &&& spawn_error matches Some(error) ==> problem == Some(
                    "无法启动 Agent SDK bridge（需要可用的 Node.js 18+）："@ + error,
                )
                &&& after.pending == bridge.pending
                &&& after.next_ticket == bridge.next_ticket
                &&& after.active_sessions == bridge.active_sessions
            })
        }),
{
}

/// What is sent to start a job names the job, what is asked and where, and the key, the address
/// and the model to use, with the session that goes on, if one does.
pub proof fn law_jobs_are_sent_as_asked(
    job_id: Seq<char>,
    prompt: Seq<char>,
    cwd: Seq<char>,
    runtime: SdkRuntimeConfig,
    session: Option<Seq<char>>,
)
    ensures
        ({
            let line = agent_bridge::start_line(job_id, prompt, cwd, runtime, session);
            &&& line.get("type"@) == Some(JsonTree::Text("start"@))
            &&& line.get("job_id"@) == Some(JsonTree::Text(job_id))
            &&& line.get("prompt"@) == Some(JsonTree::Text(prompt))
            &&& line.get("cwd"@) == Some(JsonTree::Text(cwd))
            &&& line.get("api_key"@) == Some(JsonTree::Text(runtime.api_key@))
            &&& line.get("base_url"@) == Some(JsonTree::Text(runtime.base_url@))
            &&& line.get("model"@) == Some(JsonTree::Text(runtime.model@))
            &&& session is None ==> line.get("resume_session_id"@) is None
            &&& session matches Some(id) ==> line.get("resume_session_id"@) == Some(
                JsonTree::Text(id),
            )
        }),
{
    lemma_line_words();
}

/// The script is looked for in the current directory and above it, then where the program is
/// installed.
pub proof fn law_the_script_is_looked_for(
    separator: char,
    current: Seq<char>,
    installed: Seq<char>,
    contents: Seq<char>,
)
    ensures
        ({
            let all = agent_bridge::candidates(
                separator,
                Some(current),
                Some(installed),
                Some(contents),
            );
            let near = agent_bridge::candidates(separator, Some(current), None, Some(contents));
            let far = agent_bridge::candidates(separator, None, Some(installed), None);
            let bundled = agent_bridge::candidates(
                separator,
                None,
                Some(installed),
                Some(contents),
            );
            let own = tools::resolved(separator, current, "agent-bridge/bridge.mjs"@);
            let above = tools::resolved(separator, current, "../agent-bridge/bridge.mjs"@);
            let beside = tools::resolved(separator, installed, "agent-bridge/bridge.mjs"@);
            let inside = tools::resolved(
                separator,
                installed,
                "resources/agent-bridge/bridge.mjs"@,
            );
            let bundle = tools::resolved(separator, contents, "Resources/agent-bridge/bridge.mjs"@);
            &&& all == seq![own, above, beside, inside, bundle]
            &&& near == seq![own, above]
            &&& far == seq![beside, inside]
            &&& bundled == seq![beside, inside, bundle]
            &&& agent_bridge::candidates(separator, None, None, Some(contents)).len() == 0
        }),
{
    let own = tools::resolved(separator, current, "agent-bridge/bridge.mjs"@);
    let above = tools::resolved(separator, current, "../agent-bridge/bridge.mjs"@);
    let beside = tools::resolved(separator, installed, "agent-bridge/bridge.mjs"@);
    let inside = tools::resolved(separator, installed, "resources/agent-bridge/bridge.mjs"@);
    let bundle = tools::resolved(separator, contents, "Resources/agent-bridge/bridge.mjs"@);
    assert(agent_bridge::candidates(separator, Some(current), Some(installed), Some(contents))
        =~= seq![own, above, beside, inside, bundle]);
    assert(agent_bridge::candidates(separator, Some(current), None, Some(contents)) =~= seq![
        own,
        above,
    ]);
    assert(agent_bridge::candidates(separator, None, Some(installed), None) =~= seq![
        beside,
        inside,
    ]);
    assert(agent_bridge::candidates(separator, None, Some(installed), Some(contents)) =~= seq![
        beside,
        inside,
        bundle,
    ]);
}

/// What the bridge says of itself is logged as it says it.
pub proof fn law_the_bridge_is_described(event: EventView)
    ensures
        ({
            let told = agent_bridge::metadata(event);
            &&& told.get("sdk_version"@) == Some(answers::text_or_null(event.sdk_version))
            &&& told.get("native_binary_path"@) == Some(
                answers::text_or_null(event.native_binary_path),
            )
            &&& told.get("active_jobs"@) == Some(
                match event.active_jobs {
                    Some(n) => JsonTree::Integer(n as int),
                    None => JsonTree::Null,
                },
            )
            &&& told.get("node"@) == Some(answers::text_or_null(event.node))
            &&& told.get("platform"@) == Some(answers::text_or_null(event.platform))
            &&& told.get("arch"@) == Some(answers::text_or_null(event.arch))
        }),
{
    lemma_line_words();
}

/// Every event is logged for its job, with what it tells: a failure as an error, what is denied or
/// cancelled as a warning, reports and what is not known for those who look closely.
pub proof fn law_events_are_logged(event: EventView)
    ensures
        ({
            let log = agent_bridge::event_log(event);
            let kind = agent_bridge::kind_of(event.kind);
            &&& log.task_id == event.job_id
            &&& kind is Ready || kind is Status ==> log.level == LogLevel::Info && log.source
                == "agent-bridge"@ && log.request_id == event.request_id && log.detail == Some(
                agent_bridge::metadata(event),
            )
            &&& !(kind is Ready || kind is Status) ==> log.request_id is None
            &&& kind is Ready ==> log.summary == "Agent SDK bridge 就绪"@
            &&& kind is Status ==> log.summary == "Agent SDK bridge 状态已更新"@
            &&& kind is Progress ==> {
                &&& event.level == Some("debug"@) ==> log.level == LogLevel::Debug
                &&& event.level == Some("warn"@) ==> log.level == LogLevel::Warn
                &&& event.level == Some("error"@) ==> log.level == LogLevel::Error
                &&& event.level != Some("debug"@) && event.level != Some("warn"@) && event.level
                    != Some("error"@) ==> log.level == LogLevel::Info
                &&& event.source matches Some(source) ==> log.source == source
                &&& event.source is None ==> log.source == "agent-sdk"@
                &&& event.summary matches Some(summary) ==> log.summary == summary
                &&& event.summary is None ==> log.summary == "Agent SDK 事件"@
                &&& log.detail == event.detail
            }
            &&& kind is Denied ==> log.level == LogLevel::Warn && log.source == "permission"@
                && log.detail == event.detail && (event.summary matches Some(summary)
                ==> log.summary == summary) && (event.summary is None ==> log.summary
                == "Agent SDK 权限已拒绝"@)
            &&& kind is Usage ==> log.level == LogLevel::Debug && log.source == "agent-sdk"@
                && log.summary == "Agent SDK usage 已记录"@ && log.detail == event.detail
            &&& kind is Done ==> {
                &&& log.level == LogLevel::Info
                &&& log.source == "agent-sdk"@
                &&& event.summary matches Some(summary) ==> log.summary == summary
                &&& event.summary is None ==> log.summary == "Agent SDK 任务完成"@
                &&& log.detail matches Some(detail) && detail.get("session_id"@) == Some(
                    answers::text_or_null(event.session_id),
                ) && (event.detail is Some ==> detail.get("detail"@) == event.detail) && (
                event.detail is None ==> detail.get("detail"@) == Some(JsonTree::Null))
            }
            &&& kind is Cancelled ==> log.level == LogLevel::Warn && log.source == "agent-sdk"@
                && log.summary == "Agent SDK 任务已取消"@ && log.detail == event.detail
            &&& kind is Error ==> {
                &&& log.level == LogLevel::Error
                &&& event.source matches Some(source) ==> log.source == source
                &&& event.source is None ==> log.source == "agent-sdk"@
                &&& event.summary matches Some(summary) ==> log.summary == summary
                &&& event.summary is None ==> log.summary == "Agent SDK 执行失败"@
                &&& log.detail matches Some(detail) && (event.error matches Some(error)
                    ==> detail.get("error"@) == Some(JsonTree::Text(error))) && (event.detail
                    is Some ==> detail.get("detail"@) == event.detail) && (event.detail is None
                    ==> detail.get("detail"@) == Some(JsonTree::Null))
            }
            &&& kind is Unknown ==> log.level == LogLevel::Debug && log.source == "agent-bridge"@
                && log.summary == "Agent SDK bridge 未识别事件："@ + event.kind && log.detail
                == event.detail
        }),
{
    lemma_event_words();
    lemma_line_words();
}

} // verus!
