//! Which agent runs a job, and what happens when it cannot.

use vstd::prelude::*;
use vstd::string::*;

use crate::agent_bridge;
use crate::agent_bridge::{AgentBridge, AgentRuntimeStatus, BridgeView, SdkRuntimeConfig};
use crate::config;
use crate::config::{AgentRuntime, ConfigError, ConfigFile, ConfigFileView};
use crate::json;
use crate::json::{Json, JsonObject, JsonTree};
use crate::logs::{LogDraft, LogDraftView, LogLevel};
use crate::text;

verus! {

/// How a job is to be run.
#[derive(Debug)]
pub enum RunPlan {
    /// Through the bridge, with this configuration.
    Sdk(SdkRuntimeConfig),
    /// By the loop of this server.
    Legacy,
    /// Not at all; with the reason.
    Refuse(String),
}

/// The error when a session is to be resumed without the bridge.
pub const NO_RESUME: &'static str = "legacy runtime 不支持 Agent SDK session 续聊";

/// Why the bridge cannot be used under a configuration, if it cannot.
pub open spec fn sdk_refusal(file: ConfigFileView) -> Option<ConfigError> {
    if config::usable_key(file.api_key) is None {
        Some(ConfigError::MissingKey)
    } else {
        match config::api_base_url(file.api_url) {
            Ok(_) => None,
            Err(error) => Some(error),
        }
    }
}

/// Whether `runtime` is what the bridge is told under a configuration.
pub open spec fn is_sdk_config(runtime: SdkRuntimeConfig, file: ConfigFileView) -> bool {
    &&& config::usable_key(file.api_key) == Some(runtime.api_key@)
    &&& config::api_base_url(file.api_url) == Ok::<Seq<char>, ConfigError>(runtime.base_url@)
    &&& runtime.model@ == file.model
}

/// What the bridge is told under the configuration that is kept.
pub fn load_sdk_runtime_config(stored: Option<ConfigFile>, assistant: &str) -> (result: Result<
    SdkRuntimeConfig,
    ConfigError,
>)
    ensures
        match result {
            Ok(runtime) => is_sdk_config(
                runtime,
                config::in_force(config::stored_view(stored), assistant@),
            ),
            Err(error) => sdk_refusal(config::in_force(config::stored_view(stored), assistant@))
                == Some(error),
        },
{
    let file = config::load_config_file(stored, assistant);
    let model = file.model.clone();
    let api_url = file.api_url.clone();
    proof {
        config::law_legacy_models_are_gone(config::stored_view(stored), assistant@);
    }
    match config::require_api_key(Some(file), assistant) {
        Ok(api_key) => match config::normalize_api_base_url(api_url.as_str()) {
            Ok(base_url) => Ok(SdkRuntimeConfig { api_key, base_url, model }),
            Err(error) => Err(error),
        },
        Err(error) => Err(error),
    }
}

/// How a job is to be run under the configuration that is kept.
pub fn plan_run(stored: Option<ConfigFile>, resumes: bool, assistant: &str) -> (plan: RunPlan)
    ensures
        match config::in_force(config::stored_view(stored), assistant@).agent_runtime {
            AgentRuntime::Sdk => match plan {
                RunPlan::Sdk(runtime) => is_sdk_config(
                    runtime,
                    config::in_force(config::stored_view(stored), assistant@),
                ),
                RunPlan::Legacy => false,
                RunPlan::Refuse(reason) => sdk_refusal(
                    config::in_force(config::stored_view(stored), assistant@),
                ) matches Some(error) && reason@ == error.text(),
            },
            AgentRuntime::Legacy => match plan {
                RunPlan::Sdk(_) => false,
                RunPlan::Legacy => !resumes,
                RunPlan::Refuse(reason) => resumes && reason@ == NO_RESUME@,
            },
        },
{
    let file = config::load_config_file(stored, assistant);
    proof {
        config::law_legacy_models_are_gone(config::stored_view(stored), assistant@);
    }
    match file.agent_runtime {
        AgentRuntime::Sdk => match load_sdk_runtime_config(Some(file), assistant) {
            Ok(runtime) => RunPlan::Sdk(runtime),
            Err(error) => RunPlan::Refuse(error.message()),
        },
        AgentRuntime::Legacy => if resumes {
            RunPlan::Refuse(NO_RESUME.to_owned())
        } else {
            RunPlan::Legacy
        },
    }
}

/// Whether an error says that the bridge cannot be used at all.
pub open spec fn is_unavailable(error: Seq<char>) -> bool {
    ||| text::has_text(error, "无法启动 Agent SDK bridge"@)
    ||| text::has_text(error, "找不到 Agent SDK bridge"@)
    ||| text::has_text(error, "Agent SDK bridge 尚未启动"@)
}

/// Tests whether an error says that the bridge cannot be used at all.
pub fn should_fallback_to_legacy(error: &str) -> (fallback: bool)
    ensures
        fallback == is_unavailable(error@),
{
    text::contains(error, "无法启动 Agent SDK bridge") || text::contains(
        error,
        "找不到 Agent SDK bridge",
    ) || text::contains(error, "Agent SDK bridge 尚未启动")
}

/// A bridge that cannot be started is one that cannot be used: a job that does not resume a
/// session falls back to the loop of this server where the script is not found, where the
/// process cannot be started, and where it is not running.
pub proof fn law_a_bridge_that_cannot_start_is_unavailable(error: Seq<char>)
    ensures
        is_unavailable(agent_bridge::NO_SCRIPT@),
        is_unavailable(agent_bridge::launch_text(error)),
        is_unavailable(agent_bridge::NOT_STARTED@),
{
    reveal_strlit("无法启动 Agent SDK bridge（需要可用的 Node.js 18+）：");
    reveal_strlit("无法启动 Agent SDK bridge");
    reveal_strlit("找不到 Agent SDK bridge 脚本");
    reveal_strlit("找不到 Agent SDK bridge");
    let launch = agent_bridge::launch_text(error);
    let needle = "无法启动 Agent SDK bridge"@;
    assert(launch.subrange(0, needle.len() as int) =~= needle);
    assert(text::stands_at(launch, needle, 0));
    let missing = agent_bridge::NO_SCRIPT@;
    let other = "找不到 Agent SDK bridge"@;
    assert(missing.subrange(0, other.len() as int) =~= other);
    assert(text::stands_at(missing, other, 0));
    let stopped = agent_bridge::NOT_STARTED@;
    assert(stopped.subrange(0, stopped.len() as int) =~= stopped);
    assert(text::stands_at(stopped, stopped, 0));
}

/// An attempt to have the bridge running leaves it alone where it runs. Otherwise the bridge
/// runs afterwards; or there is an error that makes a job fall back, and the bridge still
/// does not run, so that the next job tries again.
pub proof fn law_the_bridge_runs_or_is_unavailable(
    bridge: BridgeView,
    script: Option<Seq<char>>,
    node: Seq<char>,
    spawn_error: Option<Seq<char>>,
)
    ensures
        ({
            let (after, error) = agent_bridge::ensured(bridge, script, node, spawn_error);
            &&& bridge.started ==> after == bridge && error is None
            &&& error is None ==> after.started
            &&& error matches Some(e) ==> is_unavailable(e) && !after.started
            &&& !bridge.started && (script is None || spawn_error is Some) ==> error is Some
        }),
{
    match spawn_error {
        Some(error) => law_a_bridge_that_cannot_start_is_unavailable(error),
        None => law_a_bridge_that_cannot_start_is_unavailable(Seq::empty()),
    }
}

/// What to do when the bridge has answered.
#[derive(Debug)]
pub enum SdkOutcome {
    /// The job is done; with its result.
    Done(String),
    /// Run the job by the loop of this server; with what to log.
    Fallback(LogDraft),
    /// The job failed; with the reason.
    Fail(String),
}

/// What is logged when the loop of this server takes over.
pub open spec fn fallback_log(error: Seq<char>, task_id: Seq<char>) -> LogDraftView {
    LogDraftView {
        level: LogLevel::Warn,
        source: "agent-runtime"@,
        request_id: None,
        task_id: Some(task_id),
        summary: "Agent SDK 不可用，已切回 legacy runtime"@,
        detail: Some(
            JsonTree::Object(json::no_fields().insert("error"@, JsonTree::Text(error))),
        ),
    }
}

/// Says what to do when the bridge has answered. A job that resumes a session has nothing
/// to fall back to.
pub fn after_sdk(result: Result<String, String>, resumes: bool, task_id: &str) -> (
    outcome: SdkOutcome)
    ensures
        match result {
            Ok(output) => outcome matches SdkOutcome::Done(text) && text@ == output@,
            Err(error) => if !resumes && is_unavailable(error@) {
                outcome matches SdkOutcome::Fallback(log) && log@ == fallback_log(error@, task_id@)
            } else {
                outcome matches SdkOutcome::Fail(reason) && reason@ == error@
            },
        },
{
    match result {
        Ok(output) => SdkOutcome::Done(output),
        Err(error) => if !resumes && should_fallback_to_legacy(error.as_str()) {
            let detail = JsonObject::new().with("error", Json::text(error.as_str()));
            SdkOutcome::Fallback(
                LogDraft::new(
                    LogLevel::Warn,
                    "agent-runtime",
                    None,
                    Some(task_id.to_owned()),
                    "Agent SDK 不可用，已切回 legacy runtime",
                    Some(Json::Object(detail)),
                ),
            )
        } else {
            SdkOutcome::Fail(error)
        },
    }
}

/// The name of an agent.
pub open spec fn runtime_name(runtime: AgentRuntime) -> Seq<char> {
    match runtime {
        AgentRuntime::Sdk => "sdk"@,
        AgentRuntime::Legacy => "legacy"@,
    }
}

/// How the agent is shown.
pub fn status(bridge: &AgentBridge, stored: Option<ConfigFile>, assistant: &str) -> (
    status: AgentRuntimeStatus)
    ensures
        status.runtime@ == runtime_name(
            config::in_force(config::stored_view(stored), assistant@).agent_runtime,
        ),
        status.bridge_started == bridge@.started,
        text::option_text(status.sdk_version) == bridge@.sdk_version,
        text::option_text(status.native_binary_path) == bridge@.native_binary_path,
        text::option_text(status.bridge_script) == bridge@.bridge_script,
        status.node_executable@ == bridge@.node_executable,
        status.active_sessions == bridge@.active_sessions,
        text::option_text(status.last_error) == bridge@.last_error,
{
    let name = match config::load_agent_runtime(stored, assistant) {
        AgentRuntime::Sdk => "sdk",
        AgentRuntime::Legacy => "legacy",
    };
    bridge.status(name)
}

} // verus!
