use agent_mcp::agent_bridge::{
    bridge_candidates, cancel_message, event_kind, launch_error, message_line, node_executable,
    parse_level, start_message, stderr_log, unreadable_line_log, AgentBridge, BridgeEvent,
    BridgeExit, EventKind, SdkRuntimeConfig, StartPlan, NOT_STARTED, NO_SCRIPT,
};
use agent_mcp::agent_runtime::{
    after_sdk, load_sdk_runtime_config, plan_run, should_fallback_to_legacy, status, RunPlan,
    SdkOutcome, NO_RESUME,
};
use agent_mcp::commands::{start_mcp_server, stop_chat_session};
use agent_mcp::config::{AgentRuntime, ConfigError, ConfigFile};
use agent_mcp::logs::LogLevel;
use agent_mcp::server::{ServerController, ServiceStatus, StartStep, PORT_TAKEN};
use agent_mcp::state::{AppState, StopError};
use agent_mcp::throttle::EmitPlan;
use agent_mcp::tools::Platform;
use agent_mcp::tray::{
    handle_menu_event, tray_log, update_tray_menu, MenuAction, TrayEvent, MENU_QUIT, MENU_SHOW,
};

const ASSISTANT: &str = "Assistant";
const NOW: i64 = 4_000_000_000_000;

fn app() -> AppState {
    AppState::new(None, &Vec::new(), None, "node".to_string(), ASSISTANT)
}

fn with_key() -> ConfigFile {
    let mut file = ConfigFile::default_for(ASSISTANT);
    file.api_key = Some("sk".to_string());
    file
}

fn event(kind: &str, job_id: Option<&str>) -> BridgeEvent {
    BridgeEvent {
        kind: kind.to_string(),
        job_id: job_id.map(|id| id.to_string()),
        request_id: None,
        level: None,
        source: None,
        summary: None,
        detail: None,
        output: None,
        error: None,
        usage: None,
        session_id: None,
        sdk_version: None,
        native_binary_path: None,
        active_jobs: None,
        node: None,
        platform: None,
        arch: None,
    }
}

#[test]
fn upstream_request_tracking_does_not_limit_concurrency() {
    let mut state = app();
    for _ in 0..300 {
        state.begin_upstream_request();
    }

    assert_eq!(state.active_upstream_requests(), 300);

    for _ in 0..300 {
        state.end_upstream_request();
    }
    assert_eq!(state.active_upstream_requests(), 0);
}

#[test]
fn the_server_starts_and_stops() {
    let mut server = ServerController::new();
    assert_eq!(server.status().status, ServiceStatus::Stopped);
    assert_eq!(server.start(80).unwrap_err(), ConfigError::Port);
    assert!(matches!(server.start(8765), Ok(StartStep::Listen(_))));
    assert_eq!(server.status().status, ServiceStatus::Starting);
    let (shown, _) = server.listening(8765);
    assert_eq!(shown.mcp_url.as_deref(), Some("http://127.0.0.1:8765/mcp"));
    assert_eq!(
        shown.health_url.as_deref(),
        Some("http://127.0.0.1:8765/health")
    );
    match server.start(9000).unwrap() {
        StartStep::Running(shown) => {
            assert_eq!(shown.mcp_url.as_deref(), Some("http://127.0.0.1:8765/mcp"))
        }
        StartStep::Listen(_) => panic!("the server is started twice"),
    }
    assert!(server.stop().is_some());
    assert!(server.stop().is_none());
    let (shown, _) = server.stopped();
    assert_eq!(shown.message, "休息中");
    server.start(8765).unwrap();
    let (log, told) = server.listen_failed(8765, "in use");
    assert_eq!(log.level, LogLevel::Error);
    assert_eq!(told, PORT_TAKEN);
    assert_eq!(server.status().message, "端口启动失败：in use");
}

#[test]
fn the_server_needs_a_key() {
    let mut server = ServerController::new();
    assert_eq!(
        start_mcp_server(&mut server, None, ASSISTANT).unwrap_err(),
        ConfigError::MissingKey
    );
    let mut file = with_key();
    file.port = 1;
    assert_eq!(
        start_mcp_server(&mut server, Some(file), ASSISTANT).unwrap_err(),
        ConfigError::Port
    );
    let (step, port) = start_mcp_server(&mut server, Some(with_key()), ASSISTANT).unwrap();
    assert!(matches!(step, StartStep::Listen(_)));
    assert_eq!(port, 8765);
}

#[test]
fn the_menu_follows_the_server() {
    assert_eq!(handle_menu_event(MENU_SHOW), Some(MenuAction::Show));
    assert_eq!(handle_menu_event(MENU_QUIT), Some(MenuAction::Quit));
    assert_eq!(handle_menu_event("other"), None);
    let mut server = ServerController::new();
    let menu = update_tray_menu(&server.status());
    assert!(menu.can_start && !menu.can_stop && !menu.can_copy);
    server.start(8765).unwrap();
    server.listening(8765);
    let menu = update_tray_menu(&server.status());
    assert!(!menu.can_start && menu.can_stop && menu.can_copy);
    assert_eq!(
        tray_log(&TrayEvent::StartFailed("no".to_string())).level,
        LogLevel::Error
    );
    assert_eq!(
        tray_log(&TrayEvent::Copied("u".to_string())).level,
        LogLevel::Info
    );
}

#[test]
fn a_job_ends_once() {
    let mut bridge = AgentBridge::new("node".to_string());
    let first = bridge.enter_job("a");
    let second = bridge.enter_job("b");
    assert_ne!(first, second);
    assert_eq!(bridge.status("sdk").active_sessions, 2);
    let mut done = event("done", Some("a"));
    done.output = Some("ok".to_string());
    let effect = bridge.handle_bridge_event(done);
    let (ticket, outcome) = effect.completion.unwrap();
    assert_eq!(ticket, first);
    assert_eq!(outcome.unwrap(), "ok");
    let again = bridge.handle_bridge_event(event("done", Some("a")));
    assert!(again.completion.is_none());
    assert_eq!(bridge.fail_all_pending(), vec![second]);
    bridge.leave_job();
    assert_eq!(bridge.status("sdk").active_sessions, 1);
}

#[test]
fn every_waiting_job_fails_once() {
    let mut bridge = AgentBridge::new("node".to_string());
    let mut entered: Vec<u64> = (0..20)
        .map(|index| bridge.enter_job(&format!("job-{index}")))
        .collect();
    bridge.abandon_job("job-3");
    entered.remove(3);
    let effect = bridge.note_exit(BridgeExit::Lost("gone".to_string()));
    let mut failed = effect.tickets;
    failed.sort();
    assert_eq!(failed, entered);
    assert!(bridge.fail_all_pending().is_empty());
}

#[test]
fn events_of_the_bridge() {
    let mut bridge = AgentBridge::new("node".to_string());
    let mut ready = event("ready", None);
    ready.sdk_version = Some("1.2".to_string());
    let effect = bridge.handle_bridge_event(ready);
    assert_eq!(effect.log.summary, "Agent SDK bridge 就绪");
    assert_eq!(bridge.status("sdk").sdk_version.as_deref(), Some("1.2"));
    bridge.enter_job("a");
    let mut failed = event("error", Some("a"));
    failed.error = Some("boom".to_string());
    let effect = bridge.handle_bridge_event(failed);
    assert_eq!(effect.completion.unwrap().1.unwrap_err(), "boom");
    assert_eq!(bridge.status("sdk").last_error.as_deref(), Some("boom"));
    bridge.enter_job("c");
    let effect = bridge.handle_bridge_event(event("cancelled", Some("c")));
    assert_eq!(effect.completion.unwrap().1.unwrap_err(), "任务已取消");
    bridge.enter_job("d");
    bridge.abandon_job("d");
    assert!(bridge.fail_all_pending().is_empty());
    assert_eq!(event_kind("bridge_error"), EventKind::Error);
    assert_eq!(event_kind("?"), EventKind::Unknown);
    assert_eq!(parse_level(&Some("warn".to_string())), Some(LogLevel::Warn));
    assert_eq!(parse_level(&None), None);
}

#[test]
fn the_bridge_comes_and_goes() {
    let mut bridge = AgentBridge::new("node".to_string());
    assert!(!bridge.is_started());
    bridge.note_launch("/s.mjs", "node");
    bridge.note_started("/s.mjs", "node");
    assert!(bridge.is_started());
    let ticket = bridge.enter_job("a");
    let effect = bridge.note_exit(BridgeExit::Exited(Some(1), false));
    assert_eq!(effect.tickets, vec![ticket]);
    assert_eq!(effect.reason.as_deref(), Some("Agent SDK bridge 异常退出"));
    assert!(!bridge.is_started());
    let effect = bridge.note_exit(BridgeExit::Lost("gone".to_string()));
    assert_eq!(effect.log.level, LogLevel::Error);
}

#[test]
fn the_bridge_is_started_once() {
    let mut bridge = AgentBridge::new("node".to_string());
    let script = || Some("/s.mjs".to_string());
    match bridge.plan_start(None) {
        StartPlan::Refuse(reason) => {
            assert_eq!(reason, NO_SCRIPT);
            assert!(should_fallback_to_legacy(&reason));
        }
        _ => panic!("there is no script"),
    }
    assert!(matches!(bridge.plan_start(script()), StartPlan::Launch(path) if path == "/s.mjs"));
    bridge.note_launch("/s.mjs", "node");
    assert!(matches!(bridge.plan_start(script()), StartPlan::Launch(_)));
    assert!(should_fallback_to_legacy(&launch_error("no node")));
    assert!(should_fallback_to_legacy(NOT_STARTED));
    bridge.note_started("/s.mjs", "node");
    assert!(matches!(bridge.plan_start(script()), StartPlan::Running));
    assert!(matches!(bridge.plan_start(None), StartPlan::Running));
    bridge.note_exit(BridgeExit::Exited(Some(0), true));
    assert!(matches!(bridge.plan_start(script()), StartPlan::Launch(_)));
}

#[test]
fn an_event_tells_of_its_session() {
    let mut bridge = AgentBridge::new("node".to_string());
    let mut started = event("started", Some("a"));
    started.session_id = Some("s".to_string());
    assert_eq!(
        bridge.handle_bridge_event(started).session,
        Some(("a".to_string(), "s".to_string()))
    );
    let mut nameless = event("done", None);
    nameless.session_id = Some("s".to_string());
    assert!(bridge.handle_bridge_event(nameless).session.is_none());
    assert!(bridge.handle_bridge_event(event("done", Some("a"))).session.is_none());
}

#[test]
fn jobs_are_started_in_a_row() {
    let mut state = app();
    let first = state.start_job("one", "/w");
    let second = state.start_job("two", "/w");
    assert_ne!(first.job_id, second.job_id);
    let page = state.logs.page(None, 0, 10);
    assert_eq!(page.latest_id, Some(2));
    assert_eq!(page.entries[0].summary, "Assistant Code 任务已创建");
    assert!(state.logs.has_room());
    assert!(state.token_usage.has_room());
}

#[test]
fn lines_for_the_bridge() {
    let runtime = SdkRuntimeConfig {
        api_key: "sk".to_string(),
        base_url: "https://a".to_string(),
        model: "m".to_string(),
    };
    let plain = start_message("j", "p", "/w", &runtime, &None).into_value();
    assert_eq!(plain["type"], "start");
    assert_eq!(plain["base_url"], "https://a");
    assert!(plain.get("resume_session_id").is_none());
    let resumed = start_message("j", "p", "/w", &runtime, &Some("s".to_string())).into_value();
    assert_eq!(resumed["resume_session_id"], "s");
    let line = message_line(&cancel_message("j"));
    assert!(line.ends_with('\n'));
    assert!(line.contains("\"job_id\":\"j\""));
    assert!(stderr_log("  ").is_none());
    assert!(stderr_log("oops").is_some());
    assert_eq!(unreadable_line_log("e", "{").level, LogLevel::Warn);
    assert!(should_fallback_to_legacy(&launch_error("no node")));
    assert_eq!(node_executable(Some("/n".to_string())), "/n");
    assert_eq!(node_executable(None), "node");
    let places = bridge_candidates(
        &Platform::current(),
        Some("/c".to_string()),
        Some("/e".to_string()),
        None,
    );
    assert_eq!(places.len(), 4);
    assert_eq!(places[0], "/c/agent-bridge/bridge.mjs");
    assert_eq!(places[3], "/e/resources/agent-bridge/bridge.mjs");
}

#[test]
fn runs_are_planned() {
    match plan_run(Some(with_key()), true, ASSISTANT) {
        RunPlan::Sdk(runtime) => assert_eq!(runtime.base_url, "https://api.anthropic.com"),
        _ => panic!("the bridge is not used"),
    }
    match plan_run(None, false, ASSISTANT) {
        RunPlan::Refuse(reason) => assert_eq!(reason, ConfigError::MissingKey.message()),
        _ => panic!("there is no key"),
    }
    let legacy = || {
        let mut file = with_key();
        file.agent_runtime = AgentRuntime::Legacy;
        file
    };
    assert!(matches!(
        plan_run(Some(legacy()), false, ASSISTANT),
        RunPlan::Legacy
    ));
    match plan_run(Some(legacy()), true, ASSISTANT) {
        RunPlan::Refuse(reason) => assert_eq!(reason, NO_RESUME),
        _ => panic!("there is nothing to resume"),
    }
    let mut bad = with_key();
    bad.api_url = "x".to_string();
    assert_eq!(
        load_sdk_runtime_config(Some(bad), ASSISTANT).unwrap_err(),
        ConfigError::UrlScheme
    );
    let bridge = AgentBridge::new("node".to_string());
    assert_eq!(status(&bridge, Some(legacy()), ASSISTANT).runtime, "legacy");
}

#[test]
fn a_lost_bridge_falls_back() {
    let lost = || Err("找不到 Agent SDK bridge 脚本".to_string());
    assert!(matches!(
        after_sdk(lost(), false, "t"),
        SdkOutcome::Fallback(_)
    ));
    assert!(matches!(after_sdk(lost(), true, "t"), SdkOutcome::Fail(_)));
    assert!(matches!(
        after_sdk(Err("boom".to_string()), false, "t"),
        SdkOutcome::Fail(_)
    ));
    assert!(matches!(
        after_sdk(Ok("ok".to_string()), false, "t"),
        SdkOutcome::Done(_)
    ));
}

#[test]
fn a_job_lives_in_both_stores() {
    let mut state = app();
    let job = state.start_job("hello", "/w");
    assert_eq!(state.logs().stats().total, 1);
    assert!(state.job_started_at(&job.job_id, NOW));
    assert!(state.job_finished_at(&job.job_id, false, Ok("done".to_string()), NOW + 1));
    let detail = state.sessions.detail_at(&job.job_id, None, NOW + 2).unwrap();
    assert_eq!(detail.jobs[0].output.as_deref(), Some("done"));
    assert_eq!(detail.summary.status, "succeeded");
    let stats = state.runtime_stats();
    assert_eq!((stats.total_jobs, stats.succeeded_jobs), (1, 1));
    assert_eq!((stats.logs_retained, stats.logs_pending), (1, 0));
    assert!(state
        .continue_job(&job.job_id, "again", None)
        .is_err());
    state.sessions.attach_session_id_at(&job.job_id, "s", NOW + 2);
    let (next, target) = state
        .continue_job_as(&job.job_id, "next".to_string(), "again", None, NOW + 3)
        .unwrap();
    assert_eq!(next.job_id, "next");
    assert_eq!(next.cwd, "/w");
    assert_eq!(target.session_id, "s");
    assert_eq!(state.jobs().stats().queued, 1);
}

#[test]
fn a_running_session_is_stopped_and_deleted() {
    let mut state = app();
    assert_eq!(
        state.stop_chat_session_at("x", NOW).unwrap_err(),
        StopError::Gone
    );
    let job = state.start_job("hello", "/w");
    let (stopped, left) = stop_chat_session(&mut state, &job.job_id).unwrap();
    assert_eq!(stopped, job.job_id);
    assert_eq!(left.sessions.len(), 1);
    assert_eq!(
        state.stop_chat_session_at(&job.job_id, job.created_at).unwrap_err(),
        StopError::Idle
    );
    assert_eq!(state.jobs().stats().cancelled, 1);

    let other = state.start_job("hello", "/w");
    let (cancelled, left) = state.delete_chat_session_at(&other.job_id, other.created_at + 1);
    assert_eq!(cancelled, Some(other.job_id));
    assert_eq!(left.unwrap().sessions.len(), 1);

    state.sessions.create_root_job("alone", "p", "/w", NOW);
    assert_eq!(
        state.stop_chat_session_at("alone", NOW).unwrap_err(),
        StopError::Ended
    );
    assert_eq!(StopError::Gone.message(), "聊天记录不存在或已被清理");
    assert_eq!(StopError::Idle.message(), "这个任务当前没有在运行");
    assert_eq!(StopError::Ended.message(), "任务已经结束或不存在");
}

#[test]
fn statistics_are_told_at_intervals() {
    let mut state = app();
    assert_eq!(state.notify_runtime_stats_changed(1_000), EmitPlan::Now);
    assert_eq!(
        state.notify_runtime_stats_changed(1_010),
        EmitPlan::After(240)
    );
    assert_eq!(state.notify_runtime_stats_changed(1_020), EmitPlan::Covered);
    state.runtime_stats_fired(1_250);
    assert_eq!(state.notify_runtime_stats_changed(1_500), EmitPlan::Now);
}
