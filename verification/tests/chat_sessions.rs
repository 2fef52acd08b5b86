use agent_mcp::commands::{check_chat_message, get_chat_session, NO_MESSAGE, NO_SESSION};
use agent_mcp::job_table::JobStatus;
use agent_mcp::sessions::{
    clamp_text, expiry_from, ChatSessionsFile, SessionError, SessionStore, RETENTION_MS,
};

const ASSISTANT: &str = "Assistant";

const NOW: i64 = 4_000_000_000_000;

fn store() -> SessionStore {
    SessionStore::new(None, ASSISTANT)
}

#[test]
fn creates_root_and_attaches_session_id() {
    let mut store = store();
    store.create_root_job("job-1", "hello", "/tmp/project", NOW);
    store.attach_session_id("job-1", "session-1");

    let detail = store.detail("job-1", None).unwrap();
    assert_eq!(detail.summary.session_id.as_deref(), Some("session-1"));
    assert_eq!(detail.summary.root_job_id, "job-1");
    assert_eq!(detail.jobs.len(), 1);
}

#[test]
fn rejects_continuation_without_session_id() {
    let mut store = store();
    store.create_root_job("job-1", "hello", "/tmp/project", NOW);
    store.finish_job("job-1", &JobStatus::Succeeded, Some("done"), None, NOW + 1);

    let error = store
        .begin_continuation("job-1", "job-2", "continue", None)
        .unwrap_err()
        .message();

    assert!(error.contains("没有可恢复"));
}

#[test]
fn creates_continuation_and_blocks_parallel_same_session() {
    let mut store = store();
    store.create_root_job("job-1", "hello", "/tmp/project", NOW);
    store.attach_session_id("job-1", "session-1");
    store.finish_job("job-1", &JobStatus::Succeeded, Some("done"), None, NOW + 1);

    let target = store
        .begin_continuation("job-1", "job-2", "continue", None)
        .unwrap();
    assert_eq!(target.session_id, "session-1");
    assert_eq!(target.root_job_id, "job-1");
    assert_eq!(target.parent_job_id, "job-1");

    let error = store
        .begin_continuation("job-1", "job-3", "again", None)
        .unwrap_err()
        .message();
    assert!(error.contains("正在运行"));
}

#[test]
fn persists_and_loads_sessions() {
    let mut first = store();
    first.create_root_job("job-1", "hello", "/tmp/project", NOW);
    first.attach_session_id("job-1", "session-1");

    let mut loaded = SessionStore::new(Some(first.file()), ASSISTANT);
    assert_eq!(
        loaded.detail("job-1", None).unwrap().summary.session_id,
        Some("session-1".to_string())
    );
}

#[test]
fn detail_includes_codex_visible_context() {
    let mut store = store();
    store.create_root_job("job-1", "first prompt", "/tmp/project", NOW);
    store.attach_session_id("job-1", "session-1");
    store.finish_job(
        "job-1",
        &JobStatus::Succeeded,
        Some("first answer"),
        None,
        NOW + 1,
    );

    let detail = store.detail("job-1", None).unwrap();

    assert!(detail.codex_context.contains("root_job_id: job-1"));
    assert!(detail.codex_context.contains("workdir: /tmp/project"));
    assert!(detail.codex_context.contains("first prompt"));
    assert!(detail.codex_context.contains("first answer"));
    assert!(detail.codex_context.contains("code_continue_start"));
}

#[test]
fn delete_rejects_active_session() {
    let mut store = store();
    store.create_root_job("job-1", "hello", "/tmp/project", NOW);

    let error = store.delete("job-1").unwrap_err().message();

    assert!(error.contains("正在运行"));
    assert!(store.detail("job-1", None).is_some());
}

#[test]
fn finished_sessions_can_be_deleted() {
    let mut store = store();
    store.create_root_job("a", "one", "/w", NOW);
    store.create_root_job("b", "two", "/w", NOW + 1);
    store.finish_job_at("a", &JobStatus::Failed, None, Some("boom"), NOW + 2, NOW + 2);
    let left = store.delete_at("a", NOW + 3).unwrap();
    assert_eq!(left.sessions.len(), 1);
    assert_eq!(left.sessions[0].root_job_id, "b");
    assert!(matches!(store.delete_at("a", NOW + 3), Err(SessionError::Gone)));
}

#[test]
fn each_refusal_of_a_continuation() {
    let mut store = store();
    match store.begin_continuation_at("x", "y", "p", None, NOW) {
        Err(SessionError::UnknownJob(id)) => assert_eq!(id, "x"),
        _ => panic!("the job is unknown"),
    }
    store.create_root_job("a", "one", "/w", NOW);
    assert!(matches!(
        store.begin_continuation_at("a", "y", "p", None, NOW),
        Err(SessionError::Running(_))
    ));
    store.finish_job_at("a", &JobStatus::Succeeded, Some("ok"), None, NOW, NOW);
    assert!(matches!(
        store.begin_continuation_at("a", "y", "p", None, NOW),
        Err(SessionError::NoSession)
    ));
    for error in [
        SessionError::UnknownJob("x".to_string()),
        SessionError::Expired,
        SessionError::Running("x".to_string()),
        SessionError::NoSession,
        SessionError::Gone,
        SessionError::Busy("x".to_string()),
    ] {
        assert!(!error.message().is_empty());
    }
}

#[test]
fn jobs_form_a_chain() {
    let mut store = store();
    store.create_root_job("a", "one", "/w", NOW);
    store.mark_started_at("a", NOW + 1, NOW + 1);
    store.attach_session_id_at("a", "s", NOW + 1);
    store.finish_job_at("a", &JobStatus::Succeeded, Some("ok"), None, NOW + 2, NOW + 2);
    let target = store
        .begin_continuation_at("a", "b", "two", Some("/v".to_string()), NOW + 3)
        .unwrap();
    assert_eq!(target.workdir, "/v");
    assert_eq!(target.expires_at, NOW + 3 + RETENTION_MS);
    store.finish_job_at("b", &JobStatus::Cancelled, None, Some("no"), NOW + 4, NOW + 4);
    let target = store
        .begin_continuation_at("b", "c", "three", None, NOW + 5)
        .unwrap();
    assert_eq!(target.parent_job_id, "b");
    assert_eq!(target.root_job_id, "a");
    let detail = store.detail_at("c", Some(2), NOW + 6).unwrap();
    assert_eq!(detail.summary.job_count, 3);
    assert_eq!(detail.jobs.len(), 2);
    assert_eq!(detail.jobs[1].parent_job_id.as_deref(), Some("b"));
    assert_eq!(detail.summary.active_job_id.as_deref(), Some("c"));
    assert!(!detail.summary.resumable);
}

#[test]
fn old_sessions_go_unless_they_run() {
    let mut store = store();
    store.create_root_job("done", "one", "/w", NOW);
    store.create_root_job("open", "two", "/w", NOW);
    store.finish_job_at("done", &JobStatus::Succeeded, None, None, NOW, NOW);
    assert!(!store.cleanup_expired_at(NOW + RETENTION_MS - 1));
    assert!(store.cleanup_expired_at(NOW + RETENTION_MS));
    let left = store.view_at(NOW + RETENTION_MS);
    assert_eq!(left.sessions.len(), 1);
    assert_eq!(left.sessions[0].root_job_id, "open");
    assert_eq!(left.updated_at, NOW + RETENTION_MS);
    assert!(!store.cleanup_expired_at(NOW + RETENTION_MS));
    assert_eq!(store.view_at(NOW + RETENTION_MS).sessions.len(), 1);
}

#[test]
fn an_account_names_the_assistant() {
    let mut store = store();
    store.create_root_job("a", "one", "/w", NOW);
    let open = store.detail_at("a", None, NOW).unwrap().codex_context;
    assert!(open.starts_with("# Assistant MCP 任务上下文\n"));
    assert!(open.contains("\n- Assistant 回复: 任务尚未完成。\n"));
    store.finish_job_at("a", &JobStatus::Failed, None, Some("boom"), NOW, NOW);
    let failed = store.detail_at("a", None, NOW).unwrap().codex_context;
    assert!(failed.contains("\n- Assistant 错误:\nboom\n"));
}

#[test]
fn sessions_are_shown_latest_first() {
    let mut store = store();
    store.create_root_job("a", "one", "/w", NOW);
    store.create_root_job("b", "two", "/w", NOW + 10);
    store.create_root_job("c", "three", "/w", NOW + 5);
    let shown = store.snapshot_at(NOW + 11);
    let order: Vec<&str> = shown.sessions.iter().map(|s| s.root_job_id.as_str()).collect();
    assert_eq!(order, ["b", "c", "a"]);
}

#[test]
fn texts_are_clamped() {
    assert_eq!(clamp_text("short"), "short");
    let kept = clamp_text(&"字".repeat(40_001));
    assert_eq!(kept.chars().count(), 40_003);
    assert!(kept.ends_with("..."));
    assert_eq!(expiry_from(1), 1 + RETENTION_MS);
    assert_eq!(expiry_from(i64::MAX), i64::MAX);
}

#[test]
fn a_file_that_cannot_be_read_counts_as_none() {
    let mut store = SessionStore::from_file(Some(ChatSessionsFile::default()), ASSISTANT);
    assert_eq!(store.snapshot().sessions.len(), 0);
}

#[test]
fn chat_commands_are_checked() {
    assert_eq!(check_chat_message(" \n", None).unwrap_err(), NO_MESSAGE);
    assert_eq!(check_chat_message("go", Some("  ".to_string())).unwrap(), None);
    assert_eq!(
        check_chat_message("go", Some("/w".to_string())).unwrap(),
        Some("/w".to_string())
    );
    let mut store = store();
    assert_eq!(
        get_chat_session(&mut store, "x", None).unwrap_err(),
        NO_SESSION
    );
    store.create_root_job("x", "one", "/w", NOW);
    assert_eq!(get_chat_session(&mut store, "x", None).unwrap().jobs.len(), 1);
}

/// A store with a session of three jobs, all of them ended, and one more session that runs.
fn store_with_turns() -> SessionStore {
    let mut store = store();
    store.create_root_job("m", "one", "/w", NOW);
    store.attach_session_id_at("m", "s", NOW);
    store.finish_job_at("m", &JobStatus::Succeeded, Some("1"), None, NOW, NOW);
    for (source, next) in [("m", "a"), ("a", "z")] {
        store
            .begin_continuation_at(source, next, "more", None, NOW)
            .unwrap();
        store.finish_job_at(next, &JobStatus::Succeeded, Some("2"), None, NOW, NOW);
    }
    store.create_root_job("other", "two", "/v", NOW);
    store
}

#[test]
fn every_job_leads_to_its_session() {
    let mut store = store_with_turns();
    let first = store.detail_at("m", Some(2), NOW).unwrap();
    assert_eq!(first.summary.job_count, 3);
    assert_eq!(first.jobs.len(), 2);
    assert_eq!(first.jobs[1].job_id, "z");
    for job_id in ["a", "z"] {
        let shown = store.detail_at(job_id, Some(2), NOW).unwrap();
        assert_eq!(shown.summary.root_job_id, "m");
        assert_eq!(shown.codex_context, first.codex_context);
    }
    assert_eq!(store.detail_at("z", Some(0), NOW).unwrap().jobs.len(), 3);
    assert_eq!(store.detail_at("z", Some(9), NOW).unwrap().jobs.len(), 3);
    assert!(store.detail_at("x", None, NOW).is_none());
}

#[test]
fn a_continued_session_is_busy_for_all_its_jobs() {
    let mut store = store_with_turns();
    let target = store
        .begin_continuation_at("m", "n", "more", Some("/u".to_string()), NOW)
        .unwrap();
    assert_eq!(target.parent_job_id, "z");
    assert_eq!(target.workdir, "/u");
    store.mark_started_at("n", NOW, NOW);
    for source in ["m", "a", "z", "n"] {
        match store.begin_continuation_at(source, "q", "again", None, NOW + 1) {
            Err(SessionError::Running(job_id)) => assert_eq!(job_id, "n"),
            _ => panic!("two jobs run in one session"),
        }
    }
    store.finish_job_at("n", &JobStatus::Failed, None, Some("x"), NOW, NOW);
    assert!(store.begin_continuation_at("a", "q", "again", None, NOW).is_ok());
}

#[test]
fn a_deleted_session_is_gone_for_all_its_jobs() {
    let mut store = store_with_turns();
    let left = store.delete_at("a", NOW).unwrap();
    assert_eq!(left.sessions.len(), 1);
    assert_eq!(left.sessions[0].root_job_id, "other");
    for job_id in ["m", "a", "z"] {
        assert!(store.detail_at(job_id, None, NOW).is_none());
        assert!(matches!(store.delete_at(job_id, NOW), Err(SessionError::Gone)));
    }
    match store.delete_at("other", NOW) {
        Err(SessionError::Busy(job_id)) => assert_eq!(job_id, "other"),
        _ => panic!("a running session was deleted"),
    }
    assert!(store.detail_at("other", None, NOW).is_some());
}

#[test]
fn a_cleanup_for_another_purpose_leaves_the_time_of_change() {
    let mut store = store_with_turns();
    assert!(store.cleanup_expired_locked(NOW + RETENTION_MS));
    let left = store.file();
    assert_eq!(left.updated_at, NOW);
    assert_eq!(left.sessions.len(), 1);
    assert!(!store.cleanup_expired_locked(NOW + RETENTION_MS));
    assert_eq!(store.file().updated_at, NOW);
}
