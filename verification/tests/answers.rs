use agent_mcp::job_table::{JobRecord, JobStatus};
use agent_mcp::jobs::JobStore;
use agent_mcp::json::Json;
use agent_mcp::logs::LogLevel;
use agent_mcp::mcp::{
    build_context_prompt, code_batch_poll, code_batch_result, code_batch_wait, code_cancel,
    code_chat_history, code_log, code_result, code_status, code_wait, code_with_context_log,
    continue_workdir, error_answer, job_error_answer, normalize_job_ids, poll_duration,
    prepare_workdir, validate_batch_job_ids, validate_job_ids, wait_duration, workdir_creation_error,
    workdir_or_current, BatchPollRequest, BatchResultRequest, BatchWaitRequest, ChatHistoryRequest,
    ResultRequest, StatusRequest, WaitRequest, WorkdirPlan, WorkdirState,
};
use agent_mcp::sessions::SessionStore;

const ASSISTANT: &str = "Assistant";

fn ids(list: &[&str]) -> Vec<String> {
    list.iter().map(|id| id.to_string()).collect()
}

fn store_with(id: &str, status: JobStatus) -> JobStore {
    let mut store = JobStore::new(ASSISTANT);
    store.insert(JobRecord {
        job_id: id.to_string(),
        prompt: "p".to_string(),
        cwd: "/w".to_string(),
        created_at: 1,
        started_at: Some(2),
        ended_at: None,
        status,
        output: "0123456789".to_string(),
        output_truncated: false,
        error: None,
    });
    store
}

#[test]
fn prepare_workdir_creates_missing_directory() {
    match prepare_workdir(WorkdirState::Missing, "/tmp/new-project/nested", "code_start") {
        WorkdirPlan::Create(log) => {
            assert_eq!(log.level, LogLevel::Info);
            assert_eq!(log.summary, "自动创建 workdir");
            let detail = log.detail.unwrap().into_value();
            assert_eq!(detail["tool"], "code_start");
            assert_eq!(detail["workdir"], "/tmp/new-project/nested");
        }
        _ => panic!("the directory is not created"),
    }
}

#[test]
fn prepare_workdir_rejects_file_path() {
    match prepare_workdir(WorkdirState::NoDirectory, "/tmp/not-a-directory", "code") {
        WorkdirPlan::Refuse(log, error) => {
            assert!(error.contains("workdir 不是目录"));
            assert_eq!(log.level, LogLevel::Error);
        }
        _ => panic!("a file is no directory"),
    }
    match prepare_workdir(WorkdirState::Unknown("denied".to_string()), "/x", "code") {
        WorkdirPlan::Refuse(_, error) => assert_eq!(error, "无法访问 workdir /x：denied"),
        _ => panic!("the directory cannot be used"),
    }
    assert!(matches!(
        prepare_workdir(WorkdirState::Directory, "/x", "code"),
        WorkdirPlan::Use
    ));
    assert!(workdir_creation_error("/x", "denied").contains("denied"));
}

#[test]
fn waits_are_bounded() {
    assert_eq!(wait_duration(None), 90);
    assert_eq!(wait_duration(Some(0)), 1);
    assert_eq!(wait_duration(Some(601)), 600);
    assert_eq!(poll_duration(None), 3);
    assert_eq!(poll_duration(Some(0)), 0);
    assert_eq!(poll_duration(Some(9_999)), 600);
}

#[test]
fn identifiers_are_meant_once() {
    let given = ids(&[" a ", "", "b", "a", "  ", "b "]);
    assert_eq!(normalize_job_ids(&given), ids(&["a", "b"]));
    assert_eq!(validate_job_ids(&given, 2).unwrap(), ids(&["a", "b"]));
    assert_eq!(
        validate_job_ids(&given, 1).unwrap_err(),
        "一次最多处理 1 个任务"
    );
    assert_eq!(
        validate_batch_job_ids(&ids(&[" "])).unwrap_err(),
        "job_ids 不能为空"
    );
    let many: Vec<String> = (0..101).map(|i| i.to_string()).collect();
    assert!(validate_batch_job_ids(&many).is_err());
}

#[test]
fn directories_are_chosen() {
    let some = |dir: &str| Some(dir.to_string());
    assert_eq!(workdir_or_current(some("/a"), some("/b")), "/a");
    assert_eq!(workdir_or_current(some(" "), some("/b")), "/b");
    assert_eq!(workdir_or_current(None, None), ".");
    assert_eq!(continue_workdir(some(" ")), None);
    assert_eq!(continue_workdir(some("/a")), some("/a"));
}

#[test]
fn files_come_before_the_prompt() {
    let files = vec![
        ("a.txt".to_string(), "one".to_string()),
        ("b.txt".to_string(), "x".repeat(80_001)),
    ];
    let prompt = build_context_prompt(&files, "do");
    assert!(prompt.starts_with("[File: a.txt]\none\n\n[File: b.txt]\n"));
    assert!(prompt.ends_with("...[truncated]\n\n\ndo"));
    assert_eq!(build_context_prompt(&Vec::new(), "do"), "\n\ndo");
    assert_eq!(code_log("/w", "do").level, LogLevel::Info);
    assert_eq!(
        code_with_context_log("/w", &ids(&["a"])).level,
        LogLevel::Info
    );
}

#[test]
fn a_missing_job_is_an_error() {
    let mut store = JobStore::new(ASSISTANT);
    let missing = |id: &str| ResultRequest {
        job_id: id.to_string(),
    };
    let status = code_status(
        &store,
        &StatusRequest {
            job_id: "missing".to_string(),
            recent_chars: None,
        },
    );
    assert!(status.is_error);
    assert_eq!(status.value.get_str("status"), Some("not_found"));
    assert!(code_result(&store, &missing("missing")).is_error);
    assert!(code_cancel(&mut store, &missing("missing")).is_error);
    assert_eq!(error_answer("no").value.to_text(), "{\"error\":\"no\"}");
    assert!(job_error_answer("j", "no").is_error);
}

#[test]
fn a_job_is_shown_and_cancelled() {
    let mut store = store_with("j", JobStatus::Running);
    let status = code_status(
        &store,
        &StatusRequest {
            job_id: "j".to_string(),
            recent_chars: Some(3),
        },
    );
    assert!(!status.is_error);
    let shown = status.value.into_value();
    assert_eq!(shown["output_recent"], "789");
    assert_eq!(shown["status"], "running");
    assert_eq!(shown["started_at"], 2);
    assert!(shown["ended_at"].is_null());
    let result = code_result(
        &store,
        &ResultRequest {
            job_id: "j".to_string(),
        },
    );
    assert!(result.value.get_str("message").unwrap().contains("code_status(job_id)"));
    let cancelled = code_cancel(
        &mut store,
        &ResultRequest {
            job_id: "j".to_string(),
        },
    );
    assert!(!cancelled.is_error);
    assert_eq!(cancelled.value.get_str("status"), Some("cancelled"));
}

#[test]
fn batches_are_answered() {
    let store = store_with("j", JobStatus::Succeeded);
    let answer = code_batch_result(
        &store,
        &BatchResultRequest {
            job_ids: ids(&["j", "missing"]),
            recent_chars: None,
        },
    );
    let value = answer.value.into_value();
    assert_eq!(value["total"], 2);
    assert_eq!(value["not_found"][0]["job_id"], "missing");
    assert!(code_batch_result(
        &store,
        &BatchResultRequest {
            job_ids: Vec::new(),
            recent_chars: None
        }
    )
    .is_error);
}

#[test]
fn waits_and_polls_are_planned() {
    let plan = code_wait(&WaitRequest {
        job_id: " j ".to_string(),
        timeout_seconds: Some(5),
        recent_chars: None,
    })
    .unwrap();
    assert_eq!(plan.job_ids, ids(&["j"]));
    assert_eq!(plan.seconds, 5);
    let plan = code_batch_wait(&BatchWaitRequest {
        job_ids: ids(&["a", "a"]),
        timeout_seconds: None,
        recent_chars: Some(7),
    })
    .unwrap();
    assert_eq!(plan.job_ids, ids(&["a"]));
    assert_eq!((plan.seconds, plan.recent_chars), (90, 7));
    let plan = code_batch_poll(&BatchPollRequest {
        job_ids: ids(&["a"]),
        seen_job_ids: Some(ids(&["b", " "])),
        timeout_seconds: Some(0),
        recent_chars: None,
        include_running: Some(true),
    })
    .unwrap();
    assert_eq!(plan.seen_job_ids, ids(&["b"]));
    assert_eq!((plan.seconds, plan.recent_chars), (0, 4_000));
    assert!(plan.include_running);
}

#[test]
fn a_history_is_shown() {
    let mut sessions = SessionStore::new(None, ASSISTANT);
    sessions.create_root_job("a", "one", "/w", 4_000_000_000_000);
    let req = ChatHistoryRequest {
        job_id: "a".to_string(),
        limit: None,
    };
    let detail = sessions.detail("a", req.limit);
    let answer = code_chat_history(&req, &detail);
    assert!(!answer.is_error);
    let value = answer.value.into_value();
    assert_eq!(value["root_job_id"], "a");
    assert_eq!(value["jobs"][0]["prompt"], "one");
    assert!(code_chat_history(&req, &None).is_error);
}

#[test]
fn values_survive_being_written_and_read() {
    let text = r#"{"a":[1,-2,"x",null,true],"b":1.5,"c":{}}"#;
    let value = Json::parse(text).unwrap();
    assert_eq!(value.to_text(), text);
    assert_eq!(Json::from_value(value.into_value()).to_text(), text);
    assert_eq!(value.clone().to_text(), text);
    assert!(Json::parse("[1,").is_err());
    assert_eq!(value.get("a").unwrap().into_value()[1], -2);
    assert_eq!(Json::Unsigned(7).as_u64(), Some(7));
    assert_eq!(Json::Signed(-7).as_u64(), None);
    assert_eq!(Json::Bool(true).as_bool(), Some(true));
}
