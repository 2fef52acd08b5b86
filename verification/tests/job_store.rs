use agent_mcp::job_table::{JobRecord, JobStatus};
use agent_mcp::jobs::{
    append_output, is_terminal, status_label, summary_from_record, JobStore, WaitStep,
    COMPLETED_JOB_RETENTION_MS, JOB_CANCELLED, MAX_CAPTURED_CHARS, MAX_RETAINED_JOBS,
};
use agent_mcp::json::Json;

const ASSISTANT: &str = "Assistant";

fn record(id: &str, status: JobStatus, ended_at: Option<i64>) -> JobRecord {
    JobRecord {
        job_id: id.to_string(),
        prompt: "test".to_string(),
        cwd: ".".to_string(),
        created_at: 1_000,
        started_at: Some(1_000),
        ended_at,
        status,
        output: String::new(),
        output_truncated: false,
        error: None,
    }
}

fn insert_job(store: &mut JobStore, id: &str, status: JobStatus, ended_at: Option<i64>) {
    store.insert(record(id, status, ended_at));
}

fn ids(list: &[&str]) -> Vec<String> {
    list.iter().map(|id| id.to_string()).collect()
}

fn answer(step: WaitStep) -> Json {
    match step {
        WaitStep::Answer(value) => value,
        WaitStep::Wait(_) => panic!("there is no answer yet"),
    }
}

#[test]
fn tracks_many_jobs_in_concurrent_store() {
    let mut store = JobStore::new(ASSISTANT);
    for index in 0..500 {
        let status = if index % 2 == 0 {
            JobStatus::Running
        } else {
            JobStatus::Succeeded
        };
        insert_job(&mut store, &format!("job-{index}"), status, Some(index));
    }

    let stats = store.stats();

    assert_eq!(stats.total, 500);
    assert_eq!(stats.running, 250);
    assert_eq!(stats.succeeded, 250);
}

#[test]
fn cleanup_removes_old_completed_jobs_but_keeps_running_jobs() {
    let mut store = JobStore::new(ASSISTANT);
    let now: i64 = 1_800_000_000_000;
    let old = now - COMPLETED_JOB_RETENTION_MS - 1_000;
    insert_job(&mut store, "old-done", JobStatus::Succeeded, Some(old));
    insert_job(&mut store, "old-running", JobStatus::Running, Some(old));

    store.cleanup_completed(now);

    assert!(store.status("old-done", 0).is_none());
    assert!(store.status("old-running", 0).is_some());
}

#[test]
fn wait_batch_returns_when_running_job_is_notified() {
    let mut store = JobStore::new(ASSISTANT);
    insert_job(&mut store, "job-1", JobStatus::Running, None);
    let job_ids = ids(&["job-1"]);
    match store.wait_step(&job_ids, 100, false) {
        WaitStep::Wait(open) => assert_eq!(open, job_ids),
        WaitStep::Answer(_) => panic!("a running job has an answer"),
    }
    store.finish_job("job-1", false, Ok("done".to_string()));

    let result = answer(store.wait_step(&job_ids, 100, false)).into_value();

    assert_eq!(result["complete"], true);
    assert_eq!(result["completed"][0]["result"], "done");
}

#[test]
fn wait_batch_times_out_with_running_job() {
    let mut store = JobStore::new(ASSISTANT);
    insert_job(&mut store, "job-1", JobStatus::Running, None);

    let result = answer(store.wait_step(&ids(&["job-1"]), 100, true)).into_value();

    assert_eq!(result["complete"], false);
    assert_eq!(result["running"][0]["job_id"], "job-1");
}

#[test]
fn batch_result_groups_missing_and_terminal_jobs() {
    let mut store = JobStore::new(ASSISTANT);
    let mut done = record("done", JobStatus::Succeeded, Some(1));
    done.output = "ok".to_string();
    store.insert(done);
    let mut failed = record("failed", JobStatus::Failed, Some(2));
    failed.error = Some("boom".to_string());
    store.insert(failed);
    insert_job(&mut store, "cancelled", JobStatus::Cancelled, Some(3));

    let result = store
        .batch_result(&ids(&["done", "failed", "cancelled", "missing"]), 100)
        .into_value();

    assert_eq!(result["complete"], true);
    assert_eq!(result["completed"][0]["result"], "ok");
    assert_eq!(result["failed"][0]["error"], "boom");
    assert_eq!(result["cancelled"][0]["status"], "cancelled");
    assert_eq!(result["not_found"][0]["job_id"], "missing");
}

#[test]
fn poll_batch_returns_unseen_completed_immediately() {
    let mut store = JobStore::new(ASSISTANT);
    let mut done = record("done", JobStatus::Succeeded, Some(1));
    done.output = "ok".to_string();
    store.insert(done);

    let result = answer(store.poll_step(&ids(&["done"]), &[], 100, false, false)).into_value();

    assert_eq!(result["complete"], true);
    assert_eq!(result["ready_count"], 1);
    assert_eq!(result["completed"][0]["result"], "ok");
    assert_eq!(result["next_seen_job_ids"][0], "done");
    assert!(result.get("running").is_none());
}

#[test]
fn poll_batch_skips_seen_terminal_jobs() {
    let mut store = JobStore::new(ASSISTANT);
    insert_job(&mut store, "done", JobStatus::Succeeded, Some(1));

    let result = answer(store.poll_step(&ids(&["done"]), &ids(&["done"]), 100, false, false))
        .into_value();

    assert_eq!(result["complete"], true);
    assert_eq!(result["ready_count"], 0);
    assert_eq!(result["completed"].as_array().unwrap().len(), 0);
    assert_eq!(result["next_seen_job_ids"][0], "done");
}

#[test]
fn poll_batch_times_out_without_new_completed_jobs() {
    let mut store = JobStore::new(ASSISTANT);
    insert_job(&mut store, "running", JobStatus::Running, None);
    let job_ids = ids(&["running"]);
    assert!(matches!(
        store.poll_step(&job_ids, &[], 100, true, false),
        WaitStep::Wait(_)
    ));

    let result = answer(store.poll_step(&job_ids, &[], 100, true, true)).into_value();

    assert_eq!(result["complete"], false);
    assert_eq!(result["ready_count"], 0);
    assert_eq!(result["running_count"], 1);
    assert_eq!(result["running"][0]["job_id"], "running");
}

#[test]
fn poll_batch_returns_when_running_job_is_notified() {
    let mut store = JobStore::new(ASSISTANT);
    insert_job(&mut store, "job-1", JobStatus::Running, None);
    let job_ids = ids(&["job-1"]);
    assert!(matches!(
        store.poll_step(&job_ids, &[], 100, false, false),
        WaitStep::Wait(_)
    ));
    store.finish_job("job-1", false, Ok("done".to_string()));

    let result = answer(store.poll_step(&job_ids, &[], 100, false, false)).into_value();

    assert_eq!(result["complete"], true);
    assert_eq!(result["ready_count"], 1);
    assert_eq!(result["completed"][0]["result"], "done");
}

#[test]
fn poll_batch_groups_failed_cancelled_and_not_found() {
    let mut store = JobStore::new(ASSISTANT);
    let mut failed = record("failed", JobStatus::Failed, Some(1));
    failed.error = Some("boom".to_string());
    store.insert(failed);
    insert_job(&mut store, "cancelled", JobStatus::Cancelled, Some(2));

    let result = store
        .batch_poll_result(&ids(&["failed", "cancelled", "missing"]), &[], 100, false)
        .into_value();

    assert_eq!(result["complete"], true);
    assert_eq!(result["ready_count"], 3);
    assert_eq!(result["failed"][0]["error"], "boom");
    assert_eq!(result["cancelled"][0]["job_id"], "cancelled");
    assert_eq!(result["not_found"][0]["job_id"], "missing");
    assert_eq!(
        result["next_seen_job_ids"],
        Json::parse(r#"["failed", "cancelled", "missing"]"#)
            .unwrap()
            .into_value()
    );
}

#[test]
fn a_job_runs_and_ends() {
    let mut store = JobStore::new(ASSISTANT);
    let (created, log) = store.start_job("fix the bug", "/tmp/project");
    assert_eq!(created.job_id.len(), 36);
    assert_eq!(created.status, JobStatus::Queued);
    assert_eq!(created.cwd, "/tmp/project");
    assert_eq!(log.task_id.as_deref(), Some(created.job_id.as_str()));
    assert!(store.mark_started_at(&created.job_id, 5));
    let running = store.status(&created.job_id, 10).unwrap();
    assert_eq!(running.status, JobStatus::Running);
    assert_eq!(running.started_at, Some(5));
    assert!(store.finish_job_at(&created.job_id, false, Err("boom".to_string()), 9));
    let failed = store.status(&created.job_id, 10).unwrap();
    assert_eq!(failed.status, JobStatus::Failed);
    assert_eq!(failed.error.as_deref(), Some("boom"));
    assert_eq!(failed.ended_at, Some(9));
    assert!(failed.complete);
    assert!(!store.mark_started_at("missing", 5));
    assert!(!store.finish_job_at("missing", false, Ok(String::new()), 5));
    assert!(store.result("missing").is_none());
    assert_eq!(store.result(&created.job_id).unwrap().get_str("error"), Some("boom"));
}

#[test]
fn cancelling_is_final() {
    let mut store = JobStore::new(ASSISTANT);
    insert_job(&mut store, "job", JobStatus::Running, None);
    let cancelled = store.cancel_at("job", 7).unwrap();
    assert_eq!(cancelled.status, JobStatus::Cancelled);
    store.finish_job_at("job", true, Ok("late".to_string()), 9);
    let after = store.status("job", 10).unwrap();
    assert_eq!(after.status, JobStatus::Cancelled);
    assert_eq!(after.error.as_deref(), Some(JOB_CANCELLED));
    assert!(store.cancel_at("missing", 7).is_none());
}

#[test]
fn output_is_bounded() {
    let mut job = record("job", JobStatus::Running, None);
    append_output(&mut job, &"x".repeat(MAX_CAPTURED_CHARS - 1));
    assert!(!job.output_truncated);
    append_output(&mut job, "yz!");
    assert!(job.output_truncated);
    assert!(job.output.chars().count() <= MAX_CAPTURED_CHARS);
}

#[test]
fn a_summary_shows_the_recent_output() {
    let mut job = record("job", JobStatus::Succeeded, Some(3));
    job.output = "0123456789".to_string();
    job.prompt = "p".repeat(600);
    let shown = summary_from_record(&job, 4);
    assert_eq!(shown.output_recent, "6789");
    assert_eq!(shown.prompt_preview, format!("{}...", "p".repeat(500)));
    assert!(shown.complete);
    assert!(is_terminal(&JobStatus::Failed));
    assert!(!is_terminal(&JobStatus::Queued));
    assert_eq!(status_label(&JobStatus::Succeeded), "succeeded");
}

#[test]
fn the_statuses_add_up() {
    let mut store = JobStore::new(ASSISTANT);
    insert_job(&mut store, "a", JobStatus::Queued, None);
    insert_job(&mut store, "b", JobStatus::Running, None);
    insert_job(&mut store, "c", JobStatus::Succeeded, Some(1));
    insert_job(&mut store, "d", JobStatus::Failed, Some(1));
    insert_job(&mut store, "e", JobStatus::Cancelled, Some(1));
    let stats = store.stats();
    assert_eq!(
        (stats.queued, stats.running, stats.succeeded, stats.failed, stats.cancelled),
        (1, 1, 1, 1, 1)
    );
    assert_eq!(stats.total, 5);
    assert_eq!(store.incomplete_ids(&ids(&["a", "b", "c", "x"])), ids(&["a", "b"]));
}

#[test]
fn cleanup_bounds_the_number_of_jobs() {
    let mut store = JobStore::new(ASSISTANT);
    let now: i64 = 1_800_000_000_000;
    for index in 0..(MAX_RETAINED_JOBS + 10) {
        insert_job(
            &mut store,
            &format!("job-{index}"),
            JobStatus::Succeeded,
            Some(now - 100_000 + index as i64),
        );
    }
    store.cleanup_completed(now);
    assert_eq!(store.stats().total, MAX_RETAINED_JOBS);
    assert!(store.status("job-0", 0).is_none());
    assert!(store.status("job-9", 0).is_none());
    assert!(store.status("job-10", 0).is_some());
}

#[test]
fn an_item_says_where_a_job_stands() {
    let mut store = JobStore::new(ASSISTANT);
    insert_job(&mut store, "open", JobStatus::Queued, None);
    let open = store.job_item("open", 5).into_value();
    assert_eq!(open["status"], "queued");
    assert_eq!(open["complete"], false);
    assert!(open["result"].is_null());
    let missing = store.job_item("missing", 5).into_value();
    assert_eq!(missing["status"], "not_found");
    assert_eq!(missing["error"], "Unknown job_id");
}

#[test]
fn polling_settles() {
    let mut store = JobStore::new(ASSISTANT);
    insert_job(&mut store, "a", JobStatus::Succeeded, Some(1));
    insert_job(&mut store, "b", JobStatus::Failed, Some(1));
    let job_ids = ids(&["a", "b"]);
    let first = store.batch_poll_result(&job_ids, &[], 10, false).into_value();
    assert_eq!(first["ready_count"], 2);
    let seen: Vec<String> = first["next_seen_job_ids"]
        .as_array()
        .unwrap()
        .iter()
        .map(|id| id.as_str().unwrap().to_string())
        .collect();
    let second = store.batch_poll_result(&job_ids, &seen, 10, false).into_value();
    assert_eq!(second["ready_count"], 0);
    assert_eq!(second["complete"], true);
    for part in ["completed", "failed", "cancelled", "not_found"] {
        assert_eq!(second[part].as_array().unwrap().len(), 0, "{part}");
    }
    assert_eq!(second["next_seen_job_ids"], first["next_seen_job_ids"]);
}

#[test]
fn a_result_names_the_assistant() {
    let mut store = JobStore::new(ASSISTANT);
    let mut failed = record("failed", JobStatus::Failed, Some(1));
    failed.error = Some("boom".to_string());
    store.insert(failed);
    insert_job(&mut store, "cancelled", JobStatus::Cancelled, Some(1));
    insert_job(&mut store, "open", JobStatus::Running, None);
    let item = |id: &str| store.job_item(id, 5).into_value();
    assert_eq!(item("failed")["result"], "[Assistant Code job failed]\nboom");
    assert_eq!(item("cancelled")["result"], "[Assistant Code job cancelled]\n");
    assert_eq!(
        store.result("open").unwrap().into_value()["message"],
        "Assistant Code job is not finished yet. Use code_status(job_id) to monitor progress."
    );
    assert!(store.fast_answer("open").starts_with("[Assistant Code job is still running]\njob_id: open"));
}

#[test]
fn cleanups_go_on_after_a_start() {
    let mut store = JobStore::new(ASSISTANT);
    insert_job(&mut store, "old", JobStatus::Succeeded, Some(1));
    store.start_job("p", "/w");
    assert!(store.status("old", 0).is_none());
    insert_job(&mut store, "older", JobStatus::Succeeded, Some(1));
    store.start_job("p", "/w");
    assert!(store.status("older", 0).is_some());
    store.cleanup_if_needed(i64::MAX);
    assert!(store.status("older", 0).is_none());
}

#[test]
fn the_fast_answer_says_where_a_job_stands() {
    let mut store = JobStore::new(ASSISTANT);
    let mut done = record("done", JobStatus::Succeeded, Some(1));
    done.output = "ok".to_string();
    store.insert(done);
    insert_job(&mut store, "open", JobStatus::Running, None);
    assert_eq!(store.fast_answer("done"), "ok");
    assert!(store.fast_answer("open").contains("open"));
    assert_ne!(store.fast_answer("missing"), "");
}
