//! What becomes of jobs and sessions together, and the limits that the server keeps.

use vstd::prelude::*;
use vstd::string::*;

use crate::agent_loop;
use crate::claude;
use crate::commands;
use crate::config;
use crate::job_table::{JobStatus, Jobs};
use crate::jobs;
use crate::logs;
use crate::logs::{LogDraftView, LogStore};
use crate::mcp;
use crate::server;
use crate::sessions;
use crate::sessions::{ChatSessionsSnapshot, JobChange, SessionError, SessionsView};
use crate::state;
use crate::state::{AppState, RuntimeState, StopError};
use crate::text;
use crate::token_usage;
use crate::tools;

verus! {

/// What a session is told of a job that has ended is what came of it: that it was cancelled, its
/// output or its error.
pub proof fn law_sessions_are_told_how_jobs_end(
    was_cancelled: bool,
    result: Result<Seq<char>, Seq<char>>,
    now: i64,
)
    ensures
        was_cancelled ==> state::run_change(was_cancelled, result, now) == JobChange::Finished(
            JobStatus::Cancelled,
            None,
            Some("任务已取消"@),
            now,
        ),
        !was_cancelled ==> (result matches Ok(output) ==> state::run_change(
            was_cancelled,
            result,
            now,
        ) == JobChange::Finished(JobStatus::Succeeded, Some(output), None, now)),
        !was_cancelled ==> (result matches Err(error) ==> state::run_change(
            was_cancelled,
            result,
            now,
        ) == JobChange::Finished(JobStatus::Failed, None, Some(error), now)),
        state::cancel_change(now) == JobChange::Finished(
            JobStatus::Cancelled,
            None,
            Some("任务已取消"@),
            now,
        ),
{
}

/// A job and its session agree on how it ended.
pub proof fn law_jobs_and_sessions_agree(
    job: crate::job_table::JobView,
    was_cancelled: bool,
    result: Result<Seq<char>, Seq<char>>,
    now: i64,
)
    requires
        job.output.len() == 0,
        job.error is None,
        result matches Ok(output) ==> output.len() <= 2_000_000,
    ensures
        ({
            let after = jobs::ended(job, was_cancelled, result, now);
            state::run_change(was_cancelled, result, now) matches JobChange::Finished(
                status,
                output,
                error,
                time,
            ) && status == after.status && error == after.error && Some(time) == after.ended_at
                && (after.status == JobStatus::Succeeded ==> output == Some(after.output))
        }),
{
    if !was_cancelled && result is Ok {
        assert(job.output + result->Ok_0 =~= result->Ok_0);
    }
}

/// The job that runs in a session is the one that the session names.
pub proof fn law_the_running_job_is_found(data: SessionsView, job_id: Seq<char>)
    ensures
        sessions::root_of(data.sessions, job_id) is None ==> state::running_job(data, job_id)
            is None,
        sessions::root_of(data.sessions, job_id) matches Some(at) ==> state::running_job(
            data,
            job_id,
        ) == data.sessions[at].1.active_job_id,
{
}

/// To cancel a job among others changes that one, where it is there, and no other.
pub proof fn law_one_job_is_cancelled(all: Jobs, job_id: Seq<char>, now: i64, other: Seq<char>)
    ensures
        ({
            let after = state::with_cancelled(all, job_id, now);
            &&& after.dom() == all.dom()
            &&& other != job_id && all.dom().contains(other) ==> after[other] == all[other]
            &&& all.dom().contains(job_id) && (all[job_id].status == JobStatus::Queued
                || all[job_id].status == JobStatus::Running) ==> after[job_id].status
                == JobStatus::Cancelled && after[job_id].ended_at == Some(now)
            &&& all.dom().contains(job_id) && all[job_id].status != JobStatus::Queued
                && all[job_id].status != JobStatus::Running ==> after[job_id] == all[job_id]
        }),
{
    assert(state::with_cancelled(all, job_id, now).dom() =~= all.dom());
}

/// A session is stopped just where it is there, one of its jobs runs and that job is known; else
/// the user is told what is missing.
pub proof fn law_only_running_sessions_are_stopped(
    found: SessionsView,
    all: Jobs,
    job_id: Seq<char>,
)
    ensures
        ({
            let fault = state::stop_fault(found, all, job_id);
            let at = sessions::root_of(found.sessions, job_id);
            let active = found.sessions[at->0].1.active_job_id;
            &&& fault is None <==> at is Some && active is Some && all.dom().contains(active->0)
            &&& fault == Some(StopError::Gone) <==> at is None
            &&& fault == Some(StopError::Idle) <==> at is Some && active is None
            &&& fault == Some(StopError::Ended) <==> at is Some && active is Some
                && !all.dom().contains(active->0)
        }),
{
}

/// What the user is told where nothing can be stopped.
pub proof fn law_stops_say_what_is_missing()
    ensures
        StopError::Gone.text() == "聊天记录不存在或已被清理"@,
        StopError::Idle.text() == "这个任务当前没有在运行"@,
        StopError::Ended.text() == "任务已经结束或不存在"@,
{
}

/// A request that begins is counted, and one that ends is not any more.
pub proof fn law_requests_in_flight_are_counted(runtime: RuntimeState)
    ensures
        runtime.active_upstream_requests < usize::MAX ==> state::one_more(
            runtime,
        ).active_upstream_requests == runtime.active_upstream_requests + 1,
        runtime.active_upstream_requests > 0 ==> state::one_less(runtime).active_upstream_requests
            == runtime.active_upstream_requests - 1,
        state::one_more(runtime).gate == runtime.gate,
        state::one_less(runtime).gate == runtime.gate,
{
}

/// What is logged stands behind all that was logged, says what was to be logged, and has the next
/// number.
pub proof fn law_what_is_logged_comes_last(before: LogStore, after: LogStore, draft: LogDraftView)
    requires
        state::logged(before, after, draft),
        before.last_id() < u64::MAX,
    ensures
        after.last_id() == before.last_id() + 1,
        after.entries().len() > 0,
        after.entries().last().id == before.last_id() + 1,
        after.entries().last().summary == draft.summary,
        after.entries().last().level == draft.level,
        after.entries().last().source == draft.source,
        after.entries().last().task_id == draft.task_id,
        after.entries().last().request_id == draft.request_id,
        draft.detail matches Some(detail) ==> after.entries().last().detail == Some(
            logs::redacted(detail),
        ),
        before.entries().len() < 1_200_000 ==> after.dropped() == before.dropped()
            && after.entries().drop_last() == before.entries(),
        before.entries().len() >= 1_200_000 ==> after.dropped() == before.dropped().wrapping_add(1)
            && after.entries().drop_last() == before.entries().drop_first(),
        after.gate() == before.gate(),
{
    let time = choose|time: Seq<char>|
        crate::clock::is_time_of_day(time) && after.entries() == logs::with_entry(
            before.entries(),
            #[trigger] logs::new_entry((before.last_id() + 1) as u64, time, draft),
        );
    let entry = logs::new_entry((before.last_id() + 1) as u64, time, draft);
    if before.entries().len() < 1_200_000 {
        assert(after.entries().drop_last() =~= before.entries());
    } else {
        assert(after.entries().drop_last() =~= before.entries().drop_first());
    }
}

/// The limits of what is kept, shown and waited for.
pub proof fn law_limits_are_kept()
    ensures
        jobs::SYNC_WAIT_SECONDS == 90,
        jobs::DEFAULT_RECENT_CHARS == 8_000,
        jobs::MAX_CAPTURED_CHARS == 2_000_000,
        jobs::MAX_RETAINED_JOBS == 20_000,
        mcp::MAX_BATCH_JOB_IDS == 100,
        mcp::MAX_POLL_JOB_IDS == 500,
        mcp::DEFAULT_BATCH_RECENT_CHARS == 4_000,
        tools::MAX_FILE_CHARS == 220_000,
        tools::MAX_COMMAND_CHARS == 120_000,
        claude::TRUNCATED@ == "\n...[truncated]"@,
        agent_loop::MAX_TURNS == 20,
        logs::MAX_LOG_PAGE_LIMIT == 500,
        logs::LOG_STATS_EMIT_MS == 100,
        token_usage::USAGE_FLUSH_BATCH == 1_024,
        token_usage::USAGE_COMPACT_EVERY_EVENTS == 5_000,
        token_usage::USAGE_EVENT_EMIT_MS == 250,
        state::RUNTIME_STATS_EMIT_MS == 250,
        state::HTTP_CONNECT_TIMEOUT_SECONDS == 15,
        state::HTTP_POOL_MAX_IDLE_PER_HOST == 512,
        server::STOP_TIMEOUT_SECONDS == 3,
        server::PORT_TAKEN@ == "这个端口已经被别人占用了，换一个试试？"@,
        config::CONFIG_FILE_NAME@ == "config.json"@,
        token_usage::USAGE_FILE_NAME@ == "token-usage.json"@,
        token_usage::USAGE_EVENTS_FILE_NAME@ == "token-usage-events.jsonl"@,
        sessions::CHAT_SESSIONS_FILE_NAME@ == "chat-sessions.json"@,
        commands::NO_LOG@ == "日志详情不存在或已被清理"@,
        commands::NO_SESSION@ == "聊天记录不存在或已被清理"@,
        commands::NO_MESSAGE@ == "续聊内容不能为空"@,
        crate::agent_runtime::NO_RESUME@ == "legacy runtime 不支持 Agent SDK session 续聊"@,
        crate::agent_bridge::NOT_STARTED@ == "Agent SDK bridge 尚未启动"@,
        crate::agent_bridge::NO_ANSWER@ == "Agent SDK bridge 没有返回任务结果"@,
{
}

/// A page of the log is never longer than asked for, or than there is, and 500 entries at most.
pub proof fn law_the_lesser_is_taken(a: int, b: int)
    ensures
        logs::lesser(a, b) <= a,
        logs::lesser(a, b) <= b,
        logs::lesser(a, b) == a || logs::lesser(a, b) == b,
{
}

/// What is done with a session leaves the server, the counters and the bridge alone.
pub open spec fn leaves_the_rest(before: AppState, after: AppState) -> bool {
    &&& after.logs == before.logs
    &&& after.server == before.server
    &&& after.token_usage == before.token_usage
    &&& after.agent_bridge == before.agent_bridge
    &&& after.runtime == before.runtime
    &&& after.jobs.assistant() == before.jobs.assistant()
    &&& after.sessions.assistant() == before.sessions.assistant()
    &&& after.jobs.last_cleanup() == before.jobs.last_cleanup()
}

/// To stop a session cancels the job that runs in it, and no other; where nothing can be stopped
/// no job changes.
pub proof fn law_stopping_cancels_the_running_job(
    before: AppState,
    after: AppState,
    job_id: Seq<char>,
    now: i64,
    result: Result<(String, ChatSessionsSnapshot), StopError>,
    other: Seq<char>,
)
    requires
        state::is_session_stop(before, after, job_id, now, result),
    ensures
        leaves_the_rest(before, after),
        ({
            let found = sessions::cleaned(before.sessions.data(), now);
            let all = before.jobs.jobs();
            let left = after.jobs.jobs();
            &&& result matches Err(error) ==> left == all && after.sessions.data() == found
                && state::stop_fault(found, all, job_id) == Some(error)
            &&& result matches Ok((active, snapshot)) ==> {
                &&& state::running_job(found, job_id) == Some(active@)
                &&& left.dom() == all.dom()
                &&& all.dom().contains(active@)
                &&& left[active@].status != JobStatus::Queued && left[active@].status
                    != JobStatus::Running
                &&& other != active@ && all.dom().contains(other) ==> left[other] == all[other]
                &&& after.sessions.data() == sessions::cleaned(
                    sessions::with_change(
                        found,
                        active@,
                        JobChange::Finished(JobStatus::Cancelled, None, Some("任务已取消"@), now),
                        now,
                    ),
                    now,
                )
                &&& sessions::is_snapshot(snapshot, after.sessions.data(), now)
            }
        }),
{
    if result is Ok {
        law_one_job_is_cancelled(before.jobs.jobs(), result->Ok_0.0@, now, other);
    }
}

/// To delete a session cancels the job that runs in it first, and no other.
pub proof fn law_deleting_cancels_the_running_job(
    before: AppState,
    after: AppState,
    job_id: Seq<char>,
    now: i64,
    result: (Option<String>, Result<ChatSessionsSnapshot, SessionError>),
    other: Seq<char>,
)
    requires
        state::is_session_deletion(before, after, job_id, now, result),
    ensures
        leaves_the_rest(before, after),
        ({
            let found = sessions::cleaned(before.sessions.data(), now);
            let all = before.jobs.jobs();
            let left = after.jobs.jobs();
            &&& text::option_text(result.0) == state::running_job(found, job_id)
            &&& left.dom() == all.dom()
            &&& result.0 is None ==> left == all && sessions::is_deletion(
                found,
                after.sessions.data(),
                job_id,
                now,
                result.1,
            )
            &&& result.0 matches Some(active) ==> {
                &&& all.dom().contains(active@) ==> left[active@].status != JobStatus::Queued
                    && left[active@].status != JobStatus::Running
                &&& other != active@ && all.dom().contains(other) ==> left[other] == all[other]
                &&& sessions::is_deletion(
                    sessions::with_change(
                        found,
                        active@,
                        JobChange::Finished(JobStatus::Cancelled, None, Some("任务已取消"@), now),
                        now,
                    ),
                    after.sessions.data(),
                    job_id,
                    now,
                    result.1,
                )
            }
        }),
{
    if result.0 is Some {
        law_one_job_is_cancelled(before.jobs.jobs(), result.0->0@, now, other);
    }
}

/// The jobs are cleaned up when that is due, and else left alone.
pub proof fn law_cleanup_waits_until_due(before: jobs::JobStore, after: Jobs, last: i64, now: i64)
    requires
        jobs::maybe_cleaned(before, after, last, now),
    ensures
        ({
            let is_due = before.jobs().dom().len() >= 20_000 || now - before.last_cleanup() >= 60
                * 1000;
            &&& is_due ==> jobs::is_cleaned(before.jobs(), after, now) && last == now
            &&& !is_due ==> after == before.jobs() && last == before.last_cleanup()
        }),
{
}

} // verus!
