//! Everything that the server knows, and what changes several parts of it at once.

use vstd::prelude::*;
use vstd::string::*;

use crate::agent_bridge;
use crate::agent_bridge::AgentBridge;
use crate::clock;
use crate::event_queue;
use crate::event_queue::TokenUsageEvent;
use crate::job_table;
use crate::job_table::{JobStatus, Jobs};
use crate::jobs;
use crate::jobs::{JobStore, JobSummary};
use crate::logs;
use crate::logs::{LogDraft, LogDraftView, LogStore};
use crate::order;
use crate::server;
use crate::server::ServerController;
use crate::sessions;
use crate::sessions::{
    ChatSessionsFile, ChatSessionsSnapshot, ContinueTarget, JobChange, SessionError, SessionStore,
    SessionsView,
};
use crate::text;
use crate::throttle::{EmitGate, EmitPlan};
use crate::token_usage;
use crate::token_usage::{TokenUsageFile, TokenUsageStore};

verus! {

/// The event that tells listeners of new statistics.
pub const RUNTIME_STATS_EVENT: &'static str = "runtime-stats-updated";

/// Listeners are told once in this many milliseconds.
pub const RUNTIME_STATS_EMIT_MS: u64 = 250;

/// How long to wait for a connection, in seconds.
pub const HTTP_CONNECT_TIMEOUT_SECONDS: u64 = 15;

/// How many idle connections are kept.
pub const HTTP_POOL_MAX_IDLE_PER_HOST: usize = 512;

/// The server in numbers.
#[derive(Debug)]
pub struct RuntimeStatsSnapshot {
    pub total_jobs: usize,
    pub queued_jobs: usize,
    pub running_jobs: usize,
    pub succeeded_jobs: usize,
    pub failed_jobs: usize,
    pub cancelled_jobs: usize,
    pub active_upstream_requests: usize,
    pub logs_retained: usize,
    pub logs_dropped: usize,
    pub logs_pending: usize,
    pub token_pending: usize,
    pub token_updated_at: Option<String>,
}

/// How many requests are under way, and when listeners were last told of statistics.
#[derive(Debug, Clone, Copy, PartialEq, Eq, Structural)]
pub struct RuntimeState {
    pub active_upstream_requests: usize,
    pub gate: EmitGate,
}

/// A request more. The count wraps around.
pub open spec fn one_more(runtime: RuntimeState) -> RuntimeState {
    RuntimeState {
        active_upstream_requests: runtime.active_upstream_requests.wrapping_add(1),
        ..runtime
    }
}

/// A request less. The count wraps around.
pub open spec fn one_less(runtime: RuntimeState) -> RuntimeState {
    RuntimeState {
        active_upstream_requests: runtime.active_upstream_requests.wrapping_sub(1),
        ..runtime
    }
}

/// A request that has begun and ended is not counted any more.
pub proof fn law_ended_requests_are_not_counted(runtime: RuntimeState)
    ensures
        one_less(one_more(runtime)) == runtime,
{
}

impl Default for RuntimeState {
    fn default() -> (runtime: Self)
        ensures
            runtime == (RuntimeState {
                active_upstream_requests: 0,
                gate: EmitGate { last_ms: 0, pending: false },
            }),
    {
        RuntimeState { active_upstream_requests: 0, gate: EmitGate::new() }
    }
}

/// Everything that the server knows.
pub struct AppState {
    pub logs: LogStore,
    pub jobs: JobStore,
    pub sessions: SessionStore,
    pub server: ServerController,
    pub token_usage: TokenUsageStore,
    pub agent_bridge: AgentBridge,
    pub runtime: RuntimeState,
}

impl AppState {
    /// The parts are in order.
    pub open spec fn wf(&self) -> bool {
        &&& self.logs.wf()
        &&& self.sessions.wf()
        &&& self.token_usage.wf()
    }

    /// What the server knows at the start, from what is kept on disk.
    pub fn new(
        usage: Option<TokenUsageFile>,
        events: &Vec<TokenUsageEvent>,
        chats: Option<ChatSessionsFile>,
        node: String,
        assistant: &str,
    ) -> (state: AppState)
        requires
            usage matches Some(file) ==> order::keys_ascend(file@.days),
            chats matches Some(file) ==> order::keys_ascend(file@.sessions),
        ensures
            state.wf(),
            state.logs.entries().len() == 0,
            state.logs.last_id() == 0,
            state.logs.dropped() == 0,
            state.logs.gate() == (EmitGate { last_ms: 0, pending: false }),
            state.jobs.jobs() == job_table::no_jobs(),
            state.jobs.last_cleanup() == 0,
            state.jobs.assistant() == assistant@,
            state.sessions.assistant() == assistant@,
            exists|now: i64|
                state.sessions.data() == #[trigger] sessions::cleaned(
                    sessions::stored_view(chats),
                    now,
                ),
            state.server@ == server::idle(),
            state.token_usage.usage() == token_usage::replayed(
                match usage {
                    Some(file) => file@,
                    None => token_usage::empty_usage(),
                },
                event_queue::event_views(events@),
            ),
            state.token_usage.pending().len() == 0,
            state.token_usage.last_id() == state.token_usage.usage().last_event_id,
            state.token_usage.flushed() == 0,
            !state.token_usage.is_flushing(),
            state.token_usage.gate() == (EmitGate { last_ms: 0, pending: false }),
            state.agent_bridge@ == agent_bridge::idle_bridge(node@),
            state.runtime == (RuntimeState {
                active_upstream_requests: 0,
                gate: EmitGate { last_ms: 0, pending: false },
            }),
    {
        AppState {
            logs: LogStore::new(),
            jobs: JobStore::new(assistant),
            sessions: SessionStore::new(chats, assistant),
            server: ServerController::new(),
            token_usage: TokenUsageStore::new(usage, events),
            agent_bridge: AgentBridge::new(node),
            runtime: RuntimeState::default(),
        }
    }

    /// The log.
    pub fn logs(&self) -> (logs: &LogStore)
        ensures
            *logs == self.logs,
    {
        &self.logs
    }

    /// The jobs.
    pub fn jobs(&self) -> (jobs: &JobStore)
        ensures
            *jobs == self.jobs,
    {
        &self.jobs
    }

    /// The sessions.
    pub fn sessions(&self) -> (sessions: &SessionStore)
        ensures
            *sessions == self.sessions,
    {
        &self.sessions
    }

    /// The server's own state.
    pub fn server(&self) -> (server: &ServerController)
        ensures
            *server == self.server,
    {
        &self.server
    }

    /// The usage.
    pub fn token_usage(&self) -> (usage: &TokenUsageStore)
        ensures
            *usage == self.token_usage,
    {
        &self.token_usage
    }

    /// The bridge to the agent.
    pub fn agent_bridge(&self) -> (bridge: &AgentBridge)
        ensures
            *bridge == self.agent_bridge,
    {
        &self.agent_bridge
    }

    /// Notes that a request begins.
    pub fn begin_upstream_request(&mut self)
        ensures
            *final(self) == (AppState { runtime: one_more(old(self).runtime), ..*old(self) }),
    {
        self.runtime.active_upstream_requests =
        self.runtime.active_upstream_requests.wrapping_add(1);
    }

    /// Notes that a request has ended.
    pub fn end_upstream_request(&mut self)
        ensures
            *final(self) == (AppState { runtime: one_less(old(self).runtime), ..*old(self) }),
    {
        self.runtime.active_upstream_requests =
        self.runtime.active_upstream_requests.wrapping_sub(1);
    }

    /// How many requests are under way.
    pub fn active_upstream_requests(&self) -> (count: usize)
        ensures
            count == self.runtime.active_upstream_requests,
    {
        self.runtime.active_upstream_requests
    }

    /// The server in numbers.
    pub fn runtime_stats(&self) -> (stats: RuntimeStatsSnapshot)
        requires
            self.wf(),
        ensures
            stats.total_jobs == self.jobs.jobs().dom().len(),
            stats.queued_jobs == jobs::with_status(
                self.jobs.jobs(),
                self.jobs.jobs().dom(),
                JobStatus::Queued,
            ).len(),
            stats.running_jobs == jobs::with_status(
                self.jobs.jobs(),
                self.jobs.jobs().dom(),
                JobStatus::Running,
            ).len(),
            stats.succeeded_jobs == jobs::with_status(
                self.jobs.jobs(),
                self.jobs.jobs().dom(),
                JobStatus::Succeeded,
            ).len(),
            stats.failed_jobs == jobs::with_status(
                self.jobs.jobs(),
                self.jobs.jobs().dom(),
                JobStatus::Failed,
            ).len(),
            stats.cancelled_jobs == jobs::with_status(
                self.jobs.jobs(),
                self.jobs.jobs().dom(),
                JobStatus::Cancelled,
            ).len(),
            stats.active_upstream_requests == self.runtime.active_upstream_requests,
            stats.logs_retained == self.logs.entries().len(),
            stats.logs_dropped == self.logs.dropped(),
            stats.logs_pending == 0,
            stats.token_pending == self.token_usage.pending().len(),
            text::option_text(stats.token_updated_at) == self.token_usage.usage().updated_at,
    {
        let job_stats = self.jobs.stats();
        let log_stats = self.logs.stats();
        let usage = self.token_usage.snapshot();
        RuntimeStatsSnapshot {
            total_jobs: job_stats.total,
            queued_jobs: job_stats.queued,
            running_jobs: job_stats.running,
            succeeded_jobs: job_stats.succeeded,
            failed_jobs: job_stats.failed,
            cancelled_jobs: job_stats.cancelled,
            active_upstream_requests: self.active_upstream_requests(),
            logs_retained: log_stats.total,
            logs_dropped: log_stats.dropped,
            logs_pending: 0,
            token_pending: self.token_usage.pending_count(),
            token_updated_at: usage.updated_at,
        }
    }

    /// Notes at `now` that the statistics changed, and says when to tell the listeners.
    pub fn notify_runtime_stats_changed(&mut self, now: u64) -> (plan: EmitPlan)
        ensures
            plan == old(self).runtime.gate.plan(now, RUNTIME_STATS_EMIT_MS),
            *final(self) == (AppState {
                runtime: RuntimeState {
                    gate: match plan {
                        EmitPlan::Now => EmitGate {
                            last_ms: now,
                            pending: old(self).runtime.gate.pending,
                        },
                        EmitPlan::After(_) => EmitGate {
                            last_ms: old(self).runtime.gate.last_ms,
                            pending: true,
                        },
                        EmitPlan::Covered => old(self).runtime.gate,
                    },
                    ..old(self).runtime
                },
                ..*old(self)
            }),
    {
        self.runtime.gate.note(now, RUNTIME_STATS_EMIT_MS)
    }

    /// Notes at `now` that the waiting notice goes out.
    pub fn runtime_stats_fired(&mut self, now: u64)
        ensures
            *final(self) == (AppState {
                runtime: RuntimeState {
                    gate: EmitGate { last_ms: now, pending: false },
                    ..old(self).runtime
                },
                ..*old(self)
            }),
    {
        self.runtime.gate.fired(now);
    }
}

// ---------------------------------------------------------------------------
// The life of a job
// ---------------------------------------------------------------------------

/// Whether a log is as it was but for one more entry, made of `draft`.
pub open spec fn logged(before: LogStore, after: LogStore, draft: LogDraftView) -> bool {
    &&& exists|time: Seq<char>|
        clock::is_time_of_day(time) && after.entries() == logs::with_entry(
            before.entries(),
            #[trigger] logs::new_entry((before.last_id() + 1) as u64, time, draft),
        )
    &&& after.last_id() == before.last_id() + 1
    &&& after.dropped() == (if before.entries().len() >= logs::MAX_LOGS {
        before.dropped().wrapping_add(1)
    } else {
        before.dropped()
    })
    &&& after.gate() == before.gate()
}

/// Whether only the log, the jobs and the sessions may have changed, and the assistant is
/// the same.
pub open spec fn rest_is_unchanged(before: AppState, after: AppState) -> bool {
    &&& after.jobs.assistant() == before.jobs.assistant()
    &&& after.sessions.assistant() == before.sessions.assistant()
    &&& after.server == before.server
    &&& after.token_usage == before.token_usage
    &&& after.agent_bridge == before.agent_bridge
    &&& after.runtime == before.runtime
}

/// How the run of a job is noted in its session.
pub open spec fn run_change(was_cancelled: bool, result: Result<Seq<char>, Seq<char>>, now: i64) -> JobChange {
    if was_cancelled {
        JobChange::Finished(JobStatus::Cancelled, None, Some(jobs::JOB_CANCELLED@), now)
    } else {
        match result {
            Ok(output) => JobChange::Finished(JobStatus::Succeeded, Some(output), None, now),
            Err(error) => JobChange::Finished(JobStatus::Failed, None, Some(error), now),
        }
    }
}

impl AppState {
    /// Writes a drafted entry.
    fn write(&mut self, draft: LogDraft)
        requires
            old(self).wf(),
            old(self).logs.last_id() < u64::MAX,
        ensures
            final(self).wf(),
            *final(self) == (AppState { logs: final(self).logs, ..*old(self) }),
            logged(old(self).logs, final(self).logs, draft@),
    {
        let entry = self.logs.push_draft(draft);
        assert(self.logs.entries() == logs::with_entry(
            old(self).logs.entries(),
            logs::new_entry((old(self).logs.last_id() + 1) as u64, entry.time@, draft@),
        ));
    }

    /// Creates a job and its session.
    pub fn start_job(&mut self, prompt: &str, cwd: &str) -> (summary: JobSummary)
        requires
            old(self).wf(),
            old(self).logs.last_id() < u64::MAX,
        ensures
            final(self).wf(),
            rest_is_unchanged(*old(self), *final(self)),
            clock::is_hyphenated(summary@.job_id),
            summary@ == jobs::summary(
                jobs::queued(summary@.job_id, prompt@, cwd@, summary@.created_at),
                0,
            ),
            exists|kept: Jobs, now: i64| #[trigger]
                jobs::maybe_cleaned(old(self).jobs, kept, final(self).jobs.last_cleanup(), now)
                    && final(self).jobs.jobs() == kept.insert(
                    summary@.job_id,
                    jobs::queued(summary@.job_id, prompt@, cwd@, summary@.created_at),
                ),
            final(self).sessions.data() == (SessionsView {
                sessions: order::put(
                    old(self).sessions.data().sessions,
                    summary@.job_id,
                    sessions::new_session(summary@.job_id, prompt@, cwd@, summary@.created_at),
                ),
                updated_at: summary@.created_at,
            }),
            logged(
                old(self).logs,
                final(self).logs,
                jobs::created_log(
                    old(self).jobs.assistant(),
                    summary@.job_id,
                    prompt@,
                    cwd@,
                ),
            ),
    {
        let (summary, log) = self.jobs.start_job(prompt, cwd);
        let expires_at: i64 = self.sessions.create_root_job(
            summary.job_id.as_str(),
            prompt,
            cwd,
            summary.created_at,
        );
        self.write(log);
        summary
    }

    /// Notes at `now` that a job starts to run. Says whether there is one.
    pub fn job_started_at(&mut self, job_id: &str, now: i64) -> (found: bool)
        requires
            old(self).wf(),
        ensures
            final(self).wf(),
            rest_is_unchanged(*old(self), *final(self)),
            final(self).jobs.last_cleanup() == old(self).jobs.last_cleanup(),
            found == old(self).jobs.jobs().dom().contains(job_id@),
            final(self).jobs.jobs() == (if found {
                old(self).jobs.jobs().insert(
                    job_id@,
                    jobs::started(old(self).jobs.jobs()[job_id@], now),
                )
            } else {
                old(self).jobs.jobs()
            }),
            final(self).sessions.data() == sessions::with_change(
                old(self).sessions.data(),
                job_id@,
                JobChange::Started(now),
                now,
            ),
            final(self).logs == old(self).logs,
    {
        self.sessions.mark_started_at(job_id, now, now);
        self.jobs.mark_started_at(job_id, now)
    }

    /// Notes at `now` that the run of a job is over. Says whether there is one.
    pub fn job_finished_at(
        &mut self,
        job_id: &str,
        was_cancelled: bool,
        result: Result<String, String>,
        now: i64,
    ) -> (found: bool)
        requires
            old(self).wf(),
        ensures
            final(self).wf(),
            rest_is_unchanged(*old(self), *final(self)),
            final(self).jobs.last_cleanup() == old(self).jobs.last_cleanup(),
            found == old(self).jobs.jobs().dom().contains(job_id@),
            final(self).jobs.jobs() == (if found {
                old(self).jobs.jobs().insert(
                    job_id@,
                    jobs::ended(
                        old(self).jobs.jobs()[job_id@],
                        was_cancelled,
                        jobs::run_result(result),
                        now,
                    ),
                )
            } else {
                old(self).jobs.jobs()
            }),
            final(self).sessions.data() == sessions::with_change(
                old(self).sessions.data(),
                job_id@,
                run_change(was_cancelled, jobs::run_result(result), now),
                now,
            ),
            final(self).logs == old(self).logs,
    {
        if was_cancelled {
            self.sessions.finish_job_at(
                job_id,
                &JobStatus::Cancelled,
                None,
                Some(jobs::JOB_CANCELLED),
                now,
                now,
            );
        } else {
            match &result {
                Ok(output) => self.sessions.finish_job_at(
                    job_id,
                    &JobStatus::Succeeded,
                    Some(output.as_str()),
                    None,
                    now,
                    now,
                ),
                Err(error) => self.sessions.finish_job_at(
                    job_id,
                    &JobStatus::Failed,
                    None,
                    Some(error.as_str()),
                    now,
                    now,
                ),
            }
        }
        self.jobs.finish_job_at(job_id, was_cancelled, result, now)
    }

    /// Continues the session of a job with a new job, at `now`. The new job has the given
    /// identifier.
    pub fn continue_job_as(
        &mut self,
        source_job_id: &str,
        new_job_id: String,
        prompt: &str,
        workdir: Option<String>,
        now: i64,
    ) -> (result: Result<(JobSummary, ContinueTarget), SessionError>)
        requires
            old(self).wf(),
            old(self).logs.last_id() < u64::MAX,
        ensures
            final(self).wf(),
            rest_is_unchanged(*old(self), *final(self)),
            final(self).jobs.last_cleanup() == old(self).jobs.last_cleanup(),
            sessions::is_continuation(
                old(self).sessions.data(),
                final(self).sessions.data(),
                source_job_id@,
                new_job_id@,
                prompt@,
                text::option_text(workdir),
                now,
                match result {
                    Ok((_, target)) => Ok(target),
                    Err(error) => Err(error),
                },
            ),
            match result {
                Ok((summary, target)) => {
                    &&& summary@ == jobs::summary(
                        jobs::queued(new_job_id@, prompt@, target@.workdir, now),
                        0,
                    )
                    &&& final(self).jobs.jobs() == old(self).jobs.jobs().insert(
                        new_job_id@,
                        jobs::queued(new_job_id@, prompt@, target@.workdir, now),
                    )
                    &&& logged(
                        old(self).logs,
                        final(self).logs,
                        jobs::created_log(
                            old(self).jobs.assistant(),
                            new_job_id@,
                            prompt@,
                            target@.workdir,
                        ),
                    )
                },
                Err(_) => final(self).jobs.jobs() == old(self).jobs.jobs() && final(self).logs
                    == old(self).logs,
            },
    {
        let target = match self.sessions.begin_continuation_at(
            source_job_id,
            new_job_id.as_str(),
            prompt,
            workdir,
            now,
        ) {
            Ok(target) => target,
            Err(error) => {
                return Err(error);
            },
        };
        let (summary, log) = self.jobs.start_job_as(
            new_job_id,
            prompt,
            target.workdir.as_str(),
            now,
        );
        self.write(log);
        Ok((summary, target))
    }

    /// Continues the session of a job with a new job that has a fresh identifier, now.
    pub fn continue_job(&mut self, source_job_id: &str, prompt: &str, workdir: Option<String>) -> (
        result: Result<(JobSummary, ContinueTarget), SessionError>)
        requires
            old(self).wf(),
            old(self).logs.last_id() < u64::MAX,
        ensures
            final(self).wf(),
            rest_is_unchanged(*old(self), *final(self)),
            final(self).jobs.last_cleanup() == old(self).jobs.last_cleanup(),
            match result {
                Ok((summary, target)) => {
                    &&& clock::is_hyphenated(summary@.job_id)
                    &&& summary@ == jobs::summary(
                        jobs::queued(
                            summary@.job_id,
                            prompt@,
                            target@.workdir,
                            summary@.created_at,
                        ),
                        0,
                    )
                    &&& sessions::is_continuation(
                        old(self).sessions.data(),
                        final(self).sessions.data(),
                        source_job_id@,
                        summary@.job_id,
                        prompt@,
                        text::option_text(workdir),
                        summary@.created_at,
                        Ok(target),
                    )
                    &&& final(self).jobs.jobs() == old(self).jobs.jobs().insert(
                        summary@.job_id,
                        jobs::queued(
                            summary@.job_id,
                            prompt@,
                            target@.workdir,
                            summary@.created_at,
                        ),
                    )
                    &&& logged(
                        old(self).logs,
                        final(self).logs,
                        jobs::created_log(
                            old(self).jobs.assistant(),
                            summary@.job_id,
                            prompt@,
                            target@.workdir,
                        ),
                    )
                },
                Err(error) => {
                    &&& final(self).jobs.jobs() == old(self).jobs.jobs()
                    &&& final(self).logs == old(self).logs
                    &&& exists|job_id: Seq<char>, now: i64| #[trigger]
                        sessions::is_continuation(
                            old(self).sessions.data(),
                            final(self).sessions.data(),
                            source_job_id@,
                            job_id,
                            prompt@,
                            text::option_text(workdir),
                            now,
                            Err(error),
                        )
                },
            },
    {
        let job_id = clock::fresh_id();
        let now: i64 = clock::utc_millis();
        self.continue_job_as(source_job_id, job_id, prompt, workdir, now)
    }
}

// ---------------------------------------------------------------------------
// Sessions and their running jobs
// ---------------------------------------------------------------------------

/// Why a session cannot be stopped.
#[derive(Debug, Clone, Copy, PartialEq, Eq, Structural)]
pub enum StopError {
    /// There is no such session.
    Gone,
    /// None of its jobs is running.
    Idle,
    /// The job has ended, or is not known.
    Ended,
}

impl StopError {
    /// What the user is told.
    pub open spec fn text(self) -> Seq<char> {
        match self {
            StopError::Gone => "聊天记录不存在或已被清理"@,
            StopError::Idle => "这个任务当前没有在运行"@,
            StopError::Ended => "任务已经结束或不存在"@,
        }
    }

    /// What the user is told.
    pub fn message(&self) -> (message: String)
        ensures
            message@ == self.text(),
    {
        match self {
            StopError::Gone => "聊天记录不存在或已被清理".to_owned(),
            StopError::Idle => "这个任务当前没有在运行".to_owned(),
            StopError::Ended => "任务已经结束或不存在".to_owned(),
        }
    }
}

/// The running job of the session that a job belongs to.
pub open spec fn running_job(data: SessionsView, job_id: Seq<char>) -> Option<Seq<char>> {
    match sessions::root_of(data.sessions, job_id) {
        Some(at) => data.sessions[at].1.active_job_id,
        None => None,
    }
}

/// How it is noted in its session that a job was cancelled.
pub open spec fn cancel_change(now: i64) -> JobChange {
    JobChange::Finished(JobStatus::Cancelled, None, Some(jobs::JOB_CANCELLED@), now)
}

/// The jobs with one of them cancelled, where there is one with the identifier.
pub open spec fn with_cancelled(all: Jobs, job_id: Seq<char>, now: i64) -> Jobs {
    if all.dom().contains(job_id) {
        all.insert(job_id, jobs::cancelled(all[job_id], now))
    } else {
        all
    }
}

/// Whether the session of a job was deleted at `now`, after its running job, where it had
/// one, was cancelled. Gives that job as well.
pub open spec fn is_session_deletion(
    before: AppState,
    after: AppState,
    job_id: Seq<char>,
    now: i64,
    result: (Option<String>, Result<ChatSessionsSnapshot, SessionError>),
) -> bool {
    let found = sessions::cleaned(before.sessions.data(), now);
    &&& after.logs == before.logs
    &&& rest_is_unchanged(before, after)
    &&& after.jobs.last_cleanup() == before.jobs.last_cleanup()
    &&& match running_job(found, job_id) {
        Some(active) => {
            &&& text::option_text(result.0) == Some(active)
            &&& after.jobs.jobs() == with_cancelled(before.jobs.jobs(), active, now)
            &&& sessions::is_deletion(
                sessions::with_change(found, active, cancel_change(now), now),
                after.sessions.data(),
                job_id,
                now,
                result.1,
            )
        },
        None => {
            &&& result.0 is None
            &&& after.jobs.jobs() == before.jobs.jobs()
            &&& sessions::is_deletion(found, after.sessions.data(), job_id, now, result.1)
        },
    }
}

/// Why a session cannot be stopped, if it cannot.
pub open spec fn stop_fault(found: SessionsView, all: Jobs, job_id: Seq<char>) -> Option<
    StopError,
> {
    if sessions::root_of(found.sessions, job_id) is None {
        Some(StopError::Gone)
    } else {
        match running_job(found, job_id) {
            Some(active) => if all.dom().contains(active) {
                None
            } else {
                Some(StopError::Ended)
            },
            None => Some(StopError::Idle),
        }
    }
}

/// Whether the running job of the session of a job was cancelled at `now`. Gives that job
/// and the sessions.
pub open spec fn is_session_stop(
    before: AppState,
    after: AppState,
    job_id: Seq<char>,
    now: i64,
    result: Result<(String, ChatSessionsSnapshot), StopError>,
) -> bool {
    let found = sessions::cleaned(before.sessions.data(), now);
    let fault = stop_fault(found, before.jobs.jobs(), job_id);
    &&& after.logs == before.logs
    &&& rest_is_unchanged(before, after)
    &&& after.jobs.last_cleanup() == before.jobs.last_cleanup()
    &&& match result {
        Ok((active, snapshot)) => {
            &&& fault is None
            &&& running_job(found, job_id) == Some(active@)
            &&& after.jobs.jobs() == with_cancelled(before.jobs.jobs(), active@, now)
            &&& after.sessions.data() == sessions::cleaned(
                sessions::with_change(found, active@, cancel_change(now), now),
                now,
            )
            &&& sessions::is_snapshot(snapshot, after.sessions.data(), now)
        },
        Err(error) => {
            &&& fault == Some(error)
            &&& after.sessions.data() == found
            &&& after.jobs.jobs() == before.jobs.jobs()
        },
    }
}

impl AppState {
    /// The running job of the session that a job belongs to, at `now`.
    fn active_job_at(&mut self, job_id: &str, now: i64) -> (result: Option<Option<String>>)
        requires
            old(self).wf(),
        ensures
            final(self).wf(),
            *final(self) == (AppState { sessions: final(self).sessions, ..*old(self) }),
            final(self).sessions.assistant() == old(self).sessions.assistant(),
            final(self).sessions.data() == sessions::cleaned(old(self).sessions.data(), now),
            match result {
                Some(active) => sessions::root_of(
                    final(self).sessions.data().sessions,
                    job_id@,
                ) is Some && text::option_text(active) == running_job(
                    final(self).sessions.data(),
                    job_id@,
                ),
                None => sessions::root_of(
                    final(self).sessions.data().sessions,
                    job_id@,
                ) is None,
            },
    {
        match self.sessions.detail_at(job_id, Some(1), now) {
            Some(detail) => Some(detail.summary.active_job_id),
            None => None,
        }
    }

    /// Deletes the session of a job at `now`, after its running job is cancelled. Gives the
    /// job that was cancelled as well.
    pub fn delete_chat_session_at(&mut self, job_id: &str, now: i64) -> (result: (
        Option<String>,
        Result<ChatSessionsSnapshot, SessionError>,
    ))
        requires
            old(self).wf(),
        ensures
            final(self).wf(),
            is_session_deletion(*old(self), *final(self), job_id@, now, result),
    {
        let mut cancelled: Option<String> = None;
        if let Some(Some(active)) = self.active_job_at(job_id, now) {
            let shown = self.jobs.cancel_at(active.as_str(), now);
            self.sessions.finish_job_at(
                active.as_str(),
                &JobStatus::Cancelled,
                None,
                Some(jobs::JOB_CANCELLED),
                now,
                now,
            );
            cancelled = Some(active);
        }
        let left = self.sessions.delete_at(job_id, now);
        (cancelled, left)
    }

    /// Stops the running job of the session of a job, at `now`. Gives the job that was
    /// cancelled, and shows the sessions.
    pub fn stop_chat_session_at(&mut self, job_id: &str, now: i64) -> (result: Result<
        (String, ChatSessionsSnapshot),
        StopError,
    >)
        requires
            old(self).wf(),
        ensures
            final(self).wf(),
            is_session_stop(*old(self), *final(self), job_id@, now, result),
    {
        let active = match self.active_job_at(job_id, now) {
            Some(Some(active)) => active,
            Some(None) => {
                return Err(StopError::Idle);
            },
            None => {
                return Err(StopError::Gone);
            },
        };
        if self.jobs.cancel_at(active.as_str(), now).is_none() {
            return Err(StopError::Ended);
        }
        self.sessions.finish_job_at(
            active.as_str(),
            &JobStatus::Cancelled,
            None,
            Some(jobs::JOB_CANCELLED),
            now,
            now,
        );
        let snapshot = self.sessions.snapshot_at(now);
        Ok((active, snapshot))
    }
}

/// A session whose running job is one of its own jobs can always be deleted: the job is
/// cancelled first.
pub proof fn law_running_jobs_do_not_stand_in_the_way(
    before: AppState,
    after: AppState,
    job_id: Seq<char>,
    now: i64,
    result: (Option<String>, Result<ChatSessionsSnapshot, SessionError>),
)
    requires
        is_session_deletion(before, after, job_id, now, result),
        ({
            let found = sessions::cleaned(before.sessions.data(), now).sessions;
            sessions::root_of(found, job_id) matches Some(at) && (
            found[at].1.active_job_id matches Some(active) ==> sessions::root_of(found, active)
                == Some(at) && sessions::has_job(found[at].1, active))
        }),
    ensures
        result.1 is Ok,
{
    let found = sessions::cleaned(before.sessions.data(), now);
    match running_job(found, job_id) {
        Some(active) => {
            sessions::law_ended_sessions_can_be_deleted(
                found,
                job_id,
                active,
                JobStatus::Cancelled,
                None,
                Some(jobs::JOB_CANCELLED@),
                now,
            );
        },
        None => {},
    }
}

} // verus!
