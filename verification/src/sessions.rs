//! Chat sessions: a first job and the jobs that continue it, with what was asked and
//! answered.

use vstd::prelude::*;
use vstd::string::*;

use crate::clock;
use crate::job_table::JobStatus;
use crate::jobs;
use crate::names;
use crate::order;
use crate::text;

verus! {

/// The name of the file in which sessions are kept.
pub const CHAT_SESSIONS_FILE_NAME: &'static str = "chat-sessions.json";

/// The event that tells listeners of a change.
pub const CHAT_SESSIONS_EVENT: &'static str = "chat-sessions-updated";

/// How long a session is kept, in milliseconds.
pub const RETENTION_MS: i64 = 2_592_000_000;

/// How much of a prompt, an output or an error is kept.
pub const MAX_STORED_CHARS: usize = 40_000;

/// How long the account of a session may be.
pub const MAX_CODEX_CONTEXT_CHARS: usize = 80_000;

/// How much of a prompt a title shows.
pub const PREVIEW_CHARS: usize = 140;

/// A job of a session. Times are in milliseconds since the epoch.
#[derive(Debug)]
pub struct ChatJobRecord {
    pub job_id: String,
    pub parent_job_id: Option<String>,
    pub prompt: String,
    pub status: String,
    pub created_at: i64,
    pub started_at: Option<i64>,
    pub ended_at: Option<i64>,
    pub output: Option<String>,
    pub error: Option<String>,
}

/// What a job of a session says.
#[verifier::ext_equal]
pub struct ChatJobView {
    pub job_id: Seq<char>,
    pub parent_job_id: Option<Seq<char>>,
    pub prompt: Seq<char>,
    pub status: Seq<char>,
    pub created_at: i64,
    pub started_at: Option<i64>,
    pub ended_at: Option<i64>,
    pub output: Option<Seq<char>>,
    pub error: Option<Seq<char>>,
}

impl View for ChatJobRecord {
    type V = ChatJobView;

    open spec fn view(&self) -> ChatJobView {
        ChatJobView {
            job_id: self.job_id@,
            parent_job_id: text::option_text(self.parent_job_id),
            prompt: self.prompt@,
            status: self.status@,
            created_at: self.created_at,
            started_at: self.started_at,
            ended_at: self.ended_at,
            output: text::option_text(self.output),
            error: text::option_text(self.error),
        }
    }
}

impl Clone for ChatJobRecord {
    fn clone(&self) -> (copy: Self)
        ensures
            copy@ == self@,
    {
        ChatJobRecord {
            job_id: self.job_id.clone(),
            parent_job_id: text::copy_option(&self.parent_job_id),
            prompt: self.prompt.clone(),
            status: self.status.clone(),
            created_at: self.created_at,
            started_at: self.started_at,
            ended_at: self.ended_at,
            output: text::copy_option(&self.output),
            error: text::copy_option(&self.error),
        }
    }
}

/// What jobs say.
pub open spec fn job_views(jobs: Seq<ChatJobRecord>) -> Seq<ChatJobView> {
    Seq::new(jobs.len(), |i: int| jobs[i]@)
}

/// Copies of the jobs from `from` on.
fn copy_jobs(jobs: &Vec<ChatJobRecord>, from: usize) -> (copies: Vec<ChatJobRecord>)
    requires
        from <= jobs.len(),
    ensures
        job_views(copies@) == job_views(jobs@).skip(from as int),
{
    let mut copies: Vec<ChatJobRecord> = Vec::new();
    let mut i: usize = from;
    while i < jobs.len()
        invariant
            from <= i <= jobs@.len(),
            copies@.len() == i - from,
            forall|j: int| 0 <= j < copies@.len() ==> (#[trigger] copies@[j])@ == jobs@[from + j]@,
        decreases jobs@.len() - i,
    {
        copies.push(jobs[i].clone());
        i += 1;
    }
    assert(job_views(copies@) =~= job_views(jobs@).skip(from as int));
    copies
}

/// A session.
#[derive(Debug)]
pub struct ChatSessionRecord {
    pub root_job_id: String,
    pub latest_job_id: String,
    pub session_id: Option<String>,
    pub workdir: String,
    pub status: String,
    pub created_at: i64,
    pub updated_at: i64,
    pub expires_at: i64,
    pub active_job_id: Option<String>,
    pub jobs: Vec<ChatJobRecord>,
}

/// What a session says.
#[verifier::ext_equal]
pub struct SessionView {
    pub root_job_id: Seq<char>,
    pub latest_job_id: Seq<char>,
    pub session_id: Option<Seq<char>>,
    pub workdir: Seq<char>,
    pub status: Seq<char>,
    pub created_at: i64,
    pub updated_at: i64,
    pub expires_at: i64,
    pub active_job_id: Option<Seq<char>>,
    pub jobs: Seq<ChatJobView>,
}

impl View for ChatSessionRecord {
    type V = SessionView;

    open spec fn view(&self) -> SessionView {
        SessionView {
            root_job_id: self.root_job_id@,
            latest_job_id: self.latest_job_id@,
            session_id: text::option_text(self.session_id),
            workdir: self.workdir@,
            status: self.status@,
            created_at: self.created_at,
            updated_at: self.updated_at,
            expires_at: self.expires_at,
            active_job_id: text::option_text(self.active_job_id),
            jobs: job_views(self.jobs@),
        }
    }
}

impl Clone for ChatSessionRecord {
    fn clone(&self) -> (copy: Self)
        ensures
            copy@ == self@,
    {
        let copy = ChatSessionRecord {
            root_job_id: self.root_job_id.clone(),
            latest_job_id: self.latest_job_id.clone(),
            session_id: text::copy_option(&self.session_id),
            workdir: self.workdir.clone(),
            status: self.status.clone(),
            created_at: self.created_at,
            updated_at: self.updated_at,
            expires_at: self.expires_at,
            active_job_id: text::copy_option(&self.active_job_id),
            jobs: copy_jobs(&self.jobs, 0),
        };
        assert(copy@.jobs =~= self@.jobs);
        copy
    }
}

/// Sessions as they are kept: by the identifiers of their first jobs, in the order of these.
#[derive(Debug)]
pub struct ChatSessionsFile {
    pub sessions: Vec<(String, ChatSessionRecord)>,
    pub updated_at: i64,
}

/// Sessions by the identifiers of their first jobs.
pub type Sessions = Seq<(Seq<char>, SessionView)>;

/// What a [`ChatSessionsFile`] says.
#[verifier::ext_equal]
pub struct SessionsView {
    pub sessions: Sessions,
    pub updated_at: i64,
}

/// What sessions say.
pub open spec fn session_views(sessions: Seq<(String, ChatSessionRecord)>) -> Sessions {
    Seq::new(sessions.len(), |i: int| (sessions[i].0@, sessions[i].1@))
}

impl View for ChatSessionsFile {
    type V = SessionsView;

    open spec fn view(&self) -> SessionsView {
        SessionsView { sessions: session_views(self.sessions@), updated_at: self.updated_at }
    }
}

impl Clone for ChatSessionsFile {
    fn clone(&self) -> (copy: Self)
        ensures
            copy@ == self@,
    {
        let mut sessions: Vec<(String, ChatSessionRecord)> = Vec::new();
        let mut i: usize = 0;
        while i < self.sessions.len()
            invariant
                i <= self.sessions@.len(),
                sessions@.len() == i,
                forall|j: int|
                    0 <= j < i ==> (#[trigger] sessions@[j]).0@ == self.sessions@[j].0@
                        && sessions@[j].1@ == self.sessions@[j].1@,
            decreases self.sessions@.len() - i,
        {
            sessions.push((self.sessions[i].0.clone(), self.sessions[i].1.clone()));
            i += 1;
        }
        let copy = ChatSessionsFile { sessions, updated_at: self.updated_at };
        assert(copy@.sessions =~= self@.sessions);
        copy
    }
}

/// No sessions.
pub open spec fn no_sessions() -> SessionsView {
    SessionsView { sessions: Seq::empty(), updated_at: 0 }
}

impl Default for ChatSessionsFile {
    fn default() -> (file: Self)
        ensures
            file@ == no_sessions(),
    {
        let file = ChatSessionsFile { sessions: Vec::new(), updated_at: 0 };
        assert(file@ =~= no_sessions());
        file
    }
}

/// A session as it is shown in a list.
#[derive(Debug)]
pub struct ChatSessionSummary {
    pub root_job_id: String,
    pub latest_job_id: String,
    pub session_id: Option<String>,
    pub workdir: String,
    pub status: String,
    pub created_at: i64,
    pub updated_at: i64,
    pub expires_at: i64,
    pub active_job_id: Option<String>,
    pub job_count: usize,
    pub title: String,
    pub resumable: bool,
    pub blocked_reason: Option<String>,
}

/// What a [`ChatSessionSummary`] says.
#[verifier::ext_equal]
pub struct ChatSummaryView {
    pub root_job_id: Seq<char>,
    pub latest_job_id: Seq<char>,
    pub session_id: Option<Seq<char>>,
    pub workdir: Seq<char>,
    pub status: Seq<char>,
    pub created_at: i64,
    pub updated_at: i64,
    pub expires_at: i64,
    pub active_job_id: Option<Seq<char>>,
    pub job_count: nat,
    pub title: Seq<char>,
    pub resumable: bool,
    pub blocked_reason: Option<Seq<char>>,
}

impl View for ChatSessionSummary {
    type V = ChatSummaryView;

    open spec fn view(&self) -> ChatSummaryView {
        ChatSummaryView {
            root_job_id: self.root_job_id@,
            latest_job_id: self.latest_job_id@,
            session_id: text::option_text(self.session_id),
            workdir: self.workdir@,
            status: self.status@,
            created_at: self.created_at,
            updated_at: self.updated_at,
            expires_at: self.expires_at,
            active_job_id: text::option_text(self.active_job_id),
            job_count: self.job_count as nat,
            title: self.title@,
            resumable: self.resumable,
            blocked_reason: text::option_text(self.blocked_reason),
        }
    }
}

/// A session as it is shown in full.
#[derive(Debug)]
pub struct ChatSessionDetail {
    pub summary: ChatSessionSummary,
    pub codex_context: String,
    pub jobs: Vec<ChatJobRecord>,
}

/// All sessions as they are shown, the one changed last coming first.
#[derive(Debug)]
pub struct ChatSessionsSnapshot {
    pub sessions: Vec<ChatSessionSummary>,
    pub updated_at: i64,
}

/// What a continuation goes on from.
#[derive(Debug)]
pub struct ContinueTarget {
    pub root_job_id: String,
    pub parent_job_id: String,
    pub session_id: String,
    pub workdir: String,
    pub expires_at: i64,
}

/// What a [`ContinueTarget`] says.
#[verifier::ext_equal]
pub struct TargetView {
    pub root_job_id: Seq<char>,
    pub parent_job_id: Seq<char>,
    pub session_id: Seq<char>,
    pub workdir: Seq<char>,
    pub expires_at: i64,
}

impl View for ContinueTarget {
    type V = TargetView;

    open spec fn view(&self) -> TargetView {
        TargetView {
            root_job_id: self.root_job_id@,
            parent_job_id: self.parent_job_id@,
            session_id: self.session_id@,
            workdir: self.workdir@,
            expires_at: self.expires_at,
        }
    }
}

/// Why something cannot be done with a session.
#[derive(Debug)]
pub enum SessionError {
    /// No session has the job with this identifier.
    UnknownJob(String),
    /// The session is too old.
    Expired,
    /// The job with this identifier is running, so the session cannot be continued.
    Running(String),
    /// The agent knows no session.
    NoSession,
    /// There is no such session.
    Gone,
    /// The job with this identifier is running, so the session cannot be deleted.
    Busy(String),
}

/// What a [`SessionError`] says.
#[verifier::ext_equal]
pub enum SessionFault {
    UnknownJob(Seq<char>),
    Expired,
    Running(Seq<char>),
    NoSession,
    Gone,
    Busy(Seq<char>),
}

impl View for SessionError {
    type V = SessionFault;

    open spec fn view(&self) -> SessionFault {
        match *self {
            SessionError::UnknownJob(job_id) => SessionFault::UnknownJob(job_id@),
            SessionError::Expired => SessionFault::Expired,
            SessionError::Running(job_id) => SessionFault::Running(job_id@),
            SessionError::NoSession => SessionFault::NoSession,
            SessionError::Gone => SessionFault::Gone,
            SessionError::Busy(job_id) => SessionFault::Busy(job_id@),
        }
    }
}

/// What the user is told of a fault.
pub open spec fn fault_text(fault: SessionFault) -> Seq<char> {
    match fault {
        SessionFault::UnknownJob(job_id) => "找不到可续聊的 job_id："@ + job_id,
        SessionFault::Expired => "聊天记录已过期，无法继续"@,
        SessionFault::Running(job_id) => "当前 session 正在运行："@ + job_id
            + "，请等待完成或取消后再继续"@,
        SessionFault::NoSession => "这个 job 没有可恢复的 Agent SDK session，无法继续"@,
        SessionFault::Gone => "聊天记录不存在或已被清理"@,
        SessionFault::Busy(job_id) => "当前 session 正在运行："@ + job_id
            + "，请完成或取消后再删除"@,
    }
}

impl SessionError {
    /// What the user is told.
    pub fn message(&self) -> (message: String)
        ensures
            message@ == fault_text(self@),
    {
        match self {
            SessionError::UnknownJob(job_id) => {
                let mut message = "找不到可续聊的 job_id：".to_owned();
                message.append(job_id.as_str());
                message
            },
            SessionError::Expired => "聊天记录已过期，无法继续".to_owned(),
            SessionError::Running(job_id) => {
                let mut message = "当前 session 正在运行：".to_owned();
                message.append(job_id.as_str());
                message.append("，请等待完成或取消后再继续");
                message
            },
            SessionError::NoSession => {
                "这个 job 没有可恢复的 Agent SDK session，无法继续".to_owned()
            },
            SessionError::Gone => "聊天记录不存在或已被清理".to_owned(),
            SessionError::Busy(job_id) => {
                let mut message = "当前 session 正在运行：".to_owned();
                message.append(job_id.as_str());
                message.append("，请完成或取消后再删除");
                message
            },
        }
    }
}

// ---------------------------------------------------------------------------
// One session
// ---------------------------------------------------------------------------

/// When a session expires that was last used at `timestamp_ms`.
pub open spec fn expiry(timestamp_ms: i64) -> i64 {
    if timestamp_ms + RETENTION_MS <= i64::MAX {
        (timestamp_ms + RETENTION_MS) as i64
    } else {
        i64::MAX
    }
}

/// When a session expires that was last used at `timestamp_ms`.
pub fn expiry_from(timestamp_ms: i64) -> (at: i64)
    ensures
        at == expiry(timestamp_ms),
{
    if timestamp_ms <= i64::MAX - RETENTION_MS {
        timestamp_ms + RETENTION_MS
    } else {
        i64::MAX
    }
}

/// What is kept of a text.
pub open spec fn clamped(text: Seq<char>) -> Seq<char> {
    text::cut(text, MAX_STORED_CHARS as nat, text::ELLIPSIS@)
}

/// What is kept of a text.
pub fn clamp_text(text: &str) -> (kept: String)
    ensures
        kept@ == clamped(text@),
{
    text::truncate_chars(text, MAX_STORED_CHARS)
}

/// What is kept of an optional text.
pub open spec fn clamped_option(text: Option<Seq<char>>) -> Option<Seq<char>> {
    match text {
        Some(t) => Some(clamped(t)),
        None => None,
    }
}

/// A new job of a session.
pub open spec fn new_job(
    job_id: Seq<char>,
    parent: Option<Seq<char>>,
    prompt: Seq<char>,
    created_at: i64,
) -> ChatJobView {
    ChatJobView {
        job_id,
        parent_job_id: parent,
        prompt: clamped(prompt),
        status: jobs::label(JobStatus::Queued),
        created_at,
        started_at: None,
        ended_at: None,
        output: None,
        error: None,
    }
}

fn make_job(job_id: &str, parent: Option<String>, prompt: &str, created_at: i64) -> (
    job: ChatJobRecord)
    ensures
        job@ == new_job(job_id@, text::option_text(parent), prompt@, created_at),
{
    ChatJobRecord {
        job_id: job_id.to_owned(),
        parent_job_id: parent,
        prompt: clamp_text(prompt),
        status: jobs::status_label(&JobStatus::Queued).to_owned(),
        created_at,
        started_at: None,
        ended_at: None,
        output: None,
        error: None,
    }
}

/// A new session, with its first job.
pub open spec fn new_session(
    job_id: Seq<char>,
    prompt: Seq<char>,
    workdir: Seq<char>,
    created_at: i64,
) -> SessionView {
    SessionView {
        root_job_id: job_id,
        latest_job_id: job_id,
        session_id: None,
        workdir,
        status: jobs::label(JobStatus::Queued),
        created_at,
        updated_at: created_at,
        expires_at: expiry(created_at),
        active_job_id: Some(job_id),
        jobs: seq![new_job(job_id, None, prompt, created_at)],
    }
}

/// Why a session cannot be continued, if it cannot.
pub open spec fn continue_fault(session: SessionView, now: i64) -> Option<SessionFault> {
    if session.expires_at <= now {
        Some(SessionFault::Expired)
    } else if session.active_job_id is Some {
        Some(SessionFault::Running(session.active_job_id->0))
    } else if session.session_id is None {
        Some(SessionFault::NoSession)
    } else {
        None
    }
}

/// A session that is continued.
pub open spec fn continued(
    session: SessionView,
    job_id: Seq<char>,
    prompt: Seq<char>,
    workdir: Option<Seq<char>>,
    now: i64,
) -> SessionView {
    SessionView {
        latest_job_id: job_id,
        workdir: match workdir {
            Some(dir) => dir,
            None => session.workdir,
        },
        status: jobs::label(JobStatus::Queued),
        updated_at: now,
        expires_at: expiry(now),
        active_job_id: Some(job_id),
        jobs: session.jobs.push(new_job(job_id, Some(session.latest_job_id), prompt, now)),
        ..session
    }
}

/// What a continuation goes on from.
pub open spec fn target(
    root: Seq<char>,
    session: SessionView,
    workdir: Option<Seq<char>>,
    now: i64,
) -> TargetView {
    TargetView {
        root_job_id: root,
        parent_job_id: session.latest_job_id,
        session_id: session.session_id->0,
        workdir: match workdir {
            Some(dir) => dir,
            None => session.workdir,
        },
        expires_at: expiry(now),
    }
}

/// A change of a job and of the session that it belongs to.
pub enum JobChange {
    /// The job starts to run.
    Started(i64),
    /// The agent has given the session an identifier.
    Attached(Seq<char>, i64),
    /// The job has ended.
    Finished(JobStatus, Option<Seq<char>>, Option<Seq<char>>, i64),
}

/// A job after a change.
pub open spec fn changed_job(job: ChatJobView, change: JobChange) -> ChatJobView {
    match change {
        JobChange::Started(at) => ChatJobView {
            status: jobs::label(JobStatus::Running),
            started_at: Some(at),
            ..job
        },
        JobChange::Attached(_, _) => job,
        JobChange::Finished(status, output, error, at) => ChatJobView {
            status: jobs::label(status),
            ended_at: Some(at),
            output: clamped_option(output),
            error: clamped_option(error),
            ..job
        },
    }
}

/// A session after a change of the job at `at`.
pub open spec fn changed_session(session: SessionView, at: int, change: JobChange) -> SessionView {
    let job_id = session.jobs[at].job_id;
    let session = SessionView {
        jobs: session.jobs.update(at, changed_job(session.jobs[at], change)),
        ..session
    };
    match change {
        JobChange::Started(now) => SessionView {
            status: jobs::label(JobStatus::Running),
            updated_at: now,
            ..session
        },
        JobChange::Attached(session_id, now) => SessionView {
            session_id: Some(session_id),
            updated_at: now,
            ..session
        },
        JobChange::Finished(status, _, _, now) => SessionView {
            status: jobs::label(status),
            updated_at: now,
            expires_at: expiry(now),
            active_job_id: if session.active_job_id == Some(job_id) {
                None
            } else {
                session.active_job_id
            },
            ..session
        },
    }
}

/// A session has one running job at a time: while one is running it cannot be continued,
/// and when it is continued the new job is the running one.
pub proof fn law_one_job_runs_at_a_time(
    session: SessionView,
    job_id: Seq<char>,
    prompt: Seq<char>,
    workdir: Option<Seq<char>>,
    now: i64,
    later: i64,
)
    ensures
        session.active_job_id is Some ==> continue_fault(session, now) is Some,
        continue_fault(continued(session, job_id, prompt, workdir, now), later) is Some,
{
}

/// When the running job of a session has ended, and the agent has given the session an
/// identifier, the session can be continued until it expires; and the next job goes on from
/// that one.
pub proof fn law_finished_sessions_go_on(
    session: SessionView,
    at: int,
    status: JobStatus,
    output: Option<Seq<char>>,
    error: Option<Seq<char>>,
    ended_at: i64,
    now: i64,
)
    requires
        0 <= at < session.jobs.len(),
        session.active_job_id == Some(session.jobs[at].job_id),
        session.session_id is Some,
        now < expiry(ended_at),
    ensures
        continue_fault(
            changed_session(session, at, JobChange::Finished(status, output, error, ended_at)),
            now,
        ) is None,
{
}

/// Each job of a session but the first goes on from the one before it: what holds before a
/// continuation holds after it.
pub proof fn law_jobs_form_a_chain(
    session: SessionView,
    job_id: Seq<char>,
    prompt: Seq<char>,
    workdir: Option<Seq<char>>,
    now: i64,
)
    requires
        session.jobs.len() > 0,
        session.latest_job_id == session.jobs.last().job_id,
        forall|i: int|
            0 < i < session.jobs.len() ==> (#[trigger] session.jobs[i]).parent_job_id == Some(
                session.jobs[i - 1].job_id,
            ),
    ensures
        continued(session, job_id, prompt, workdir, now).latest_job_id == continued(
            session,
            job_id,
            prompt,
            workdir,
            now,
        ).jobs.last().job_id,
        forall|i: int|
            0 < i < continued(session, job_id, prompt, workdir, now).jobs.len() ==> (
            #[trigger] continued(session, job_id, prompt, workdir, now).jobs[i]).parent_job_id
                == Some(continued(session, job_id, prompt, workdir, now).jobs[i - 1].job_id),
{
    let after = continued(session, job_id, prompt, workdir, now).jobs;
    assert forall|i: int| 0 < i < after.len() implies (#[trigger] after[i]).parent_job_id == Some(
        after[i - 1].job_id,
    ) by {
        if i < session.jobs.len() {
            assert(after[i] == session.jobs[i]);
            assert(after[i - 1] == session.jobs[i - 1]);
        } else {
            assert(after[i - 1] == session.jobs.last());
        }
    }
}

// ---------------------------------------------------------------------------
// How a session is shown
// ---------------------------------------------------------------------------

/// Why a session cannot be continued, as it is shown.
pub open spec fn blocked(session: SessionView, now: i64) -> Option<Seq<char>> {
    if session.expires_at <= now {
        Some("聊天记录已过期"@)
    } else if session.active_job_id is Some {
        Some("任务运行中："@ + session.active_job_id->0)
    } else if session.session_id is None {
        Some("没有可恢复的 Agent SDK session"@)
    } else {
        None
    }
}

/// A session is shown as one that can be continued just where it can be.
pub proof fn law_resumable_means_resumable(session: SessionView, now: i64)
    ensures
        summarized(session, now).resumable == (continue_fault(session, now) is None),
{
}

/// How a session is shown in a list.
pub open spec fn summarized(session: SessionView, now: i64) -> ChatSummaryView {
    ChatSummaryView {
        root_job_id: session.root_job_id,
        latest_job_id: session.latest_job_id,
        session_id: session.session_id,
        workdir: session.workdir,
        status: session.status,
        created_at: session.created_at,
        updated_at: session.updated_at,
        expires_at: session.expires_at,
        active_job_id: session.active_job_id,
        job_count: session.jobs.len(),
        title: if session.jobs.len() > 0 {
            text::cut(session.jobs[0].prompt, PREVIEW_CHARS as nat, text::ELLIPSIS@)
        } else {
            "未命名任务"@
        },
        resumable: blocked(session, now) is None,
        blocked_reason: blocked(session, now),
    }
}

/// Why a session cannot be continued, as it is shown.
fn blocked_reason(session: &ChatSessionRecord, now: i64) -> (reason: Option<String>)
    ensures
        text::option_text(reason) == blocked(session@, now),
{
    if session.expires_at <= now {
        return Some("聊天记录已过期".to_owned());
    }
    if let Some(active_job_id) = &session.active_job_id {
        let mut reason = "任务运行中：".to_owned();
        reason.append(active_job_id.as_str());
        return Some(reason);
    }
    if session.session_id.is_none() {
        return Some("没有可恢复的 Agent SDK session".to_owned());
    }
    None
}

/// Shows a session in a list.
pub fn summarize(session: &ChatSessionRecord, now: i64) -> (summary: ChatSessionSummary)
    ensures
        summary@ == summarized(session@, now),
{
    let reason = blocked_reason(session, now);
    let title = if session.jobs.len() > 0 {
        assert(session@.jobs[0] == session.jobs@[0]@);
        text::truncate_chars(session.jobs[0].prompt.as_str(), PREVIEW_CHARS)
    } else {
        "未命名任务".to_owned()
    };
    ChatSessionSummary {
        root_job_id: session.root_job_id.clone(),
        latest_job_id: session.latest_job_id.clone(),
        session_id: text::copy_option(&session.session_id),
        workdir: session.workdir.clone(),
        status: session.status.clone(),
        created_at: session.created_at,
        updated_at: session.updated_at,
        expires_at: session.expires_at,
        active_job_id: text::copy_option(&session.active_job_id),
        job_count: session.jobs.len(),
        title,
        resumable: reason.is_none(),
        blocked_reason: reason,
    }
}

/// The lines of an account that tell of the session.
pub open spec fn head_lines(name: Seq<char>, summary: ChatSummaryView) -> Seq<Seq<char>> {
    seq![
        names::sentence(name, "# ", " MCP 任务上下文"),
        "- root_job_id: "@ + summary.root_job_id,
        "- latest_job_id: "@ + summary.latest_job_id,
        "- workdir: "@ + summary.workdir,
        "- status: "@ + summary.status,
        "- resumable: "@ + (if summary.resumable {
            "true"@
        } else {
            "false"@
        }),
        "- expires_at: "@ + text::signed_numeral(summary.expires_at as int),
    ] + (match summary.session_id {
        Some(session_id) => seq!["- session_id: "@ + session_id],
        None => seq![],
    }) + (match summary.blocked_reason {
        Some(reason) => seq!["- blocked_reason: "@ + reason],
        None => seq![],
    }) + seq![""@, "## 历史轮次"@]
}

/// The lines of an account that tell of one job.
pub open spec fn job_lines(name: Seq<char>, index: int, job: ChatJobView) -> Seq<Seq<char>> {
    seq![
        "### 第 "@ + text::numeral((index + 1) as nat) + " 轮 · "@ + job.status + " · "@
            + job.job_id,
    ] + (match job.parent_job_id {
        Some(parent) => seq!["- parent_job_id: "@ + parent],
        None => seq![],
    }) + seq!["- 用户要求:"@, job.prompt] + (match job.error {
        Some(error) => seq![names::sentence(name, "- ", " 错误:"), error],
        None => match job.output {
            Some(output) => seq![names::sentence(name, "- ", " 回复:"), output],
            None => seq![names::sentence(name, "- ", " 回复: 任务尚未完成。")],
        },
    }) + seq![""@]
}

/// The lines of an account that tell of the first `n` jobs.
pub open spec fn history_lines(name: Seq<char>, jobs: Seq<ChatJobView>, n: nat) -> Seq<Seq<char>>
    decreases n,
{
    if n == 0 || n > jobs.len() {
        seq![]
    } else {
        history_lines(name, jobs, (n - 1) as nat) + job_lines(name, n - 1, jobs[n - 1])
    }
}

/// The last lines of an account.
pub open spec fn advice_lines() -> Seq<Seq<char>> {
    seq![
        "## Codex 续聊建议"@,
        "如果用户要求继续修改，请先阅读以上历史，再调用 code_continue_start 或 code_continue；prompt 只写新的修改要求，不需要把完整历史重复塞回去。"@,
    ]
}

/// The account of a session.
pub open spec fn context(
    name: Seq<char>,
    summary: ChatSummaryView,
    jobs: Seq<ChatJobView>,
) -> Seq<char> {
    text::cut(
        text::joined(
            head_lines(name, summary) + history_lines(name, jobs, jobs.len()) + advice_lines(),
            "\n"@,
        ),
        MAX_CODEX_CONTEXT_CHARS as nat,
        text::ELLIPSIS@,
    )
}

fn labelled(label: &str, value: &str) -> (line: String)
    ensures
        line@ == label@ + value@,
{
    let mut line = label.to_owned();
    line.append(value);
    line
}

/// Adds a line.
fn add_line(lines: &mut Vec<String>, line: String)
    ensures
        text::texts(final(lines)@) == text::texts(old(lines)@).push(line@),
{
    let ghost before = lines@;
    lines.push(line);
    assert(text::texts(lines@) =~= text::texts(before).push(line@));
}

/// Adds the lines that tell of the session.
fn add_head(lines: &mut Vec<String>, assistant: &str, summary: &ChatSessionSummary)
    requires
        old(lines)@.len() == 0,
    ensures
        text::texts(final(lines)@) == head_lines(assistant@, summary@),
{
    let resumable = if summary.resumable {
        "true"
    } else {
        "false"
    };
    add_line(lines, names::naming(assistant, "# ", " MCP 任务上下文"));
    add_line(lines, labelled("- root_job_id: ", summary.root_job_id.as_str()));
    add_line(lines, labelled("- latest_job_id: ", summary.latest_job_id.as_str()));
    add_line(lines, labelled("- workdir: ", summary.workdir.as_str()));
    add_line(lines, labelled("- status: ", summary.status.as_str()));
    add_line(lines, labelled("- resumable: ", resumable));
    add_line(
        lines,
        labelled("- expires_at: ", text::signed_decimal(summary.expires_at).as_str()),
    );
    if let Some(session_id) = &summary.session_id {
        add_line(lines, labelled("- session_id: ", session_id.as_str()));
    }
    if let Some(reason) = &summary.blocked_reason {
        add_line(lines, labelled("- blocked_reason: ", reason.as_str()));
    }
    add_line(lines, "".to_owned());
    add_line(lines, "## 历史轮次".to_owned());
    assert(text::texts(lines@) =~= head_lines(assistant@, summary@));
}

/// Adds the lines that tell of one job.
fn add_job(lines: &mut Vec<String>, assistant: &str, index: usize, job: &ChatJobRecord)
    requires
        index < usize::MAX,
    ensures
        text::texts(final(lines)@) == text::texts(old(lines)@) + job_lines(
            assistant@,
            index as int,
            job@,
        ),
{
    let ghost before = text::texts(lines@);
    let mut title = "### 第 ".to_owned();
    title.append(text::decimal(index as u64 + 1).as_str());
    title.append(" 轮 · ");
    title.append(job.status.as_str());
    title.append(" · ");
    title.append(job.job_id.as_str());
    add_line(lines, title);
    if let Some(parent) = &job.parent_job_id {
        add_line(lines, labelled("- parent_job_id: ", parent.as_str()));
    }
    add_line(lines, "- 用户要求:".to_owned());
    add_line(lines, job.prompt.clone());
    if let Some(error) = &job.error {
        add_line(lines, names::naming(assistant, "- ", " 错误:"));
        add_line(lines, error.clone());
    } else if let Some(output) = &job.output {
        add_line(lines, names::naming(assistant, "- ", " 回复:"));
        add_line(lines, output.clone());
    } else {
        add_line(lines, names::naming(assistant, "- ", " 回复: 任务尚未完成。"));
    }
    add_line(lines, "".to_owned());
    assert(text::texts(lines@) =~= before + job_lines(assistant@, index as int, job@));
}

/// Gives an account of a session.
pub fn build_codex_context(
    summary: &ChatSessionSummary,
    jobs: &Vec<ChatJobRecord>,
    assistant: &str,
) -> (account: String)
    ensures
        account@ == context(assistant@, summary@, job_views(jobs@)),
{
    let ghost views = job_views(jobs@);
    let ghost name = assistant@;
    let mut lines: Vec<String> = Vec::new();
    add_head(&mut lines, assistant, summary);
    let mut i: usize = 0;
    assert(head_lines(name, summary@) + history_lines(name, views, 0) =~= head_lines(
        name,
        summary@,
    ));
    while i < jobs.len()
        invariant
            i <= jobs@.len(),
            views == job_views(jobs@),
            name == assistant@,
            text::texts(lines@) == head_lines(name, summary@) + history_lines(name, views, i as nat),
        decreases jobs@.len() - i,
    {
        add_job(&mut lines, assistant, i, &jobs[i]);
        i += 1;
        assert(text::texts(lines@) =~= head_lines(name, summary@) + history_lines(
            name,
            views,
            i as nat,
        ));
    }
    add_line(&mut lines, "## Codex 续聊建议".to_owned());
    add_line(
        &mut lines,
        "如果用户要求继续修改，请先阅读以上历史，再调用 code_continue_start 或 code_continue；prompt 只写新的修改要求，不需要把完整历史重复塞回去。".to_owned(),
    );
    assert(text::texts(lines@) =~= head_lines(name, summary@) + history_lines(name, views, views.len())
        + advice_lines());
    let account = text::join(&lines, "\n");
    text::truncate_chars(account.as_str(), MAX_CODEX_CONTEXT_CHARS)
}

// ---------------------------------------------------------------------------
// All sessions
// ---------------------------------------------------------------------------

/// The index of the first job with an identifier; the number of jobs where there is none.
pub open spec fn job_place(jobs: Seq<ChatJobView>, job_id: Seq<char>) -> nat
    decreases jobs.len(),
{
    if jobs.len() == 0 || jobs[0].job_id == job_id {
        0
    } else {
        1 + job_place(jobs.skip(1), job_id)
    }
}

/// Whether a session has a job with an identifier.
pub open spec fn has_job(session: SessionView, job_id: Seq<char>) -> bool {
    job_place(session.jobs, job_id) < session.jobs.len()
}

/// The index of the first session that has a job with an identifier; the number of sessions
/// where there is none.
pub open spec fn session_place(sessions: Sessions, job_id: Seq<char>) -> nat
    decreases sessions.len(),
{
    if sessions.len() == 0 || has_job(sessions[0].1, job_id) {
        0
    } else {
        1 + session_place(sessions.skip(1), job_id)
    }
}

/// The session that a job belongs to: the one that it is the first job of, else the first
/// one that has it.
pub open spec fn root_of(sessions: Sessions, job_id: Seq<char>) -> Option<int> {
    if order::has_entry(sessions, job_id) {
        Some(order::rank(sessions, job_id) as int)
    } else if session_place(sessions, job_id) < sessions.len() {
        Some(session_place(sessions, job_id) as int)
    } else {
        None
    }
}

proof fn lemma_job_place(jobs: Seq<ChatJobView>, job_id: Seq<char>)
    ensures
        job_place(jobs, job_id) <= jobs.len(),
        job_place(jobs, job_id) < jobs.len() ==> jobs[job_place(jobs, job_id) as int].job_id
            == job_id,
    decreases jobs.len(),
{
    if jobs.len() == 0 || jobs[0].job_id == job_id {
    } else {
        lemma_job_place(jobs.skip(1), job_id);
    }
}

proof fn lemma_session_place(sessions: Sessions, job_id: Seq<char>)
    ensures
        session_place(sessions, job_id) <= sessions.len(),
        session_place(sessions, job_id) < sessions.len() ==> has_job(
            sessions[session_place(sessions, job_id) as int].1,
            job_id,
        ),
    decreases sessions.len(),
{
    if sessions.len() == 0 || has_job(sessions[0].1, job_id) {
    } else {
        lemma_session_place(sessions.skip(1), job_id);
    }
}

/// Whether a session is kept at `now`: until it expires, and while one of its jobs is
/// running.
pub open spec fn is_kept(session: SessionView, now: i64) -> bool {
    session.expires_at > now || session.active_job_id is Some
}

/// The sessions that are kept at `now`.
pub open spec fn kept(sessions: Sessions, now: i64) -> Sessions
    decreases sessions.len(),
{
    if sessions.len() == 0 {
        sessions
    } else if is_kept(sessions.last().1, now) {
        kept(sessions.drop_last(), now).push(sessions.last())
    } else {
        kept(sessions.drop_last(), now)
    }
}

/// The sessions without those that are not kept at `now`; when they were last changed is left
/// as it is.
pub open spec fn pruned(data: SessionsView, now: i64) -> SessionsView {
    SessionsView { sessions: kept(data.sessions, now), updated_at: data.updated_at }
}

/// Whether there are sessions that are not kept at `now`.
pub open spec fn has_expired(data: SessionsView, now: i64) -> bool {
    kept(data.sessions, now).len() != data.sessions.len()
}

/// The sessions after a cleanup at `now`, which is when they were last changed if any went.
pub open spec fn cleaned(data: SessionsView, now: i64) -> SessionsView {
    if has_expired(data, now) {
        SessionsView { updated_at: now, ..pruned(data, now) }
    } else {
        data
    }
}

/// A cleanup takes only sessions that have expired and have no running job.
pub proof fn law_running_sessions_are_kept(sessions: Sessions, now: i64, i: int)
    requires
        0 <= i < sessions.len(),
        sessions[i].1.active_job_id is Some || sessions[i].1.expires_at > now,
    ensures
        kept(sessions, now).contains(sessions[i]),
    decreases sessions.len(),
{
    let front = sessions.drop_last();
    if i < front.len() {
        law_running_sessions_are_kept(front, now, i);
        let k = choose|k: int| 0 <= k < kept(front, now).len() && kept(front, now)[k] == front[i];
        assert(kept(sessions, now)[k] == sessions[i]);
    } else {
        assert(kept(sessions, now)[kept(front, now).len() as int] == sessions[i]);
    }
}

/// A cleanup leaves just the sessions that have not expired or have a running job.
pub proof fn law_cleanup_leaves_what_is_kept(
    sessions: Sessions,
    now: i64,
    entry: (Seq<char>, SessionView),
)
    ensures
        kept(sessions, now).contains(entry) <==> sessions.contains(entry) && is_kept(entry.1, now),
    decreases sessions.len(),
{
    if sessions.contains(entry) && is_kept(entry.1, now) {
        let i = choose|i: int| 0 <= i < sessions.len() && sessions[i] == entry;
        law_running_sessions_are_kept(sessions, now, i);
    }
    if kept(sessions, now).contains(entry) {
        let front = sessions.drop_last();
        let k = choose|k: int|
            0 <= k < kept(sessions, now).len() && kept(sessions, now)[k] == entry;
        if k < kept(front, now).len() {
            assert(kept(front, now)[k] == entry);
            law_cleanup_leaves_what_is_kept(front, now, entry);
            let i = choose|i: int| 0 <= i < front.len() && front[i] == entry;
            assert(sessions[i] == entry);
        } else {
            assert(sessions[sessions.len() - 1] == entry);
        }
    }
}

/// To clean up twice is to clean up once: the second cleanup finds nothing to remove and
/// changes nothing. There is something to remove just where a session has expired and has no
/// running job, and to remove it does not touch when the sessions were last changed.
pub proof fn law_cleanup_is_done_once(data: SessionsView, now: i64)
    ensures
        !has_expired(pruned(data, now), now),
        pruned(pruned(data, now), now) == pruned(data, now),
        pruned(data, now).updated_at == data.updated_at,
        !has_expired(cleaned(data, now), now),
        cleaned(cleaned(data, now), now) == cleaned(data, now),
        has_expired(data, now) <==> exists|i: int|
            0 <= i < data.sessions.len() && !is_kept((#[trigger] data.sessions[i]).1, now),
        !has_expired(data, now) ==> pruned(data, now) == data,
{
    lemma_kept_len(data.sessions, now);
    lemma_kept_twice(data.sessions, now);
    lemma_nothing_expired(data.sessions, now);
}

/// All sessions are kept just where none has expired and has no running job.
proof fn lemma_nothing_expired(sessions: Sessions, now: i64)
    ensures
        (kept(sessions, now).len() == sessions.len()) == (forall|i: int|
            0 <= i < sessions.len() ==> is_kept((#[trigger] sessions[i]).1, now)),
    decreases sessions.len(),
{
    if sessions.len() > 0 {
        let front = sessions.drop_last();
        let last = sessions.len() - 1;
        lemma_nothing_expired(front, now);
        lemma_kept_len(front, now);
        assert(sessions[last] == sessions.last());
        assert forall|i: int| 0 <= i < front.len() implies (#[trigger] front[i])
            == sessions[i] by {}
        if kept(sessions, now).len() == sessions.len() {
            assert forall|i: int| 0 <= i < sessions.len() implies is_kept(
                (#[trigger] sessions[i]).1,
                now,
            ) by {
                if i < last {
                    assert(is_kept(front[i].1, now));
                }
            }
        }
        if forall|i: int| 0 <= i < sessions.len() ==> is_kept((#[trigger] sessions[i]).1, now) {
            assert forall|i: int| 0 <= i < front.len() implies is_kept(
                (#[trigger] front[i]).1,
                now,
            ) by {
                assert(is_kept(sessions[i].1, now));
            }
        }
    }
}

proof fn lemma_kept_twice(sessions: Sessions, now: i64)
    ensures
        kept(kept(sessions, now), now) == kept(sessions, now),
    decreases sessions.len(),
{
    if sessions.len() > 0 {
        let front = kept(sessions.drop_last(), now);
        lemma_kept_twice(sessions.drop_last(), now);
        if is_kept(sessions.last().1, now) {
            assert(front.push(sessions.last()).drop_last() =~= front);
        }
    }
}

proof fn lemma_kept_len(sessions: Sessions, now: i64)
    ensures
        kept(sessions, now).len() <= sessions.len(),
        kept(sessions, now).len() == sessions.len() ==> kept(sessions, now) == sessions,
    decreases sessions.len(),
{
    if sessions.len() > 0 {
        lemma_kept_len(sessions.drop_last(), now);
        assert(sessions =~= sessions.drop_last().push(sessions.last()));
    }
}

/// When sessions were last changed.
pub open spec fn change_times(sessions: Sessions) -> Seq<i64> {
    Seq::new(sessions.len(), |i: int| sessions[i].1.updated_at)
}

/// Whether a list shows the sessions: the one changed last first, and those changed at the
/// same time in the order of their keys.
pub open spec fn shows_sessions(
    shown: Seq<ChatSessionSummary>,
    sessions: Sessions,
    now: i64,
    order: Seq<usize>,
) -> bool {
    &&& order::is_stable_order(change_times(sessions), true, order)
    &&& shown.len() == sessions.len()
    &&& forall|k: int|
        0 <= k < shown.len() ==> (#[trigger] shown[k])@ == summarized(
            sessions[order[k] as int].1,
            now,
        )
}

/// Whether `snapshot` is how the sessions are shown at `now`.
pub open spec fn is_snapshot(snapshot: ChatSessionsSnapshot, data: SessionsView, now: i64) -> bool {
    &&& snapshot.updated_at == data.updated_at
    &&& exists|order: Seq<usize>| #[trigger]
        shows_sessions(snapshot.sessions@, data.sessions, now, order)
}

/// The jobs of a session that are shown: the last ones, where a limit is given.
pub open spec fn shown_jobs(jobs: Seq<ChatJobView>, limit: Option<usize>) -> Seq<ChatJobView> {
    match limit {
        Some(n) => if 0 < n < jobs.len() {
            jobs.skip(jobs.len() - n)
        } else {
            jobs
        },
        None => jobs,
    }
}

/// With a limit that is not zero the last jobs are shown, so many or all that there are; with
/// none, or with zero, all jobs are.
pub proof fn law_the_last_jobs_are_shown(jobs: Seq<ChatJobView>, limit: Option<usize>)
    ensures
        shown_jobs(jobs, limit).is_suffix_of(jobs),
        shown_jobs(jobs, limit).len() == (match limit {
            Some(n) => if 0 < n < jobs.len() {
                n as nat
            } else {
                jobs.len()
            },
            None => jobs.len(),
        }),
{
    assert(jobs.subrange(0, jobs.len() as int) =~= jobs);
}

/// The sessions after a change of a job.
pub open spec fn with_change(
    data: SessionsView,
    job_id: Seq<char>,
    change: JobChange,
    now: i64,
) -> SessionsView {
    match root_of(data.sessions, job_id) {
        Some(at) => {
            let (root, session) = data.sessions[at];
            let place = job_place(session.jobs, job_id) as int;
            if place < session.jobs.len() {
                SessionsView {
                    sessions: data.sessions.update(
                        at,
                        (root, changed_session(session, place, change)),
                    ),
                    updated_at: now,
                }
            } else {
                data
            }
        },
        None => data,
    }
}

/// Why a job cannot be continued at `now`, if it cannot.
pub open spec fn continuation_fault(sessions: Sessions, job_id: Seq<char>, now: i64) -> Option<
    SessionFault,
> {
    match root_of(sessions, job_id) {
        Some(at) => continue_fault(sessions[at].1, now),
        None => Some(SessionFault::UnknownJob(job_id)),
    }
}

/// Why a session cannot be deleted, if it cannot.
pub open spec fn delete_fault(sessions: Sessions, job_id: Seq<char>) -> Option<SessionFault> {
    match root_of(sessions, job_id) {
        Some(at) => match sessions[at].1.active_job_id {
            Some(active) => Some(SessionFault::Busy(active)),
            None => None,
        },
        None => Some(SessionFault::Gone),
    }
}

/// What an optional file says.
pub open spec fn stored_view(stored: Option<ChatSessionsFile>) -> SessionsView {
    match stored {
        Some(file) => file@,
        None => no_sessions(),
    }
}

/// The sessions of the server.
pub struct SessionStore {
    data: ChatSessionsFile,
    assistant: String,
}

impl SessionStore {
    /// The sessions.
    pub closed spec fn data(&self) -> SessionsView {
        self.data@
    }

    /// The name of the assistant that the sessions are held with.
    pub closed spec fn assistant(&self) -> Seq<char> {
        self.assistant@
    }

    /// The sessions are in the order of their keys.
    pub open spec fn wf(&self) -> bool {
        order::keys_ascend(self.data().sessions)
    }

    /// The store with what is kept on disk, if anything is, cleaned up.
    pub fn new(stored: Option<ChatSessionsFile>, assistant: &str) -> (store: SessionStore)
        requires
            stored matches Some(file) ==> order::keys_ascend(file@.sessions),
        ensures
            store.wf(),
            store.assistant() == assistant@,
            exists|now: i64| store.data() == #[trigger] cleaned(stored_view(stored), now),
    {
        let mut store = SessionStore::from_file(stored, assistant);
        let ghost before = store.data();
        let now: i64 = clock::utc_millis();
        let changed = store.cleanup_expired_at(now);
        assert(store.data() == cleaned(before, now));
        store
    }

    /// The store with just what is kept on disk, if anything is.
    pub fn from_file(stored: Option<ChatSessionsFile>, assistant: &str) -> (store: SessionStore)
        requires
            stored matches Some(file) ==> order::keys_ascend(file@.sessions),
        ensures
            store.wf(),
            store.assistant() == assistant@,
            store.data() == stored_view(stored),
    {
        let data = match stored {
            Some(file) => file,
            None => ChatSessionsFile::default(),
        };
        SessionStore { data, assistant: assistant.to_owned() }
    }

    /// What to keep on disk.
    pub fn file(&self) -> (file: ChatSessionsFile)
        requires
            self.wf(),
        ensures
            file@ == self.data(),
            order::keys_ascend(file@.sessions),
    {
        self.data.clone()
    }

    /// Creates a session with its first job. Gives when it expires.
    pub fn create_root_job(&mut self, job_id: &str, prompt: &str, workdir: &str, created_at: i64) -> (
        expires_at: i64)
        requires
            old(self).wf(),
        ensures
            final(self).wf(),
            final(self).assistant() == old(self).assistant(),
            expires_at == expiry(created_at),
            final(self).data() == (SessionsView {
                sessions: order::put(
                    old(self).data().sessions,
                    job_id@,
                    new_session(job_id@, prompt@, workdir@, created_at),
                ),
                updated_at: created_at,
            }),
    {
        let ghost before = self.data@.sessions;
        let expires_at: i64 = expiry_from(created_at);
        let mut jobs: Vec<ChatJobRecord> = Vec::new();
        jobs.push(make_job(job_id, None, prompt, created_at));
        let session = ChatSessionRecord {
            root_job_id: job_id.to_owned(),
            latest_job_id: job_id.to_owned(),
            session_id: None,
            workdir: workdir.to_owned(),
            status: jobs::status_label(&JobStatus::Queued).to_owned(),
            created_at,
            updated_at: created_at,
            expires_at,
            active_job_id: Some(job_id.to_owned()),
            jobs,
        };
        let ghost made = new_session(job_id@, prompt@, workdir@, created_at);
        assert(session@ =~= made);
        let at: usize = self.rank_of(job_id);
        proof {
            order::law_put_keeps_the_order(before, job_id@, made);
            order::lemma_rank(before, job_id@);
        }
        if at < self.data.sessions.len() && text::same_text(
            self.data.sessions[at].0.as_str(),
            job_id,
        ) {
            assert(before[at as int].0 == self.data.sessions@[at as int].0@);
            self.data.sessions.set(at, (job_id.to_owned(), session));
        } else {
            proof {
                if at < self.data.sessions@.len() {
                    assert(before[at as int].0 == self.data.sessions@[at as int].0@);
                }
            }
            self.data.sessions.insert(at, (job_id.to_owned(), session));
        }
        self.data.updated_at = created_at;
        assert(self.data@.sessions =~= order::put(before, job_id@, made));
        expires_at
    }

    /// How many of the first keys come before `key`.
    fn rank_of(&self, key: &str) -> (at: usize)
        requires
            self.wf(),
        ensures
            at == order::rank(self.data().sessions, key@),
            at <= self.data.sessions@.len(),
    {
        let ghost sessions = self.data@.sessions;
        let mut at: usize = 0;
        while at < self.data.sessions.len() && order::text_before(
            self.data.sessions[at].0.as_str(),
            key,
        )
            invariant
                at <= self.data.sessions@.len(),
                sessions == session_views(self.data.sessions@),
                forall|i: int|
                    0 <= i < at ==> order::text_less((#[trigger] sessions[i]).0, key@),
            ensures
                at < self.data.sessions@.len() ==> !order::text_less(
                    sessions[at as int].0,
                    key@,
                ),
            decreases self.data.sessions@.len() - at,
        {
            assert(sessions[at as int].0 == self.data.sessions@[at as int].0@);
            at += 1;
        }
        proof {
            order::lemma_rank_is(sessions, key@, at as int);
        }
        at
    }

    /// The index of the session that a job belongs to.
    fn find_root_job_id(&self, job_id: &str) -> (at: Option<usize>)
        requires
            self.wf(),
        ensures
            match at {
                Some(i) => root_of(self.data().sessions, job_id@) == Some(i as int) && i
                    < self.data.sessions@.len(),
                None => root_of(self.data().sessions, job_id@) is None,
            },
    {
        let ghost sessions = self.data@.sessions;
        let at: usize = self.rank_of(job_id);
        if at < self.data.sessions.len() {
            assert(sessions[at as int].0 == self.data.sessions@[at as int].0@);
            if text::same_text(self.data.sessions[at].0.as_str(), job_id) {
                return Some(at);
            }
        }
        let mut i: usize = 0;
        assert(sessions.skip(0) =~= sessions);
        while i < self.data.sessions.len()
            invariant
                i <= self.data.sessions@.len(),
                sessions == session_views(self.data.sessions@),
                !order::has_entry(sessions, job_id@),
                session_place(sessions, job_id@) == i + session_place(
                    sessions.skip(i as int),
                    job_id@,
                ),
            decreases self.data.sessions@.len() - i,
        {
            assert(sessions.skip(i as int)[0] == (
                self.data.sessions@[i as int].0@,
                self.data.sessions@[i as int].1@,
            ));
            assert(sessions.skip(i as int).skip(1) =~= sessions.skip(i + 1));
            let place: usize = find_job(&self.data.sessions[i].1.jobs, job_id);
            if place < self.data.sessions[i].1.jobs.len() {
                return Some(i);
            }
            i += 1;
        }
        None
    }

    /// Where a job is: in which session, and at which place there.
    fn locate(&self, job_id: &str) -> (found: Option<(usize, usize)>)
        requires
            self.wf(),
        ensures
            match found {
                Some((at, place)) => root_of(self.data().sessions, job_id@) == Some(at as int) && at
                    < self.data.sessions@.len() && place == job_place(
                    self.data().sessions[at as int].1.jobs,
                    job_id@,
                ) && place < self.data.sessions@[at as int].1.jobs@.len(),
                None => match root_of(self.data().sessions, job_id@) {
                    Some(at) => job_place(self.data().sessions[at].1.jobs, job_id@)
                        >= self.data().sessions[at].1.jobs.len(),
                    None => true,
                },
            },
    {
        match self.find_root_job_id(job_id) {
            Some(at) => {
                assert(self.data@.sessions[at as int].1 == self.data.sessions@[at as int].1@);
                let place: usize = find_job(&self.data.sessions[at].1.jobs, job_id);
                if place < self.data.sessions[at].1.jobs.len() {
                    Some((at, place))
                } else {
                    None
                }
            },
            None => None,
        }
    }

    /// Removes the sessions that have expired and have no running job. Says whether there
    /// were any.
    pub fn cleanup_expired_at(&mut self, now: i64) -> (changed: bool)
        requires
            old(self).wf(),
        ensures
            final(self).wf(),
            final(self).assistant() == old(self).assistant(),
            final(self).data() == cleaned(old(self).data(), now),
            changed == has_expired(old(self).data(), now),
    {
        if !self.cleanup_expired_locked(now) {
            proof {
                lemma_kept_len(old(self).data().sessions, now);
            }
            return false;
        }
        self.data.updated_at = now;
        true
    }

    /// Removes the sessions that have expired and have no running job, for a caller that will
    /// say itself when the sessions were last changed. Says whether there were any.
    pub fn cleanup_expired_locked(&mut self, now: i64) -> (changed: bool)
        requires
            old(self).wf(),
        ensures
            final(self).wf(),
            final(self).assistant() == old(self).assistant(),
            final(self).data() == pruned(old(self).data(), now),
            changed == has_expired(old(self).data(), now),
    {
        let before: usize = self.data.sessions.len();
        let ghost all = self.data@.sessions;
        let mut i: usize = 0;
        let ghost mut seen: int = 0;
        assert(kept(all.take(0), now) + all.skip(0) =~= all);
        while i < self.data.sessions.len()
            invariant
                i <= self.data.sessions@.len(),
                0 <= seen <= all.len(),
                i == kept(all.take(seen), now).len(),
                self.data@.sessions == kept(all.take(seen), now) + all.skip(seen),
                order::keys_ascend(self.data@.sessions),
                self.data.updated_at == old(self).data.updated_at,
                self.assistant == old(self).assistant,
                all == old(self).data@.sessions,
            decreases self.data.sessions@.len() - i,
        {
            let ghost current = self.data@.sessions;
            proof {
                assert(current[i as int] == all[seen]);
                assert(current[i as int].1 == self.data.sessions@[i as int].1@);
                assert(all.take(seen + 1).drop_last() =~= all.take(seen));
                assert(all.take(seen + 1).last() == all[seen]);
            }
            let session = &self.data.sessions[i].1;
            if session.expires_at > now || session.active_job_id.is_some() {
                proof {
                    assert(kept(all.take(seen + 1), now) + all.skip(seen + 1) =~= current);
                }
                i += 1;
            } else {
                proof {
                    order::law_removal_keeps_the_order(current, i as int);
                }
                let removed = self.data.sessions.remove(i);
                proof {
                    assert(self.data@.sessions =~= current.remove(i as int));
                    assert(kept(all.take(seen + 1), now) + all.skip(seen + 1) =~= current.remove(
                        i as int,
                    ));
                }
            }
            proof {
                seen = seen + 1;
            }
        }
        proof {
            assert(seen == all.len());
            assert(all.take(seen) =~= all);
            assert(self.data@.sessions =~= kept(all, now));
        }
        self.data.sessions.len() != before
    }

    /// Continues the session of a job now.
    pub fn begin_continuation(
        &mut self,
        source_job_id: &str,
        new_job_id: &str,
        prompt: &str,
        workdir_override: Option<String>,
    ) -> (result: Result<ContinueTarget, SessionError>)
        requires
            old(self).wf(),
        ensures
            final(self).wf(),
            final(self).assistant() == old(self).assistant(),
            exists|now: i64| #[trigger]
                is_continuation(
                    old(self).data(),
                    final(self).data(),
                    source_job_id@,
                    new_job_id@,
                    prompt@,
                    text::option_text(workdir_override),
                    now,
                    result,
                ),
    {
        let now: i64 = clock::utc_millis();
        let ghost dir = text::option_text(workdir_override);
        let result = self.begin_continuation_at(
            source_job_id,
            new_job_id,
            prompt,
            workdir_override,
            now,
        );
        assert(is_continuation(
            old(self).data(),
            self.data(),
            source_job_id@,
            new_job_id@,
            prompt@,
            dir,
            now,
            result,
        ));
        result
    }

    /// Continues the session of a job at `now`.
    pub fn begin_continuation_at(
        &mut self,
        source_job_id: &str,
        new_job_id: &str,
        prompt: &str,
        workdir_override: Option<String>,
        now: i64,
    ) -> (result: Result<ContinueTarget, SessionError>)
        requires
            old(self).wf(),
        ensures
            final(self).wf(),
            final(self).assistant() == old(self).assistant(),
            is_continuation(
                old(self).data(),
                final(self).data(),
                source_job_id@,
                new_job_id@,
                prompt@,
                text::option_text(workdir_override),
                now,
                result,
            ),
    {
        let ghost dir = text::option_text(workdir_override);
        let changed = self.cleanup_expired_locked(now);
        let ghost left = self.data@.sessions;
        let at: usize = match self.find_root_job_id(source_job_id) {
            Some(at) => at,
            None => {
                return Err(SessionError::UnknownJob(source_job_id.to_owned()));
            },
        };
        proof {
            assert(left[at as int] == (
                self.data.sessions@[at as int].0@,
                self.data.sessions@[at as int].1@,
            ));
        }
        let ghost session = left[at as int].1;
        let ghost root = left[at as int].0;
        if self.data.sessions[at].1.expires_at <= now {
            return Err(SessionError::Expired);
        }
        if let Some(active_job_id) = &self.data.sessions[at].1.active_job_id {
            return Err(SessionError::Running(active_job_id.clone()));
        }
        let session_id = match &self.data.sessions[at].1.session_id {
            Some(session_id) => session_id.clone(),
            None => {
                return Err(SessionError::NoSession);
            },
        };
        let mut record = self.data.sessions[at].1.clone();
        let root_job_id = self.data.sessions[at].0.clone();
        let parent_job_id = record.latest_job_id.clone();
        let workdir = match workdir_override {
            Some(dir) => dir,
            None => record.workdir.clone(),
        };
        let expires_at: i64 = expiry_from(now);
        let ghost jobs_before = job_views(record.jobs@);
        let job = make_job(new_job_id, Some(parent_job_id.clone()), prompt, now);
        record.latest_job_id = new_job_id.to_owned();
        record.workdir = workdir.clone();
        record.status = jobs::status_label(&JobStatus::Queued).to_owned();
        record.updated_at = now;
        record.expires_at = expires_at;
        record.active_job_id = Some(new_job_id.to_owned());
        record.jobs.push(job);
        proof {
            assert(job_views(record.jobs@) =~= jobs_before.push(job@));
            assert(record@ =~= continued(session, new_job_id@, prompt@, dir, now));
        }
        self.data.sessions.set(at, (root_job_id.clone(), record));
        self.data.updated_at = now;
        proof {
            let after = left.update(
                at as int,
                (root, continued(session, new_job_id@, prompt@, dir, now)),
            );
            assert(self.data@.sessions =~= after);
            lemma_update_ascends(left, at as int, continued(session, new_job_id@, prompt@, dir, now));
        }
        Ok(ContinueTarget { root_job_id, parent_job_id, session_id, workdir, expires_at })
    }
}

/// What a continuation at `now` does and gives: expired sessions go in any case.
pub open spec fn is_continuation(
    before: SessionsView,
    after: SessionsView,
    source: Seq<char>,
    job_id: Seq<char>,
    prompt: Seq<char>,
    workdir: Option<Seq<char>>,
    now: i64,
    result: Result<ContinueTarget, SessionError>,
) -> bool {
    let left = kept(before.sessions, now);
    match result {
        Ok(given) => {
            &&& continuation_fault(left, source, now) is None
            &&& root_of(left, source) matches Some(at) && given@ == target(
                left[at].0,
                left[at].1,
                workdir,
                now,
            ) && after == (SessionsView {
                sessions: left.update(
                    at,
                    (left[at].0, continued(left[at].1, job_id, prompt, workdir, now)),
                ),
                updated_at: now,
            })
        },
        Err(error) => {
            &&& continuation_fault(left, source, now) == Some(error@)
            &&& after == pruned(before, now)
        },
    }
}

/// The keys stay in their order when a session changes.
proof fn lemma_update_ascends(sessions: Sessions, at: int, session: SessionView)
    requires
        order::keys_ascend(sessions),
        0 <= at < sessions.len(),
    ensures
        order::keys_ascend(sessions.update(at, (sessions[at].0, session))),
{
    let after = sessions.update(at, (sessions[at].0, session));
    assert forall|i: int, j: int| 0 <= i < j < after.len() implies order::text_less(
        (#[trigger] after[i]).0,
        (#[trigger] after[j]).0,
    ) by {
        assert(after[i].0 == sessions[i].0);
        assert(after[j].0 == sessions[j].0);
    }
}

/// The index of the first job with an identifier.
fn find_job(jobs: &Vec<ChatJobRecord>, job_id: &str) -> (place: usize)
    ensures
        place == job_place(job_views(jobs@), job_id@),
        place <= jobs@.len(),
{
    let ghost views = job_views(jobs@);
    let mut i: usize = 0;
    assert(views.skip(0) =~= views);
    while i < jobs.len()
        invariant
            i <= jobs@.len(),
            views == job_views(jobs@),
            job_place(views, job_id@) == i + job_place(views.skip(i as int), job_id@),
        decreases jobs@.len() - i,
    {
        assert(views.skip(i as int)[0] == jobs@[i as int]@);
        assert(views.skip(i as int).skip(1) =~= views.skip(i + 1));
        if text::same_text(jobs[i].job_id.as_str(), job_id) {
            return i;
        }
        i += 1;
    }
    i
}

impl SessionStore {
    /// Puts a changed session back.
    fn replace(&mut self, at: usize, session: ChatSessionRecord, now: i64)
        requires
            old(self).wf(),
            at < old(self).data().sessions.len(),
        ensures
            final(self).wf(),
            final(self).assistant() == old(self).assistant(),
            final(self).data() == (SessionsView {
                sessions: old(self).data().sessions.update(
                    at as int,
                    (old(self).data().sessions[at as int].0, session@),
                ),
                updated_at: now,
            }),
    {
        let ghost before = self.data@.sessions;
        let root = self.data.sessions[at].0.clone();
        self.data.sessions.set(at, (root, session));
        self.data.updated_at = now;
        proof {
            let after = before.update(at as int, (before[at as int].0, session@));
            assert(self.data@.sessions =~= after);
            lemma_update_ascends(before, at as int, session@);
        }
    }

    /// Notes that a job starts to run.
    pub fn mark_started(&mut self, job_id: &str, started_at: i64)
        requires
            old(self).wf(),
        ensures
            final(self).wf(),
            final(self).assistant() == old(self).assistant(),
            exists|now: i64|
                final(self).data() == #[trigger] with_change(
                    old(self).data(),
                    job_id@,
                    JobChange::Started(started_at),
                    now,
                ),
    {
        let now: i64 = clock::utc_millis();
        self.mark_started_at(job_id, started_at, now);
        assert(self.data() == with_change(
            old(self).data(),
            job_id@,
            JobChange::Started(started_at),
            now,
        ));
    }

    /// Notes at `now` that a job starts to run.
    pub fn mark_started_at(&mut self, job_id: &str, started_at: i64, now: i64)
        requires
            old(self).wf(),
        ensures
            final(self).wf(),
            final(self).assistant() == old(self).assistant(),
            final(self).data() == with_change(
                old(self).data(),
                job_id@,
                JobChange::Started(started_at),
                now,
            ),
    {
        if let Some((at, place)) = self.locate(job_id) {
            let ghost before = self.data@.sessions[at as int].1;
            assert(before == self.data.sessions@[at as int].1@);
            let mut session = self.data.sessions[at].1.clone();
            let mut job = session.jobs[place].clone();
            assert(job@ == session@.jobs[place as int]);
            job.status = jobs::status_label(&JobStatus::Running).to_owned();
            job.started_at = Some(started_at);
            session.status = job.status.clone();
            session.updated_at = started_at;
            let ghost jobs_before = job_views(session.jobs@);
            session.jobs.set(place, job);
            proof {
                assert(job_views(session.jobs@) =~= jobs_before.update(place as int, job@));
                assert(session@ =~= changed_session(
                    before,
                    place as int,
                    JobChange::Started(started_at),
                ));
            }
            self.replace(at, session, now);
        }
    }

    /// Notes the identifier that the agent has given to the session of a job.
    pub fn attach_session_id(&mut self, job_id: &str, session_id: &str)
        requires
            old(self).wf(),
        ensures
            final(self).wf(),
            final(self).assistant() == old(self).assistant(),
            exists|now: i64|
                final(self).data() == #[trigger] with_change(
                    old(self).data(),
                    job_id@,
                    JobChange::Attached(session_id@, now),
                    now,
                ),
    {
        let now: i64 = clock::utc_millis();
        self.attach_session_id_at(job_id, session_id, now);
        assert(self.data() == with_change(
            old(self).data(),
            job_id@,
            JobChange::Attached(session_id@, now),
            now,
        ));
    }

    /// Notes at `now` the identifier that the agent has given to the session of a job.
    pub fn attach_session_id_at(&mut self, job_id: &str, session_id: &str, now: i64)
        requires
            old(self).wf(),
        ensures
            final(self).wf(),
            final(self).assistant() == old(self).assistant(),
            final(self).data() == with_change(
                old(self).data(),
                job_id@,
                JobChange::Attached(session_id@, now),
                now,
            ),
    {
        if let Some((at, place)) = self.locate(job_id) {
            let ghost before = self.data@.sessions[at as int].1;
            assert(before == self.data.sessions@[at as int].1@);
            let mut session = self.data.sessions[at].1.clone();
            session.session_id = Some(session_id.to_owned());
            session.updated_at = now;
            proof {
                assert(before.jobs.update(place as int, before.jobs[place as int]) =~= before.jobs);
                assert(session@ =~= changed_session(
                    before,
                    place as int,
                    JobChange::Attached(session_id@, now),
                ));
            }
            self.replace(at, session, now);
        }
    }

    /// Notes that a job has ended.
    pub fn finish_job(
        &mut self,
        job_id: &str,
        status: &JobStatus,
        output: Option<&str>,
        error: Option<&str>,
        ended_at: i64,
    )
        requires
            old(self).wf(),
        ensures
            final(self).wf(),
            final(self).assistant() == old(self).assistant(),
            exists|now: i64|
                final(self).data() == #[trigger] with_change(
                    old(self).data(),
                    job_id@,
                    JobChange::Finished(*status, str_view(output), str_view(error), ended_at),
                    now,
                ),
    {
        let now: i64 = clock::utc_millis();
        self.finish_job_at(job_id, status, output, error, ended_at, now);
        assert(self.data() == with_change(
            old(self).data(),
            job_id@,
            JobChange::Finished(*status, str_view(output), str_view(error), ended_at),
            now,
        ));
    }

    /// Notes at `now` that a job has ended.
    pub fn finish_job_at(
        &mut self,
        job_id: &str,
        status: &JobStatus,
        output: Option<&str>,
        error: Option<&str>,
        ended_at: i64,
        now: i64,
    )
        requires
            old(self).wf(),
        ensures
            final(self).wf(),
            final(self).assistant() == old(self).assistant(),
            final(self).data() == with_change(
                old(self).data(),
                job_id@,
                JobChange::Finished(*status, str_view(output), str_view(error), ended_at),
                now,
            ),
    {
        if let Some((at, place)) = self.locate(job_id) {
            let ghost before = self.data@.sessions[at as int].1;
            let ghost change = JobChange::Finished(
                *status,
                str_view(output),
                str_view(error),
                ended_at,
            );
            proof {
                assert(before == self.data.sessions@[at as int].1@);
                lemma_job_place(before.jobs, job_id@);
            }
            let mut session = self.data.sessions[at].1.clone();
            let mut job = session.jobs[place].clone();
            assert(job@ == session@.jobs[place as int]);
            job.status = jobs::status_label(status).to_owned();
            job.ended_at = Some(ended_at);
            job.output = match output {
                Some(text) => Some(clamp_text(text)),
                None => None,
            };
            job.error = match error {
                Some(text) => Some(clamp_text(text)),
                None => None,
            };
            session.status = job.status.clone();
            session.updated_at = ended_at;
            session.expires_at = expiry_from(ended_at);
            if text::same_option(&session.active_job_id, job_id) {
                session.active_job_id = None;
            }
            let ghost jobs_before = job_views(session.jobs@);
            session.jobs.set(place, job);
            proof {
                assert(job@ =~= changed_job(before.jobs[place as int], change));
                assert(job_views(session.jobs@) =~= jobs_before.update(place as int, job@));
                assert(session@ =~= changed_session(before, place as int, change));
            }
            self.replace(at, session, now);
        }
    }

    /// Shows all sessions at `now`.
    fn summaries(&self, now: i64) -> (snapshot: ChatSessionsSnapshot)
        requires
            self.wf(),
        ensures
            is_snapshot(snapshot, self.data(), now),
    {
        let ghost sessions = self.data@.sessions;
        let mut times: Vec<i64> = Vec::new();
        let mut i: usize = 0;
        while i < self.data.sessions.len()
            invariant
                i <= self.data.sessions@.len(),
                sessions == session_views(self.data.sessions@),
                times@ == change_times(sessions).take(i as int),
            decreases self.data.sessions@.len() - i,
        {
            let time: i64 = self.data.sessions[i].1.updated_at;
            assert(sessions[i as int].1 == self.data.sessions@[i as int].1@);
            times.push(time);
            i += 1;
            assert(times@ =~= change_times(sessions).take(i as int));
        }
        assert(times@ =~= change_times(sessions));
        let order = order::stable_order(&times, true);
        let mut shown: Vec<ChatSessionSummary> = Vec::new();
        let mut k: usize = 0;
        while k < order.len()
            invariant
                k <= order@.len(),
                sessions == session_views(self.data.sessions@),
                order::is_arrangement(order@, sessions.len()),
                shown@.len() == k,
                forall|j: int|
                    0 <= j < k ==> (#[trigger] shown@[j])@ == summarized(
                        sessions[order@[j] as int].1,
                        now,
                    ),
            decreases order@.len() - k,
        {
            shown.push(summarize(&self.data.sessions[order[k]].1, now));
            k += 1;
        }
        let snapshot = ChatSessionsSnapshot { sessions: shown, updated_at: self.data.updated_at };
        assert(shows_sessions(snapshot.sessions@, sessions, now, order@));
        snapshot
    }

    /// Shows all sessions, without a cleanup.
    pub fn view_at(&self, now: i64) -> (snapshot: ChatSessionsSnapshot)
        requires
            self.wf(),
        ensures
            is_snapshot(snapshot, self.data(), now),
    {
        self.summaries(now)
    }

    /// Cleans up and shows all sessions.
    pub fn snapshot(&mut self) -> (snapshot: ChatSessionsSnapshot)
        requires
            old(self).wf(),
        ensures
            final(self).wf(),
            final(self).assistant() == old(self).assistant(),
            exists|now: i64|
                final(self).data() == #[trigger] cleaned(old(self).data(), now) && is_snapshot(
                    snapshot,
                    final(self).data(),
                    now,
                ),
    {
        let now: i64 = clock::utc_millis();
        let snapshot = self.snapshot_at(now);
        assert(self.data() == cleaned(old(self).data(), now));
        snapshot
    }

    /// Cleans up and shows all sessions at `now`.
    pub fn snapshot_at(&mut self, now: i64) -> (snapshot: ChatSessionsSnapshot)
        requires
            old(self).wf(),
        ensures
            final(self).wf(),
            final(self).assistant() == old(self).assistant(),
            final(self).data() == cleaned(old(self).data(), now),
            is_snapshot(snapshot, final(self).data(), now),
    {
        let changed = self.cleanup_expired_at(now);
        self.summaries(now)
    }

    /// Cleans up and shows the session of a job.
    pub fn detail(&mut self, job_id: &str, limit: Option<usize>) -> (detail: Option<
        ChatSessionDetail,
    >)
        requires
            old(self).wf(),
        ensures
            final(self).wf(),
            final(self).assistant() == old(self).assistant(),
            exists|now: i64|
                final(self).data() == #[trigger] cleaned(old(self).data(), now) && is_detail(
                    old(self).assistant(),
                    detail,
                    final(self).data().sessions,
                    job_id@,
                    limit,
                    now,
                ),
    {
        let now: i64 = clock::utc_millis();
        let detail = self.detail_at(job_id, limit, now);
        assert(self.data() == cleaned(old(self).data(), now));
        detail
    }

    /// Cleans up and shows the session of a job at `now`.
    pub fn detail_at(&mut self, job_id: &str, limit: Option<usize>, now: i64) -> (detail: Option<
        ChatSessionDetail,
    >)
        requires
            old(self).wf(),
        ensures
            final(self).wf(),
            final(self).assistant() == old(self).assistant(),
            final(self).data() == cleaned(old(self).data(), now),
            is_detail(
                old(self).assistant(),
                detail,
                final(self).data().sessions,
                job_id@,
                limit,
                now,
            ),
    {
        let changed = self.cleanup_expired_at(now);
        match self.find_root_job_id(job_id) {
            Some(at) => {
                let session = &self.data.sessions[at].1;
                assert(self.data@.sessions[at as int].1 == session@);
                let summary = summarize(session, now);
                let total: usize = session.jobs.len();
                let from: usize = match limit {
                    Some(n) => if 0 < n && n < total {
                        total - n
                    } else {
                        0
                    },
                    None => 0,
                };
                let jobs = copy_jobs(&session.jobs, from);
                assert(session@.jobs.skip(0) =~= session@.jobs);
                let codex_context = build_codex_context(
                    &summary,
                    &jobs,
                    self.assistant.as_str(),
                );
                Some(ChatSessionDetail { summary, codex_context, jobs })
            },
            None => None,
        }
    }

    /// Deletes the session of a job, and shows the sessions that are left.
    pub fn delete(&mut self, job_id: &str) -> (result: Result<ChatSessionsSnapshot, SessionError>)
        requires
            old(self).wf(),
        ensures
            final(self).wf(),
            final(self).assistant() == old(self).assistant(),
            exists|now: i64| #[trigger]
                is_deletion(old(self).data(), final(self).data(), job_id@, now, result),
    {
        let now: i64 = clock::utc_millis();
        let result = self.delete_at(job_id, now);
        assert(is_deletion(old(self).data(), self.data(), job_id@, now, result));
        result
    }

    /// Deletes the session of a job at `now`, and shows the sessions that are left.
    pub fn delete_at(&mut self, job_id: &str, now: i64) -> (result: Result<
        ChatSessionsSnapshot,
        SessionError,
    >)
        requires
            old(self).wf(),
        ensures
            final(self).wf(),
            final(self).assistant() == old(self).assistant(),
            is_deletion(old(self).data(), final(self).data(), job_id@, now, result),
    {
        let ghost before = self.data@.sessions;
        let at: usize = match self.find_root_job_id(job_id) {
            Some(at) => at,
            None => {
                return Err(SessionError::Gone);
            },
        };
        assert(before[at as int].1 == self.data.sessions@[at as int].1@);
        if let Some(active_job_id) = &self.data.sessions[at].1.active_job_id {
            return Err(SessionError::Busy(active_job_id.clone()));
        }
        proof {
            order::law_removal_keeps_the_order(before, at as int);
        }
        let removed = self.data.sessions.remove(at);
        self.data.updated_at = now;
        assert(self.data@.sessions =~= before.remove(at as int));
        Ok(self.snapshot_at(now))
    }
}

/// What an optional text says.
pub open spec fn str_view(text: Option<&str>) -> Option<Seq<char>> {
    match text {
        Some(t) => Some(t@),
        None => None,
    }
}

/// Whether `detail` is how the session of a job is shown at `now`.
pub open spec fn is_detail(
    name: Seq<char>,
    detail: Option<ChatSessionDetail>,
    sessions: Sessions,
    job_id: Seq<char>,
    limit: Option<usize>,
    now: i64,
) -> bool {
    match root_of(sessions, job_id) {
        Some(at) => detail matches Some(shown) && {
            &&& shown.summary@ == summarized(sessions[at].1, now)
            &&& job_views(shown.jobs@) == shown_jobs(sessions[at].1.jobs, limit)
            &&& shown.codex_context@ == context(name, shown.summary@, job_views(shown.jobs@))
        },
        None => detail is None,
    }
}

/// What a deletion at `now` does and gives.
pub open spec fn is_deletion(
    before: SessionsView,
    after: SessionsView,
    job_id: Seq<char>,
    now: i64,
    result: Result<ChatSessionsSnapshot, SessionError>,
) -> bool {
    match result {
        Ok(snapshot) => {
            &&& delete_fault(before.sessions, job_id) is None
            &&& root_of(before.sessions, job_id) matches Some(at) && after == cleaned(
                SessionsView { sessions: before.sessions.remove(at), updated_at: now },
                now,
            )
            &&& is_snapshot(snapshot, after, now)
        },
        Err(error) => delete_fault(before.sessions, job_id) == Some(error@) && after == before,
    }
}

/// A session with a running job is not deleted, and the user is told which job is running.
pub proof fn law_running_sessions_are_not_deleted(
    before: SessionsView,
    after: SessionsView,
    job_id: Seq<char>,
    now: i64,
    result: Result<ChatSessionsSnapshot, SessionError>,
)
    requires
        is_deletion(before, after, job_id, now, result),
        root_of(before.sessions, job_id) matches Some(at)
            && before.sessions[at].1.active_job_id is Some,
    ensures
        result matches Err(error) && error@ == SessionFault::Busy(
            before.sessions[root_of(before.sessions, job_id)->0].1.active_job_id->0,
        ),
        after == before,
{
}

/// A session that was just created is found by its job, and cannot be continued before its
/// job has ended.
pub proof fn law_created_sessions_are_found(
    sessions: Sessions,
    job_id: Seq<char>,
    prompt: Seq<char>,
    workdir: Seq<char>,
    created_at: i64,
    now: i64,
)
    requires
        order::keys_ascend(sessions),
    ensures
        root_of(
            order::put(sessions, job_id, new_session(job_id, prompt, workdir, created_at)),
            job_id,
        ) matches Some(at) && order::put(
            sessions,
            job_id,
            new_session(job_id, prompt, workdir, created_at),
        )[at] == (job_id, new_session(job_id, prompt, workdir, created_at)),
        continue_fault(new_session(job_id, prompt, workdir, created_at), now) is Some,
{
    let session = new_session(job_id, prompt, workdir, created_at);
    let after = order::put(sessions, job_id, session);
    order::lemma_rank(sessions, job_id);
    order::law_put_keeps_the_order(sessions, job_id, session);
    let at = order::rank(sessions, job_id) as int;
    order::lemma_text_total(job_id, job_id);
    assert forall|i: int| 0 <= i < at implies order::text_less((#[trigger] after[i]).0, job_id) by {
        assert(after[i] == sessions[i]);
    }
    order::lemma_rank_is(after, job_id, at);
}

proof fn lemma_job_place_stays(jobs: Seq<ChatJobView>, at: int, job: ChatJobView, job_id: Seq<char>)
    requires
        0 <= at < jobs.len(),
        job.job_id == jobs[at].job_id,
    ensures
        job_place(jobs.update(at, job), job_id) == job_place(jobs, job_id),
    decreases jobs.len(),
{
    let after = jobs.update(at, job);
    if jobs[0].job_id != job_id {
        if at == 0 {
            assert(after.skip(1) =~= jobs.skip(1));
        } else {
            assert(after.skip(1) =~= jobs.skip(1).update(at - 1, job));
            lemma_job_place_stays(jobs.skip(1), at - 1, job, job_id);
        }
    }
}

proof fn lemma_session_place_stays(
    sessions: Sessions,
    at: int,
    entry: (Seq<char>, SessionView),
    job_id: Seq<char>,
)
    requires
        0 <= at < sessions.len(),
        has_job(entry.1, job_id) == has_job(sessions[at].1, job_id),
    ensures
        session_place(sessions.update(at, entry), job_id) == session_place(sessions, job_id),
    decreases sessions.len(),
{
    let after = sessions.update(at, entry);
    if !has_job(sessions[0].1, job_id) {
        if at == 0 {
            assert(after.skip(1) =~= sessions.skip(1));
        } else {
            assert(after.skip(1) =~= sessions.skip(1).update(at - 1, entry));
            lemma_session_place_stays(sessions.skip(1), at - 1, entry, job_id);
        }
    }
}

/// A change of one job does not touch which session any job belongs to.
pub proof fn law_changes_keep_jobs_in_their_sessions(
    data: SessionsView,
    job_id: Seq<char>,
    change: JobChange,
    now: i64,
    other: Seq<char>,
)
    ensures
        root_of(with_change(data, job_id, change, now).sessions, other) == root_of(
            data.sessions,
            other,
        ),
{
    let sessions = data.sessions;
    lemma_session_place(sessions, job_id);
    match root_of(sessions, job_id) {
        Some(at) => {
            let (root, session) = sessions[at];
            let place = job_place(session.jobs, job_id) as int;
            if place < session.jobs.len() {
                let entry = (root, changed_session(session, place, change));
                let after = sessions.update(at, entry);
                lemma_job_place_stays(
                    session.jobs,
                    place,
                    changed_job(session.jobs[place], change),
                    other,
                );
                lemma_session_place_stays(sessions, at, entry, other);
                order::lemma_rank(sessions, other);
                assert forall|i: int| 0 <= i < sessions.len() implies (#[trigger] after[i]).0
                    == sessions[i].0 by {}
                order::lemma_rank_is(after, other, order::rank(sessions, other) as int);
            }
        },
        None => {},
    }
}

/// When the running job of a session has ended, the session can be deleted.
pub proof fn law_ended_sessions_can_be_deleted(
    data: SessionsView,
    job_id: Seq<char>,
    running: Seq<char>,
    status: JobStatus,
    output: Option<Seq<char>>,
    error: Option<Seq<char>>,
    now: i64,
)
    requires
        root_of(data.sessions, job_id) matches Some(at) && {
            &&& data.sessions[at].1.active_job_id == Some(running)
            &&& root_of(data.sessions, running) == Some(at)
            &&& has_job(data.sessions[at].1, running)
        },
    ensures
        delete_fault(data.sessions, job_id) == Some(SessionFault::Busy(running)),
        delete_fault(
            with_change(
                data,
                running,
                JobChange::Finished(status, output, error, now),
                now,
            ).sessions,
            job_id,
        ) is None,
{
    let change = JobChange::Finished(status, output, error, now);
    law_changes_keep_jobs_in_their_sessions(data, running, change, now, job_id);
    let at = root_of(data.sessions, job_id)->0;
    lemma_session_place(data.sessions, running);
    lemma_job_place(data.sessions[at].1.jobs, running);
}

// ---------------------------------------------------------------------------
// Which session a job belongs to
// ---------------------------------------------------------------------------

/// Whether an identifier is the key of a session or that of one of its jobs.
pub open spec fn names_job(entry: (Seq<char>, SessionView), job_id: Seq<char>) -> bool {
    entry.0 == job_id || has_job(entry.1, job_id)
}

/// Whether no identifier stands in two sessions.
pub open spec fn ids_are_apart(sessions: Sessions) -> bool {
    forall|i: int, j: int, job_id: Seq<char>|
        0 <= i < sessions.len() && 0 <= j < sessions.len() && #[trigger] names_job(
            sessions[i],
            job_id,
        ) && #[trigger] names_job(sessions[j], job_id) ==> i == j
}

/// Whether an identifier stands in no session.
pub open spec fn is_unused(sessions: Sessions, job_id: Seq<char>) -> bool {
    forall|i: int| 0 <= i < sessions.len() ==> !names_job(#[trigger] sessions[i], job_id)
}

/// A job is found no later than where it stands.
proof fn lemma_job_is_found(jobs: Seq<ChatJobView>, k: int)
    requires
        0 <= k < jobs.len(),
    ensures
        job_place(jobs, jobs[k].job_id) <= k,
    decreases jobs.len(),
{
    if jobs[0].job_id != jobs[k].job_id {
        assert(jobs.skip(1)[k - 1] == jobs[k]);
        lemma_job_is_found(jobs.skip(1), k - 1);
    }
}

/// One more job is found where no earlier one has its identifier.
proof fn lemma_one_more_job(jobs: Seq<ChatJobView>, job: ChatJobView, job_id: Seq<char>)
    ensures
        job_place(jobs.push(job), job_id) < jobs.len() + 1 <==> job_place(jobs, job_id)
            < jobs.len() || job.job_id == job_id,
{
    let all = jobs.push(job);
    lemma_job_place(jobs, job_id);
    lemma_job_place(all, job_id);
    if job_place(jobs, job_id) < jobs.len() {
        assert(all[job_place(jobs, job_id) as int].job_id == job_id);
        lemma_job_is_found(all, job_place(jobs, job_id) as int);
    }
    if job.job_id == job_id {
        lemma_job_is_found(all, jobs.len() as int);
    }
    if job_place(all, job_id) < jobs.len() {
        assert(jobs[job_place(all, job_id) as int].job_id == job_id);
        lemma_job_is_found(jobs, job_place(all, job_id) as int);
    }
}

/// The first session that has a job comes no later than any other that has it.
proof fn lemma_first_session(sessions: Sessions, job_id: Seq<char>, i: int)
    requires
        0 <= i < sessions.len(),
        has_job(sessions[i].1, job_id),
    ensures
        session_place(sessions, job_id) <= i,
    decreases sessions.len(),
{
    if !has_job(sessions[0].1, job_id) {
        assert(sessions.skip(1)[i - 1] == sessions[i]);
        lemma_first_session(sessions.skip(1), job_id, i - 1);
    }
}

/// The key of a session leads to it.
proof fn lemma_key_is_found(sessions: Sessions, i: int)
    requires
        order::keys_ascend(sessions),
        0 <= i < sessions.len(),
    ensures
        order::has_entry(sessions, sessions[i].0),
        order::rank(sessions, sessions[i].0) == i,
{
    order::lemma_text_total(sessions[i].0, sessions[i].0);
    order::lemma_rank_is(sessions, sessions[i].0, i);
}

/// A job is found just where it stands in some session, and it is found in one where it
/// stands.
pub proof fn law_jobs_are_found(sessions: Sessions, job_id: Seq<char>)
    requires
        order::keys_ascend(sessions),
    ensures
        root_of(sessions, job_id) matches Some(at) ==> 0 <= at < sessions.len() && names_job(
            sessions[at],
            job_id,
        ),
        root_of(sessions, job_id) is None <==> is_unused(sessions, job_id),
{
    lemma_session_place(sessions, job_id);
    if root_of(sessions, job_id) is None {
        assert forall|i: int| 0 <= i < sessions.len() implies !names_job(
            #[trigger] sessions[i],
            job_id,
        ) by {
            if names_job(sessions[i], job_id) {
                if sessions[i].0 == job_id {
                    lemma_key_is_found(sessions, i);
                } else {
                    lemma_first_session(sessions, job_id, i);
                }
            }
        }
    }
}

/// Where no identifier stands in two sessions, the key of a session and every one of its jobs
/// lead to that session.
pub proof fn law_jobs_lead_to_their_session(sessions: Sessions, i: int, job_id: Seq<char>)
    requires
        order::keys_ascend(sessions),
        ids_are_apart(sessions),
        0 <= i < sessions.len(),
        names_job(sessions[i], job_id),
    ensures
        root_of(sessions, job_id) == Some(i),
        root_of(sessions, sessions[i].0) == Some(i),
        forall|k: int|
            0 <= k < sessions[i].1.jobs.len() ==> root_of(
                sessions,
                (#[trigger] sessions[i].1.jobs[k]).job_id,
            ) == Some(i),
{
    law_jobs_are_found(sessions, job_id);
    law_jobs_are_found(sessions, sessions[i].0);
    assert(names_job(sessions[i], sessions[i].0));
    assert forall|k: int| 0 <= k < sessions[i].1.jobs.len() implies root_of(
        sessions,
        (#[trigger] sessions[i].1.jobs[k]).job_id,
    ) == Some(i) by {
        let other = sessions[i].1.jobs[k].job_id;
        lemma_job_is_found(sessions[i].1.jobs, k);
        assert(names_job(sessions[i], other));
        law_jobs_are_found(sessions, other);
    }
}

/// Sessions that are taken from others, each from another one, and name no more jobs than
/// those, are apart where those are.
proof fn lemma_apart_below(before: Sessions, after: Sessions, from: Seq<int>)
    requires
        ids_are_apart(before),
        from.len() == after.len(),
        from.no_duplicates(),
        forall|k: int| 0 <= k < after.len() ==> 0 <= #[trigger] from[k] < before.len(),
        forall|k: int, job_id: Seq<char>|
            0 <= k < after.len() && #[trigger] names_job(after[k], job_id) ==> names_job(
                before[from[k]],
                job_id,
            ),
    ensures
        ids_are_apart(after),
{
    assert forall|i: int, j: int, job_id: Seq<char>|
        0 <= i < after.len() && 0 <= j < after.len() && #[trigger] names_job(after[i], job_id)
            && #[trigger] names_job(after[j], job_id) implies i == j by {
        assert(names_job(before[from[i]], job_id));
        assert(names_job(before[from[j]], job_id));
        assert(from[i] == from[j]);
    }
}

/// Where the sessions that are kept come from: each from another one, in their order.
proof fn lemma_kept_from(sessions: Sessions, now: i64) -> (from: Seq<int>)
    ensures
        from.len() == kept(sessions, now).len(),
        forall|k: int|
            0 <= k < from.len() ==> 0 <= #[trigger] from[k] < sessions.len() && kept(
                sessions,
                now,
            )[k] == sessions[from[k]],
        forall|a: int, b: int| 0 <= a < b < from.len() ==> #[trigger] from[a] < #[trigger] from[b],
    decreases sessions.len(),
{
    if sessions.len() == 0 {
        Seq::empty()
    } else {
        let front = sessions.drop_last();
        let short = lemma_kept_from(front, now);
        assert forall|k: int| 0 <= k < short.len() implies 0 <= #[trigger] short[k]
            < sessions.len() && kept(front, now)[k] == sessions[short[k]] by {
            assert(front[short[k]] == sessions[short[k]]);
        }
        if is_kept(sessions.last().1, now) {
            let from = short.push(sessions.len() - 1);
            assert forall|k: int| 0 <= k < from.len() implies 0 <= #[trigger] from[k]
                < sessions.len() && kept(sessions, now)[k] == sessions[from[k]] by {
                if k < short.len() {
                    assert(from[k] == short[k]);
                }
            }
            assert forall|a: int, b: int| 0 <= a < b < from.len() implies #[trigger] from[a]
                < #[trigger] from[b] by {
                assert(from[a] == short[a]);
                if b < short.len() {
                    assert(from[b] == short[b]);
                }
            }
            from
        } else {
            short
        }
    }
}

/// A cleanup leaves the sessions in the order of their keys and no identifier in two of them.
pub proof fn law_cleanup_keeps_sessions_apart(sessions: Sessions, now: i64)
    requires
        order::keys_ascend(sessions),
    ensures
        order::keys_ascend(kept(sessions, now)),
        ids_are_apart(sessions) ==> ids_are_apart(kept(sessions, now)),
        forall|job_id: Seq<char>|
            is_unused(sessions, job_id) ==> #[trigger] is_unused(kept(sessions, now), job_id),
{
    let left = kept(sessions, now);
    let from = lemma_kept_from(sessions, now);
    assert forall|i: int, j: int| 0 <= i < j < left.len() implies order::text_less(
        (#[trigger] left[i]).0,
        (#[trigger] left[j]).0,
    ) by {
        assert(from[i] < from[j]);
        assert(order::text_less(sessions[from[i]].0, sessions[from[j]].0));
    }
    if ids_are_apart(sessions) {
        lemma_apart_below(sessions, left, from);
    }
    assert forall|job_id: Seq<char>| is_unused(sessions, job_id) implies #[trigger] is_unused(
        left,
        job_id,
    ) by {
        assert forall|k: int| 0 <= k < left.len() implies !names_job(
            #[trigger] left[k],
            job_id,
        ) by {
            assert(!names_job(sessions[from[k]], job_id));
        }
    }
}

/// A session that is kept is found in what a cleanup leaves by whatever led to it before.
pub proof fn law_cleanup_keeps_what_is_found(sessions: Sessions, job_id: Seq<char>, now: i64)
    requires
        order::keys_ascend(sessions),
        root_of(sessions, job_id) matches Some(at) && is_kept(sessions[at].1, now),
    ensures
        root_of(kept(sessions, now), job_id) matches Some(k) && 0 <= k < kept(sessions, now).len()
            && kept(sessions, now)[k] == sessions[root_of(sessions, job_id)->0],
{
    let at = root_of(sessions, job_id)->0;
    let left = kept(sessions, now);
    let from = lemma_kept_from(sessions, now);
    law_jobs_are_found(sessions, job_id);
    law_cleanup_keeps_sessions_apart(sessions, now);
    law_running_sessions_are_kept(sessions, now, at);
    let k = choose|k: int| 0 <= k < left.len() && left[k] == sessions[at];
    assert(from[k] == at) by {
        lemma_key_is_found(sessions, at);
        lemma_key_is_found(sessions, from[k]);
    }
    if order::has_entry(sessions, job_id) {
        lemma_key_is_found(left, k);
    } else {
        if order::has_entry(left, job_id) {
            let r = order::rank(left, job_id) as int;
            assert(sessions[from[r]].0 == job_id);
            lemma_key_is_found(sessions, from[r]);
        }
        lemma_session_place(sessions, job_id);
        lemma_first_session(left, job_id, k);
        lemma_session_place(left, job_id);
        let p = session_place(left, job_id) as int;
        if p < k {
            assert(from[p] < from[k]);
            lemma_first_session(sessions, job_id, from[p]);
        }
    }
}

/// What leads to a session still leads to it when the session has changed but has the job
/// still.
proof fn lemma_root_stays(sessions: Sessions, at: int, session: SessionView, job_id: Seq<char>)
    requires
        order::keys_ascend(sessions),
        root_of(sessions, job_id) == Some(at),
        has_job(sessions[at].1, job_id) ==> has_job(session, job_id),
    ensures
        0 <= at < sessions.len(),
        order::keys_ascend(sessions.update(at, (sessions[at].0, session))),
        root_of(sessions.update(at, (sessions[at].0, session)), job_id) == Some(at),
{
    let after = sessions.update(at, (sessions[at].0, session));
    law_jobs_are_found(sessions, job_id);
    lemma_update_ascends(sessions, at, session);
    if order::has_entry(sessions, job_id) {
        lemma_key_is_found(after, at);
    } else {
        if order::has_entry(after, job_id) {
            let r = order::rank(after, job_id) as int;
            assert(after[r].0 == sessions[r].0);
            lemma_key_is_found(sessions, r);
        }
        lemma_session_place(sessions, job_id);
        lemma_session_place_stays(sessions, at, (sessions[at].0, session), job_id);
    }
}

/// To create a session with an identifier that stands nowhere keeps the sessions apart.
pub proof fn law_creation_keeps_sessions_apart(
    sessions: Sessions,
    job_id: Seq<char>,
    prompt: Seq<char>,
    workdir: Seq<char>,
    created_at: i64,
)
    requires
        order::keys_ascend(sessions),
        ids_are_apart(sessions),
        is_unused(sessions, job_id),
    ensures
        ids_are_apart(
            order::put(sessions, job_id, new_session(job_id, prompt, workdir, created_at)),
        ),
{
    let session = new_session(job_id, prompt, workdir, created_at);
    let after = order::put(sessions, job_id, session);
    let at = order::rank(sessions, job_id) as int;
    order::lemma_rank(sessions, job_id);
    assert(!order::has_entry(sessions, job_id)) by {
        if order::has_entry(sessions, job_id) {
            assert(names_job(sessions[at], job_id));
        }
    }
    assert forall|other: Seq<char>| #[trigger] names_job(after[at], other) implies other
        == job_id by {
        lemma_job_place(session.jobs, other);
    }
    assert forall|i: int, j: int, other: Seq<char>|
        0 <= i < after.len() && 0 <= j < after.len() && #[trigger] names_job(after[i], other)
            && #[trigger] names_job(after[j], other) implies i == j by {
        let a = if i < at { i } else { i - 1 };
        let b = if j < at { j } else { j - 1 };
        if i != at {
            assert(after[i] == sessions[a]);
        }
        if j != at {
            assert(after[j] == sessions[b]);
        }
        if i == at && j != at {
            assert(!names_job(sessions[b], job_id));
        }
        if j == at && i != at {
            assert(!names_job(sessions[a], job_id));
        }
        if i != at && j != at {
            assert(names_job(sessions[a], other) && names_job(sessions[b], other));
        }
    }
}

/// To continue a session with an identifier that stands nowhere keeps the sessions apart and
/// in the order of their keys, and so does an attempt that is refused.
pub proof fn law_continuation_keeps_sessions_apart(
    before: SessionsView,
    after: SessionsView,
    source: Seq<char>,
    job_id: Seq<char>,
    prompt: Seq<char>,
    workdir: Option<Seq<char>>,
    now: i64,
    result: Result<ContinueTarget, SessionError>,
)
    requires
        order::keys_ascend(before.sessions),
        ids_are_apart(before.sessions),
        is_continuation(before, after, source, job_id, prompt, workdir, now, result),
        result is Ok ==> is_unused(before.sessions, job_id),
    ensures
        order::keys_ascend(after.sessions),
        ids_are_apart(after.sessions),
        result is Ok ==> root_of(after.sessions, job_id) == root_of(after.sessions, source),
{
    let left = kept(before.sessions, now);
    law_cleanup_keeps_sessions_apart(before.sessions, now);
    if result is Ok {
        let at = root_of(left, source)->0;
        let session = continued(left[at].1, job_id, prompt, workdir, now);
        let job = new_job(job_id, Some(left[at].1.latest_job_id), prompt, now);
        law_jobs_are_found(left, source);
        lemma_one_more_job(left[at].1.jobs, job, source);
        lemma_root_stays(left, at, session, source);
        assert(is_unused(left, job_id));
        assert forall|k: int, other: Seq<char>|
            0 <= k < left.len() && #[trigger] names_job(after.sessions[k], other) implies (
        names_job(left[k], other) && other != job_id) || (k == at && other == job_id) by {
            if k == at {
                lemma_one_more_job(left[at].1.jobs, job, other);
            }
            assert(!names_job(left[k], job_id));
        }
        assert forall|i: int, j: int, other: Seq<char>|
            0 <= i < left.len() && 0 <= j < left.len() && #[trigger] names_job(
                after.sessions[i],
                other,
            ) && #[trigger] names_job(after.sessions[j], other) implies i == j by {
            if other != job_id {
                assert(names_job(left[i], other) && names_job(left[j], other));
            }
        }
        lemma_one_more_job(left[at].1.jobs, job, job_id);
        assert(names_job(after.sessions[at], job_id));
        law_jobs_lead_to_their_session(after.sessions, at, job_id);
    }
}

/// A change of one job keeps the sessions apart and in the order of their keys.
pub proof fn law_changes_keep_sessions_apart(
    data: SessionsView,
    job_id: Seq<char>,
    change: JobChange,
    now: i64,
)
    requires
        order::keys_ascend(data.sessions),
        ids_are_apart(data.sessions),
    ensures
        order::keys_ascend(with_change(data, job_id, change, now).sessions),
        ids_are_apart(with_change(data, job_id, change, now).sessions),
{
    let sessions = data.sessions;
    let after = with_change(data, job_id, change, now).sessions;
    law_jobs_are_found(sessions, job_id);
    if root_of(sessions, job_id) is Some {
        let at = root_of(sessions, job_id)->0;
        let session = sessions[at].1;
        let place = job_place(session.jobs, job_id) as int;
        if place < session.jobs.len() {
            lemma_update_ascends(sessions, at, changed_session(session, place, change));
            let from = Seq::new(sessions.len(), |k: int| k);
            assert forall|k: int, other: Seq<char>|
                0 <= k < after.len() && #[trigger] names_job(after[k], other) implies names_job(
                sessions[from[k]],
                other,
            ) by {
                if k == at {
                    lemma_job_place_stays(
                        session.jobs,
                        place,
                        changed_job(session.jobs[place], change),
                        other,
                    );
                }
            }
            lemma_apart_below(sessions, after, from);
        }
    }
}

/// A deletion keeps the sessions apart and in the order of their keys.
pub proof fn law_deletion_keeps_sessions_apart(
    before: SessionsView,
    after: SessionsView,
    job_id: Seq<char>,
    now: i64,
    result: Result<ChatSessionsSnapshot, SessionError>,
)
    requires
        order::keys_ascend(before.sessions),
        ids_are_apart(before.sessions),
        is_deletion(before, after, job_id, now, result),
    ensures
        order::keys_ascend(after.sessions),
        ids_are_apart(after.sessions),
{
    law_jobs_are_found(before.sessions, job_id);
    if result is Ok {
        let at = root_of(before.sessions, job_id)->0;
        let rest = before.sessions.remove(at);
        let from = Seq::new(rest.len(), |k: int| if k < at { k } else { k + 1 });
        order::law_removal_keeps_the_order(before.sessions, at);
        assert forall|k: int| 0 <= k < rest.len() implies rest[k]
            == before.sessions[#[trigger] from[k]] by {}
        assert forall|k: int, other: Seq<char>|
            0 <= k < rest.len() && #[trigger] names_job(rest[k], other) implies names_job(
            before.sessions[from[k]],
            other,
        ) by {
            assert(rest[k] == before.sessions[from[k]]);
        }
        lemma_apart_below(before.sessions, rest, from);
        law_cleanup_keeps_sessions_apart(rest, now);
        lemma_kept_len(rest, now);
    }
}

/// Every job of a session shows the same session: the same summary, which counts all of its
/// jobs whatever the limit is, the same jobs and the same account.
pub proof fn law_every_job_shows_its_session(
    name: Seq<char>,
    sessions: Sessions,
    i: int,
    one: Seq<char>,
    other: Seq<char>,
    limit: Option<usize>,
    now: i64,
    first: Option<ChatSessionDetail>,
    second: Option<ChatSessionDetail>,
)
    requires
        order::keys_ascend(sessions),
        ids_are_apart(sessions),
        0 <= i < sessions.len(),
        names_job(sessions[i], one),
        names_job(sessions[i], other),
        is_detail(name, first, sessions, one, limit, now),
        is_detail(name, second, sessions, other, limit, now),
    ensures
        first matches Some(a) && second matches Some(b) && {
            &&& a.summary@ == summarized(sessions[i].1, now)
            &&& a.summary@.job_count == sessions[i].1.jobs.len()
            &&& a.summary@ == b.summary@
            &&& job_views(a.jobs@) == job_views(b.jobs@)
            &&& a.codex_context@ == b.codex_context@
        },
{
    law_jobs_lead_to_their_session(sessions, i, one);
    law_jobs_lead_to_their_session(sessions, i, other);
}

/// A session is shown just where the identifier stands in one that has not expired or has a
/// running job, and it is one where it stands.
pub proof fn law_details_are_of_kept_sessions(
    name: Seq<char>,
    data: SessionsView,
    job_id: Seq<char>,
    limit: Option<usize>,
    now: i64,
    detail: Option<ChatSessionDetail>,
)
    requires
        order::keys_ascend(data.sessions),
        is_detail(name, detail, cleaned(data, now).sessions, job_id, limit, now),
    ensures
        detail is Some <==> exists|i: int|
            0 <= i < data.sessions.len() && names_job(#[trigger] data.sessions[i], job_id)
                && is_kept(data.sessions[i].1, now),
        detail matches Some(shown) ==> exists|i: int| {
            &&& 0 <= i < data.sessions.len()
            &&& names_job(#[trigger] data.sessions[i], job_id)
            &&& shown.summary@ == summarized(data.sessions[i].1, now)
            &&& job_views(shown.jobs@) == shown_jobs(data.sessions[i].1.jobs, limit)
        },
{
    let sessions = data.sessions;
    let left = kept(sessions, now);
    let from = lemma_kept_from(sessions, now);
    lemma_kept_len(sessions, now);
    assert(cleaned(data, now).sessions == left);
    law_cleanup_keeps_sessions_apart(sessions, now);
    law_jobs_are_found(left, job_id);
    if detail is Some {
        let at = root_of(left, job_id)->0;
        let i = from[at];
        assert(left[at] == sessions[i]);
        law_cleanup_leaves_what_is_kept(sessions, now, sessions[i]);
        assert(left.contains(sessions[i]));
        assert(names_job(sessions[i], job_id));
    } else {
        assert forall|i: int|
            0 <= i < sessions.len() && names_job(#[trigger] sessions[i], job_id) implies !is_kept(
            sessions[i].1,
            now,
        ) by {
            if is_kept(sessions[i].1, now) {
                law_running_sessions_are_kept(sessions, now, i);
                let k = choose|k: int| 0 <= k < left.len() && left[k] == sessions[i];
                assert(!names_job(left[k], job_id));
            }
        }
    }
}

/// While a job of a session is running, and the session has not expired, the session cannot
/// be continued through any of its jobs. The user is told which job is running.
pub proof fn law_running_sessions_are_not_continued(
    before: SessionsView,
    after: SessionsView,
    source: Seq<char>,
    job_id: Seq<char>,
    prompt: Seq<char>,
    workdir: Option<Seq<char>>,
    now: i64,
    result: Result<ContinueTarget, SessionError>,
    running: Seq<char>,
)
    requires
        order::keys_ascend(before.sessions),
        is_continuation(before, after, source, job_id, prompt, workdir, now, result),
        root_of(before.sessions, source) matches Some(at)
            && before.sessions[at].1.active_job_id == Some(running)
            && before.sessions[at].1.expires_at > now,
    ensures
        result matches Err(error) && error@ == SessionFault::Running(running),
        text::has_text(fault_text(SessionFault::Running(running)), "正在运行"@),
        after.sessions.contains(before.sessions[root_of(before.sessions, source)->0]),
{
    let at = root_of(before.sessions, source)->0;
    law_cleanup_keeps_what_is_found(before.sessions, source, now);
    law_busy_sessions_say_so(running);
    let k = root_of(kept(before.sessions, now), source)->0;
    assert(kept(before.sessions, now)[k] == before.sessions[at]);
}

/// A session that was continued cannot be continued again through the same job, or through
/// any other that leads to it, before the new job has ended or the session has expired.
pub proof fn law_sessions_are_continued_once_at_a_time(
    before: SessionsView,
    middle: SessionsView,
    after: SessionsView,
    source: Seq<char>,
    first: Seq<char>,
    first_prompt: Seq<char>,
    first_workdir: Option<Seq<char>>,
    now: i64,
    given: ContinueTarget,
    again: Seq<char>,
    second: Seq<char>,
    second_prompt: Seq<char>,
    second_workdir: Option<Seq<char>>,
    later: i64,
    result: Result<ContinueTarget, SessionError>,
)
    requires
        order::keys_ascend(before.sessions),
        is_continuation(
            before,
            middle,
            source,
            first,
            first_prompt,
            first_workdir,
            now,
            Ok(given),
        ),
        is_continuation(
            middle,
            after,
            again,
            second,
            second_prompt,
            second_workdir,
            later,
            result,
        ),
        again == source || root_of(middle.sessions, again) == root_of(middle.sessions, source),
        later < expiry(now),
    ensures
        result matches Err(error) && error@ == SessionFault::Running(first),
        text::has_text(fault_text(SessionFault::Running(first)), "正在运行"@),
        root_of(middle.sessions, source) matches Some(at) && after.sessions.contains(
            middle.sessions[at],
        ),
{
    let left = kept(before.sessions, now);
    law_cleanup_keeps_sessions_apart(before.sessions, now);
    let at = root_of(left, source)->0;
    let session = continued(left[at].1, first, first_prompt, first_workdir, now);
    law_jobs_are_found(left, source);
    lemma_one_more_job(
        left[at].1.jobs,
        new_job(first, Some(left[at].1.latest_job_id), first_prompt, now),
        source,
    );
    lemma_root_stays(left, at, session, source);
    law_running_sessions_are_not_continued(
        middle,
        after,
        again,
        second,
        second_prompt,
        second_workdir,
        later,
        result,
        first,
    );
}

/// A session goes on running until its running job ends: that a job starts, that a session
/// gets an identifier, or that another job ends changes neither which session a job leads to
/// nor which job is running there. Only the end of a job moves when the session expires.
pub proof fn law_sessions_run_until_their_job_ends(
    data: SessionsView,
    job_id: Seq<char>,
    change: JobChange,
    now: i64,
    source: Seq<char>,
    running: Seq<char>,
)
    requires
        order::keys_ascend(data.sessions),
        root_of(data.sessions, source) matches Some(at)
            && data.sessions[at].1.active_job_id == Some(running),
        !(change is Finished) || job_id != running,
    ensures
        order::keys_ascend(with_change(data, job_id, change, now).sessions),
        root_of(with_change(data, job_id, change, now).sessions, source) == root_of(
            data.sessions,
            source,
        ),
        ({
            let at = root_of(data.sessions, source)->0;
            let after = with_change(data, job_id, change, now).sessions[at].1;
            &&& after.active_job_id == Some(running)
            &&& !(change is Finished) ==> after.expires_at == data.sessions[at].1.expires_at
        }),
{
    law_changes_keep_jobs_in_their_sessions(data, job_id, change, now, source);
    law_jobs_are_found(data.sessions, job_id);
    law_jobs_are_found(data.sessions, source);
    if root_of(data.sessions, job_id) is Some {
        let changed = root_of(data.sessions, job_id)->0;
        let session = data.sessions[changed].1;
        let place = job_place(session.jobs, job_id) as int;
        lemma_job_place(session.jobs, job_id);
        lemma_update_ascends(data.sessions, changed, changed_session(session, place, change));
    }
}

/// What the user is told of a session with a running job says that it is running.
pub proof fn law_busy_sessions_say_so(running: Seq<char>)
    ensures
        text::has_text(fault_text(SessionFault::Running(running)), "正在运行"@),
        text::has_text(fault_text(SessionFault::Busy(running)), "正在运行"@),
{
    let start = "当前 session 正在运行："@;
    let word = "正在运行"@;
    reveal_strlit("当前 session 正在运行：");
    reveal_strlit("正在运行");
    let one = fault_text(SessionFault::Running(running));
    let other = fault_text(SessionFault::Busy(running));
    assert(word.len() == 4 && start.len() == 16);
    assert(one.subrange(11, 15) =~= word);
    assert(other.subrange(11, 15) =~= word);
    assert(text::stands_at(one, word, 11));
    assert(text::stands_at(other, word, 11));
}

/// A session is deleted just where there is one without a running job. After that nothing
/// that stood in it is found, now or later, and to delete it again fails.
pub proof fn law_deleted_sessions_are_gone(
    before: SessionsView,
    after: SessionsView,
    job_id: Seq<char>,
    now: i64,
    result: Result<ChatSessionsSnapshot, SessionError>,
    other: Seq<char>,
    last: SessionsView,
    later: i64,
    again: Result<ChatSessionsSnapshot, SessionError>,
)
    requires
        order::keys_ascend(before.sessions),
        ids_are_apart(before.sessions),
        is_deletion(before, after, job_id, now, result),
        is_deletion(after, last, other, later, again),
        root_of(before.sessions, job_id) matches Some(at) ==> names_job(
            before.sessions[at],
            other,
        ),
    ensures
        result is Ok <==> (root_of(before.sessions, job_id) matches Some(at)
            && before.sessions[at].1.active_job_id is None),
        result is Ok ==> {
            &&& root_of(after.sessions, other) is None
            &&& root_of(cleaned(after, later).sessions, other) is None
            &&& again matches Err(error) && error@ == SessionFault::Gone
            &&& last == after
        },
{
    law_deletion_keeps_sessions_apart(before, after, job_id, now, result);
    law_jobs_are_found(before.sessions, job_id);
    if result is Ok {
        let at = root_of(before.sessions, job_id)->0;
        let rest = before.sessions.remove(at);
        order::law_removal_keeps_the_order(before.sessions, at);
        assert forall|k: int| 0 <= k < rest.len() implies !names_job(
            #[trigger] rest[k],
            other,
        ) by {
            let i = if k < at { k } else { k + 1 };
            assert(rest[k] == before.sessions[i]);
            if names_job(before.sessions[i], other) {
                assert(names_job(before.sessions[at], other));
            }
        }
        assert(is_unused(rest, other));
        law_cleanup_keeps_sessions_apart(rest, now);
        lemma_kept_len(rest, now);
        assert(is_unused(kept(rest, now), other));
        law_jobs_are_found(after.sessions, other);
        law_cleanup_keeps_sessions_apart(after.sessions, later);
        lemma_kept_len(after.sessions, later);
        assert(is_unused(kept(after.sessions, later), other));
        law_jobs_are_found(cleaned(after, later).sessions, other);
    }
}

/// A deletion leaves every other session that has not expired or has a running job as it was,
/// and adds none.
pub proof fn law_deletion_spares_other_sessions(
    before: SessionsView,
    after: SessionsView,
    job_id: Seq<char>,
    now: i64,
    result: Result<ChatSessionsSnapshot, SessionError>,
    entry: (Seq<char>, SessionView),
)
    requires
        order::keys_ascend(before.sessions),
        is_deletion(before, after, job_id, now, result),
        result is Ok,
    ensures
        after.sessions.contains(entry) <==> before.sessions.contains(entry) && is_kept(
            entry.1,
            now,
        ) && entry != before.sessions[root_of(before.sessions, job_id)->0],
{
    let sessions = before.sessions;
    let at = root_of(sessions, job_id)->0;
    let rest = sessions.remove(at);
    law_jobs_are_found(sessions, job_id);
    lemma_kept_len(rest, now);
    law_cleanup_leaves_what_is_kept(rest, now, entry);
    if sessions.contains(entry) && entry != sessions[at] {
        let i = choose|i: int| 0 <= i < sessions.len() && sessions[i] == entry;
        assert(rest[if i < at { i } else { i - 1 }] == entry);
    }
    if rest.contains(entry) {
        let k = choose|k: int| 0 <= k < rest.len() && rest[k] == entry;
        let i = if k < at { k } else { k + 1 };
        assert(sessions[i] == entry);
        lemma_key_is_found(sessions, i);
        lemma_key_is_found(sessions, at);
    }
}

} // verus!
