//! The tools that clients call: what they are asked with, what they refuse, and what they
//! answer.

use vstd::prelude::*;
use vstd::string::*;

use crate::claude;
use crate::jobs;
use crate::jobs::{JobStore, JobSummary, SummaryView};
use crate::json;
use crate::json::{Json, JsonObject, JsonTree};
use crate::logs::{LogDraft, LogDraftView, LogLevel};
use crate::sessions::{
    ChatJobRecord, ChatJobView, ChatSessionDetail, ChatSessionSummary, ChatSummaryView,
};
use crate::sessions;
use crate::text;

verus! {

/// How long a caller waits where it does not say, in seconds.
pub const DEFAULT_WAIT_SECONDS: u64 = 90;

/// How long a poll waits where the caller does not say, in seconds.
pub const DEFAULT_POLL_SECONDS: u64 = 3;

/// How long a caller may wait, in seconds.
pub const MAX_WAIT_SECONDS: u64 = 600;

/// How many jobs a caller may wait for.
pub const MAX_BATCH_JOB_IDS: usize = 100;

/// How many jobs a caller may poll.
pub const MAX_POLL_JOB_IDS: usize = 500;

/// How much of a job's output a list shows where the caller does not say.
pub const DEFAULT_BATCH_RECENT_CHARS: usize = 4_000;

/// How much of a file is put into a prompt.
pub const MAX_CONTEXT_CHARS: usize = 80_000;

/// A task.
#[derive(Debug)]
pub struct CodeRequest {
    pub prompt: String,
    pub workdir: Option<String>,
}

/// A task with files.
#[derive(Debug)]
pub struct CodeWithContextRequest {
    pub prompt: String,
    pub files: Vec<String>,
    pub workdir: Option<String>,
}

/// A question for the status of a job.
#[derive(Debug)]
pub struct StatusRequest {
    pub job_id: String,
    pub recent_chars: Option<usize>,
}

/// A question for the result of a job, or the wish to cancel it.
#[derive(Debug)]
pub struct ResultRequest {
    pub job_id: String,
}

/// The wish to wait for a job.
#[derive(Debug)]
pub struct WaitRequest {
    pub job_id: String,
    pub timeout_seconds: Option<u64>,
    pub recent_chars: Option<usize>,
}

/// The wish to wait for some jobs.
#[derive(Debug)]
pub struct BatchWaitRequest {
    pub job_ids: Vec<String>,
    pub timeout_seconds: Option<u64>,
    pub recent_chars: Option<usize>,
}

/// A question for the results of some jobs.
#[derive(Debug)]
pub struct BatchResultRequest {
    pub job_ids: Vec<String>,
    pub recent_chars: Option<usize>,
}

/// A question for what is new of some jobs.
#[derive(Debug)]
pub struct BatchPollRequest {
    pub job_ids: Vec<String>,
    pub seen_job_ids: Option<Vec<String>>,
    pub timeout_seconds: Option<u64>,
    pub recent_chars: Option<usize>,
    pub include_running: Option<bool>,
}

/// The wish to continue a session.
#[derive(Debug)]
pub struct ContinueStartRequest {
    pub job_id: String,
    pub prompt: String,
    pub workdir: Option<String>,
}

/// The wish to continue a session and to wait for it.
#[derive(Debug)]
pub struct ContinueWaitRequest {
    pub job_id: String,
    pub prompt: String,
    pub workdir: Option<String>,
    pub timeout_seconds: Option<u64>,
    pub recent_chars: Option<usize>,
}

/// A question for the history of a session.
#[derive(Debug)]
pub struct ChatHistoryRequest {
    pub job_id: String,
    pub limit: Option<usize>,
}

/// What a tool answers.
#[derive(Debug)]
pub struct ToolAnswer {
    pub value: Json,
    pub is_error: bool,
}

// ---------------------------------------------------------------------------
// Bounds
// ---------------------------------------------------------------------------

/// The seconds that a caller waits: as asked for, from 1 to the most allowed.
pub open spec fn wait_seconds(requested: Option<u64>) -> u64 {
    let seconds = match requested {
        Some(n) => n,
        None => DEFAULT_WAIT_SECONDS,
    };
    if seconds < 1 {
        1
    } else if seconds > MAX_WAIT_SECONDS {
        MAX_WAIT_SECONDS
    } else {
        seconds
    }
}

/// The seconds that a poll waits: as asked for, up to the most allowed.
pub open spec fn poll_seconds(requested: Option<u64>) -> u64 {
    let seconds = match requested {
        Some(n) => n,
        None => DEFAULT_POLL_SECONDS,
    };
    if seconds > MAX_WAIT_SECONDS {
        MAX_WAIT_SECONDS
    } else {
        seconds
    }
}

/// The seconds that a caller waits.
pub fn wait_duration(timeout_seconds: Option<u64>) -> (seconds: u64)
    ensures
        seconds == wait_seconds(timeout_seconds),
{
    let seconds: u64 = match timeout_seconds {
        Some(n) => n,
        None => DEFAULT_WAIT_SECONDS,
    };
    if seconds < 1 {
        1
    } else if seconds > MAX_WAIT_SECONDS {
        MAX_WAIT_SECONDS
    } else {
        seconds
    }
}

/// The seconds that a poll waits.
pub fn poll_duration(timeout_seconds: Option<u64>) -> (seconds: u64)
    ensures
        seconds == poll_seconds(timeout_seconds),
{
    let seconds: u64 = match timeout_seconds {
        Some(n) => n,
        None => DEFAULT_POLL_SECONDS,
    };
    if seconds > MAX_WAIT_SECONDS {
        MAX_WAIT_SECONDS
    } else {
        seconds
    }
}

/// Texts without white space around them, but for the blank ones.
pub open spec fn visible(ids: Seq<Seq<char>>) -> Seq<Seq<char>>
    decreases ids.len(),
{
    if ids.len() == 0 {
        ids
    } else if text::is_blank(ids.last()) {
        visible(ids.drop_last())
    } else {
        visible(ids.drop_last()).push(text::trimmed(ids.last()))
    }
}

/// The identifiers that a caller means: without white space, and each of them once.
pub open spec fn meant_ids(ids: Seq<Seq<char>>) -> Seq<Seq<char>> {
    jobs::once(visible(ids))
}

/// The identifiers that a caller means.
pub fn normalize_job_ids(job_ids: &Vec<String>) -> (result: Vec<String>)
    ensures
        text::texts(result@) == meant_ids(text::texts(job_ids@)),
{
    let ghost ids = text::texts(job_ids@);
    let mut result: Vec<String> = Vec::new();
    let mut i: usize = 0;
    assert(text::texts(result@) =~= meant_ids(ids.take(0)));
    while i < job_ids.len()
        invariant
            i <= job_ids@.len(),
            ids == text::texts(job_ids@),
            text::texts(result@) == meant_ids(ids.take(i as int)),
        decreases job_ids@.len() - i,
    {
        let id = text::trim(job_ids[i].as_str());
        proof {
            assert(ids.take(i + 1).drop_last() =~= ids.take(i as int));
            assert(ids.take(i + 1).last() == ids[i as int]);
            let before = visible(ids.take(i as int));
            assert(before.push(id@).drop_last() =~= before);
        }
        if !id.as_str().is_empty() && !text::list_contains(result.as_slice(), id.as_str()) {
            let ghost before = result@;
            result.push(id);
            assert(text::texts(result@) =~= text::texts(before).push(id@));
        }
        i += 1;
    }
    assert(ids.take(job_ids@.len() as int) =~= ids);
    result
}

/// Why a list of identifiers is refused, if it is.
pub open spec fn ids_refusal(ids: Seq<Seq<char>>, max: usize) -> Option<Seq<char>> {
    if meant_ids(ids).len() == 0 {
        Some("job_ids 不能为空"@)
    } else if meant_ids(ids).len() > max {
        Some("一次最多处理 "@ + text::numeral(max as nat) + " 个任务"@)
    } else {
        None
    }
}

/// Checks a list of identifiers: there must be some, and at most `max`.
pub fn validate_job_ids(job_ids: &Vec<String>, max: usize) -> (result: Result<Vec<String>, String>)
    ensures
        match result {
            Ok(ids) => ids_refusal(text::texts(job_ids@), max) is None && text::texts(ids@)
                == meant_ids(text::texts(job_ids@)),
            Err(reason) => ids_refusal(text::texts(job_ids@), max) == Some(reason@),
        },
{
    let ids = normalize_job_ids(job_ids);
    assert(ids@.len() == text::texts(ids@).len());
    if ids.len() == 0 {
        return Err("job_ids 不能为空".to_owned());
    }
    if ids.len() > max {
        let mut reason = "一次最多处理 ".to_owned();
        reason.append(text::decimal(max as u64).as_str());
        reason.append(" 个任务");
        return Err(reason);
    }
    Ok(ids)
}

/// Checks a list of identifiers of jobs to wait for.
pub fn validate_batch_job_ids(job_ids: &Vec<String>) -> (result: Result<Vec<String>, String>)
    ensures
        match result {
            Ok(ids) => ids_refusal(text::texts(job_ids@), MAX_BATCH_JOB_IDS) is None
                && text::texts(ids@) == meant_ids(text::texts(job_ids@)),
            Err(reason) => ids_refusal(text::texts(job_ids@), MAX_BATCH_JOB_IDS) == Some(reason@),
        },
{
    validate_job_ids(job_ids, MAX_BATCH_JOB_IDS)
}

/// No identifier is asked for twice, and none is blank.
pub proof fn law_meant_ids_are_distinct(ids: Seq<Seq<char>>)
    ensures
        meant_ids(ids).no_duplicates(),
        forall|i: int| 0 <= i < meant_ids(ids).len() ==> (#[trigger] meant_ids(ids)[i]).len() > 0,
{
    lemma_visible(ids);
    jobs::lemma_once(visible(ids));
    assert forall|i: int| 0 <= i < meant_ids(ids).len() implies (
    #[trigger] meant_ids(ids)[i]).len() > 0 by {
        assert(visible(ids).contains(meant_ids(ids)[i]));
        let k = choose|k: int|
            0 <= k < visible(ids).len() && visible(ids)[k] == meant_ids(ids)[i];
        assert(visible(ids)[k].len() > 0);
    }
}

proof fn lemma_visible(ids: Seq<Seq<char>>)
    ensures
        forall|i: int| 0 <= i < visible(ids).len() ==> (#[trigger] visible(ids)[i]).len() > 0,
    decreases ids.len(),
{
    if ids.len() > 0 {
        let front = ids.drop_last();
        lemma_visible(front);
        assert forall|i: int| 0 <= i < visible(ids).len() implies (
        #[trigger] visible(ids)[i]).len() > 0 by {
            if i < visible(front).len() {
                assert(visible(ids)[i] == visible(front)[i]);
            }
        }
    }
}

// ---------------------------------------------------------------------------
// Directories and files
// ---------------------------------------------------------------------------

/// The directory to work in: as asked for, else the current one, else `.`.
pub open spec fn chosen_dir(workdir: Option<Seq<char>>, current: Option<Seq<char>>) -> Seq<char> {
    match workdir {
        Some(dir) => if !text::is_blank(dir) {
            dir
        } else {
            fallback_dir(current)
        },
        None => fallback_dir(current),
    }
}

/// The current directory, or `.` where it is not known.
pub open spec fn fallback_dir(current: Option<Seq<char>>) -> Seq<char> {
    match current {
        Some(dir) => dir,
        None => "."@,
    }
}

/// The directory to work in.
pub fn workdir_or_current(workdir: Option<String>, current: Option<String>) -> (dir: String)
    ensures
        dir@ == chosen_dir(text::option_text(workdir), text::option_text(current)),
{
    if let Some(dir) = workdir {
        if !text::blank(dir.as_str()) {
            return dir;
        }
    }
    match current {
        Some(dir) => dir,
        None => ".".to_owned(),
    }
}

/// The directory to continue in, where another one than before is asked for.
pub fn continue_workdir(workdir: Option<String>) -> (dir: Option<String>)
    ensures
        text::option_text(dir) == (match text::option_text(workdir) {
            Some(asked) => if text::is_blank(asked) {
                None
            } else {
                Some(asked)
            },
            None => None,
        }),
{
    match workdir {
        Some(dir) => if text::blank(dir.as_str()) {
            None
        } else {
            Some(dir)
        },
        None => None,
    }
}

/// What is known of the directory to work in.
#[derive(Debug)]
pub enum WorkdirState {
    Directory,
    NoDirectory,
    Missing,
    /// Nothing; with the message of the error.
    Unknown(String),
}

/// What to do about the directory to work in.
#[derive(Debug)]
pub enum WorkdirPlan {
    /// Use it.
    Use,
    /// Create it, then log this and use it.
    Create(LogDraft),
    /// Log this and refuse; with the reason.
    Refuse(LogDraft, String),
}

/// What is logged of the directory to work in.
pub open spec fn workdir_log(
    level: LogLevel,
    summary: Seq<char>,
    tool_name: Seq<char>,
    cwd: Seq<char>,
) -> LogDraftView {
    LogDraftView {
        level,
        source: "mcp"@,
        request_id: None,
        task_id: None,
        summary,
        detail: Some(
            JsonTree::Object(
                json::no_fields().insert("tool"@, JsonTree::Text(tool_name)).insert(
                    "workdir"@,
                    JsonTree::Text(cwd),
                ),
            ),
        ),
    }
}

fn make_workdir_log(level: LogLevel, summary: &str, tool_name: &str, cwd: &str) -> (log: LogDraft)
    ensures
        log@ == workdir_log(level, summary@, tool_name@, cwd@),
{
    let detail = JsonObject::new().with("tool", Json::text(tool_name)).with(
        "workdir",
        Json::text(cwd),
    );
    LogDraft::new(level, "mcp", None, None, summary, Some(Json::Object(detail)))
}

/// Why a directory cannot be worked in, if it cannot.
pub open spec fn workdir_refusal(state: WorkdirState, cwd: Seq<char>) -> Option<Seq<char>> {
    match state {
        WorkdirState::NoDirectory => Some("workdir 不是目录："@ + cwd),
        WorkdirState::Unknown(error) => Some("无法访问 workdir "@ + cwd + "："@ + error@),
        _ => None,
    }
}

/// Says what to do about the directory to work in.
pub fn prepare_workdir(state: WorkdirState, cwd: &str, tool_name: &str) -> (plan: WorkdirPlan)
    ensures
        match plan {
            WorkdirPlan::Use => state is Directory,
            WorkdirPlan::Create(log) => state is Missing && log@ == workdir_log(
                LogLevel::Info,
                "自动创建 workdir"@,
                tool_name@,
                cwd@,
            ),
            WorkdirPlan::Refuse(log, reason) => workdir_refusal(state, cwd@) == Some(reason@)
                && log@ == workdir_log(LogLevel::Error, reason@, tool_name@, cwd@),
        },
{
    match state {
        WorkdirState::Directory => WorkdirPlan::Use,
        WorkdirState::Missing => WorkdirPlan::Create(
            make_workdir_log(LogLevel::Info, "自动创建 workdir", tool_name, cwd),
        ),
        WorkdirState::NoDirectory => {
            let mut reason = "workdir 不是目录：".to_owned();
            reason.append(cwd);
            let log = make_workdir_log(LogLevel::Error, reason.as_str(), tool_name, cwd);
            WorkdirPlan::Refuse(log, reason)
        },
        WorkdirState::Unknown(error) => {
            let mut reason = "无法访问 workdir ".to_owned();
            reason.append(cwd);
            reason.append("：");
            reason.append(error.as_str());
            let log = make_workdir_log(LogLevel::Error, reason.as_str(), tool_name, cwd);
            WorkdirPlan::Refuse(log, reason)
        },
    }
}

/// Why a job is refused when its directory cannot be created.
pub fn workdir_creation_error(cwd: &str, error: &str) -> (reason: String)
    ensures
        reason@ == "无法创建 workdir "@ + cwd@ + "："@ + error@,
{
    let mut reason = "无法创建 workdir ".to_owned();
    reason.append(cwd);
    reason.append("：");
    reason.append(error);
    reason
}

/// A file as it is put into a prompt.
pub open spec fn file_block(file: Seq<char>, content: Seq<char>) -> Seq<char> {
    "[File: "@ + file + "]\n"@ + text::cut(
        content,
        MAX_CONTEXT_CHARS as nat,
        claude::TRUNCATED@,
    ) + "\n"@
}

/// Files as they are put into a prompt.
pub open spec fn file_blocks(files: Seq<(String, String)>) -> Seq<Seq<char>> {
    Seq::new(files.len(), |i: int| file_block(files[i].0@, files[i].1@))
}

/// A prompt with files before it.
pub fn build_context_prompt(files: &Vec<(String, String)>, prompt: &str) -> (result: String)
    ensures
        result@ == text::joined(file_blocks(files@), "\n"@) + "\n\n"@ + prompt@,
{
    let mut blocks: Vec<String> = Vec::new();
    let mut i: usize = 0;
    while i < files.len()
        invariant
            i <= files@.len(),
            text::texts(blocks@) == file_blocks(files@).take(i as int),
        decreases files@.len() - i,
    {
        let mut block = "[File: ".to_owned();
        block.append(files[i].0.as_str());
        block.append("]\n");
        block.append(claude::truncate(files[i].1.as_str(), MAX_CONTEXT_CHARS).as_str());
        block.append("\n");
        let ghost before = blocks@;
        blocks.push(block);
        i += 1;
        assert(text::texts(blocks@) =~= text::texts(before).push(block@));
        assert(text::texts(blocks@) =~= file_blocks(files@).take(i as int));
    }
    assert(text::texts(blocks@) =~= file_blocks(files@));
    let mut result = text::join(&blocks, "\n");
    result.append("\n\n");
    result.append(prompt);
    result
}

/// What to log when a task comes in.
pub fn code_log(cwd: &str, prompt: &str) -> (log: LogDraft)
    ensures
        log@ == (LogDraftView {
            level: LogLevel::Info,
            source: "mcp"@,
            request_id: None,
            task_id: None,
            summary: "收到 code 调用"@,
            detail: Some(
                JsonTree::Object(
                    json::no_fields().insert("workdir"@, JsonTree::Text(cwd@)).insert(
                        "prompt_chars"@,
                        JsonTree::Integer(prompt@.len() as int),
                    ),
                ),
            ),
        }),
{
    let detail = JsonObject::new().with("workdir", Json::text(cwd)).with(
        "prompt_chars",
        Json::Unsigned(prompt.unicode_len() as u64),
    );
    LogDraft::new(
        LogLevel::Info,
        "mcp",
        None,
        None,
        "收到 code 调用",
        Some(Json::Object(detail)),
    )
}

/// What to log when a task with files comes in.
pub fn code_with_context_log(cwd: &str, files: &Vec<String>) -> (log: LogDraft)
    ensures
        log@ == (LogDraftView {
            level: LogLevel::Info,
            source: "mcp"@,
            request_id: None,
            task_id: None,
            summary: "收到 code_with_context 调用"@,
            detail: Some(
                JsonTree::Object(
                    json::no_fields().insert("workdir"@, JsonTree::Text(cwd@)).insert(
                        "files"@,
                        JsonTree::Array(jobs::text_trees(text::texts(files@))),
                    ),
                ),
            ),
        }),
{
    let detail = JsonObject::new().with("workdir", Json::text(cwd)).with(
        "files",
        jobs::text_array(files),
    );
    LogDraft::new(
        LogLevel::Info,
        "mcp",
        None,
        None,
        "收到 code_with_context 调用",
        Some(Json::Object(detail)),
    )
}

// ---------------------------------------------------------------------------
// Answers
// ---------------------------------------------------------------------------

/// A job as a client sees it.
pub open spec fn summary_tree(summary: SummaryView) -> JsonTree {
    JsonTree::Object(
        json::no_fields().insert("job_id"@, JsonTree::Text(summary.job_id)).insert(
            "status"@,
            JsonTree::Text(jobs::label(summary.status)),
        ).insert("complete"@, JsonTree::Bool(summary.complete)).insert(
            "cwd"@,
            JsonTree::Text(summary.cwd),
        ).insert("prompt_preview"@, JsonTree::Text(summary.prompt_preview)).insert(
            "created_at"@,
            JsonTree::Integer(summary.created_at as int),
        ).insert("started_at"@, json::integer_or_null(summary.started_at)).insert(
            "ended_at"@,
            json::integer_or_null(summary.ended_at),
        ).insert("output_recent"@, JsonTree::Text(summary.output_recent)).insert(
            "output_truncated"@,
            JsonTree::Bool(summary.output_truncated),
        ).insert("error"@, json::text_or_null(summary.error)),
    )
}

/// A job as a client sees it.
pub fn summary_json(summary: &JobSummary) -> (value: Json)
    ensures
        value.tree() == summary_tree(summary@),
{
    Json::Object(
        JsonObject::new().with("job_id", Json::text(summary.job_id.as_str())).with(
            "status",
            Json::text(jobs::status_label(&summary.status)),
        ).with("complete", Json::Bool(summary.complete)).with(
            "cwd",
            Json::text(summary.cwd.as_str()),
        ).with("prompt_preview", Json::text(summary.prompt_preview.as_str())).with(
            "created_at",
            Json::Signed(summary.created_at),
        ).with("started_at", Json::optional_integer(summary.started_at)).with(
            "ended_at",
            Json::optional_integer(summary.ended_at),
        ).with("output_recent", Json::text(summary.output_recent.as_str())).with(
            "output_truncated",
            Json::Bool(summary.output_truncated),
        ).with("error", Json::optional_text(&summary.error)),
    )
}

/// What is answered where no job has the identifier.
pub open spec fn not_found(job_id: Seq<char>) -> json::Fields {
    json::no_fields().insert("job_id"@, JsonTree::Text(job_id)).insert(
        "status"@,
        json::txt("not_found"),
    ).insert("error"@, json::txt("Unknown job_id"))
}

fn make_not_found(job_id: &str) -> (fields: JsonObject)
    ensures
        fields.fields() == not_found(job_id@),
{
    JsonObject::new().with("job_id", Json::text(job_id)).with(
        "status",
        Json::text("not_found"),
    ).with("error", Json::text("Unknown job_id"))
}

/// What is answered where a request is refused.
pub fn error_answer(reason: &str) -> (answer: ToolAnswer)
    ensures
        answer.is_error,
        answer.value.tree() == JsonTree::Object(
            json::no_fields().insert("error"@, JsonTree::Text(reason@)),
        ),
{
    ToolAnswer {
        value: Json::Object(JsonObject::new().with("error", Json::text(reason))),
        is_error: true,
    }
}

/// What is answered where a job is refused.
pub fn job_error_answer(job_id: &str, reason: &str) -> (answer: ToolAnswer)
    ensures
        answer.is_error,
        answer.value.tree() == JsonTree::Object(
            json::no_fields().insert("job_id"@, JsonTree::Text(job_id@)).insert(
                "error"@,
                JsonTree::Text(reason@),
            ),
        ),
{
    ToolAnswer {
        value: Json::Object(
            JsonObject::new().with("job_id", Json::text(job_id)).with("error", Json::text(reason)),
        ),
        is_error: true,
    }
}

/// The amount asked for, or the default.
pub open spec fn amount(requested: Option<usize>, default: usize) -> nat {
    match requested {
        Some(n) => n as nat,
        None => default as nat,
    }
}

fn amount_or(requested: Option<usize>, default: usize) -> (n: usize)
    ensures
        n == amount(requested, default),
{
    match requested {
        Some(n) => n,
        None => default,
    }
}

/// Answers a question for the status of a job.
pub fn code_status(store: &JobStore, req: &StatusRequest) -> (answer: ToolAnswer)
    ensures
        answer.is_error == !store.jobs().dom().contains(req.job_id@),
        answer.value.tree() == (if store.jobs().dom().contains(req.job_id@) {
            summary_tree(
                jobs::summary(
                    store.jobs()[req.job_id@],
                    amount(req.recent_chars, jobs::DEFAULT_RECENT_CHARS),
                ),
            )
        } else {
            JsonTree::Object(not_found(req.job_id@))
        }),
{
    let recent: usize = amount_or(req.recent_chars, jobs::DEFAULT_RECENT_CHARS);
    match store.status(req.job_id.as_str(), recent) {
        Some(summary) => ToolAnswer { value: summary_json(&summary), is_error: false },
        None => ToolAnswer {
            value: Json::Object(make_not_found(req.job_id.as_str())),
            is_error: true,
        },
    }
}

/// Answers a question for the result of a job.
pub fn code_result(store: &JobStore, req: &ResultRequest) -> (answer: ToolAnswer)
    ensures
        answer.is_error == !store.jobs().dom().contains(req.job_id@),
        answer.value.tree() == (if store.jobs().dom().contains(req.job_id@) {
            jobs::result_answer(store.assistant(), store.jobs()[req.job_id@])
        } else {
            JsonTree::Object(not_found(req.job_id@).insert("result"@, JsonTree::Null))
        }),
{
    match store.result(req.job_id.as_str()) {
        Some(value) => ToolAnswer { value, is_error: false },
        None => ToolAnswer {
            value: Json::Object(make_not_found(req.job_id.as_str()).with("result", Json::Null)),
            is_error: true,
        },
    }
}

/// Answers a question for the results of some jobs.
pub fn code_batch_result(store: &JobStore, req: &BatchResultRequest) -> (answer: ToolAnswer)
    ensures
        match ids_refusal(text::texts(req.job_ids@), MAX_BATCH_JOB_IDS) {
            Some(reason) => answer.is_error && answer.value.tree() == JsonTree::Object(
                json::no_fields().insert("error"@, JsonTree::Text(reason)),
            ),
            None => !answer.is_error && answer.value.tree() == jobs::batch(
                store.assistant(),
                store.jobs(),
                meant_ids(text::texts(req.job_ids@)),
                amount(req.recent_chars, DEFAULT_BATCH_RECENT_CHARS),
            ),
        },
{
    match validate_batch_job_ids(&req.job_ids) {
        Ok(ids) => {
            let recent: usize = amount_or(req.recent_chars, DEFAULT_BATCH_RECENT_CHARS);
            ToolAnswer { value: store.batch_result(ids.as_slice(), recent), is_error: false }
        },
        Err(reason) => error_answer(reason.as_str()),
    }
}

/// Cancels a job.
pub fn code_cancel(store: &mut JobStore, req: &ResultRequest) -> (answer: ToolAnswer)
    ensures
        final(store).last_cleanup() == old(store).last_cleanup(),
        final(store).assistant() == old(store).assistant(),
        answer.is_error == !old(store).jobs().dom().contains(req.job_id@),
        answer.is_error ==> answer.value.tree() == JsonTree::Object(not_found(req.job_id@))
            && final(store).jobs() == old(store).jobs(),
        !answer.is_error ==> exists|now: i64|
            final(store).jobs() == old(store).jobs().insert(
                req.job_id@,
                #[trigger] jobs::cancelled(old(store).jobs()[req.job_id@], now),
            ) && answer.value.tree() == summary_tree(
                jobs::summary(
                    jobs::cancelled(old(store).jobs()[req.job_id@], now),
                    jobs::DEFAULT_RECENT_CHARS as nat,
                ),
            ),
{
    match store.cancel(req.job_id.as_str()) {
        Some(summary) => ToolAnswer { value: summary_json(&summary), is_error: false },
        None => ToolAnswer {
            value: Json::Object(make_not_found(req.job_id.as_str())),
            is_error: true,
        },
    }
}

/// The wish to wait for jobs, checked.
#[derive(Debug)]
pub struct WaitPlan {
    pub job_ids: Vec<String>,
    pub seconds: u64,
    pub recent_chars: usize,
}

/// Checks the wish to wait for some jobs.
pub fn plan_batch_wait(
    job_ids: &Vec<String>,
    timeout_seconds: Option<u64>,
    recent_chars: Option<usize>,
    default_recent: usize,
) -> (result: Result<WaitPlan, String>)
    ensures
        match result {
            Ok(plan) => ids_refusal(text::texts(job_ids@), MAX_BATCH_JOB_IDS) is None
                && text::texts(plan.job_ids@) == meant_ids(text::texts(job_ids@)) && plan.seconds
                == wait_seconds(timeout_seconds) && plan.recent_chars == amount(
                recent_chars,
                default_recent,
            ),
            Err(reason) => ids_refusal(text::texts(job_ids@), MAX_BATCH_JOB_IDS) == Some(reason@),
        },
{
    match validate_batch_job_ids(job_ids) {
        Ok(ids) => Ok(
            WaitPlan {
                job_ids: ids,
                seconds: wait_duration(timeout_seconds),
                recent_chars: amount_or(recent_chars, default_recent),
            },
        ),
        Err(reason) => Err(reason),
    }
}

/// Checks the wish to wait for some jobs.
pub fn code_batch_wait(req: &BatchWaitRequest) -> (result: Result<WaitPlan, String>)
    ensures
        match result {
            Ok(plan) => ids_refusal(text::texts(req.job_ids@), MAX_BATCH_JOB_IDS) is None
                && text::texts(plan.job_ids@) == meant_ids(text::texts(req.job_ids@))
                && plan.seconds == wait_seconds(req.timeout_seconds) && plan.recent_chars
                == amount(req.recent_chars, DEFAULT_BATCH_RECENT_CHARS),
            Err(reason) => ids_refusal(text::texts(req.job_ids@), MAX_BATCH_JOB_IDS) == Some(
                reason@,
            ),
        },
{
    plan_batch_wait(
        &req.job_ids,
        req.timeout_seconds,
        req.recent_chars,
        DEFAULT_BATCH_RECENT_CHARS,
    )
}

/// Checks the wish to wait for a job.
pub fn code_wait(req: &WaitRequest) -> (result: Result<WaitPlan, String>)
    ensures
        match result {
            Ok(plan) => ids_refusal(seq![req.job_id@], MAX_BATCH_JOB_IDS) is None && text::texts(
                plan.job_ids@,
            ) == meant_ids(seq![req.job_id@]) && plan.seconds == wait_seconds(req.timeout_seconds)
                && plan.recent_chars == amount(req.recent_chars, jobs::DEFAULT_RECENT_CHARS),
            Err(reason) => ids_refusal(seq![req.job_id@], MAX_BATCH_JOB_IDS) == Some(reason@),
        },
{
    let mut job_ids: Vec<String> = Vec::new();
    job_ids.push(req.job_id.clone());
    assert(text::texts(job_ids@) =~= seq![req.job_id@]);
    plan_batch_wait(
        &job_ids,
        req.timeout_seconds,
        req.recent_chars,
        jobs::DEFAULT_RECENT_CHARS,
    )
}

/// The wish to poll jobs, checked.
#[derive(Debug)]
pub struct PollPlan {
    pub job_ids: Vec<String>,
    pub seen_job_ids: Vec<String>,
    pub seconds: u64,
    pub recent_chars: usize,
    pub include_running: bool,
}

/// What an optional list of texts says.
pub open spec fn list_or_empty(list: Option<Vec<String>>) -> Seq<Seq<char>> {
    match list {
        Some(l) => text::texts(l@),
        None => Seq::empty(),
    }
}

/// Checks the wish to poll some jobs.
pub fn code_batch_poll(req: &BatchPollRequest) -> (result: Result<PollPlan, String>)
    ensures
        match result {
            Ok(plan) => {
                &&& ids_refusal(text::texts(req.job_ids@), MAX_POLL_JOB_IDS) is None
                &&& text::texts(plan.job_ids@) == meant_ids(text::texts(req.job_ids@))
                &&& text::texts(plan.seen_job_ids@) == meant_ids(list_or_empty(req.seen_job_ids))
                &&& plan.seconds == poll_seconds(req.timeout_seconds)
                &&& plan.recent_chars == amount(req.recent_chars, DEFAULT_BATCH_RECENT_CHARS)
                &&& plan.include_running == (req.include_running == Some(true))
            },
            Err(reason) => ids_refusal(text::texts(req.job_ids@), MAX_POLL_JOB_IDS) == Some(
                reason@,
            ),
        },
{
    match validate_job_ids(&req.job_ids, MAX_POLL_JOB_IDS) {
        Ok(job_ids) => {
            let seen_job_ids = match &req.seen_job_ids {
                Some(list) => normalize_job_ids(list),
                None => Vec::new(),
            };
            proof {
                if req.seen_job_ids is None {
                    assert(text::texts(seen_job_ids@) =~= meant_ids(Seq::empty()));
                }
            }
            let include_running = match req.include_running {
                Some(wanted) => wanted,
                None => false,
            };
            Ok(
                PollPlan {
                    job_ids,
                    seen_job_ids,
                    seconds: poll_duration(req.timeout_seconds),
                    recent_chars: amount_or(req.recent_chars, DEFAULT_BATCH_RECENT_CHARS),
                    include_running,
                },
            )
        },
        Err(reason) => Err(reason),
    }
}

/// A session as a client sees it.
pub open spec fn session_fields(summary: ChatSummaryView) -> json::Fields {
    json::no_fields().insert("root_job_id"@, JsonTree::Text(summary.root_job_id)).insert(
        "latest_job_id"@,
        JsonTree::Text(summary.latest_job_id),
    ).insert("session_id"@, json::text_or_null(summary.session_id)).insert(
        "workdir"@,
        JsonTree::Text(summary.workdir),
    ).insert("status"@, JsonTree::Text(summary.status)).insert(
        "created_at"@,
        JsonTree::Integer(summary.created_at as int),
    ).insert("updated_at"@, JsonTree::Integer(summary.updated_at as int)).insert(
        "expires_at"@,
        JsonTree::Integer(summary.expires_at as int),
    ).insert("active_job_id"@, json::text_or_null(summary.active_job_id)).insert(
        "job_count"@,
        JsonTree::Integer(summary.job_count as int),
    ).insert("title"@, JsonTree::Text(summary.title)).insert(
        "resumable"@,
        JsonTree::Bool(summary.resumable),
    ).insert("blocked_reason"@, json::text_or_null(summary.blocked_reason))
}

fn make_session_fields(summary: &ChatSessionSummary) -> (fields: JsonObject)
    ensures
        fields.fields() == session_fields(summary@),
{
    JsonObject::new().with("root_job_id", Json::text(summary.root_job_id.as_str())).with(
        "latest_job_id",
        Json::text(summary.latest_job_id.as_str()),
    ).with("session_id", Json::optional_text(&summary.session_id)).with(
        "workdir",
        Json::text(summary.workdir.as_str()),
    ).with("status", Json::text(summary.status.as_str())).with(
        "created_at",
        Json::Signed(summary.created_at),
    ).with("updated_at", Json::Signed(summary.updated_at)).with(
        "expires_at",
        Json::Signed(summary.expires_at),
    ).with("active_job_id", Json::optional_text(&summary.active_job_id)).with(
        "job_count",
        Json::Unsigned(summary.job_count as u64),
    ).with("title", Json::text(summary.title.as_str())).with(
        "resumable",
        Json::Bool(summary.resumable),
    ).with("blocked_reason", Json::optional_text(&summary.blocked_reason))
}

/// A job of a session as a client sees it.
pub open spec fn chat_job_tree(job: ChatJobView) -> JsonTree {
    JsonTree::Object(
        json::no_fields().insert("job_id"@, JsonTree::Text(job.job_id)).insert(
            "parent_job_id"@,
            json::text_or_null(job.parent_job_id),
        ).insert("prompt"@, JsonTree::Text(job.prompt)).insert(
            "status"@,
            JsonTree::Text(job.status),
        ).insert("created_at"@, JsonTree::Integer(job.created_at as int)).insert(
            "started_at"@,
            json::integer_or_null(job.started_at),
        ).insert("ended_at"@, json::integer_or_null(job.ended_at)).insert(
            "output"@,
            json::text_or_null(job.output),
        ).insert("error"@, json::text_or_null(job.error)),
    )
}

fn make_chat_job(job: &ChatJobRecord) -> (value: Json)
    ensures
        value.tree() == chat_job_tree(job@),
{
    Json::Object(
        JsonObject::new().with("job_id", Json::text(job.job_id.as_str())).with(
            "parent_job_id",
            Json::optional_text(&job.parent_job_id),
        ).with("prompt", Json::text(job.prompt.as_str())).with(
            "status",
            Json::text(job.status.as_str()),
        ).with("created_at", Json::Signed(job.created_at)).with(
            "started_at",
            Json::optional_integer(job.started_at),
        ).with("ended_at", Json::optional_integer(job.ended_at)).with(
            "output",
            Json::optional_text(&job.output),
        ).with("error", Json::optional_text(&job.error)),
    )
}

/// A session as a client sees it, in full.
pub open spec fn detail_tree(detail: ChatSessionDetail) -> JsonTree {
    let jobs = sessions::job_views(detail.jobs@);
    JsonTree::Object(
        session_fields(detail.summary@).insert(
            "codex_context"@,
            JsonTree::Text(detail.codex_context@),
        ).insert(
            "jobs"@,
            JsonTree::Array(Seq::new(jobs.len(), |i: int| chat_job_tree(jobs[i]))),
        ),
    )
}

/// Answers a question for the history of a session, from how the session is shown.
pub fn code_chat_history(req: &ChatHistoryRequest, detail: &Option<ChatSessionDetail>) -> (
    answer: ToolAnswer)
    ensures
        match *detail {
            Some(shown) => !answer.is_error && answer.value.tree() == detail_tree(shown),
            None => answer.is_error && answer.value.tree() == JsonTree::Object(
                json::no_fields().insert("job_id"@, JsonTree::Text(req.job_id@)).insert(
                    "error"@,
                    json::txt("聊天记录不存在或已被清理"),
                ),
            ),
        },
{
    match detail {
        Some(shown) => {
            let ghost views = sessions::job_views(shown.jobs@);
            let mut values: Vec<Json> = Vec::new();
            let mut i: usize = 0;
            while i < shown.jobs.len()
                invariant
                    i <= shown.jobs@.len(),
                    values@.len() == i,
                    forall|j: int|
                        0 <= j < i ==> (#[trigger] values@[j]).tree() == chat_job_tree(
                            shown.jobs@[j]@,
                        ),
                decreases shown.jobs@.len() - i,
            {
                values.push(make_chat_job(&shown.jobs[i]));
                i += 1;
            }
            assert(json::trees(values@) =~= Seq::new(
                views.len(),
                |i: int| chat_job_tree(views[i]),
            ));
            let fields = make_session_fields(&shown.summary).with(
                "codex_context",
                Json::text(shown.codex_context.as_str()),
            ).with("jobs", Json::array(values));
            ToolAnswer { value: Json::Object(fields), is_error: false }
        },
        None => job_error_answer(req.job_id.as_str(), "聊天记录不存在或已被清理"),
    }
}

} // verus!
