//! The jobs of the server: what is known of them, and when they are forgotten.

use vstd::prelude::*;
use vstd::string::*;

use crate::clock;
use crate::job_table;
use crate::job_table::{JobRecord, JobStatus, JobTable, JobView, Jobs};
use crate::json;
use crate::json::{Json, JsonObject, JsonTree};
use crate::logs::{LogDraft, LogDraftView, LogLevel};
use crate::names;
use crate::order;
use crate::text;

verus! {

/// How long a caller waits for a job before it is told to come back, in seconds.
pub const SYNC_WAIT_SECONDS: u64 = 90;

/// How much of a job's output a summary shows where the caller does not say.
pub const DEFAULT_RECENT_CHARS: usize = 8_000;

/// How much of a job's output is kept.
pub const MAX_CAPTURED_CHARS: usize = 2_000_000;

/// How much of a job's prompt a summary shows.
pub const PROMPT_PREVIEW_CHARS: usize = 500;

/// How many jobs are kept.
pub const MAX_RETAINED_JOBS: usize = 20_000;

/// How long a job that has ended is kept, in milliseconds.
pub const COMPLETED_JOB_RETENTION_MS: i64 = 86_400_000;

/// How long to wait between two cleanups, in milliseconds.
pub const JOB_CLEANUP_INTERVAL_MS: i64 = 60_000;

/// The error of a cancelled job.
pub const JOB_CANCELLED: &'static str = "任务已取消";

/// A job as it is shown.
#[derive(Debug)]
pub struct JobSummary {
    pub job_id: String,
    pub status: JobStatus,
    pub complete: bool,
    pub cwd: String,
    pub prompt_preview: String,
    pub created_at: i64,
    pub started_at: Option<i64>,
    pub ended_at: Option<i64>,
    pub output_recent: String,
    pub output_truncated: bool,
    pub error: Option<String>,
}

/// What a [`JobSummary`] says.
#[verifier::ext_equal]
pub struct SummaryView {
    pub job_id: Seq<char>,
    pub status: JobStatus,
    pub complete: bool,
    pub cwd: Seq<char>,
    pub prompt_preview: Seq<char>,
    pub created_at: i64,
    pub started_at: Option<i64>,
    pub ended_at: Option<i64>,
    pub output_recent: Seq<char>,
    pub output_truncated: bool,
    pub error: Option<Seq<char>>,
}

impl View for JobSummary {
    type V = SummaryView;

    open spec fn view(&self) -> SummaryView {
        SummaryView {
            job_id: self.job_id@,
            status: self.status,
            complete: self.complete,
            cwd: self.cwd@,
            prompt_preview: self.prompt_preview@,
            created_at: self.created_at,
            started_at: self.started_at,
            ended_at: self.ended_at,
            output_recent: self.output_recent@,
            output_truncated: self.output_truncated,
            error: text::option_text(self.error),
        }
    }
}

/// How many jobs there are.
#[derive(Debug, Clone, Copy, PartialEq, Eq, Structural)]
pub struct JobStoreStats {
    pub total: usize,
    pub queued: usize,
    pub running: usize,
    pub succeeded: usize,
    pub failed: usize,
    pub cancelled: usize,
}

// ---------------------------------------------------------------------------
// One job
// ---------------------------------------------------------------------------

/// Whether a job has ended.
pub open spec fn has_ended(status: JobStatus) -> bool {
    status == JobStatus::Succeeded || status == JobStatus::Failed || status == JobStatus::Cancelled
}

/// Tests whether a job has ended.
pub fn is_terminal(status: &JobStatus) -> (ended: bool)
    ensures
        ended == has_ended(*status),
{
    match status {
        JobStatus::Succeeded | JobStatus::Failed | JobStatus::Cancelled => true,
        _ => false,
    }
}

/// The name of a status.
pub open spec fn label(status: JobStatus) -> Seq<char> {
    match status {
        JobStatus::Queued => "queued"@,
        JobStatus::Running => "running"@,
        JobStatus::Succeeded => "succeeded"@,
        JobStatus::Failed => "failed"@,
        JobStatus::Cancelled => "cancelled"@,
    }
}

/// The name of a status.
pub fn status_label(status: &JobStatus) -> (name: &'static str)
    ensures
        name@ == label(*status),
{
    match status {
        JobStatus::Queued => "queued",
        JobStatus::Running => "running",
        JobStatus::Succeeded => "succeeded",
        JobStatus::Failed => "failed",
        JobStatus::Cancelled => "cancelled",
    }
}

/// How a job is shown.
pub open spec fn summary(job: JobView, recent_chars: nat) -> SummaryView {
    SummaryView {
        job_id: job.job_id,
        status: job.status,
        complete: has_ended(job.status),
        cwd: job.cwd,
        prompt_preview: text::cut(job.prompt, PROMPT_PREVIEW_CHARS as nat, text::ELLIPSIS@),
        created_at: job.created_at,
        started_at: job.started_at,
        ended_at: job.ended_at,
        output_recent: text::recent(job.output, recent_chars),
        output_truncated: job.output_truncated,
        error: job.error,
    }
}

/// Shows a job.
pub fn summary_from_record(job: &JobRecord, recent_chars: usize) -> (result: JobSummary)
    ensures
        result@ == summary(job@, recent_chars as nat),
{
    JobSummary {
        job_id: job.job_id.clone(),
        status: job.status,
        complete: is_terminal(&job.status),
        cwd: job.cwd.clone(),
        prompt_preview: text::truncate_chars(job.prompt.as_str(), PROMPT_PREVIEW_CHARS),
        created_at: job.created_at,
        started_at: job.started_at,
        ended_at: job.ended_at,
        output_recent: text::recent_chars_from(job.output.as_str(), recent_chars),
        output_truncated: job.output_truncated,
        error: text::copy_option(&job.error),
    }
}

/// A job with more output. Of a long output the end is kept.
pub open spec fn with_output(job: JobView, more: Seq<char>) -> JobView {
    let output = job.output + more;
    if output.len() > MAX_CAPTURED_CHARS {
        JobView {
            output: text::recent(output, MAX_CAPTURED_CHARS as nat),
            output_truncated: true,
            ..job
        }
    } else {
        JobView { output, ..job }
    }
}

/// Adds to the output of a job.
pub fn append_output(job: &mut JobRecord, more: &str)
    ensures
        final(job)@ == with_output(old(job)@, more@),
{
    job.output.append(more);
    if job.output.as_str().unicode_len() > MAX_CAPTURED_CHARS {
        job.output = text::recent_chars_from(job.output.as_str(), MAX_CAPTURED_CHARS);
        job.output_truncated = true;
    }
}

/// A new job.
pub open spec fn queued(
    job_id: Seq<char>,
    prompt: Seq<char>,
    cwd: Seq<char>,
    created_at: i64,
) -> JobView {
    JobView {
        job_id,
        prompt,
        cwd,
        created_at,
        started_at: None,
        ended_at: None,
        status: JobStatus::Queued,
        output: Seq::empty(),
        output_truncated: false,
        error: None,
    }
}

/// A job that starts to run.
pub open spec fn started(job: JobView, now: i64) -> JobView {
    JobView { status: JobStatus::Running, started_at: Some(now), ..job }
}

/// A job whose run is over.
pub open spec fn ended(
    job: JobView,
    cancelled: bool,
    result: Result<Seq<char>, Seq<char>>,
    now: i64,
) -> JobView {
    let job = JobView { ended_at: Some(now), ..job };
    if cancelled {
        JobView { status: JobStatus::Cancelled, error: Some(JOB_CANCELLED@), ..job }
    } else {
        match result {
            Ok(output) => with_output(JobView { status: JobStatus::Succeeded, ..job }, output),
            Err(error) => JobView { status: JobStatus::Failed, error: Some(error), ..job },
        }
    }
}

/// A job that is cancelled: one that has ended stays as it is.
pub open spec fn cancelled(job: JobView, now: i64) -> JobView {
    if has_ended(job.status) {
        job
    } else {
        JobView {
            status: JobStatus::Cancelled,
            ended_at: Some(now),
            error: Some(JOB_CANCELLED@),
            ..job
        }
    }
}

/// To cancel a job that has ended changes nothing; so to cancel it twice is to cancel it
/// once.
pub proof fn law_cancelling_is_final(job: JobView, now: i64, later: i64)
    ensures
        has_ended(cancelled(job, now).status),
        cancelled(cancelled(job, now), later) == cancelled(job, now),
{
}

/// The output of a job never grows beyond what is kept, and nothing is lost of an output
/// that is not marked as cut.
pub proof fn law_output_is_bounded(job: JobView, more: Seq<char>)
    ensures
        with_output(job, more).output.len() <= MAX_CAPTURED_CHARS,
        !with_output(job, more).output_truncated ==> with_output(job, more).output == job.output
            + more,
        with_output(job, more).output.is_suffix_of(job.output + more),
{
    let output = job.output + more;
    let kept = with_output(job, more).output;
    assert(output.subrange(output.len() - kept.len(), output.len() as int) =~= kept);
}

// ---------------------------------------------------------------------------
// Answers about jobs
// ---------------------------------------------------------------------------

/// The text or nothing.
pub open spec fn or_empty(text: Option<Seq<char>>) -> Seq<char> {
    match text {
        Some(t) => t,
        None => Seq::empty(),
    }
}

/// What a job that has ended resulted in.
pub open spec fn outcome(name: Seq<char>, job: JobView) -> Option<Seq<char>> {
    match job.status {
        JobStatus::Succeeded => Some(job.output),
        JobStatus::Failed => Some(
            names::sentence(name, "[", " Code job failed]\n") + or_empty(job.error),
        ),
        JobStatus::Cancelled => Some(
            names::sentence(name, "[", " Code job cancelled]\n") + or_empty(job.error),
        ),
        _ => None,
    }
}

/// What a job that has ended resulted in.
fn outcome_of(assistant: &str, job: &JobRecord) -> (result: Option<String>)
    ensures
        text::option_text(result) == outcome(assistant@, job@),
{
    let start = match job.status {
        JobStatus::Succeeded => {
            return Some(job.output.clone());
        },
        JobStatus::Failed => names::naming(assistant, "[", " Code job failed]\n"),
        JobStatus::Cancelled => names::naming(assistant, "[", " Code job cancelled]\n"),
        _ => {
            return None;
        },
    };
    let ghost first = start@;
    let mut result = start;
    match &job.error {
        Some(error) => {
            result.append(error.as_str());
        },
        None => {
            assert(result@ =~= first + Seq::<char>::empty());
        },
    }
    Some(result)
}

/// The parts of an answer that come first.
pub open spec fn answer_start(job: JobView) -> json::Fields {
    let shown = summary(job, 0);
    json::no_fields().insert("job_id"@, JsonTree::Text(shown.job_id)).insert(
        "status"@,
        JsonTree::Text(label(shown.status)),
    ).insert("complete"@, JsonTree::Bool(shown.complete)).insert(
        "cwd"@,
        JsonTree::Text(shown.cwd),
    ).insert("prompt_preview"@, JsonTree::Text(shown.prompt_preview)).insert(
        "created_at"@,
        JsonTree::Integer(shown.created_at as int),
    ).insert("started_at"@, json::integer_or_null(shown.started_at)).insert(
        "ended_at"@,
        json::integer_or_null(shown.ended_at),
    )
}

fn make_answer_start(shown: &JobSummary, Ghost(job): Ghost<JobView>) -> (fields: JsonObject)
    requires
        shown@.job_id == job.job_id,
        shown@.status == job.status,
        shown@.complete == has_ended(job.status),
        shown@.cwd == job.cwd,
        shown@.prompt_preview == summary(job, 0).prompt_preview,
        shown@.created_at == job.created_at,
        shown@.started_at == job.started_at,
        shown@.ended_at == job.ended_at,
    ensures
        fields.fields() == answer_start(job),
{
    JsonObject::new().with("job_id", Json::text(shown.job_id.as_str())).with(
        "status",
        Json::text(status_label(&shown.status)),
    ).with("complete", Json::Bool(shown.complete)).with("cwd", Json::text(shown.cwd.as_str())).with(
        "prompt_preview",
        Json::text(shown.prompt_preview.as_str()),
    ).with("created_at", Json::Signed(shown.created_at)).with(
        "started_at",
        Json::optional_integer(shown.started_at),
    ).with("ended_at", Json::optional_integer(shown.ended_at))
}

/// What is said of a job in a list.
pub open spec fn item(name: Seq<char>, job: JobView, recent_chars: nat) -> JsonTree {
    let shown = summary(job, recent_chars);
    JsonTree::Object(
        answer_start(job).insert("output_recent"@, JsonTree::Text(shown.output_recent)).insert(
            "output_truncated"@,
            JsonTree::Bool(shown.output_truncated),
        ).insert("error"@, json::text_or_null(shown.error)).insert(
            "result"@,
            json::text_or_null(outcome(name, job)),
        ),
    )
}

/// What is said of an identifier that no job has.
pub open spec fn missing_item(job_id: Seq<char>) -> JsonTree {
    JsonTree::Object(
        json::no_fields().insert("job_id"@, JsonTree::Text(job_id)).insert(
            "status"@,
            json::txt("not_found"),
        ).insert("complete"@, JsonTree::Bool(true)).insert("cwd"@, JsonTree::Null).insert(
            "prompt_preview"@,
            json::txt(""),
        ).insert("created_at"@, JsonTree::Null).insert("started_at"@, JsonTree::Null).insert(
            "ended_at"@,
            JsonTree::Null,
        ).insert("output_recent"@, json::txt("")).insert(
            "output_truncated"@,
            JsonTree::Bool(false),
        ).insert("error"@, json::txt("Unknown job_id")).insert("result"@, JsonTree::Null),
    )
}

/// What is said of an identifier in a list.
pub open spec fn item_of(
    name: Seq<char>,
    jobs: Jobs,
    job_id: Seq<char>,
    recent_chars: nat,
) -> JsonTree {
    if jobs.dom().contains(job_id) {
        item(name, jobs[job_id], recent_chars)
    } else {
        missing_item(job_id)
    }
}

/// What is told of the result of a job.
pub open spec fn result_answer(name: Seq<char>, job: JobView) -> JsonTree {
    JsonTree::Object(
        answer_start(job).insert("output_truncated"@, JsonTree::Bool(job.output_truncated)).insert(
            "error"@,
            json::text_or_null(job.error),
        ).insert("result"@, json::text_or_null(outcome(name, job))).insert(
            "message"@,
            if has_ended(job.status) {
                json::txt("")
            } else {
                JsonTree::Text(
                    names::sentence(
                        name,
                        "",
                        " Code job is not finished yet. Use code_status(job_id) to monitor progress.",
                    ),
                )
            },
        ),
    )
}

/// In which part of a list an identifier stands.
#[derive(Debug, Clone, Copy, PartialEq, Eq, Structural)]
pub enum Group {
    Completed,
    Running,
    Failed,
    Cancelled,
    NotFound,
}

/// In which part of a list a job with this status stands.
pub open spec fn status_group(status: JobStatus) -> Group {
    match status {
        JobStatus::Succeeded => Group::Completed,
        JobStatus::Failed => Group::Failed,
        JobStatus::Cancelled => Group::Cancelled,
        _ => Group::Running,
    }
}

/// In which part of a list an identifier stands.
pub open spec fn group_of(jobs: Jobs, job_id: Seq<char>) -> Group {
    if jobs.dom().contains(job_id) {
        status_group(jobs[job_id].status)
    } else {
        Group::NotFound
    }
}

/// What is said of the identifiers that stand in one part of a list, but for those to skip.
pub open spec fn items_in(
    name: Seq<char>,
    jobs: Jobs,
    ids: Seq<Seq<char>>,
    skip: Seq<Seq<char>>,
    recent_chars: nat,
    group: Group,
) -> Seq<JsonTree>
    decreases ids.len(),
{
    if ids.len() == 0 {
        Seq::empty()
    } else {
        let front = items_in(name, jobs, ids.drop_last(), skip, recent_chars, group);
        if group_of(jobs, ids.last()) == group && !skip.contains(ids.last()) {
            front.push(item_of(name, jobs, ids.last(), recent_chars))
        } else {
            front
        }
    }
}

/// Nothing to skip.
pub open spec fn no_ids() -> Seq<Seq<char>> {
    Seq::empty()
}

/// What is said of a list of identifiers.
pub open spec fn batch(
    name: Seq<char>,
    jobs: Jobs,
    ids: Seq<Seq<char>>,
    recent_chars: nat,
) -> JsonTree {
    let part = |group: Group| items_in(name, jobs, ids, no_ids(), recent_chars, group);
    JsonTree::Object(
        json::no_fields().insert("total"@, JsonTree::Integer(ids.len() as int)).insert(
            "complete"@,
            JsonTree::Bool(part(Group::Running).len() == 0),
        ).insert("completed"@, JsonTree::Array(part(Group::Completed))).insert(
            "running"@,
            JsonTree::Array(part(Group::Running)),
        ).insert("failed"@, JsonTree::Array(part(Group::Failed))).insert(
            "cancelled"@,
            JsonTree::Array(part(Group::Cancelled)),
        ).insert("not_found"@, JsonTree::Array(part(Group::NotFound))),
    )
}

/// Every identifier of a list stands in just one of its parts.
pub proof fn law_groups_partition(
    name: Seq<char>,
    jobs: Jobs,
    ids: Seq<Seq<char>>,
    recent_chars: nat,
)
    ensures
        items_in(name, jobs, ids, no_ids(), recent_chars, Group::Completed).len() + items_in(
            name,
            jobs,
            ids,
            no_ids(),
            recent_chars,
            Group::Running,
        ).len() + items_in(name, jobs, ids, no_ids(), recent_chars, Group::Failed).len() + items_in(
            name,
            jobs,
            ids,
            no_ids(),
            recent_chars,
            Group::Cancelled,
        ).len() + items_in(name, jobs, ids, no_ids(), recent_chars, Group::NotFound).len() == ids.len(),
    decreases ids.len(),
{
    if ids.len() > 0 {
        law_groups_partition(name, jobs, ids.drop_last(), recent_chars);
    }
}

/// The identifiers of a list that stand elsewhere than among the running ones.
pub open spec fn settled(jobs: Jobs, ids: Seq<Seq<char>>) -> Seq<Seq<char>>
    decreases ids.len(),
{
    if ids.len() == 0 {
        ids
    } else if group_of(jobs, ids.last()) != Group::Running {
        settled(jobs, ids.drop_last()).push(ids.last())
    } else {
        settled(jobs, ids.drop_last())
    }
}

/// The identifiers of `ids` that are in `wanted`.
pub open spec fn only(ids: Seq<Seq<char>>, wanted: Seq<Seq<char>>) -> Seq<Seq<char>>
    decreases ids.len(),
{
    if ids.len() == 0 {
        ids
    } else if wanted.contains(ids.last()) {
        only(ids.drop_last(), wanted).push(ids.last())
    } else {
        only(ids.drop_last(), wanted)
    }
}

/// A list with each of its texts once, where it stands first.
pub open spec fn once(ids: Seq<Seq<char>>) -> Seq<Seq<char>>
    decreases ids.len(),
{
    if ids.len() == 0 {
        ids
    } else if once(ids.drop_last()).contains(ids.last()) {
        once(ids.drop_last())
    } else {
        once(ids.drop_last()).push(ids.last())
    }
}

/// The identifiers that a caller knows to be settled after a poll.
pub open spec fn next_seen(jobs: Jobs, ids: Seq<Seq<char>>, seen: Seq<Seq<char>>) -> Seq<Seq<char>> {
    once(only(seen, ids) + settled(jobs, ids))
}

/// Texts as JSON.
pub open spec fn text_trees(list: Seq<Seq<char>>) -> Seq<JsonTree> {
    Seq::new(list.len(), |i: int| JsonTree::Text(list[i]))
}

/// How many of the identifiers are settled and not seen.
pub open spec fn ready_count(jobs: Jobs, ids: Seq<Seq<char>>, seen: Seq<Seq<char>>) -> nat
    decreases ids.len(),
{
    if ids.len() == 0 {
        0
    } else if group_of(jobs, ids.last()) != Group::Running && !seen.contains(ids.last()) {
        ready_count(jobs, ids.drop_last(), seen) + 1
    } else {
        ready_count(jobs, ids.drop_last(), seen)
    }
}

/// What a poll of a list of identifiers says, but for the running ones.
pub open spec fn poll_fields(
    name: Seq<char>,
    jobs: Jobs,
    ids: Seq<Seq<char>>,
    seen: Seq<Seq<char>>,
    recent_chars: nat,
) -> json::Fields {
    let part = |group: Group| items_in(name, jobs, ids, seen, recent_chars, group);
    let running = items_in(name, jobs, ids, no_ids(), recent_chars, Group::Running);
    json::no_fields().insert("total"@, JsonTree::Integer(ids.len() as int)).insert(
        "complete"@,
        JsonTree::Bool(running.len() == 0),
    ).insert("running_count"@, JsonTree::Integer(running.len() as int)).insert(
        "ready_count"@,
        JsonTree::Integer(ready_count(jobs, ids, seen) as int),
    ).insert("completed"@, JsonTree::Array(part(Group::Completed))).insert(
        "failed"@,
        JsonTree::Array(part(Group::Failed)),
    ).insert("cancelled"@, JsonTree::Array(part(Group::Cancelled))).insert(
        "not_found"@,
        JsonTree::Array(part(Group::NotFound)),
    ).insert("next_seen_job_ids"@, JsonTree::Array(text_trees(next_seen(jobs, ids, seen))))
}

/// What a poll of a list of identifiers says.
pub open spec fn poll(
    name: Seq<char>,
    jobs: Jobs,
    ids: Seq<Seq<char>>,
    seen: Seq<Seq<char>>,
    recent_chars: nat,
    include_running: bool,
) -> JsonTree {
    let fields = poll_fields(name, jobs, ids, seen, recent_chars);
    if include_running {
        JsonTree::Object(
            fields.insert(
                "running"@,
                JsonTree::Array(items_in(name, jobs, ids, no_ids(), recent_chars, Group::Running)),
            ),
        )
    } else {
        JsonTree::Object(fields)
    }
}

/// A list with each text once holds no text twice, and only texts of the list.
pub proof fn lemma_once(ids: Seq<Seq<char>>)
    ensures
        once(ids).no_duplicates(),
        forall|i: int|
            0 <= i < once(ids).len() ==> ids.contains(#[trigger] once(ids)[i]),
    decreases ids.len(),
{
    if ids.len() > 0 {
        let front = ids.drop_last();
        let short = once(front);
        let long = once(ids);
        lemma_once(front);
        assert forall|i: int| 0 <= i < long.len() implies ids.contains(#[trigger] long[i]) by {
            if i < short.len() {
                assert(long[i] == short[i]);
                assert(front.contains(short[i]));
                let k = choose|k: int| 0 <= k < front.len() && front[k] == short[i];
                assert(ids[k] == long[i]);
            } else {
                assert(ids[ids.len() - 1] == long[i]);
            }
        }
        assert forall|a: int, b: int| 0 <= a < b < long.len() implies long[a] != long[b] by {
            assert(long[a] == short[a]);
            if b < short.len() {
                assert(long[b] == short[b]);
            } else {
                assert(short.contains(short[a]));
            }
        }
    }
}

proof fn lemma_once_contains(ids: Seq<Seq<char>>, id: Seq<char>)
    requires
        ids.contains(id),
    ensures
        once(ids).contains(id),
    decreases ids.len(),
{
    let k = choose|k: int| 0 <= k < ids.len() && ids[k] == id;
    let front = ids.drop_last();
    if k < front.len() {
        assert(front[k] == id);
        lemma_once_contains(front, id);
        let j = choose|j: int| 0 <= j < once(front).len() && once(front)[j] == id;
        assert(once(ids)[j] == id);
    } else {
        if !once(front).contains(id) {
            assert(once(ids)[once(front).len() as int] == id);
        }
    }
}

proof fn lemma_settled_contains(jobs: Jobs, ids: Seq<Seq<char>>, id: Seq<char>)
    requires
        ids.contains(id),
        group_of(jobs, id) != Group::Running,
    ensures
        settled(jobs, ids).contains(id),
    decreases ids.len(),
{
    let k = choose|k: int| 0 <= k < ids.len() && ids[k] == id;
    let front = ids.drop_last();
    if k < front.len() {
        assert(front[k] == id);
        lemma_settled_contains(jobs, front, id);
        let j = choose|j: int| 0 <= j < settled(jobs, front).len() && settled(jobs, front)[j] == id;
        assert(settled(jobs, ids)[j] == id);
    } else {
        assert(settled(jobs, ids)[settled(jobs, front).len() as int] == id);
    }
}

/// A caller that hands back what a poll said it has seen is told nothing twice: a second
/// poll finds nothing ready, tells of no job that has ended and of no identifier that is not
/// known, and says that the caller has seen just what it handed back.
pub proof fn law_polling_settles(
    name: Seq<char>,
    jobs: Jobs,
    ids: Seq<Seq<char>>,
    seen: Seq<Seq<char>>,
    recent_chars: nat,
)
    ensures
        ({
            let again = next_seen(jobs, ids, seen);
            &&& ready_count(jobs, ids, again) == 0
            &&& forall|group: Group|
                group != Group::Running ==> (#[trigger] items_in(
                    name,
                    jobs,
                    ids,
                    again,
                    recent_chars,
                    group,
                )).len() == 0
            &&& next_seen(jobs, ids, again) == again
        }),
{
    let again = next_seen(jobs, ids, seen);
    lemma_nothing_ready(jobs, ids, ids, seen);
    assert forall|group: Group| group != Group::Running implies (#[trigger] items_in(
        name,
        jobs,
        ids,
        again,
        recent_chars,
        group,
    )).len() == 0 by {
        lemma_told_are_ready(name, jobs, ids, again, recent_chars, group);
    }
    let known = only(seen, ids);
    let done = settled(jobs, ids);
    let all = known + done;
    lemma_only_within(seen, ids);
    lemma_settled_within(jobs, ids);
    lemma_once(all);
    assert forall|i: int| 0 <= i < again.len() implies ids.contains(#[trigger] again[i]) by {
        assert(all.contains(again[i]));
        let k = choose|k: int| 0 <= k < all.len() && all[k] == again[i];
        if k < known.len() {
            assert(all[k] == known[k]);
        } else {
            assert(all[k] == done[k - known.len()]);
        }
    }
    lemma_only_of_all(again, ids);
    assert forall|i: int| 0 <= i < done.len() implies again.contains(#[trigger] done[i]) by {
        assert(all[known.len() + i] == done[i]);
        lemma_once_contains(all, done[i]);
    }
    lemma_once_more(again, done);
}

/// What is told of settled identifiers is told of those that are ready.
proof fn lemma_told_are_ready(
    name: Seq<char>,
    jobs: Jobs,
    ids: Seq<Seq<char>>,
    seen: Seq<Seq<char>>,
    recent_chars: nat,
    group: Group,
)
    requires
        group != Group::Running,
    ensures
        items_in(name, jobs, ids, seen, recent_chars, group).len() <= ready_count(jobs, ids, seen),
    decreases ids.len(),
{
    if ids.len() > 0 {
        lemma_told_are_ready(name, jobs, ids.drop_last(), seen, recent_chars, group);
    }
}

/// The identifiers that are wanted are among the wanted ones.
proof fn lemma_only_within(ids: Seq<Seq<char>>, wanted: Seq<Seq<char>>)
    ensures
        forall|i: int| 0 <= i < only(ids, wanted).len() ==> wanted.contains(
            #[trigger] only(ids, wanted)[i],
        ),
    decreases ids.len(),
{
    if ids.len() > 0 {
        let short = only(ids.drop_last(), wanted);
        let long = only(ids, wanted);
        lemma_only_within(ids.drop_last(), wanted);
        assert forall|i: int| 0 <= i < long.len() implies wanted.contains(#[trigger] long[i]) by {
            if i < short.len() {
                assert(long[i] == short[i]);
            }
        }
    }
}

/// Where all identifiers are wanted, they are all left.
proof fn lemma_only_of_all(ids: Seq<Seq<char>>, wanted: Seq<Seq<char>>)
    requires
        forall|i: int| 0 <= i < ids.len() ==> wanted.contains(#[trigger] ids[i]),
    ensures
        only(ids, wanted) == ids,
    decreases ids.len(),
{
    if ids.len() > 0 {
        let front = ids.drop_last();
        assert forall|i: int| 0 <= i < front.len() implies wanted.contains(#[trigger] front[i]) by {
            assert(front[i] == ids[i]);
        }
        lemma_only_of_all(front, wanted);
        assert(wanted.contains(ids[ids.len() - 1]));
        assert(front.push(ids.last()) =~= ids);
    }
}

/// The settled identifiers of a list are in the list.
proof fn lemma_settled_within(jobs: Jobs, ids: Seq<Seq<char>>)
    ensures
        forall|i: int| 0 <= i < settled(jobs, ids).len() ==> ids.contains(
            #[trigger] settled(jobs, ids)[i],
        ),
    decreases ids.len(),
{
    if ids.len() > 0 {
        let front = ids.drop_last();
        let short = settled(jobs, front);
        let long = settled(jobs, ids);
        lemma_settled_within(jobs, front);
        assert forall|i: int| 0 <= i < long.len() implies ids.contains(#[trigger] long[i]) by {
            if i < short.len() {
                assert(front.contains(short[i]));
                let k = choose|k: int| 0 <= k < front.len() && front[k] == short[i];
                assert(ids[k] == long[i]);
            } else {
                assert(ids[ids.len() - 1] == long[i]);
            }
        }
    }
}

/// More of the texts that a list holds once already change nothing.
proof fn lemma_once_more(list: Seq<Seq<char>>, more: Seq<Seq<char>>)
    requires
        list.no_duplicates(),
        forall|i: int| 0 <= i < more.len() ==> list.contains(#[trigger] more[i]),
    ensures
        once(list + more) == list,
    decreases list.len() + more.len(),
{
    let all = list + more;
    if more.len() > 0 {
        let fewer = more.drop_last();
        assert forall|i: int| 0 <= i < fewer.len() implies list.contains(#[trigger] fewer[i]) by {
            assert(fewer[i] == more[i]);
        }
        lemma_once_more(list, fewer);
        assert(all.drop_last() =~= list + fewer);
        assert(list.contains(more[more.len() - 1]));
    } else if list.len() > 0 {
        let shorter = list.drop_last();
        lemma_once_more(shorter, more);
        assert(all =~= list);
        assert(all.drop_last() =~= shorter + more);
        assert(!shorter.contains(list.last())) by {
            if shorter.contains(list.last()) {
                let k = choose|k: int| 0 <= k < shorter.len() && shorter[k] == list.last();
                assert(list[k] == list[list.len() - 1]);
            }
        }
        assert(shorter.push(list.last()) =~= list);
    } else {
        assert(all =~= list);
    }
}

proof fn lemma_nothing_ready(
    jobs: Jobs,
    part: Seq<Seq<char>>,
    ids: Seq<Seq<char>>,
    seen: Seq<Seq<char>>,
)
    requires
        forall|i: int| 0 <= i < part.len() ==> ids.contains(#[trigger] part[i]),
    ensures
        ready_count(jobs, part, next_seen(jobs, ids, seen)) == 0,
    decreases part.len(),
{
    if part.len() > 0 {
        let id = part.last();
        assert(ids.contains(part[part.len() - 1]));
        assert forall|i: int| 0 <= i < part.drop_last().len() implies ids.contains(
            #[trigger] part.drop_last()[i],
        ) by {
            assert(part.drop_last()[i] == part[i]);
        }
        lemma_nothing_ready(jobs, part.drop_last(), ids, seen);
        if group_of(jobs, id) != Group::Running {
            lemma_settled_contains(jobs, ids, id);
            let all = only(seen, ids) + settled(jobs, ids);
            let k = choose|k: int|
                0 <= k < settled(jobs, ids).len() && settled(jobs, ids)[k] == id;
            assert(all[only(seen, ids).len() + k] == id);
            lemma_once_contains(all, id);
        }
    }
}

// ---------------------------------------------------------------------------
// The store
// ---------------------------------------------------------------------------

/// The jobs of the server.
pub struct JobStore {
    table: JobTable,
    last_cleanup_ms: i64,
    assistant: String,
}

/// What is asked of one job in a list.
fn job_part(assistant: &str, job: &JobRecord, recent_chars: usize) -> (part: (Group, Json))
    ensures
        part.0 == status_group(job@.status),
        part.1.tree() == item(assistant@, job@, recent_chars as nat),
{
    let shown = summary_from_record(job, recent_chars);
    let group = match job.status {
        JobStatus::Succeeded => Group::Completed,
        JobStatus::Failed => Group::Failed,
        JobStatus::Cancelled => Group::Cancelled,
        _ => Group::Running,
    };
    let fields = make_answer_start(&shown, Ghost(job@)).with(
        "output_recent",
        Json::text(shown.output_recent.as_str()),
    ).with("output_truncated", Json::Bool(shown.output_truncated)).with(
        "error",
        Json::optional_text(&shown.error),
    ).with("result", Json::optional_text(&outcome_of(assistant, job)));
    (group, Json::Object(fields))
}

/// What is said of an identifier that no job has.
fn missing_part(job_id: &str) -> (part: Json)
    ensures
        part.tree() == missing_item(job_id@),
{
    Json::Object(
        JsonObject::new().with("job_id", Json::text(job_id)).with(
            "status",
            Json::text("not_found"),
        ).with("complete", Json::Bool(true)).with("cwd", Json::Null).with(
            "prompt_preview",
            Json::text(""),
        ).with("created_at", Json::Null).with("started_at", Json::Null).with(
            "ended_at",
            Json::Null,
        ).with("output_recent", Json::text("")).with("output_truncated", Json::Bool(false)).with(
            "error",
            Json::text("Unknown job_id"),
        ).with("result", Json::Null),
    )
}

/// What is told of the result of a job.
fn result_of(assistant: &str, job: &JobRecord) -> (answer: Json)
    ensures
        answer.tree() == result_answer(assistant@, job@),
{
    let shown = summary_from_record(job, 0);
    let message = if shown.complete {
        "".to_owned()
    } else {
        names::naming(
            assistant,
            "",
            " Code job is not finished yet. Use code_status(job_id) to monitor progress.",
        )
    };
    let fields = make_answer_start(&shown, Ghost(job@)).with(
        "output_truncated",
        Json::Bool(shown.output_truncated),
    ).with("error", Json::optional_text(&shown.error)).with(
        "result",
        Json::optional_text(&outcome_of(assistant, job)),
    ).with("message", Json::text(message.as_str()));
    Json::Object(fields)
}

/// One more item in one part of a list.
proof fn lemma_items_step(
    name: Seq<char>,
    jobs: Jobs,
    ids: Seq<Seq<char>>,
    skip: Seq<Seq<char>>,
    recent_chars: nat,
    i: int,
)
    requires
        0 <= i < ids.len(),
    ensures
        forall|group: Group|
            (#[trigger] items_in(name, jobs, ids.take(i + 1), skip, recent_chars, group)) == (if group_of(
                jobs,
                ids[i],
            ) == group && !skip.contains(ids[i]) {
                items_in(name, jobs, ids.take(i), skip, recent_chars, group).push(
                    item_of(name, jobs, ids[i], recent_chars),
                )
            } else {
                items_in(name, jobs, ids.take(i), skip, recent_chars, group)
            }),
{
    assert(ids.take(i + 1).drop_last() =~= ids.take(i));
    assert(ids.take(i + 1).last() == ids[i]);
}

impl JobStore {
    /// The jobs by their identifiers.
    pub closed spec fn jobs(&self) -> Jobs {
        job_table::jobs_in(self.table)
    }

    /// When the jobs were last cleaned up.
    pub closed spec fn last_cleanup(&self) -> i64 {
        self.last_cleanup_ms
    }

    /// The name of the assistant that does the jobs.
    pub closed spec fn assistant(&self) -> Seq<char> {
        self.assistant@
    }

    /// A store without jobs, for the assistant that will do them.
    pub fn new(assistant: &str) -> (store: JobStore)
        ensures
            store.jobs() == job_table::no_jobs(),
            store.last_cleanup() == 0,
            store.assistant() == assistant@,
    {
        JobStore {
            table: job_table::new_table(),
            last_cleanup_ms: 0,
            assistant: assistant.to_owned(),
        }
    }

    /// Keeps a job under its identifier.
    pub fn insert(&mut self, job: JobRecord)
        ensures
            final(self).jobs() == old(self).jobs().insert(job.job_id@, job@),
            final(self).last_cleanup() == old(self).last_cleanup(),
            final(self).assistant() == old(self).assistant(),
    {
        job_table::put_job(&mut self.table, job.job_id.clone(), job);
    }

    /// How the job with an identifier is shown.
    pub fn status(&self, job_id: &str, recent_chars: usize) -> (result: Option<JobSummary>)
        ensures
            match result {
                Some(shown) => self.jobs().dom().contains(job_id@) && shown@ == summary(
                    self.jobs()[job_id@],
                    recent_chars as nat,
                ),
                None => !self.jobs().dom().contains(job_id@),
            },
    {
        let show = |job: &JobRecord| -> (shown: JobSummary)
            ensures
                shown@ == summary(job@, recent_chars as nat),
            { summary_from_record(job, recent_chars) };
        job_table::read_job(&self.table, job_id, show)
    }

    /// What is told of the result of the job with an identifier.
    pub fn result(&self, job_id: &str) -> (answer: Option<Json>)
        ensures
            match answer {
                Some(a) => self.jobs().dom().contains(job_id@) && a.tree() == result_answer(
                    self.assistant(),
                    self.jobs()[job_id@],
                ),
                None => !self.jobs().dom().contains(job_id@),
            },
    {
        let assistant: &str = self.assistant.as_str();
        let tell = |job: &JobRecord| -> (answer: Json)
            ensures
                answer.tree() == result_answer(assistant@, job@),
            { result_of(assistant, job) };
        job_table::read_job(&self.table, job_id, tell)
    }

    /// What is said of an identifier in a list, and in which part of the list it stands.
    fn part(&self, job_id: &str, recent_chars: usize) -> (part: (Group, Json))
        ensures
            part.0 == group_of(self.jobs(), job_id@),
            part.1.tree() == item_of(self.assistant(), self.jobs(), job_id@, recent_chars as nat),
    {
        let assistant: &str = self.assistant.as_str();
        let take_part = |job: &JobRecord| -> (part: (Group, Json))
            ensures
                part.0 == status_group(job@.status),
                part.1.tree() == item(assistant@, job@, recent_chars as nat),
            { job_part(assistant, job, recent_chars) };
        let found = job_table::read_job(&self.table, job_id, take_part);
        match found {
            Some(part) => part,
            None => (Group::NotFound, missing_part(job_id)),
        }
    }

    /// What is said of an identifier in a list.
    pub fn job_item(&self, job_id: &str, recent_chars: usize) -> (answer: Json)
        ensures
            answer.tree() == item_of(self.assistant(), self.jobs(), job_id@, recent_chars as nat),
    {
        self.part(job_id, recent_chars).1
    }

    /// What is said of a list of identifiers.
    pub fn batch_result(&self, job_ids: &[String], recent_chars: usize) -> (answer: Json)
        ensures
            answer.tree() == batch(
                self.assistant(),
                self.jobs(),
                text::texts(job_ids@),
                recent_chars as nat,
            ),
    {
        let ghost name = self.assistant();
        let ghost jobs = self.jobs();
        let ghost ids = text::texts(job_ids@);
        let ghost recent = recent_chars as nat;
        let mut completed: Vec<Json> = Vec::new();
        let mut running: Vec<Json> = Vec::new();
        let mut failed: Vec<Json> = Vec::new();
        let mut cancelled: Vec<Json> = Vec::new();
        let mut not_found: Vec<Json> = Vec::new();
        let mut i: usize = 0;
        while i < job_ids.len()
            invariant
                i <= job_ids@.len(),
                name == self.assistant(),
                jobs == self.jobs(),
                ids == text::texts(job_ids@),
                recent == recent_chars as nat,
                json::trees(completed@) == items_in(
                    name,
                    jobs,
                    ids.take(i as int),
                    no_ids(),
                    recent,
                    Group::Completed,
                ),
                json::trees(running@) == items_in(
                    name,
                    jobs,
                    ids.take(i as int),
                    no_ids(),
                    recent,
                    Group::Running,
                ),
                json::trees(failed@) == items_in(
                    name,
                    jobs,
                    ids.take(i as int),
                    no_ids(),
                    recent,
                    Group::Failed,
                ),
                json::trees(cancelled@) == items_in(
                    name,
                    jobs,
                    ids.take(i as int),
                    no_ids(),
                    recent,
                    Group::Cancelled,
                ),
                json::trees(not_found@) == items_in(
                    name,
                    jobs,
                    ids.take(i as int),
                    no_ids(),
                    recent,
                    Group::NotFound,
                ),
            decreases job_ids@.len() - i,
        {
            let (group, item) = self.part(job_ids[i].as_str(), recent_chars);
            proof {
                lemma_items_step(name, jobs, ids, no_ids(), recent, i as int);
                assert(!no_ids().contains(ids[i as int]));
            }
            match group {
                Group::Completed => push_item(&mut completed, item),
                Group::Running => push_item(&mut running, item),
                Group::Failed => push_item(&mut failed, item),
                Group::Cancelled => push_item(&mut cancelled, item),
                Group::NotFound => push_item(&mut not_found, item),
            }
            i += 1;
        }
        assert(ids.take(job_ids@.len() as int) =~= ids);
        let complete = running.len() == 0;
        assert(complete == (json::trees(running@).len() == 0));
        let fields = JsonObject::new().with("total", Json::Unsigned(job_ids.len() as u64)).with(
            "complete",
            Json::Bool(complete),
        ).with("completed", Json::array(completed)).with("running", Json::array(running)).with(
            "failed",
            Json::array(failed),
        ).with("cancelled", Json::array(cancelled)).with("not_found", Json::array(not_found));
        Json::Object(fields)
    }

    /// What a poll of a list of identifiers says, to a caller that has seen some of them
    /// settled.
    pub fn batch_poll_result(
        &self,
        job_ids: &[String],
        seen_job_ids: &[String],
        recent_chars: usize,
        include_running: bool,
    ) -> (answer: Json)
        ensures
            answer.tree() == poll(
                self.assistant(),
                self.jobs(),
                text::texts(job_ids@),
                text::texts(seen_job_ids@),
                recent_chars as nat,
                include_running,
            ),
    {
        let ghost name = self.assistant();
        let ghost jobs = self.jobs();
        let ghost ids = text::texts(job_ids@);
        let ghost seen = text::texts(seen_job_ids@);
        let ghost recent = recent_chars as nat;
        let mut next: Vec<String> = seen_in(job_ids, seen_job_ids);
        let mut completed: Vec<Json> = Vec::new();
        let mut failed: Vec<Json> = Vec::new();
        let mut cancelled: Vec<Json> = Vec::new();
        let mut not_found: Vec<Json> = Vec::new();
        let mut running: Vec<Json> = Vec::new();
        let mut ready: usize = 0;
        let mut i: usize = 0;
        assert(only(seen, ids) + settled(jobs, ids.take(0)) =~= only(seen, ids));
        while i < job_ids.len()
            invariant
                i <= job_ids@.len(),
                name == self.assistant(),
                jobs == self.jobs(),
                ids == text::texts(job_ids@),
                seen == text::texts(seen_job_ids@),
                recent == recent_chars as nat,
                ready == ready_count(jobs, ids.take(i as int), seen),
                ready <= i,
                text::texts(next@) == once(only(seen, ids) + settled(jobs, ids.take(i as int))),
                json::trees(completed@) == items_in(
                    name,
                    jobs,
                    ids.take(i as int),
                    seen,
                    recent,
                    Group::Completed,
                ),
                json::trees(running@) == items_in(
                    name,
                    jobs,
                    ids.take(i as int),
                    no_ids(),
                    recent,
                    Group::Running,
                ),
                json::trees(failed@) == items_in(
                    name,
                    jobs,
                    ids.take(i as int),
                    seen,
                    recent,
                    Group::Failed,
                ),
                json::trees(cancelled@) == items_in(
                    name,
                    jobs,
                    ids.take(i as int),
                    seen,
                    recent,
                    Group::Cancelled,
                ),
                json::trees(not_found@) == items_in(
                    name,
                    jobs,
                    ids.take(i as int),
                    seen,
                    recent,
                    Group::NotFound,
                ),
            decreases job_ids@.len() - i,
        {
            let (group, item) = self.part(job_ids[i].as_str(), recent_chars);
            proof {
                lemma_items_step(name, jobs, ids, no_ids(), recent, i as int);
                lemma_items_step(name, jobs, ids, seen, recent, i as int);
                assert(!no_ids().contains(ids[i as int]));
                assert(ids.take(i + 1).drop_last() =~= ids.take(i as int));
                assert(ids.take(i + 1).last() == ids[i as int]);
            }
            if group == Group::Running {
                push_item(&mut running, item);
            } else {
                proof {
                    let before = only(seen, ids) + settled(jobs, ids.take(i as int));
                    let after = only(seen, ids) + settled(jobs, ids.take(i + 1));
                    assert(after =~= before.push(ids[i as int]));
                    assert(after.drop_last() =~= before);
                }
                if !text::list_contains(seen_job_ids, job_ids[i].as_str()) {
                    ready += 1;
                    match group {
                        Group::Completed => push_item(&mut completed, item),
                        Group::Failed => push_item(&mut failed, item),
                        Group::Cancelled => push_item(&mut cancelled, item),
                        _ => push_item(&mut not_found, item),
                    }
                }
                if !text::list_contains(next.as_slice(), job_ids[i].as_str()) {
                    push_text(&mut next, job_ids[i].clone());
                }
            }
            i += 1;
        }
        assert(ids.take(job_ids@.len() as int) =~= ids);
        let running_count: usize = running.len();
        assert(running_count == json::trees(running@).len());
        let fields = JsonObject::new().with("total", Json::Unsigned(job_ids.len() as u64)).with(
            "complete",
            Json::Bool(running_count == 0),
        ).with("running_count", Json::Unsigned(running_count as u64)).with(
            "ready_count",
            Json::Unsigned(ready as u64),
        ).with("completed", Json::array(completed)).with("failed", Json::array(failed)).with(
            "cancelled",
            Json::array(cancelled),
        ).with("not_found", Json::array(not_found)).with(
            "next_seen_job_ids",
            text_array(&next),
        );
        if include_running {
            Json::Object(fields.with("running", Json::array(running)))
        } else {
            Json::Object(fields)
        }
    }
}

/// Adds an item to a part of a list.
fn push_item(part: &mut Vec<Json>, item: Json)
    ensures
        json::trees(final(part)@) == json::trees(old(part)@).push(item.tree()),
{
    let ghost before = part@;
    part.push(item);
    assert(json::trees(part@) =~= json::trees(before).push(item.tree()));
}

/// Adds a text to a list.
fn push_text(list: &mut Vec<String>, text: String)
    ensures
        text::texts(final(list)@) == text::texts(old(list)@).push(text@),
{
    let ghost before = list@;
    list.push(text);
    assert(text::texts(list@) =~= text::texts(before).push(text@));
}

/// The identifiers that were seen and are asked for, each of them once.
fn seen_in(job_ids: &[String], seen_job_ids: &[String]) -> (result: Vec<String>)
    ensures
        text::texts(result@) == once(only(text::texts(seen_job_ids@), text::texts(job_ids@))),
{
    let ghost ids = text::texts(job_ids@);
    let ghost seen = text::texts(seen_job_ids@);
    let mut result: Vec<String> = Vec::new();
    let mut i: usize = 0;
    assert(text::texts(result@) =~= once(only(seen.take(0), ids)));
    while i < seen_job_ids.len()
        invariant
            i <= seen_job_ids@.len(),
            ids == text::texts(job_ids@),
            seen == text::texts(seen_job_ids@),
            text::texts(result@) == once(only(seen.take(i as int), ids)),
        decreases seen_job_ids@.len() - i,
    {
        proof {
            assert(seen.take(i + 1).drop_last() =~= seen.take(i as int));
            assert(seen.take(i + 1).last() == seen[i as int]);
            let before = only(seen.take(i as int), ids);
            assert(before.push(seen[i as int]).drop_last() =~= before);
        }
        if text::list_contains(job_ids, seen_job_ids[i].as_str()) {
            if !text::list_contains(result.as_slice(), seen_job_ids[i].as_str()) {
                push_text(&mut result, seen_job_ids[i].clone());
            }
        }
        i += 1;
    }
    assert(seen.take(seen_job_ids@.len() as int) =~= seen);
    result
}

/// Texts as a JSON array.
pub fn text_array(list: &Vec<String>) -> (array: Json)
    ensures
        array.tree() == JsonTree::Array(text_trees(text::texts(list@))),
{
    let mut values: Vec<Json> = Vec::new();
    let mut i: usize = 0;
    while i < list.len()
        invariant
            i <= list@.len(),
            values@.len() == i,
            forall|j: int|
                0 <= j < i ==> (#[trigger] values@[j]).tree() == JsonTree::Text(list@[j]@),
        decreases list@.len() - i,
    {
        values.push(Json::Text(list[i].clone()));
        i += 1;
    }
    assert(json::trees(values@) =~= text_trees(text::texts(list@)));
    Json::array(values)
}

// ---------------------------------------------------------------------------
// Counting
// ---------------------------------------------------------------------------

/// The identifiers in `ids` of jobs with the given status.
pub open spec fn with_status(jobs: Jobs, ids: Set<Seq<char>>, status: JobStatus) -> Set<Seq<char>> {
    ids.filter(|id: Seq<char>| jobs[id].status == status)
}

/// What is counted of the jobs with identifiers in `ids`.
pub open spec fn counts_of(stats: JobStoreStats, jobs: Jobs, ids: Set<Seq<char>>) -> bool {
    &&& stats.queued == with_status(jobs, ids, JobStatus::Queued).len()
    &&& stats.running == with_status(jobs, ids, JobStatus::Running).len()
    &&& stats.succeeded == with_status(jobs, ids, JobStatus::Succeeded).len()
    &&& stats.failed == with_status(jobs, ids, JobStatus::Failed).len()
    &&& stats.cancelled == with_status(jobs, ids, JobStatus::Cancelled).len()
}

/// One more job.
proof fn lemma_with_status_insert(jobs: Jobs, ids: Set<Seq<char>>, id: Seq<char>, status: JobStatus)
    requires
        ids.finite(),
        !ids.contains(id),
    ensures
        with_status(jobs, ids.insert(id), status).len() == with_status(jobs, ids, status).len() + (
        if jobs[id].status == status {
            1int
        } else {
            0int
        }),
        with_status(jobs, ids, status).len() <= ids.len(),
{
    let before = with_status(jobs, ids, status);
    let after = with_status(jobs, ids.insert(id), status);
    ids.lemma_len_filter(|id: Seq<char>| jobs[id].status == status);
    if jobs[id].status == status {
        assert(after =~= before.insert(id));
    } else {
        assert(after =~= before);
    }
}

/// Every job is counted under just one status.
pub proof fn law_statuses_add_up(jobs: Jobs, ids: Set<Seq<char>>)
    requires
        ids.finite(),
    ensures
        with_status(jobs, ids, JobStatus::Queued).len() + with_status(
            jobs,
            ids,
            JobStatus::Running,
        ).len() + with_status(jobs, ids, JobStatus::Succeeded).len() + with_status(
            jobs,
            ids,
            JobStatus::Failed,
        ).len() + with_status(jobs, ids, JobStatus::Cancelled).len() == ids.len(),
    decreases ids.len(),
{
    if ids.len() == 0 {
        assert(ids =~= Set::empty());
        assert(with_status(jobs, ids, JobStatus::Queued) =~= ids);
        assert(with_status(jobs, ids, JobStatus::Running) =~= ids);
        assert(with_status(jobs, ids, JobStatus::Succeeded) =~= ids);
        assert(with_status(jobs, ids, JobStatus::Failed) =~= ids);
        assert(with_status(jobs, ids, JobStatus::Cancelled) =~= ids);
    } else {
        let id = ids.choose();
        let rest = ids.remove(id);
        law_statuses_add_up(jobs, rest);
        assert(rest.insert(id) =~= ids);
        lemma_with_status_insert(jobs, rest, id, JobStatus::Queued);
        lemma_with_status_insert(jobs, rest, id, JobStatus::Running);
        lemma_with_status_insert(jobs, rest, id, JobStatus::Succeeded);
        lemma_with_status_insert(jobs, rest, id, JobStatus::Failed);
        lemma_with_status_insert(jobs, rest, id, JobStatus::Cancelled);
    }
}

/// What a cleanup asks of a job: its status, and when it ended, or was created where that
/// is not known.
#[derive(Debug, Clone, Copy, PartialEq, Eq, Structural)]
pub struct JobMark {
    pub status: JobStatus,
    pub age: i64,
}

/// When a job ended, or was created where that is not known.
pub open spec fn end_of(job: JobView) -> i64 {
    match job.ended_at {
        Some(at) => at,
        None => job.created_at,
    }
}

/// What a cleanup asks of a job.
fn mark_of(job: &JobRecord) -> (mark: JobMark)
    ensures
        mark == (JobMark { status: job@.status, age: end_of(job@) }),
{
    let age: i64 = match job.ended_at {
        Some(at) => at,
        None => job.created_at,
    };
    JobMark { status: job.status, age }
}

/// The first `n` texts of a list, as a set.
pub open spec fn first_ids(ids: Seq<Seq<char>>, n: int) -> Set<Seq<char>> {
    ids.take(n).to_set()
}

/// One more identifier.
proof fn lemma_first_ids_step(ids: Seq<Seq<char>>, n: int)
    requires
        0 <= n < ids.len(),
        ids.no_duplicates(),
    ensures
        first_ids(ids, n + 1) == first_ids(ids, n).insert(ids[n]),
        !first_ids(ids, n).contains(ids[n]),
        first_ids(ids, n).finite(),
        first_ids(ids, n).len() == n,
{
    let short = ids.take(n);
    let long = ids.take(n + 1);
    assert forall|k: Seq<char>|
        long.to_set().contains(k) == short.to_set().insert(ids[n]).contains(k) by {
        if long.to_set().contains(k) {
            let j = choose|j: int| 0 <= j < long.len() && long[j] == k;
            if j < n {
                assert(short[j] == k);
            }
        }
        if short.to_set().contains(k) {
            let j = choose|j: int| 0 <= j < short.len() && short[j] == k;
            assert(long[j] == k);
        }
        assert(long[n] == ids[n]);
    }
    assert(long.to_set() =~= short.to_set().insert(ids[n]));
    if short.to_set().contains(ids[n]) {
        let j = choose|j: int| 0 <= j < short.len() && short[j] == ids[n];
        assert(ids[j] == ids[n]);
    }
    vstd::seq_lib::seq_to_set_is_finite(short);
    assert(short.no_duplicates()) by {
        assert forall|a: int, b: int| 0 <= a < b < short.len() implies short[a] != short[b] by {
            assert(ids[a] != ids[b]);
        }
    }
    short.unique_seq_to_set();
}

impl JobStore {
    /// What a cleanup asks of the job with an identifier.
    fn mark(&self, job_id: &str) -> (mark: JobMark)
        requires
            self.jobs().dom().contains(job_id@),
        ensures
            mark == (JobMark {
                status: self.jobs()[job_id@].status,
                age: end_of(self.jobs()[job_id@]),
            }),
    {
        let read = |job: &JobRecord| -> (mark: JobMark)
            ensures
                mark == (JobMark { status: job@.status, age: end_of(job@) }),
            { mark_of(job) };
        match job_table::read_job(&self.table, job_id, read) {
            Some(mark) => mark,
            None => JobMark { status: JobStatus::Queued, age: 0 },
        }
    }

    /// How many jobs there are.
    pub fn stats(&self) -> (stats: JobStoreStats)
        ensures
            self.jobs().dom().finite(),
            stats.total == self.jobs().dom().len(),
            counts_of(stats, self.jobs(), self.jobs().dom()),
    {
        let list = job_table::list_jobs(&self.table);
        let ghost ids = text::texts(list@);
        let ghost jobs = self.jobs();
        let total: usize = job_table::count_jobs(&self.table);
        let mut stats = JobStoreStats {
            total,
            queued: 0,
            running: 0,
            succeeded: 0,
            failed: 0,
            cancelled: 0,
        };
        let mut i: usize = 0;
        proof {
            let none = first_ids(ids, 0);
            assert(none =~= Set::empty());
            assert(with_status(jobs, none, JobStatus::Queued) =~= none);
            assert(with_status(jobs, none, JobStatus::Running) =~= none);
            assert(with_status(jobs, none, JobStatus::Succeeded) =~= none);
            assert(with_status(jobs, none, JobStatus::Failed) =~= none);
            assert(with_status(jobs, none, JobStatus::Cancelled) =~= none);
        }
        while i < list.len()
            invariant
                i <= list@.len(),
                jobs == self.jobs(),
                ids == text::texts(list@),
                ids.no_duplicates(),
                ids.to_set() == jobs.dom(),
                stats.total == total,
                counts_of(stats, jobs, first_ids(ids, i as int)),
                stats.queued <= i,
                stats.running <= i,
                stats.succeeded <= i,
                stats.failed <= i,
                stats.cancelled <= i,
            decreases list@.len() - i,
        {
            proof {
                let so_far = first_ids(ids, i as int);
                lemma_first_ids_step(ids, i as int);
                assert(ids.to_set().contains(ids[i as int]));
                lemma_with_status_insert(jobs, so_far, ids[i as int], JobStatus::Queued);
                lemma_with_status_insert(jobs, so_far, ids[i as int], JobStatus::Running);
                lemma_with_status_insert(jobs, so_far, ids[i as int], JobStatus::Succeeded);
                lemma_with_status_insert(jobs, so_far, ids[i as int], JobStatus::Failed);
                lemma_with_status_insert(jobs, so_far, ids[i as int], JobStatus::Cancelled);
            }
            match self.mark(list[i].as_str()).status {
                JobStatus::Queued => {
                    stats.queued = stats.queued + 1;
                },
                JobStatus::Running => {
                    stats.running = stats.running + 1;
                },
                JobStatus::Succeeded => {
                    stats.succeeded = stats.succeeded + 1;
                },
                JobStatus::Failed => {
                    stats.failed = stats.failed + 1;
                },
                JobStatus::Cancelled => {
                    stats.cancelled = stats.cancelled + 1;
                },
            }
            i += 1;
        }
        proof {
            assert(ids.take(list@.len() as int) =~= ids);
            vstd::seq_lib::seq_to_set_is_finite(ids);
        }
        stats
    }
}

// ---------------------------------------------------------------------------
// Cleaning up
// ---------------------------------------------------------------------------

/// The identifiers of the jobs that have ended.
pub open spec fn ended_ids(jobs: Jobs) -> Set<Seq<char>> {
    jobs.dom().filter(|id: Seq<char>| has_ended(jobs[id].status))
}

/// Whether a job ended too long ago to be kept.
pub open spec fn is_expired(job: JobView, now: i64) -> bool {
    has_ended(job.status) && now - end_of(job) >= COMPLETED_JOB_RETENTION_MS
}

/// The identifiers of the jobs that ended too long ago to be kept.
pub open spec fn expired_ids(jobs: Jobs, now: i64) -> Set<Seq<char>> {
    jobs.dom().filter(|id: Seq<char>| is_expired(jobs[id], now))
}

/// Whether a list holds the jobs that have ended, the one that ended first coming first.
pub open spec fn is_age_order(jobs: Jobs, list: Seq<Seq<char>>) -> bool {
    &&& list.no_duplicates()
    &&& list.to_set() == ended_ids(jobs)
    &&& forall|a: int, b: int|
        0 <= a < b < list.len() ==> end_of(jobs[#[trigger] list[a]]) <= end_of(
            jobs[#[trigger] list[b]],
        )
}

/// How many jobs there are too many, where too many are left without the expired ones.
pub open spec fn surplus(jobs: Jobs, now: i64) -> int {
    if jobs.dom().len() - expired_ids(jobs, now).len() > MAX_RETAINED_JOBS {
        jobs.dom().len() - MAX_RETAINED_JOBS
    } else {
        0
    }
}

/// The smaller of two numbers.
pub open spec fn at_most(n: int, limit: int) -> int {
    if n <= limit {
        n
    } else {
        limit
    }
}

/// The jobs that a cleanup removes: the expired ones, and of those that have ended the
/// oldest, as many as there are too many.
pub open spec fn removed_by(jobs: Jobs, list: Seq<Seq<char>>, now: i64) -> Set<Seq<char>> {
    expired_ids(jobs, now).union(
        first_ids(list, at_most(surplus(jobs, now), list.len() as int)),
    )
}

/// Whether a cleanup at `now` leaves `after` of `before`. Which of two jobs goes that ended
/// at the same time is left open.
pub open spec fn is_cleaned(before: Jobs, after: Jobs, now: i64) -> bool {
    exists|list: Seq<Seq<char>>| #[trigger]
        is_age_order(before, list) && after == before.remove_keys(removed_by(before, list, now))
}

/// A cleanup keeps every job that has not ended, as it is, and no job that expired.
pub proof fn law_cleanup_keeps_open_jobs(before: Jobs, after: Jobs, now: i64)
    requires
        is_cleaned(before, after, now),
    ensures
        forall|id: Seq<char>|
            before.dom().contains(id) && !has_ended(before[id].status) ==> #[trigger]
            after.dom().contains(id) && after[id] == before[id],
        forall|id: Seq<char>| #[trigger]
            after.dom().contains(id) ==> before.dom().contains(id) && !is_expired(before[id], now),
{
    let list = choose|list: Seq<Seq<char>>| #[trigger]
        is_age_order(before, list) && after == before.remove_keys(removed_by(before, list, now));
    let n = at_most(surplus(before, now), list.len() as int);
    assert forall|id: Seq<char>|
        before.dom().contains(id) && !has_ended(before[id].status) implies #[trigger]
        after.dom().contains(id) && after[id] == before[id] by {
        if first_ids(list, n).contains(id) {
            let short = list.take(n);
            let k = choose|k: int| 0 <= k < short.len() && short[k] == id;
            assert(list[k] == id);
            assert(list.to_set().contains(id));
        }
    }
}

/// Tests whether `span` milliseconds have passed from `since` to `now`.
fn has_passed(since: i64, now: i64, span: i64) -> (passed: bool)
    ensures
        passed == (now - since >= span),
{
    now as i128 - since as i128 >= span as i128
}

/// The texts of a list after one more.
proof fn lemma_texts_push(before: Seq<String>, text: String)
    ensures
        text::texts(before.push(text)) == text::texts(before).push(text@),
        forall|t: Seq<char>|
            (#[trigger] text::texts(before.push(text)).contains(t)) == (text::texts(
                before,
            ).contains(t) || t == text@),
        text::texts(before).no_duplicates() && !text::texts(before).contains(text@)
            ==> text::texts(before.push(text)).no_duplicates(),
{
    let short = text::texts(before);
    let long = text::texts(before.push(text));
    assert(long =~= short.push(text@));
    assert forall|t: Seq<char>|
        (#[trigger] long.contains(t)) == (short.contains(t) || t == text@) by {
        if long.contains(t) {
            let k = choose|k: int| 0 <= k < long.len() && long[k] == t;
            if k < short.len() {
                assert(short[k] == t);
            }
        }
        if short.contains(t) {
            let k = choose|k: int| 0 <= k < short.len() && short[k] == t;
            assert(long[k] == t);
        }
        assert(long[short.len() as int] == text@);
    }
    if short.no_duplicates() && !short.contains(text@) {
        assert forall|a: int, b: int| 0 <= a < b < long.len() implies long[a] != long[b] by {
            assert(short.contains(short[a]));
        }
    }
}

impl JobStore {
    /// Removes jobs that ended long ago and, where there are still too many, the oldest of
    /// those that have ended.
    pub fn cleanup_completed(&mut self, now: i64)
        ensures
            is_cleaned(old(self).jobs(), final(self).jobs(), now),
            final(self).last_cleanup() == old(self).last_cleanup(),
            final(self).assistant() == old(self).assistant(),
    {
        let ghost before = self.jobs();
        let list = job_table::list_jobs(&self.table);
        let ghost ids = text::texts(list@);
        let total: usize = job_table::count_jobs(&self.table);
        let mut removable: Vec<String> = Vec::new();
        let mut ended: Vec<String> = Vec::new();
        let mut ages: Vec<i64> = Vec::new();
        let mut i: usize = 0;
        while i < list.len()
            invariant
                i <= list@.len(),
                before == self.jobs(),
                ids == text::texts(list@),
                ids.no_duplicates(),
                ids.to_set() == before.dom(),
                text::texts(removable@).no_duplicates(),
                text::texts(ended@).no_duplicates(),
                ages@.len() == ended@.len(),
                forall|k: int|
                    0 <= k < ended@.len() ==> (#[trigger] ages@[k]) == end_of(before[ended@[k]@]),
                forall|id: Seq<char>|
                    (#[trigger] text::texts(ended@).contains(id)) == (first_ids(
                        ids,
                        i as int,
                    ).contains(id) && has_ended(before[id].status)),
                forall|id: Seq<char>|
                    (#[trigger] text::texts(removable@).contains(id)) == (first_ids(
                        ids,
                        i as int,
                    ).contains(id) && is_expired(before[id], now)),
            decreases list@.len() - i,
        {
            proof {
                lemma_first_ids_step(ids, i as int);
                assert(ids.to_set().contains(ids[i as int]));
                assert(!text::texts(ended@).contains(ids[i as int]));
                assert(!text::texts(removable@).contains(ids[i as int]));
            }
            let mark = self.mark(list[i].as_str());
            if is_terminal(&mark.status) {
                let ghost ended_before = ended@;
                let ghost removable_before = removable@;
                let id = list[i].clone();
                proof {
                    lemma_texts_push(ended_before, id);
                }
                ended.push(id);
                ages.push(mark.age);
                if has_passed(mark.age, now, COMPLETED_JOB_RETENTION_MS) {
                    let id = list[i].clone();
                    proof {
                        lemma_texts_push(removable_before, id);
                    }
                    removable.push(id);
                }
            }
            i += 1;
        }
        proof {
            assert(ids.take(list@.len() as int) =~= ids);
            assert(text::texts(ended@).to_set() =~= ended_ids(before));
            assert(text::texts(removable@).to_set() =~= expired_ids(before, now));
            text::texts(removable@).unique_seq_to_set();
            vstd::seq_lib::seq_to_set_is_finite(ids);
            vstd::set_lib::lemma_len_subset(expired_ids(before, now), before.dom());
        }
        let order = order::stable_order(&ages, false);
        let ghost oldest = Seq::new(order@.len(), |k: int| ended@[order@[k] as int]@);
        proof {
            lemma_oldest(before, ended@, ages@, order@, oldest);
        }
        let ghost expired = removable@.len();
        let mut count: usize = 0;
        if total - removable.len() > MAX_RETAINED_JOBS {
            let target: usize = total - MAX_RETAINED_JOBS;
            while count < target && count < order.len()
                invariant
                    count <= order@.len(),
                    count <= target,
                    order::is_arrangement(order@, ended@.len()),
                    oldest == Seq::new(order@.len(), |k: int| ended@[order@[k] as int]@),
                    forall|id: Seq<char>|
                        (#[trigger] text::texts(removable@).contains(id)) == (expired_ids(
                            before,
                            now,
                        ).contains(id) || first_ids(oldest, count as int).contains(id)),
                    oldest.no_duplicates(),
                decreases order@.len() - count,
            {
                let id = ended[order[count]].clone();
                proof {
                    lemma_first_ids_step(oldest, count as int);
                    lemma_texts_push(removable@, id);
                }
                removable.push(id);
                count += 1;
            }
        }
        let ghost gone = removed_by(before, oldest, now);
        assert forall|id: Seq<char>|
            (#[trigger] text::texts(removable@).contains(id)) == gone.contains(id) by {
            assert(oldest.take(0) =~= Seq::empty());
        }
        let mut k: usize = 0;
        assert(self.jobs() =~= before.remove_keys(first_ids(text::texts(removable@), 0)));
        while k < removable.len()
            invariant
                k <= removable@.len(),
                self.jobs() == before.remove_keys(
                    first_ids(text::texts(removable@), k as int),
                ),
                self.last_cleanup_ms == old(self).last_cleanup_ms,
                self.assistant == old(self).assistant,
            decreases removable@.len() - k,
        {
            let ghost now_kept = self.jobs();
            let removed = job_table::take_job(&mut self.table, removable[k].as_str());
            proof {
                let all = text::texts(removable@);
                lemma_first_insert(all, k as int);
                assert(self.jobs() =~= before.remove_keys(first_ids(all, k + 1)));
            }
            k += 1;
        }
        proof {
            let all = text::texts(removable@);
            assert(all.take(k as int) =~= all);
            assert(all.to_set() =~= gone);
            assert(is_age_order(before, oldest));
        }
    }

    /// Cleans up where there are many jobs, or where the last cleanup is a while ago.
    pub fn cleanup_if_needed(&mut self, now: i64)
        ensures
            cleanup_due(*old(self), now) ==> is_cleaned(old(self).jobs(), final(self).jobs(), now)
                && final(self).last_cleanup() == now,
            !cleanup_due(*old(self), now) ==> final(self).jobs() == old(self).jobs()
                && final(self).last_cleanup() == old(self).last_cleanup(),
            final(self).assistant() == old(self).assistant(),
    {
        let total: usize = job_table::count_jobs(&self.table);
        if total < MAX_RETAINED_JOBS && !has_passed(
            self.last_cleanup_ms,
            now,
            JOB_CLEANUP_INTERVAL_MS,
        ) {
            return;
        }
        self.last_cleanup_ms = now;
        assert(self.jobs() == old(self).jobs());
        self.cleanup_completed(now);
    }
}

/// Whether the jobs are to be cleaned up at `now`.
pub open spec fn cleanup_due(store: JobStore, now: i64) -> bool {
    store.jobs().dom().len() >= MAX_RETAINED_JOBS || now - store.last_cleanup()
        >= JOB_CLEANUP_INTERVAL_MS
}

/// One more text, which may be among the earlier ones.
proof fn lemma_first_insert(list: Seq<Seq<char>>, n: int)
    requires
        0 <= n < list.len(),
    ensures
        first_ids(list, n + 1) == first_ids(list, n).insert(list[n]),
{
    let short = list.take(n);
    let long = list.take(n + 1);
    assert forall|t: Seq<char>|
        long.to_set().contains(t) == short.to_set().insert(list[n]).contains(t) by {
        if long.to_set().contains(t) {
            let j = choose|j: int| 0 <= j < long.len() && long[j] == t;
            if j < n {
                assert(short[j] == t);
            }
        }
        if short.to_set().contains(t) {
            let j = choose|j: int| 0 <= j < short.len() && short[j] == t;
            assert(long[j] == t);
        }
        assert(long[n] == list[n]);
    }
    assert(long.to_set() =~= short.to_set().insert(list[n]));
}

/// The jobs that have ended, arranged by their ages, are in the order in which they ended.
proof fn lemma_oldest(
    jobs: Jobs,
    ended: Seq<String>,
    ages: Seq<i64>,
    order: Seq<usize>,
    oldest: Seq<Seq<char>>,
)
    requires
        text::texts(ended).no_duplicates(),
        text::texts(ended).to_set() == ended_ids(jobs),
        ages.len() == ended.len(),
        forall|k: int| 0 <= k < ended.len() ==> (#[trigger] ages[k]) == end_of(jobs[ended[k]@]),
        order::is_stable_order(ages, false, order),
        oldest == Seq::new(order.len(), |k: int| ended[order[k] as int]@),
    ensures
        is_age_order(jobs, oldest),
{
    let all = text::texts(ended);
    assert forall|a: int, b: int| 0 <= a < b < oldest.len() implies oldest[a] != oldest[b] by {
        assert(order[a] != order[b]);
        assert(all[order[a] as int] != all[order[b] as int]);
    }
    assert forall|t: Seq<char>| oldest.to_set().contains(t) == all.to_set().contains(t) by {
        if oldest.to_set().contains(t) {
            let k = choose|k: int| 0 <= k < oldest.len() && oldest[k] == t;
            assert(all[order[k] as int] == t);
        }
        if all.to_set().contains(t) {
            let k = choose|k: int| 0 <= k < all.len() && all[k] == t;
            order::lemma_arrangement_covers(order, ages.len(), k);
            let a = choose|a: int| 0 <= a < ages.len() && #[trigger] order[a] == k;
            assert(oldest[a] == t);
        }
    }
    assert(oldest.to_set() =~= ended_ids(jobs));
    assert forall|a: int, b: int| 0 <= a < b < oldest.len() implies end_of(
        jobs[#[trigger] oldest[a]],
    ) <= end_of(jobs[#[trigger] oldest[b]]) by {
        assert(order::comes_before(ages, false, order[a] as int, order[b] as int));
        assert(ages[order[a] as int] == end_of(jobs[oldest[a]]));
        assert(ages[order[b] as int] == end_of(jobs[oldest[b]]));
    }
}

/// After a cleanup no more jobs are left than are kept, or none that has ended.
pub proof fn law_cleanup_bounds_the_store(before: Jobs, after: Jobs, now: i64)
    requires
        before.dom().finite(),
        is_cleaned(before, after, now),
    ensures
        after.dom().len() <= MAX_RETAINED_JOBS || ended_ids(after) == Set::<Seq<char>>::empty(),
{
    let list = choose|list: Seq<Seq<char>>| #[trigger]
        is_age_order(before, list) && after == before.remove_keys(removed_by(before, list, now));
    let expired = expired_ids(before, now);
    let n = at_most(surplus(before, now), list.len() as int);
    let oldest = first_ids(list, n);
    let gone = removed_by(before, list, now);
    vstd::set_lib::lemma_len_subset(expired, before.dom());
    assert(oldest.subset_of(ended_ids(before))) by {
        assert forall|id: Seq<char>| oldest.contains(id) implies ended_ids(before).contains(id) by {
            let short = list.take(n);
            let k = choose|k: int| 0 <= k < short.len() && short[k] == id;
            assert(list[k] == id);
            assert(list.to_set().contains(id));
        }
    }
    assert(gone.subset_of(before.dom()));
    assert(after.dom() =~= before.dom().difference(gone));
    vstd::set_lib::lemma_len_subset(gone, before.dom());
    vstd::set_lib::lemma_len_difference(before.dom(), gone);
    lemma_difference_len(before.dom(), gone);
    if surplus(before, now) == 0 {
        assert(list.take(0) =~= Seq::empty());
        assert(oldest =~= Set::empty());
        assert(gone =~= expired);
    } else if list.len() >= surplus(before, now) {
        let short = list.take(n);
        assert(short.no_duplicates()) by {
            assert forall|a: int, b: int| 0 <= a < b < short.len() implies short[a] != short[b] by {
                assert(list[a] != list[b]);
            }
        }
        short.unique_seq_to_set();
        assert(oldest.len() == n);
        vstd::set_lib::lemma_len_subset(oldest, gone);
    } else {
        assert(list.take(n) =~= list);
        assert forall|id: Seq<char>| !ended_ids(after).contains(id) by {
            if ended_ids(after).contains(id) {
                assert(ended_ids(before).contains(id));
                assert(oldest.contains(id));
            }
        }
        assert(ended_ids(after) =~= Set::<Seq<char>>::empty());
    }
}

/// What is left of a set without a part of it.
proof fn lemma_difference_len(all: Set<Seq<char>>, part: Set<Seq<char>>)
    requires
        all.finite(),
        part.subset_of(all),
    ensures
        all.difference(part).len() == all.len() - part.len(),
{
    let rest = all.difference(part);
    vstd::set_lib::lemma_set_disjoint_lens(rest, part);
    assert(rest + part =~= all);
}

// ---------------------------------------------------------------------------
// The life of a job
// ---------------------------------------------------------------------------

/// What is logged when a job is created.
pub open spec fn created_log(
    name: Seq<char>,
    job_id: Seq<char>,
    prompt: Seq<char>,
    cwd: Seq<char>,
) -> LogDraftView {
    LogDraftView {
        level: LogLevel::Info,
        source: "mcp"@,
        request_id: None,
        task_id: Some(job_id),
        summary: names::sentence(name, "", " Code 任务已创建"),
        detail: Some(
            JsonTree::Object(
                json::no_fields().insert("workdir"@, JsonTree::Text(cwd)).insert(
                    "prompt_chars"@,
                    JsonTree::Integer(prompt.len() as int),
                ),
            ),
        ),
    }
}

/// The result of a run, or why it failed.
pub open spec fn run_result(result: Result<String, String>) -> Result<Seq<char>, Seq<char>> {
    match result {
        Ok(output) => Ok(output@),
        Err(error) => Err(error@),
    }
}

/// Whether `after`, last cleaned up at `last`, are the jobs of `before` after a cleanup at
/// `now` that was due, or just as they were.
pub open spec fn maybe_cleaned(before: JobStore, after: Jobs, last: i64, now: i64) -> bool {
    if cleanup_due(before, now) {
        is_cleaned(before.jobs(), after, now) && last == now
    } else {
        after == before.jobs() && last == before.last_cleanup()
    }
}

impl JobStore {
    /// Creates a job with a fresh identifier. Gives how it is shown and what to log.
    pub fn start_job(&mut self, prompt: &str, cwd: &str) -> (created: (JobSummary, LogDraft))
        ensures
            clock::is_hyphenated(created.0@.job_id),
            created.0@ == summary(
                queued(created.0@.job_id, prompt@, cwd@, created.0@.created_at),
                0,
            ),
            created.1@ == created_log(old(self).assistant(), created.0@.job_id, prompt@, cwd@),
            exists|kept: Jobs, now: i64| #[trigger]
                maybe_cleaned(*old(self), kept, final(self).last_cleanup(), now)
                    && final(self).jobs() == kept.insert(
                    created.0@.job_id,
                    queued(created.0@.job_id, prompt@, cwd@, created.0@.created_at),
                ),
            final(self).assistant() == old(self).assistant(),
    {
        let now: i64 = clock::utc_millis();
        self.cleanup_if_needed(now);
        let ghost kept = self.jobs();
        assert(maybe_cleaned(*old(self), kept, self.last_cleanup(), now));
        let job_id = clock::fresh_id();
        let created_at: i64 = clock::utc_millis();
        self.start_job_as(job_id, prompt, cwd, created_at)
    }

    /// Creates a job with the given identifier. Gives how it is shown and what to log.
    pub fn start_job_as(&mut self, job_id: String, prompt: &str, cwd: &str, created_at: i64) -> (
        created: (JobSummary, LogDraft))
        ensures
            created.0@ == summary(queued(job_id@, prompt@, cwd@, created_at), 0),
            created.1@ == created_log(old(self).assistant(), job_id@, prompt@, cwd@),
            final(self).jobs() == old(self).jobs().insert(
                job_id@,
                queued(job_id@, prompt@, cwd@, created_at),
            ),
            final(self).last_cleanup() == old(self).last_cleanup(),
            final(self).assistant() == old(self).assistant(),
    {
        let job = JobRecord {
            job_id: job_id.clone(),
            prompt: prompt.to_owned(),
            cwd: cwd.to_owned(),
            created_at,
            started_at: None,
            ended_at: None,
            status: JobStatus::Queued,
            output: String::new(),
            output_truncated: false,
            error: None,
        };
        assert(job@ =~= queued(job_id@, prompt@, cwd@, created_at));
        let shown = summary_from_record(&job, 0);
        job_table::put_job(&mut self.table, job_id.clone(), job);
        let detail = JsonObject::new().with("workdir", Json::text(cwd)).with(
            "prompt_chars",
            Json::Unsigned(prompt.unicode_len() as u64),
        );
        let log = LogDraft::new(
            LogLevel::Info,
            "mcp",
            None,
            Some(job_id),
            names::naming(self.assistant.as_str(), "", " Code 任务已创建").as_str(),
            Some(Json::Object(detail)),
        );
        (shown, log)
    }

    /// Notes that the job with an identifier starts to run. Says whether there is one.
    pub fn mark_started(&mut self, job_id: &str) -> (found: bool)
        ensures
            found == old(self).jobs().dom().contains(job_id@),
            exists|now: i64|
                final(self).jobs() == (if found {
                    old(self).jobs().insert(
                        job_id@,
                        #[trigger] started(old(self).jobs()[job_id@], now),
                    )
                } else {
                    old(self).jobs()
                }),
            final(self).last_cleanup() == old(self).last_cleanup(),
            final(self).assistant() == old(self).assistant(),
    {
        let now: i64 = clock::utc_millis();
        let ghost shown = started(self.jobs()[job_id@], now);
        self.mark_started_at(job_id, now)
    }

    /// Notes that the job with an identifier starts to run at `now`.
    pub fn mark_started_at(&mut self, job_id: &str, now: i64) -> (found: bool)
        ensures
            found == old(self).jobs().dom().contains(job_id@),
            final(self).jobs() == (if found {
                old(self).jobs().insert(job_id@, started(old(self).jobs()[job_id@], now))
            } else {
                old(self).jobs()
            }),
            final(self).last_cleanup() == old(self).last_cleanup(),
            final(self).assistant() == old(self).assistant(),
    {
        let ghost before = self.jobs();
        match job_table::take_job(&mut self.table, job_id) {
            Some(taken) => {
                let mut job = taken;
                job.status = JobStatus::Running;
                job.started_at = Some(now);
                job_table::put_job(&mut self.table, job_id.to_owned(), job);
                assert(self.jobs() =~= before.insert(job_id@, started(before[job_id@], now)));
                true
            },
            None => {
                assert(self.jobs() =~= before);
                false
            },
        }
    }

    /// Notes that the run of the job with an identifier is over. Says whether there is one.
    pub fn finish_job(&mut self, job_id: &str, was_cancelled: bool, result: Result<String, String>) -> (
        found: bool)
        ensures
            found == old(self).jobs().dom().contains(job_id@),
            exists|now: i64|
                final(self).jobs() == (if found {
                    old(self).jobs().insert(
                        job_id@,
                        #[trigger] ended(
                            old(self).jobs()[job_id@],
                            was_cancelled,
                            run_result(result),
                            now,
                        ),
                    )
                } else {
                    old(self).jobs()
                }),
            final(self).last_cleanup() == old(self).last_cleanup(),
            final(self).assistant() == old(self).assistant(),
    {
        let now: i64 = clock::utc_millis();
        let ghost shown = ended(self.jobs()[job_id@], was_cancelled, run_result(result), now);
        self.finish_job_at(job_id, was_cancelled, result, now)
    }

    /// Notes that the run of the job with an identifier is over at `now`.
    pub fn finish_job_at(
        &mut self,
        job_id: &str,
        was_cancelled: bool,
        result: Result<String, String>,
        now: i64,
    ) -> (found: bool)
        ensures
            found == old(self).jobs().dom().contains(job_id@),
            final(self).jobs() == (if found {
                old(self).jobs().insert(
                    job_id@,
                    ended(old(self).jobs()[job_id@], was_cancelled, run_result(result), now),
                )
            } else {
                old(self).jobs()
            }),
            final(self).last_cleanup() == old(self).last_cleanup(),
            final(self).assistant() == old(self).assistant(),
    {
        let ghost before = self.jobs();
        let ghost outcome = run_result(result);
        match job_table::take_job(&mut self.table, job_id) {
            Some(taken) => {
                let mut job = taken;
                job.ended_at = Some(now);
                if was_cancelled {
                    job.status = JobStatus::Cancelled;
                    job.error = Some(JOB_CANCELLED.to_owned());
                } else {
                    match result {
                        Ok(output) => {
                            job.status = JobStatus::Succeeded;
                            append_output(&mut job, output.as_str());
                        },
                        Err(error) => {
                            job.status = JobStatus::Failed;
                            job.error = Some(error);
                        },
                    }
                }
                assert(job@ =~= ended(before[job_id@], was_cancelled, outcome, now));
                job_table::put_job(&mut self.table, job_id.to_owned(), job);
                assert(self.jobs() =~= before.insert(
                    job_id@,
                    ended(before[job_id@], was_cancelled, outcome, now),
                ));
                true
            },
            None => {
                assert(self.jobs() =~= before);
                false
            },
        }
    }

    /// Cancels the job with an identifier and shows it.
    pub fn cancel(&mut self, job_id: &str) -> (result: Option<JobSummary>)
        ensures
            result is Some == old(self).jobs().dom().contains(job_id@),
            exists|now: i64|
                match result {
                    Some(shown) => final(self).jobs() == old(self).jobs().insert(
                        job_id@,
                        #[trigger] cancelled(old(self).jobs()[job_id@], now),
                    ) && shown@ == summary(
                        cancelled(old(self).jobs()[job_id@], now),
                        DEFAULT_RECENT_CHARS as nat,
                    ),
                    None => final(self).jobs() == old(self).jobs(),
                },
            final(self).last_cleanup() == old(self).last_cleanup(),
            final(self).assistant() == old(self).assistant(),
    {
        let now: i64 = clock::utc_millis();
        let ghost shown = cancelled(self.jobs()[job_id@], now);
        self.cancel_at(job_id, now)
    }

    /// Cancels the job with an identifier at `now` and shows it.
    pub fn cancel_at(&mut self, job_id: &str, now: i64) -> (result: Option<JobSummary>)
        ensures
            match result {
                Some(shown) => old(self).jobs().dom().contains(job_id@) && final(self).jobs()
                    == old(self).jobs().insert(
                    job_id@,
                    cancelled(old(self).jobs()[job_id@], now),
                ) && shown@ == summary(
                    cancelled(old(self).jobs()[job_id@], now),
                    DEFAULT_RECENT_CHARS as nat,
                ),
                None => !old(self).jobs().dom().contains(job_id@) && final(self).jobs()
                    == old(self).jobs(),
            },
            final(self).last_cleanup() == old(self).last_cleanup(),
            final(self).assistant() == old(self).assistant(),
    {
        let ghost before = self.jobs();
        match job_table::take_job(&mut self.table, job_id) {
            Some(taken) => {
                let mut job = taken;
                if !is_terminal(&job.status) {
                    job.status = JobStatus::Cancelled;
                    job.ended_at = Some(now);
                    job.error = Some(JOB_CANCELLED.to_owned());
                }
                assert(job@ =~= cancelled(before[job_id@], now));
                let shown = summary_from_record(&job, DEFAULT_RECENT_CHARS);
                job_table::put_job(&mut self.table, job_id.to_owned(), job);
                assert(self.jobs() =~= before.insert(job_id@, cancelled(before[job_id@], now)));
                Some(shown)
            },
            None => {
                assert(self.jobs() =~= before);
                None
            },
        }
    }
}

// ---------------------------------------------------------------------------
// Waiting
// ---------------------------------------------------------------------------

/// What to do about a list of identifiers that a caller waits for.
#[derive(Debug)]
pub enum WaitStep {
    /// Answer.
    Answer(Json),
    /// Wait until one of these jobs changes, or time is up.
    Wait(Vec<String>),
}

/// The identifiers of a list whose jobs are running.
pub open spec fn open_ids(jobs: Jobs, ids: Seq<Seq<char>>) -> Seq<Seq<char>>
    decreases ids.len(),
{
    if ids.len() == 0 {
        ids
    } else if group_of(jobs, ids.last()) == Group::Running {
        open_ids(jobs, ids.drop_last()).push(ids.last())
    } else {
        open_ids(jobs, ids.drop_last())
    }
}

/// Where nothing is running there is nothing to wait for.
proof fn lemma_open_items(name: Seq<char>, jobs: Jobs, ids: Seq<Seq<char>>, recent_chars: nat)
    ensures
        open_ids(jobs, ids).len() == items_in(
            name,
            jobs,
            ids,
            no_ids(),
            recent_chars,
            Group::Running,
        ).len(),
    decreases ids.len(),
{
    if ids.len() > 0 {
        assert(!no_ids().contains(ids.last()));
        lemma_open_items(name, jobs, ids.drop_last(), recent_chars);
    }
}

/// A caller that waits for a list of jobs is answered at once where none of them is running.
pub proof fn law_waiting_ends_when_nothing_runs(
    name: Seq<char>,
    jobs: Jobs,
    ids: Seq<Seq<char>>,
    recent_chars: nat,
)
    ensures
        batch(name, jobs, ids, recent_chars).get("complete"@) == Some(
            JsonTree::Bool(open_ids(jobs, ids).len() == 0),
        ),
{
    lemma_open_items(name, jobs, ids, recent_chars);
    reveal_strlit("total");
    reveal_strlit("complete");
    reveal_strlit("completed");
    reveal_strlit("running");
    reveal_strlit("failed");
    reveal_strlit("cancelled");
    reveal_strlit("not_found");
    assert("total"@.len() == 5);
    assert("complete"@.len() == 8);
    assert("completed"@.len() == 9);
    assert("running"@.len() == 7);
    assert("failed"@.len() == 6);
    assert("cancelled"@.len() == 9);
    assert("not_found"@.len() == 9);
}

impl JobStore {
    /// The identifiers of a list whose jobs are running.
    pub fn incomplete_ids(&self, job_ids: &[String]) -> (open: Vec<String>)
        ensures
            text::texts(open@) == open_ids(self.jobs(), text::texts(job_ids@)),
    {
        let ghost jobs = self.jobs();
        let ghost ids = text::texts(job_ids@);
        let mut open: Vec<String> = Vec::new();
        let mut i: usize = 0;
        assert(text::texts(open@) =~= open_ids(jobs, ids.take(0)));
        while i < job_ids.len()
            invariant
                i <= job_ids@.len(),
                jobs == self.jobs(),
                ids == text::texts(job_ids@),
                text::texts(open@) == open_ids(jobs, ids.take(i as int)),
            decreases job_ids@.len() - i,
        {
            proof {
                assert(ids.take(i + 1).drop_last() =~= ids.take(i as int));
                assert(ids.take(i + 1).last() == ids[i as int]);
            }
            let read = |job: &JobRecord| -> (ended: bool)
                ensures
                    ended == has_ended(job@.status),
                { is_terminal(&job.status) };
            match job_table::read_job(&self.table, job_ids[i].as_str(), read) {
                Some(ended) => {
                    if !ended {
                        push_text(&mut open, job_ids[i].clone());
                    }
                },
                None => {},
            }
            i += 1;
        }
        assert(ids.take(job_ids@.len() as int) =~= ids);
        open
    }

    /// What to do about a caller that waits until no job of a list is running.
    pub fn wait_step(&self, job_ids: &[String], recent_chars: usize, time_is_up: bool) -> (
        step: WaitStep)
        ensures
            match step {
                WaitStep::Answer(answer) => (time_is_up || open_ids(
                    self.jobs(),
                    text::texts(job_ids@),
                ).len() == 0) && answer.tree() == batch(
                    self.assistant(),
                    self.jobs(),
                    text::texts(job_ids@),
                    recent_chars as nat,
                ),
                WaitStep::Wait(open) => !time_is_up && open@.len() > 0 && text::texts(open@)
                    == open_ids(self.jobs(), text::texts(job_ids@)),
            },
    {
        let open = self.incomplete_ids(job_ids);
        assert(open@.len() == text::texts(open@).len());
        if time_is_up || open.len() == 0 {
            WaitStep::Answer(self.batch_result(job_ids, recent_chars))
        } else {
            WaitStep::Wait(open)
        }
    }

    /// What to do about a caller that polls a list until something is ready.
    pub fn poll_step(
        &self,
        job_ids: &[String],
        seen_job_ids: &[String],
        recent_chars: usize,
        include_running: bool,
        time_is_up: bool,
    ) -> (step: WaitStep)
        ensures
            match step {
                WaitStep::Answer(answer) => (time_is_up || open_ids(
                    self.jobs(),
                    text::texts(job_ids@),
                ).len() == 0 || ready_count(
                    self.jobs(),
                    text::texts(job_ids@),
                    text::texts(seen_job_ids@),
                ) > 0) && answer.tree() == poll(
                    self.assistant(),
                    self.jobs(),
                    text::texts(job_ids@),
                    text::texts(seen_job_ids@),
                    recent_chars as nat,
                    include_running,
                ),
                WaitStep::Wait(open) => !time_is_up && open@.len() > 0 && ready_count(
                    self.jobs(),
                    text::texts(job_ids@),
                    text::texts(seen_job_ids@),
                ) == 0 && text::texts(open@) == open_ids(self.jobs(), text::texts(job_ids@)),
            },
    {
        let open = self.incomplete_ids(job_ids);
        assert(open@.len() == text::texts(open@).len());
        let ready = self.has_ready(job_ids, seen_job_ids);
        if time_is_up || open.len() == 0 || ready {
            WaitStep::Answer(
                self.batch_poll_result(job_ids, seen_job_ids, recent_chars, include_running),
            )
        } else {
            WaitStep::Wait(open)
        }
    }

    /// Tests whether one of the identifiers is settled and not seen.
    fn has_ready(&self, job_ids: &[String], seen_job_ids: &[String]) -> (ready: bool)
        ensures
            ready == (ready_count(
                self.jobs(),
                text::texts(job_ids@),
                text::texts(seen_job_ids@),
            ) > 0),
    {
        let ghost jobs = self.jobs();
        let ghost ids = text::texts(job_ids@);
        let ghost seen = text::texts(seen_job_ids@);
        let mut ready = false;
        let mut i: usize = 0;
        while i < job_ids.len()
            invariant
                i <= job_ids@.len(),
                jobs == self.jobs(),
                ids == text::texts(job_ids@),
                seen == text::texts(seen_job_ids@),
                ready == (ready_count(jobs, ids.take(i as int), seen) > 0),
            decreases job_ids@.len() - i,
        {
            proof {
                assert(ids.take(i + 1).drop_last() =~= ids.take(i as int));
                assert(ids.take(i + 1).last() == ids[i as int]);
            }
            let read = |job: &JobRecord| -> (ended: bool)
                ensures
                    ended == has_ended(job@.status),
                { is_terminal(&job.status) };
            let is_settled = match job_table::read_job(&self.table, job_ids[i].as_str(), read) {
                Some(ended) => ended,
                None => true,
            };
            if is_settled && !text::list_contains(seen_job_ids, job_ids[i].as_str()) {
                ready = true;
            }
            i += 1;
        }
        assert(ids.take(job_ids@.len() as int) =~= ids);
        ready
    }

    /// What a caller is told that has waited for the job with an identifier: its result, or
    /// how to come back for it.
    pub fn fast_answer(&self, job_id: &str) -> (answer: String)
        ensures
            answer@ == fast_text(self.assistant(), self.jobs(), job_id@),
    {
        let assistant: &str = self.assistant.as_str();
        let read = |job: &JobRecord| -> (result: Option<String>)
            ensures
                text::option_text(result) == outcome(assistant@, job@),
            { outcome_of(assistant, job) };
        if let Some(Some(result)) = job_table::read_job(&self.table, job_id, read) {
            return result;
        }
        let mut answer = names::naming(assistant, "[", " Code job is still running]\njob_id: ");
        answer.append(job_id);
        answer.append(
            "\nUse code_status(job_id) to check progress and code_result(job_id) to fetch the final result.",
        );
        answer
    }
}

/// What a caller is told that has waited for a job.
pub open spec fn fast_text(name: Seq<char>, jobs: Jobs, job_id: Seq<char>) -> Seq<char> {
    if jobs.dom().contains(job_id) && has_ended(jobs[job_id].status) {
        outcome(name, jobs[job_id])->0
    } else {
        names::sentence(name, "[", " Code job is still running]\njob_id: ") + job_id
            + "\nUse code_status(job_id) to check progress and code_result(job_id) to fetch the final result."@
    }
}

} // verus!
