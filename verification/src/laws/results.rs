//! What becomes of a job, and what a caller is told of it.

use vstd::prelude::*;
use vstd::string::*;

use crate::job_table::{JobStatus, JobView, Jobs};
use crate::jobs;
use crate::jobs::Group;
use crate::json::JsonTree;
use crate::logs::LogLevel;
use crate::text;

verus! {

/// The words of an answer about jobs are different ones.
proof fn lemma_answer_words()
    ensures
        "job_id"@ != "status"@,
        "job_id"@ != "complete"@,
        "job_id"@ != "cwd"@,
        "job_id"@ != "prompt_preview"@,
        "job_id"@ != "created_at"@,
        "job_id"@ != "started_at"@,
        "job_id"@ != "ended_at"@,
        "job_id"@ != "output_recent"@,
        "job_id"@ != "output_truncated"@,
        "job_id"@ != "error"@,
        "job_id"@ != "result"@,
        "job_id"@ != "message"@,
        "job_id"@ != "total"@,
        "job_id"@ != "completed"@,
        "job_id"@ != "running"@,
        "job_id"@ != "failed"@,
        "job_id"@ != "cancelled"@,
        "job_id"@ != "not_found"@,
        "job_id"@ != "running_count"@,
        "job_id"@ != "ready_count"@,
        "job_id"@ != "next_seen_job_ids"@,
        "job_id"@ != "workdir"@,
        "job_id"@ != "prompt_chars"@,
        "status"@ != "complete"@,
        "status"@ != "cwd"@,
        "status"@ != "prompt_preview"@,
        "status"@ != "created_at"@,
        "status"@ != "started_at"@,
        "status"@ != "ended_at"@,
        "status"@ != "output_recent"@,
        "status"@ != "output_truncated"@,
        "status"@ != "error"@,
        "status"@ != "result"@,
        "status"@ != "message"@,
        "status"@ != "total"@,
        "status"@ != "completed"@,
        "status"@ != "running"@,
        "status"@ != "failed"@,
        "status"@ != "cancelled"@,
        "status"@ != "not_found"@,
        "status"@ != "running_count"@,
        "status"@ != "ready_count"@,
        "status"@ != "next_seen_job_ids"@,
        "status"@ != "workdir"@,
        "status"@ != "prompt_chars"@,
        "complete"@ != "cwd"@,
        "complete"@ != "prompt_preview"@,
        "complete"@ != "created_at"@,
        "complete"@ != "started_at"@,
        "complete"@ != "ended_at"@,
        "complete"@ != "output_recent"@,
        "complete"@ != "output_truncated"@,
        "complete"@ != "error"@,
        "complete"@ != "result"@,
        "complete"@ != "message"@,
        "complete"@ != "total"@,
        "complete"@ != "completed"@,
        "complete"@ != "running"@,
        "complete"@ != "failed"@,
        "complete"@ != "cancelled"@,
        "complete"@ != "not_found"@,
        "complete"@ != "running_count"@,
        "complete"@ != "ready_count"@,
        "complete"@ != "next_seen_job_ids"@,
        "complete"@ != "workdir"@,
        "complete"@ != "prompt_chars"@,
        "cwd"@ != "prompt_preview"@,
        "cwd"@ != "created_at"@,
        "cwd"@ != "started_at"@,
        "cwd"@ != "ended_at"@,
        "cwd"@ != "output_recent"@,
        "cwd"@ != "output_truncated"@,
        "cwd"@ != "error"@,
        "cwd"@ != "result"@,
        "cwd"@ != "message"@,
        "cwd"@ != "total"@,
        "cwd"@ != "completed"@,
        "cwd"@ != "running"@,
        "cwd"@ != "failed"@,
        "cwd"@ != "cancelled"@,
        "cwd"@ != "not_found"@,
        "cwd"@ != "running_count"@,
        "cwd"@ != "ready_count"@,
        "cwd"@ != "next_seen_job_ids"@,
        "cwd"@ != "workdir"@,
        "cwd"@ != "prompt_chars"@,
        "prompt_preview"@ != "created_at"@,
        "prompt_preview"@ != "started_at"@,
        "prompt_preview"@ != "ended_at"@,
        "prompt_preview"@ != "output_recent"@,
        "prompt_preview"@ != "output_truncated"@,
        "prompt_preview"@ != "error"@,
        "prompt_preview"@ != "result"@,
        "prompt_preview"@ != "message"@,
        "prompt_preview"@ != "total"@,
        "prompt_preview"@ != "completed"@,
        "prompt_preview"@ != "running"@,
        "prompt_preview"@ != "failed"@,
        "prompt_preview"@ != "cancelled"@,
        "prompt_preview"@ != "not_found"@,
        "prompt_preview"@ != "running_count"@,
        "prompt_preview"@ != "ready_count"@,
        "prompt_preview"@ != "next_seen_job_ids"@,
        "prompt_preview"@ != "workdir"@,
        "prompt_preview"@ != "prompt_chars"@,
        "created_at"@ != "started_at"@,
        "created_at"@ != "ended_at"@,
        "created_at"@ != "output_recent"@,
        "created_at"@ != "output_truncated"@,
        "created_at"@ != "error"@,
        "created_at"@ != "result"@,
        "created_at"@ != "message"@,
        "created_at"@ != "total"@,
        "created_at"@ != "completed"@,
        "created_at"@ != "running"@,
        "created_at"@ != "failed"@,
        "created_at"@ != "cancelled"@,
        "created_at"@ != "not_found"@,
        "created_at"@ != "running_count"@,
        "created_at"@ != "ready_count"@,
        "created_at"@ != "next_seen_job_ids"@,
        "created_at"@ != "workdir"@,
        "created_at"@ != "prompt_chars"@,
        "started_at"@ != "ended_at"@,
        "started_at"@ != "output_recent"@,
        "started_at"@ != "output_truncated"@,
        "started_at"@ != "error"@,
        "started_at"@ != "result"@,
        "started_at"@ != "message"@,
        "started_at"@ != "total"@,
        "started_at"@ != "completed"@,
        "started_at"@ != "running"@,
        "started_at"@ != "failed"@,
        "started_at"@ != "cancelled"@,
        "started_at"@ != "not_found"@,
        "started_at"@ != "running_count"@,
        "started_at"@ != "ready_count"@,
        "started_at"@ != "next_seen_job_ids"@,
        "started_at"@ != "workdir"@,
        "started_at"@ != "prompt_chars"@,
        "ended_at"@ != "output_recent"@,
        "ended_at"@ != "output_truncated"@,
        "ended_at"@ != "error"@,
        "ended_at"@ != "result"@,
        "ended_at"@ != "message"@,
        "ended_at"@ != "total"@,
        "ended_at"@ != "completed"@,
        "ended_at"@ != "running"@,
        "ended_at"@ != "failed"@,
        "ended_at"@ != "cancelled"@,
        "ended_at"@ != "not_found"@,
        "ended_at"@ != "running_count"@,
        "ended_at"@ != "ready_count"@,
        "ended_at"@ != "next_seen_job_ids"@,
        "ended_at"@ != "workdir"@,
        "ended_at"@ != "prompt_chars"@,
        "output_recent"@ != "output_truncated"@,
        "output_recent"@ != "error"@,
        "output_recent"@ != "result"@,
        "output_recent"@ != "message"@,
        "output_recent"@ != "total"@,
        "output_recent"@ != "completed"@,
        "output_recent"@ != "running"@,
        "output_recent"@ != "failed"@,
        "output_recent"@ != "cancelled"@,
        "output_recent"@ != "not_found"@,
        "output_recent"@ != "running_count"@,
        "output_recent"@ != "ready_count"@,
        "output_recent"@ != "next_seen_job_ids"@,
        "output_recent"@ != "workdir"@,
        "output_recent"@ != "prompt_chars"@,
        "output_truncated"@ != "error"@,
        "output_truncated"@ != "result"@,
        "output_truncated"@ != "message"@,
        "output_truncated"@ != "total"@,
        "output_truncated"@ != "completed"@,
        "output_truncated"@ != "running"@,
        "output_truncated"@ != "failed"@,
        "output_truncated"@ != "cancelled"@,
        "output_truncated"@ != "not_found"@,
        "output_truncated"@ != "running_count"@,
        "output_truncated"@ != "ready_count"@,
        "output_truncated"@ != "next_seen_job_ids"@,
        "output_truncated"@ != "workdir"@,
        "output_truncated"@ != "prompt_chars"@,
        "error"@ != "result"@,
        "error"@ != "message"@,
        "error"@ != "total"@,
        "error"@ != "completed"@,
        "error"@ != "running"@,
        "error"@ != "failed"@,
        "error"@ != "cancelled"@,
        "error"@ != "not_found"@,
        "error"@ != "running_count"@,
        "error"@ != "ready_count"@,
        "error"@ != "next_seen_job_ids"@,
        "error"@ != "workdir"@,
        "error"@ != "prompt_chars"@,
        "result"@ != "message"@,
        "result"@ != "total"@,
        "result"@ != "completed"@,
        "result"@ != "running"@,
        "result"@ != "failed"@,
        "result"@ != "cancelled"@,
        "result"@ != "not_found"@,
        "result"@ != "running_count"@,
        "result"@ != "ready_count"@,
        "result"@ != "next_seen_job_ids"@,
        "result"@ != "workdir"@,
        "result"@ != "prompt_chars"@,
        "message"@ != "total"@,
        "message"@ != "completed"@,
        "message"@ != "running"@,
        "message"@ != "failed"@,
        "message"@ != "cancelled"@,
        "message"@ != "not_found"@,
        "message"@ != "running_count"@,
        "message"@ != "ready_count"@,
        "message"@ != "next_seen_job_ids"@,
        "message"@ != "workdir"@,
        "message"@ != "prompt_chars"@,
        "total"@ != "completed"@,
        "total"@ != "running"@,
        "total"@ != "failed"@,
        "total"@ != "cancelled"@,
        "total"@ != "not_found"@,
        "total"@ != "running_count"@,
        "total"@ != "ready_count"@,
        "total"@ != "next_seen_job_ids"@,
        "total"@ != "workdir"@,
        "total"@ != "prompt_chars"@,
        "completed"@ != "running"@,
        "completed"@ != "failed"@,
        "completed"@ != "cancelled"@,
        "completed"@ != "not_found"@,
        "completed"@ != "running_count"@,
        "completed"@ != "ready_count"@,
        "completed"@ != "next_seen_job_ids"@,
        "completed"@ != "workdir"@,
        "completed"@ != "prompt_chars"@,
        "running"@ != "failed"@,
        "running"@ != "cancelled"@,
        "running"@ != "not_found"@,
        "running"@ != "running_count"@,
        "running"@ != "ready_count"@,
        "running"@ != "next_seen_job_ids"@,
        "running"@ != "workdir"@,
        "running"@ != "prompt_chars"@,
        "failed"@ != "cancelled"@,
        "failed"@ != "not_found"@,
        "failed"@ != "running_count"@,
        "failed"@ != "ready_count"@,
        "failed"@ != "next_seen_job_ids"@,
        "failed"@ != "workdir"@,
        "failed"@ != "prompt_chars"@,
        "cancelled"@ != "not_found"@,
        "cancelled"@ != "running_count"@,
        "cancelled"@ != "ready_count"@,
        "cancelled"@ != "next_seen_job_ids"@,
        "cancelled"@ != "workdir"@,
        "cancelled"@ != "prompt_chars"@,
        "not_found"@ != "running_count"@,
        "not_found"@ != "ready_count"@,
        "not_found"@ != "next_seen_job_ids"@,
        "not_found"@ != "workdir"@,
        "not_found"@ != "prompt_chars"@,
        "running_count"@ != "ready_count"@,
        "running_count"@ != "next_seen_job_ids"@,
        "running_count"@ != "workdir"@,
        "running_count"@ != "prompt_chars"@,
        "ready_count"@ != "next_seen_job_ids"@,
        "ready_count"@ != "workdir"@,
        "ready_count"@ != "prompt_chars"@,
        "next_seen_job_ids"@ != "workdir"@,
        "next_seen_job_ids"@ != "prompt_chars"@,
        "workdir"@ != "prompt_chars"@,
{
    reveal_strlit("job_id");
    reveal_strlit("status");
    reveal_strlit("complete");
    reveal_strlit("cwd");
    reveal_strlit("prompt_preview");
    reveal_strlit("created_at");
    reveal_strlit("started_at");
    reveal_strlit("ended_at");
    reveal_strlit("output_recent");
    reveal_strlit("output_truncated");
    reveal_strlit("error");
    reveal_strlit("result");
    reveal_strlit("message");
    reveal_strlit("total");
    reveal_strlit("completed");
    reveal_strlit("running");
    reveal_strlit("failed");
    reveal_strlit("cancelled");
    reveal_strlit("not_found");
    reveal_strlit("running_count");
    reveal_strlit("ready_count");
    reveal_strlit("next_seen_job_ids");
    reveal_strlit("workdir");
    reveal_strlit("prompt_chars");
    assert("job_id"@.len() == 6);
    assert("status"@.len() == 6);
    assert("complete"@.len() == 8);
    assert("cwd"@.len() == 3);
    assert("prompt_preview"@.len() == 14);
    assert("created_at"@.len() == 10);
    assert("started_at"@.len() == 10);
    assert("ended_at"@.len() == 8);
    assert("output_recent"@.len() == 13);
    assert("output_truncated"@.len() == 16);
    assert("error"@.len() == 5);
    assert("result"@.len() == 6);
    assert("message"@.len() == 7);
    assert("total"@.len() == 5);
    assert("completed"@.len() == 9);
    assert("running"@.len() == 7);
    assert("failed"@.len() == 6);
    assert("cancelled"@.len() == 9);
    assert("not_found"@.len() == 9);
    assert("running_count"@.len() == 13);
    assert("ready_count"@.len() == 11);
    assert("next_seen_job_ids"@.len() == 17);
    assert("workdir"@.len() == 7);
    assert("prompt_chars"@.len() == 12);
    assert("job_id"@[0] == 'j' && "status"@[0] == 's');
    assert("job_id"@[0] == 'j' && "result"@[0] == 'r');
    assert("job_id"@[0] == 'j' && "failed"@[0] == 'f');
    assert("status"@[0] == 's' && "result"@[0] == 'r');
    assert("status"@[0] == 's' && "failed"@[0] == 'f');
    assert("complete"@[0] == 'c' && "ended_at"@[0] == 'e');
    assert("created_at"@[0] == 'c' && "started_at"@[0] == 's');
    assert("output_recent"@[0] == 'o' && "running_count"@[0] == 'r');
    assert("error"@[0] == 'e' && "total"@[0] == 't');
    assert("result"@[0] == 'r' && "failed"@[0] == 'f');
    assert("message"@[0] == 'm' && "running"@[0] == 'r');
    assert("message"@[0] == 'm' && "workdir"@[0] == 'w');
    assert("completed"@[1] == 'o' && "cancelled"@[1] == 'a');
    assert("completed"@[0] == 'c' && "not_found"@[0] == 'n');
    assert("running"@[0] == 'r' && "workdir"@[0] == 'w');
    assert("cancelled"@[0] == 'c' && "not_found"@[0] == 'n');
}

// ---------------------------------------------------------------------------
// The life of a job
// ---------------------------------------------------------------------------

/// A job that is created is the one that was asked for, and waits.
pub proof fn law_jobs_begin_as_asked(
    job_id: Seq<char>,
    prompt: Seq<char>,
    cwd: Seq<char>,
    now: i64,
)
    ensures
        ({
            let job = jobs::queued(job_id, prompt, cwd, now);
            &&& job.job_id == job_id
            &&& job.prompt == prompt
            &&& job.cwd == cwd
            &&& job.created_at == now
            &&& job.started_at is None
            &&& job.ended_at is None
            &&& job.status == JobStatus::Queued
            &&& job.output.len() == 0
            &&& !job.output_truncated
            &&& job.error is None
        }),
{
}

/// Whether a job is still the one that was asked for.
pub open spec fn is_same_task(after: JobView, before: JobView) -> bool {
    &&& after.job_id == before.job_id
    &&& after.prompt == before.prompt
    &&& after.cwd == before.cwd
    &&& after.created_at == before.created_at
}

/// A job that starts runs from then on, and has said nothing more.
pub proof fn law_jobs_start_once_asked(job: JobView, now: i64)
    ensures
        ({
            let after = jobs::started(job, now);
            &&& is_same_task(after, job)
            &&& after.status == JobStatus::Running
            &&& after.started_at == Some(now)
            &&& after.ended_at == job.ended_at
            &&& after.output == job.output
            &&& after.output_truncated == job.output_truncated
            &&& after.error == job.error
        }),
{
}

/// What a job says is put behind what it has said, and of more than two million characters the
/// last two million stay, which is noted.
pub proof fn law_output_is_put_behind(job: JobView, more: Seq<char>)
    ensures
        ({
            let after = jobs::with_output(job, more);
            let all = job.output + more;
            &&& is_same_task(after, job)
            &&& after.status == job.status
            &&& after.started_at == job.started_at
            &&& after.ended_at == job.ended_at
            &&& after.error == job.error
            &&& all.len() <= 2_000_000 ==> after.output == all && after.output_truncated
                == job.output_truncated
            &&& all.len() > 2_000_000 ==> after.output.len() == 2_000_000
                && after.output.is_suffix_of(all) && after.output_truncated
            &&& more.len() <= 2_000_000 ==> more.is_suffix_of(after.output)
        }),
{
    let all = job.output + more;
    let after = jobs::with_output(job, more);
    if more.len() <= 2_000_000 {
        assert(more =~= after.output.subrange(
            after.output.len() - more.len(),
            after.output.len() as int,
        ));
    }
    if all.len() > 2_000_000 {
        assert(after.output =~= all.subrange(all.len() - 2_000_000, all.len() as int));
    }
}

/// A job that has ended was cancelled where the user cancelled it; else it has failed with the
/// error that came of it, or succeeded with the output that came of it behind what it had said.
pub proof fn law_jobs_end_as_they_went(
    job: JobView,
    was_cancelled: bool,
    result: Result<Seq<char>, Seq<char>>,
    now: i64,
)
    ensures
        ({
            let after = jobs::ended(job, was_cancelled, result, now);
            &&& is_same_task(after, job)
            &&& after.started_at == job.started_at
            &&& after.ended_at == Some(now)
            &&& was_cancelled ==> after.status == JobStatus::Cancelled && after.error == Some(
                "任务已取消"@,
            ) && after.output == job.output && after.output_truncated == job.output_truncated
            &&& !was_cancelled ==> (result matches Err(error) ==> after.status == JobStatus::Failed
                && after.error == Some(error) && after.output == job.output
                && after.output_truncated == job.output_truncated)
            &&& !was_cancelled ==> (result matches Ok(output) ==> {
                &&& after.status == JobStatus::Succeeded
                &&& after.error == job.error
                &&& after.output == jobs::with_output(job, output).output
                &&& after.output_truncated == jobs::with_output(job, output).output_truncated
                &&& (job.output + output).len() <= 2_000_000 ==> after.output == job.output
                    + output
            })
        }),
{
}

/// A job that is cancelled before it has ended says so; one that has ended stays as it is.
pub proof fn law_open_jobs_are_cancelled(job: JobView, now: i64)
    ensures
        ({
            let after = jobs::cancelled(job, now);
            let was_open = job.status == JobStatus::Queued || job.status == JobStatus::Running;
            &&& is_same_task(after, job)
            &&& !was_open ==> after == job
            &&& was_open ==> {
                &&& after.status == JobStatus::Cancelled
                &&& after.ended_at == Some(now)
                &&& after.error == Some("任务已取消"@)
                &&& after.started_at == job.started_at
                &&& after.output == job.output
                &&& after.output_truncated == job.output_truncated
            }
        }),
{
}

/// What is logged of a new job names it and says where it runs and how much was asked, but not
/// what.
pub proof fn law_new_jobs_are_logged(
    name: Seq<char>,
    job_id: Seq<char>,
    prompt: Seq<char>,
    cwd: Seq<char>,
)
    ensures
        ({
            let log = jobs::created_log(name, job_id, prompt, cwd);
            &&& log.level == LogLevel::Info
            &&& log.source == "mcp"@
            &&& log.request_id is None
            &&& log.task_id == Some(job_id)
            &&& log.summary == ""@ + name + " Code 任务已创建"@
            &&& log.detail matches Some(detail) && detail.get("workdir"@) == Some(
                JsonTree::Text(cwd),
            ) && detail.get("prompt_chars"@) == Some(JsonTree::Integer(prompt.len() as int))
        }),
{
    lemma_answer_words();
}

// ---------------------------------------------------------------------------
// Answers about one job
// ---------------------------------------------------------------------------

/// The word for a status.
pub open spec fn status_word(status: JobStatus) -> Seq<char> {
    match status {
        JobStatus::Queued => "queued"@,
        JobStatus::Running => "running"@,
        JobStatus::Succeeded => "succeeded"@,
        JobStatus::Failed => "failed"@,
        JobStatus::Cancelled => "cancelled"@,
    }
}

/// A time as an answer gives it.
pub open spec fn time_or_null(time: Option<i64>) -> JsonTree {
    match time {
        Some(at) => JsonTree::Integer(at as int),
        None => JsonTree::Null,
    }
}

/// Whether a field is the result of a job: the text of its whole output where it succeeded,
/// a notice that ends with its error where it failed or was cancelled, and null just where it
/// has not ended.
pub open spec fn is_result_field(field: Option<JsonTree>, name: Seq<char>, job: JobView) -> bool {
    let reason = match job.error {
        Some(error) => error,
        None => Seq::<char>::empty(),
    };
    &&& field is Some
    &&& job.status == JobStatus::Succeeded ==> field == Some(JsonTree::Text(job.output))
    &&& job.status == JobStatus::Failed ==> field == Some(
        JsonTree::Text("["@ + name + " Code job failed]\n"@ + reason),
    )
    &&& job.status == JobStatus::Cancelled ==> field == Some(
        JsonTree::Text("["@ + name + " Code job cancelled]\n"@ + reason),
    )
    &&& field == Some(JsonTree::Null) <==> job.status == JobStatus::Queued || job.status
        == JobStatus::Running
}

/// The result of a job is all that it said, where it succeeded, and nothing before it has
/// ended.
pub proof fn law_results_are_the_output(name: Seq<char>, job: JobView)
    ensures
        jobs::outcome(name, job) is None <==> job.status == JobStatus::Queued || job.status
            == JobStatus::Running,
        job.status == JobStatus::Succeeded ==> jobs::outcome(name, job) == Some(job.output),
        job.status == JobStatus::Failed || job.status == JobStatus::Cancelled ==> (
        job.error matches Some(error) ==> error.is_suffix_of(jobs::outcome(name, job)->0)),
        job.status == JobStatus::Failed ==> ("["@ + name + " Code job failed]\n"@).is_prefix_of(
            jobs::outcome(name, job)->0,
        ),
        job.status == JobStatus::Cancelled ==> (
        "["@ + name + " Code job cancelled]\n"@).is_prefix_of(jobs::outcome(name, job)->0),
{
    if job.status == JobStatus::Failed || job.status == JobStatus::Cancelled {
        let told = jobs::outcome(name, job)->0;
        let head = if job.status == JobStatus::Failed {
            "["@ + name + " Code job failed]\n"@
        } else {
            "["@ + name + " Code job cancelled]\n"@
        };
        assert(head =~= told.subrange(0, head.len() as int));
        if job.error is Some {
            let error = job.error->0;
            assert(error =~= told.subrange(told.len() - error.len(), told.len() as int));
        }
    }
}

/// The answer about the result of a job says who the job is, how it went and what came of it.
pub proof fn law_answers_tell_the_result(name: Seq<char>, job: JobView)
    ensures
        ({
            let told = jobs::result_answer(name, job);
            &&& told.get("job_id"@) == Some(JsonTree::Text(job.job_id))
            &&& told.get("status"@) == Some(JsonTree::Text(status_word(job.status)))
            &&& told.get("complete"@) == Some(
                JsonTree::Bool(job.status != JobStatus::Queued && job.status != JobStatus::Running),
            )
            &&& told.get("cwd"@) == Some(JsonTree::Text(job.cwd))
            &&& job.prompt.len() <= 500 ==> told.get("prompt_preview"@) == Some(
                JsonTree::Text(job.prompt),
            )
            &&& job.prompt.len() > 500 ==> told.get("prompt_preview"@) == Some(
                JsonTree::Text(job.prompt.take(500) + "..."@),
            )
            &&& told.get("created_at"@) == Some(JsonTree::Integer(job.created_at as int))
            &&& told.get("started_at"@) == Some(time_or_null(job.started_at))
            &&& told.get("ended_at"@) == Some(time_or_null(job.ended_at))
            &&& told.get("output_truncated"@) == Some(JsonTree::Bool(job.output_truncated))
            &&& told.get("error"@) == Some(
                match job.error {
                    Some(error) => JsonTree::Text(error),
                    None => JsonTree::Null,
                },
            )
            &&& is_result_field(told.get("result"@), name, job)
            &&& job.status != JobStatus::Queued && job.status != JobStatus::Running ==> told.get(
                "message"@,
            ) == Some(JsonTree::Text(""@))
            &&& job.status == JobStatus::Queued || job.status == JobStatus::Running ==> told.get(
                "message"@,
            ) == Some(
                JsonTree::Text(
                    ""@ + name
                        + " Code job is not finished yet. Use code_status(job_id) to monitor progress."@,
                ),
            )
        }),
{
    lemma_answer_words();
}

/// What a list says of a job is who it is, how it went, the end of what it said and what came
/// of it.
pub proof fn law_lists_tell_each_job(name: Seq<char>, job: JobView, recent: nat)
    ensures
        ({
            let told = jobs::item(name, job, recent);
            &&& told.get("job_id"@) == Some(JsonTree::Text(job.job_id))
            &&& told.get("status"@) == Some(JsonTree::Text(status_word(job.status)))
            &&& told.get("complete"@) == Some(
                JsonTree::Bool(job.status != JobStatus::Queued && job.status != JobStatus::Running),
            )
            &&& told.get("cwd"@) == Some(JsonTree::Text(job.cwd))
            &&& job.prompt.len() <= 500 ==> told.get("prompt_preview"@) == Some(
                JsonTree::Text(job.prompt),
            )
            &&& job.prompt.len() > 500 ==> told.get("prompt_preview"@) == Some(
                JsonTree::Text(job.prompt.take(500) + "..."@),
            )
            &&& told.get("created_at"@) == Some(JsonTree::Integer(job.created_at as int))
            &&& told.get("started_at"@) == Some(time_or_null(job.started_at))
            &&& told.get("ended_at"@) == Some(time_or_null(job.ended_at))
            &&& told.get("output_truncated"@) == Some(JsonTree::Bool(job.output_truncated))
            &&& told.get("error"@) == Some(
                match job.error {
                    Some(error) => JsonTree::Text(error),
                    None => JsonTree::Null,
                },
            )
            &&& is_result_field(told.get("result"@), name, job)
            &&& told.get("output_recent"@) matches Some(JsonTree::Text(end)) && {
                &&& end.is_suffix_of(job.output)
                &&& job.output.len() <= recent ==> end == job.output
                &&& job.output.len() > recent ==> end.len() == recent
            }
        }),
{
    lemma_answer_words();
    let end = text::recent(job.output, recent);
    assert(end =~= job.output.subrange(job.output.len() - end.len(), job.output.len() as int));
}

/// What is told of a job at a glance is what the job holds.
pub proof fn law_summaries_are_of_the_job(job: JobView, recent: nat)
    ensures
        ({
            let shown = jobs::summary(job, recent);
            &&& shown.job_id == job.job_id
            &&& shown.status == job.status
            &&& shown.complete <==> job.status != JobStatus::Queued && job.status
                != JobStatus::Running
            &&& shown.cwd == job.cwd
            &&& job.prompt.len() <= 500 ==> shown.prompt_preview == job.prompt
            &&& job.prompt.len() > 500 ==> shown.prompt_preview == job.prompt.take(500) + "..."@
            &&& shown.created_at == job.created_at
            &&& shown.started_at == job.started_at
            &&& shown.ended_at == job.ended_at
            &&& shown.output_recent.is_suffix_of(job.output)
            &&& job.output.len() <= recent ==> shown.output_recent == job.output
            &&& job.output.len() > recent ==> shown.output_recent.len() == recent
            &&& shown.output_truncated == job.output_truncated
            &&& shown.error == job.error
        }),
{
    let end = text::recent(job.output, recent);
    assert(end =~= job.output.subrange(job.output.len() - end.len(), job.output.len() as int));
}

/// What is said of an identifier that is not known names it, and says that nothing is found and
/// that there is nothing to wait for.
pub proof fn law_unknown_jobs_are_not_found(
    name: Seq<char>,
    all: Jobs,
    job_id: Seq<char>,
    recent: nat,
)
    ensures
        all.dom().contains(job_id) ==> jobs::item_of(name, all, job_id, recent) == jobs::item(
            name,
            all[job_id],
            recent,
        ),
        !all.dom().contains(job_id) ==> {
            let told = jobs::item_of(name, all, job_id, recent);
            &&& told.get("job_id"@) == Some(JsonTree::Text(job_id))
            &&& told.get("status"@) == Some(JsonTree::Text("not_found"@))
            &&& told.get("complete"@) == Some(JsonTree::Bool(true))
            &&& told.get("cwd"@) == Some(JsonTree::Null)
            &&& told.get("prompt_preview"@) == Some(JsonTree::Text(""@))
            &&& told.get("created_at"@) == Some(JsonTree::Null)
            &&& told.get("started_at"@) == Some(JsonTree::Null)
            &&& told.get("ended_at"@) == Some(JsonTree::Null)
            &&& told.get("output_recent"@) == Some(JsonTree::Text(""@))
            &&& told.get("output_truncated"@) == Some(JsonTree::Bool(false))
            &&& told.get("error"@) == Some(JsonTree::Text("Unknown job_id"@))
            &&& told.get("result"@) == Some(JsonTree::Null)
        },
{
    lemma_answer_words();
}

/// A caller that waits a while is given the result of a job that has ended; else the identifier
/// to ask for it with.
pub proof fn law_waiting_gives_the_result(name: Seq<char>, all: Jobs, job_id: Seq<char>)
    ensures
        ({
            let told = jobs::fast_text(name, all, job_id);
            let job = all[job_id];
            let is_known = all.dom().contains(job_id);
            let is_open = job.status == JobStatus::Queued || job.status == JobStatus::Running;
            &&& is_known && job.status == JobStatus::Succeeded ==> told == job.output
            &&& is_known && !is_open ==> Some(told) == jobs::outcome(name, job)
            &&& !is_known || is_open ==> told == "["@ + name
                + " Code job is still running]\njob_id: "@ + job_id
                + "\nUse code_status(job_id) to check progress and code_result(job_id) to fetch the final result."@
        }),
{
}

// ---------------------------------------------------------------------------
// Answers about many jobs
// ---------------------------------------------------------------------------

/// The status that the jobs of a part of a list have.
pub open spec fn belongs(all: Jobs, job_id: Seq<char>, group: Group) -> bool {
    match group {
        Group::Completed => all.dom().contains(job_id) && all[job_id].status
            == JobStatus::Succeeded,
        Group::Failed => all.dom().contains(job_id) && all[job_id].status == JobStatus::Failed,
        Group::Cancelled => all.dom().contains(job_id) && all[job_id].status
            == JobStatus::Cancelled,
        Group::Running => all.dom().contains(job_id) && (all[job_id].status == JobStatus::Queued
            || all[job_id].status == JobStatus::Running),
        Group::NotFound => !all.dom().contains(job_id),
    }
}

/// Each job stands in the part of a list that its status says.
pub proof fn law_parts_go_by_status(all: Jobs, job_id: Seq<char>, group: Group)
    ensures
        jobs::group_of(all, job_id) == group <==> belongs(all, job_id, group),
{
}

/// A part of a list holds the jobs of the list that belong there, but for those to be left
/// out, and no others.
pub proof fn law_parts_hold_their_jobs(
    name: Seq<char>,
    all: Jobs,
    ids: Seq<Seq<char>>,
    skip: Seq<Seq<char>>,
    recent: nat,
    group: Group,
    told: JsonTree,
)
    ensures
        jobs::items_in(name, all, ids, skip, recent, group).contains(told) <==> exists|i: int|
            0 <= i < ids.len() && belongs(all, #[trigger] ids[i], group) && !skip.contains(ids[i])
                && told == jobs::item_of(name, all, ids[i], recent),
        jobs::items_in(name, all, ids, skip, recent, group).len() <= ids.len(),
    decreases ids.len(),
{
    if ids.len() > 0 {
        let front = ids.drop_last();
        let last = ids.last();
        law_parts_hold_their_jobs(name, all, front, skip, recent, group, told);
        law_parts_go_by_status(all, last, group);
        let before = jobs::items_in(name, all, front, skip, recent, group);
        let after = jobs::items_in(name, all, ids, skip, recent, group);
        assert forall|i: int| 0 <= i < front.len() implies front[i] == #[trigger] ids[i] by {
        }
        if before.contains(told) {
            let k = choose|k: int| 0 <= k < before.len() && before[k] == told;
            assert(after[k] == told);
            let i = choose|i: int|
                0 <= i < front.len() && belongs(all, #[trigger] front[i], group) && !skip.contains(
                    front[i],
                ) && told == jobs::item_of(name, all, front[i], recent);
            assert(ids[i] == front[i]);
        }
        if after.contains(told) && !before.contains(told) {
            let k = choose|k: int| 0 <= k < after.len() && after[k] == told;
            assert(k == before.len()) by {
                if k < before.len() {
                    assert(before[k] == told);
                }
            }
            assert(ids[ids.len() - 1] == last);
        }
        if exists|i: int|
            0 <= i < ids.len() && belongs(all, #[trigger] ids[i], group) && !skip.contains(ids[i])
                && told == jobs::item_of(name, all, ids[i], recent) {
            let i = choose|i: int|
                0 <= i < ids.len() && belongs(all, #[trigger] ids[i], group) && !skip.contains(
                    ids[i],
                ) && told == jobs::item_of(name, all, ids[i], recent);
            if i < front.len() {
                assert(front[i] == ids[i]);
            } else {
                assert(after[after.len() - 1] == told);
            }
        }
    }
}

/// The jobs of a part stand in the order of the list.
pub proof fn law_parts_follow_the_list(
    name: Seq<char>,
    all: Jobs,
    ids: Seq<Seq<char>>,
    id: Seq<char>,
    skip: Seq<Seq<char>>,
    recent: nat,
    group: Group,
)
    ensures
        ({
            let before = jobs::items_in(name, all, ids, skip, recent, group);
            let after = jobs::items_in(name, all, ids.push(id), skip, recent, group);
            &&& belongs(all, id, group) && !skip.contains(id) ==> after == before.push(
                jobs::item_of(name, all, id, recent),
            )
            &&& !belongs(all, id, group) || skip.contains(id) ==> after == before
            &&& jobs::items_in(name, all, Seq::empty(), skip, recent, group).len() == 0
        }),
{
    assert(ids.push(id).drop_last() =~= ids);
}

/// Lists of identifiers keep their order: what is seen, what is waited for and what counts once
/// stands in the order in which it was named first.
pub proof fn law_lists_keep_their_order(
    all: Jobs,
    ids: Seq<Seq<char>>,
    id: Seq<char>,
    wanted: Seq<Seq<char>>,
)
    ensures
        ({
            let more = ids.push(id);
            let runs = belongs(all, id, Group::Running);
            &&& runs ==> jobs::open_ids(all, more) == jobs::open_ids(all, ids).push(id)
            &&& !runs ==> jobs::open_ids(all, more) == jobs::open_ids(all, ids)
            &&& !runs ==> jobs::settled(all, more) == jobs::settled(all, ids).push(id)
            &&& runs ==> jobs::settled(all, more) == jobs::settled(all, ids)
            &&& wanted.contains(id) ==> jobs::only(more, wanted) == jobs::only(ids, wanted).push(id)
            &&& !wanted.contains(id) ==> jobs::only(more, wanted) == jobs::only(ids, wanted)
            &&& ids.contains(id) ==> jobs::once(more) == jobs::once(ids)
            &&& !ids.contains(id) ==> jobs::once(more) == jobs::once(ids).push(id)
            &&& jobs::next_seen(all, ids, wanted) == jobs::once(
                jobs::only(wanted, ids) + jobs::settled(all, ids),
            )
        }),
{
    assert(ids.push(id).drop_last() =~= ids);
    law_repeated_names_count_once(ids);
    assert(ids.contains(id) <==> jobs::once(ids).contains(id));
}

/// Whether a field of an answer is the part of a list with the jobs that belong there.
pub open spec fn is_part(
    field: Option<JsonTree>,
    name: Seq<char>,
    all: Jobs,
    ids: Seq<Seq<char>>,
    skip: Seq<Seq<char>>,
    recent: nat,
    group: Group,
) -> bool {
    field matches Some(JsonTree::Array(items)) && forall|told: JsonTree| #[trigger]
        items.contains(told) <==> exists|i: int|
            0 <= i < ids.len() && belongs(all, #[trigger] ids[i], group) && !skip.contains(ids[i])
                && told == jobs::item_of(name, all, ids[i], recent)
}

proof fn lemma_part(
    name: Seq<char>,
    all: Jobs,
    ids: Seq<Seq<char>>,
    skip: Seq<Seq<char>>,
    recent: nat,
    group: Group,
)
    ensures
        is_part(
            Some(JsonTree::Array(jobs::items_in(name, all, ids, skip, recent, group))),
            name,
            all,
            ids,
            skip,
            recent,
            group,
        ),
{
    let items = jobs::items_in(name, all, ids, skip, recent, group);
    assert forall|told: JsonTree| #[trigger] items.contains(told) <==> exists|i: int|
        0 <= i < ids.len() && belongs(all, #[trigger] ids[i], group) && !skip.contains(ids[i])
            && told == jobs::item_of(name, all, ids[i], recent) by {
        law_parts_hold_their_jobs(name, all, ids, skip, recent, group, told);
    }
}

/// Whether none of a list of jobs is running.
pub open spec fn none_runs(all: Jobs, ids: Seq<Seq<char>>) -> bool {
    forall|i: int| 0 <= i < ids.len() ==> !belongs(all, #[trigger] ids[i], Group::Running)
}

proof fn lemma_none_runs(name: Seq<char>, all: Jobs, ids: Seq<Seq<char>>, recent: nat)
    ensures
        jobs::items_in(name, all, ids, jobs::no_ids(), recent, Group::Running).len() == 0
            <==> none_runs(all, ids),
{
    let items = jobs::items_in(name, all, ids, jobs::no_ids(), recent, Group::Running);
    assert forall|i: int| 0 <= i < ids.len() && items.len() == 0 implies !belongs(
        all,
        #[trigger] ids[i],
        Group::Running,
    ) by {
        law_parts_hold_their_jobs(
            name,
            all,
            ids,
            jobs::no_ids(),
            recent,
            Group::Running,
            jobs::item_of(name, all, ids[i], recent),
        );
        if belongs(all, ids[i], Group::Running) {
            assert(!jobs::no_ids().contains(ids[i]));
            assert(items.contains(jobs::item_of(name, all, ids[i], recent)));
        }
    }
    if items.len() > 0 {
        law_parts_hold_their_jobs(
            name,
            all,
            ids,
            jobs::no_ids(),
            recent,
            Group::Running,
            items[0],
        );
        assert(items.contains(items[0]));
    }
}

/// The answer about a list of jobs names each of them in the part that its status says, counts
/// them, and is complete where none of them runs.
pub proof fn law_batches_tell_every_job(
    name: Seq<char>,
    all: Jobs,
    ids: Seq<Seq<char>>,
    recent: nat,
)
    ensures
        ({
            let told = jobs::batch(name, all, ids, recent);
            let none = Seq::<Seq<char>>::empty();
            &&& told.get("total"@) == Some(JsonTree::Integer(ids.len() as int))
            &&& told.get("complete"@) == Some(JsonTree::Bool(none_runs(all, ids)))
            &&& is_part(told.get("completed"@), name, all, ids, none, recent, Group::Completed)
            &&& is_part(told.get("running"@), name, all, ids, none, recent, Group::Running)
            &&& is_part(told.get("failed"@), name, all, ids, none, recent, Group::Failed)
            &&& is_part(told.get("cancelled"@), name, all, ids, none, recent, Group::Cancelled)
            &&& is_part(told.get("not_found"@), name, all, ids, none, recent, Group::NotFound)
        }),
{
    lemma_answer_words();
    lemma_none_runs(name, all, ids, recent);
    let none = jobs::no_ids();
    lemma_part(name, all, ids, none, recent, Group::Completed);
    lemma_part(name, all, ids, none, recent, Group::Running);
    lemma_part(name, all, ids, none, recent, Group::Failed);
    lemma_part(name, all, ids, none, recent, Group::Cancelled);
    lemma_part(name, all, ids, none, recent, Group::NotFound);
}

/// How many of a list of jobs are of a part and not left out.
pub open spec fn part_count(
    all: Jobs,
    ids: Seq<Seq<char>>,
    skip: Seq<Seq<char>>,
    runs: bool,
) -> nat {
    ids.filter(
        |id: Seq<char>| belongs(all, id, Group::Running) == runs && !skip.contains(id),
    ).len()
}

proof fn lemma_running_count(name: Seq<char>, all: Jobs, ids: Seq<Seq<char>>, recent: nat)
    ensures
        jobs::items_in(name, all, ids, jobs::no_ids(), recent, Group::Running).len()
            == part_count(all, ids, Seq::empty(), true),
    decreases ids.len(),
{
    reveal(Seq::filter);
    if ids.len() > 0 {
        lemma_running_count(name, all, ids.drop_last(), recent);
    }
}

proof fn lemma_ready_count(all: Jobs, ids: Seq<Seq<char>>, seen: Seq<Seq<char>>)
    ensures
        jobs::ready_count(all, ids, seen) == part_count(all, ids, seen, false),
    decreases ids.len(),
{
    reveal(Seq::filter);
    if ids.len() > 0 {
        lemma_ready_count(all, ids.drop_last(), seen);
    }
}

/// The answer to a poll names each job that has ended or is not known, but for those that the
/// caller has seen, counts what runs and what is new, and is complete where none of the jobs
/// runs. The jobs that run are named where the caller asks for them.
pub proof fn law_polls_tell_what_is_new(
    name: Seq<char>,
    all: Jobs,
    ids: Seq<Seq<char>>,
    seen: Seq<Seq<char>>,
    recent: nat,
    with_running: bool,
)
    ensures
        ({
            let told = jobs::poll(name, all, ids, seen, recent, with_running);
            let none = Seq::<Seq<char>>::empty();
            &&& told.get("total"@) == Some(JsonTree::Integer(ids.len() as int))
            &&& told.get("complete"@) == Some(JsonTree::Bool(none_runs(all, ids)))
            &&& told.get("running_count"@) == Some(
                JsonTree::Integer(part_count(all, ids, none, true) as int),
            )
            &&& told.get("ready_count"@) == Some(
                JsonTree::Integer(part_count(all, ids, seen, false) as int),
            )
            &&& is_part(told.get("completed"@), name, all, ids, seen, recent, Group::Completed)
            &&& is_part(told.get("failed"@), name, all, ids, seen, recent, Group::Failed)
            &&& is_part(told.get("cancelled"@), name, all, ids, seen, recent, Group::Cancelled)
            &&& is_part(told.get("not_found"@), name, all, ids, seen, recent, Group::NotFound)
            &&& with_running ==> is_part(
                told.get("running"@),
                name,
                all,
                ids,
                none,
                recent,
                Group::Running,
            )
            &&& !with_running ==> told.get("running"@) is None
            &&& told.get("next_seen_job_ids"@) matches Some(JsonTree::Array(next)) && {
                &&& next.no_duplicates()
                &&& forall|id: Seq<char>| #[trigger]
                    next.contains(JsonTree::Text(id)) <==> ids.contains(id) && (seen.contains(id)
                        || !belongs(all, id, Group::Running))
            }
        }),
{
    lemma_answer_words();
    lemma_none_runs(name, all, ids, recent);
    lemma_running_count(name, all, ids, recent);
    lemma_ready_count(all, ids, seen);
    lemma_part(name, all, ids, seen, recent, Group::Completed);
    lemma_part(name, all, ids, jobs::no_ids(), recent, Group::Running);
    lemma_part(name, all, ids, seen, recent, Group::Failed);
    lemma_part(name, all, ids, seen, recent, Group::Cancelled);
    lemma_part(name, all, ids, seen, recent, Group::NotFound);
    let list = jobs::next_seen(all, ids, seen);
    let next = jobs::text_trees(list);
    let both = jobs::only(seen, ids) + jobs::settled(all, ids);
    law_repeated_names_count_once(both);
    assert forall|id: Seq<char>| #[trigger] next.contains(JsonTree::Text(id)) <==> ids.contains(id)
        && (seen.contains(id) || !belongs(all, id, Group::Running)) by {
        lemma_only(seen, ids, id);
        lemma_settled(all, ids, id);
        let first = jobs::only(seen, ids);
        let second = jobs::settled(all, ids);
        if first.contains(id) {
            let k = choose|k: int| 0 <= k < first.len() && first[k] == id;
            assert(both[k] == id);
        }
        if second.contains(id) {
            let k = choose|k: int| 0 <= k < second.len() && second[k] == id;
            assert(both[first.len() + k] == id);
        }
        if both.contains(id) {
            let k = choose|k: int| 0 <= k < both.len() && both[k] == id;
            if k < first.len() {
                assert(first[k] == id);
            } else {
                assert(second[k - first.len()] == id);
            }
        }
        if list.contains(id) {
            let k = choose|k: int| 0 <= k < list.len() && list[k] == id;
            assert(next[k] == JsonTree::Text(id));
        }
        if next.contains(JsonTree::Text(id)) {
            let k = choose|k: int| 0 <= k < next.len() && next[k] == JsonTree::Text(id);
            assert(list[k] == id);
        }
        assert(both.contains(id) <==> list.contains(id));
    }
    assert(next.no_duplicates()) by {
        assert forall|a: int, b: int|
            0 <= a < next.len() && 0 <= b < next.len() && a != b implies next[a] != next[b] by {
            assert(list[a] != list[b]);
        }
    }
}

/// To name a job twice is to name it once.
pub proof fn law_repeated_names_count_once(ids: Seq<Seq<char>>)
    ensures
        jobs::once(ids).no_duplicates(),
        forall|id: Seq<char>| #[trigger] ids.contains(id) <==> jobs::once(ids).contains(id),
    decreases ids.len(),
{
    if ids.len() > 0 {
        let front = ids.drop_last();
        let last = ids.last();
        law_repeated_names_count_once(front);
        let before = jobs::once(front);
        let after = jobs::once(ids);
        assert forall|id: Seq<char>| #[trigger] ids.contains(id) <==> after.contains(id) by {
            if ids.contains(id) {
                let k = choose|k: int| 0 <= k < ids.len() && ids[k] == id;
                if k < front.len() {
                    assert(front[k] == id);
                    assert(front.contains(id));
                    let j = choose|j: int| 0 <= j < before.len() && before[j] == id;
                    assert(after[j] == id);
                } else if before.contains(last) {
                    assert(after.contains(id));
                } else {
                    assert(after[before.len() as int] == id);
                }
            }
            if after.contains(id) {
                let j = choose|j: int| 0 <= j < after.len() && after[j] == id;
                if j < before.len() {
                    assert(before[j] == id);
                    assert(front.contains(id));
                    let k = choose|k: int| 0 <= k < front.len() && front[k] == id;
                    assert(ids[k] == id);
                } else {
                    assert(ids[ids.len() - 1] == id);
                }
            }
        }
        assert forall|a: int, b: int|
            0 <= a < after.len() && 0 <= b < after.len() && a != b implies after[a] != after[b] by {
            if a < before.len() && b < before.len() {
                assert(before[a] != before[b]);
            } else if a < before.len() {
                assert(before[a] != last);
            } else {
                assert(before[b] != last);
            }
        }
    }
}

proof fn lemma_only(ids: Seq<Seq<char>>, wanted: Seq<Seq<char>>, id: Seq<char>)
    ensures
        jobs::only(ids, wanted).contains(id) <==> ids.contains(id) && wanted.contains(id),
    decreases ids.len(),
{
    if ids.len() > 0 {
        let front = ids.drop_last();
        lemma_only(front, wanted, id);
        lemma_push(front, ids.last(), id);
        assert(ids == front.push(ids.last()));
        lemma_push(jobs::only(front, wanted), ids.last(), id);
    }
}

proof fn lemma_settled(all: Jobs, ids: Seq<Seq<char>>, id: Seq<char>)
    ensures
        jobs::settled(all, ids).contains(id) <==> ids.contains(id) && !belongs(
            all,
            id,
            Group::Running,
        ),
    decreases ids.len(),
{
    if ids.len() > 0 {
        let front = ids.drop_last();
        lemma_settled(all, front, id);
        lemma_push(front, ids.last(), id);
        assert(ids == front.push(ids.last()));
        lemma_push(jobs::settled(all, front), ids.last(), id);
    }
}

proof fn lemma_push(list: Seq<Seq<char>>, last: Seq<char>, id: Seq<char>)
    ensures
        list.push(last).contains(id) <==> list.contains(id) || last == id,
{
    let after = list.push(last);
    if list.contains(id) {
        let k = choose|k: int| 0 <= k < list.len() && list[k] == id;
        assert(after[k] == id);
    }
    assert(after[list.len() as int] == last);
    if after.contains(id) && last != id {
        let k = choose|k: int| 0 <= k < after.len() && after[k] == id;
        assert(list[k] == id);
    }
}

/// A caller that waits for a list of jobs waits for those of them that have not ended.
pub proof fn law_open_jobs_are_waited_for(all: Jobs, ids: Seq<Seq<char>>, id: Seq<char>)
    ensures
        jobs::open_ids(all, ids).contains(id) <==> ids.contains(id) && belongs(
            all,
            id,
            Group::Running,
        ),
    decreases ids.len(),
{
    if ids.len() > 0 {
        let front = ids.drop_last();
        law_open_jobs_are_waited_for(all, front, id);
        lemma_push(front, ids.last(), id);
        assert(ids == front.push(ids.last()));
        lemma_push(jobs::open_ids(all, front), ids.last(), id);
    }
}

// ---------------------------------------------------------------------------
// Cleanup
// ---------------------------------------------------------------------------

/// A job expires a day after it has ended, and not before it has ended.
pub proof fn law_jobs_expire_after_a_day(job: JobView, now: i64)
    ensures
        job.status == JobStatus::Queued || job.status == JobStatus::Running ==> !jobs::is_expired(
            job,
            now,
        ),
        job.status != JobStatus::Queued && job.status != JobStatus::Running ==> (
        job.ended_at matches Some(end) ==> (jobs::is_expired(job, now) <==> now - end >= 24 * 60
            * 60 * 1000)),
        job.status != JobStatus::Queued && job.status != JobStatus::Running && job.ended_at is None
            ==> (jobs::is_expired(job, now) <==> now - job.created_at >= 24 * 60 * 60 * 1000),
{
}

/// A cleanup changes no job. It drops each job that has expired; where more than 20,000 would be
/// left it drops those that ended first, as many as there are over 20,000.
pub proof fn law_cleanup_drops_the_oldest(before: Jobs, after: Jobs, now: i64, id: Seq<char>)
    requires
        jobs::is_cleaned(before, after, now),
    ensures
        after.dom().contains(id) ==> before.dom().contains(id) && after[id] == before[id],
        before.dom().contains(id) && jobs::is_expired(before[id], now) ==> !after.dom().contains(
            id,
        ),
        before.dom().contains(id) && (before[id].status == JobStatus::Queued || before[id].status
            == JobStatus::Running) ==> after.dom().contains(id),
        before.dom().finite() && before.dom().len() <= 20_000 && before.dom().contains(id)
            && !jobs::is_expired(before[id], now) ==> after.dom().contains(id),
        forall|other: Seq<char>| #[trigger]
            before.dom().contains(other) && before.dom().contains(id) && !after.dom().contains(
                other,
            ) && !jobs::is_expired(before[other], now) && after.dom().contains(id)
                && jobs::has_ended(before[id].status) ==> jobs::end_of(before[other])
                <= jobs::end_of(before[id]),
{
    let list = choose|list: Seq<Seq<char>>| #[trigger]
        jobs::is_age_order(before, list) && after == before.remove_keys(
            jobs::removed_by(before, list, now),
        );
    let n = jobs::at_most(jobs::surplus(before, now), list.len() as int);
    let expired = jobs::expired_ids(before, now);
    let oldest = jobs::first_ids(list, n);
    assert(list.to_set() == jobs::ended_ids(before));
    assert forall|x: Seq<char>| #[trigger] oldest.contains(x) implies jobs::ended_ids(
        before,
    ).contains(x) by {
        let k = choose|k: int| 0 <= k < list.take(n).len() && list.take(n)[k] == x;
        assert(list[k] == x);
        assert(list.to_set().contains(x));
    }
    assert forall|other: Seq<char>| #[trigger]
        before.dom().contains(other) && before.dom().contains(id) && !after.dom().contains(other)
            && !jobs::is_expired(before[other], now) && after.dom().contains(id)
            && jobs::has_ended(before[id].status) implies jobs::end_of(before[other])
        <= jobs::end_of(before[id]) by {
        assert(oldest.contains(other));
        let k = choose|k: int| 0 <= k < list.take(n).len() && list.take(n)[k] == other;
        assert(list[k] == other);
        assert(jobs::ended_ids(before).contains(id));
        assert(list.to_set().contains(id));
        let j = choose|j: int| 0 <= j < list.len() && list[j] == id;
        if j < n {
            assert(list.take(n)[j] == id);
            assert(oldest.contains(id));
        }
        assert(k < j);
    }
}

/// A cleanup drops only what has expired where no more than 20,000 jobs are left by that; where
/// more would be left it leaves 20,000 of them at least.
pub proof fn law_cleanup_keeps_as_many_as_it_may(before: Jobs, after: Jobs, now: i64)
    requires
        before.dom().finite(),
        jobs::is_cleaned(before, after, now),
    ensures
        ({
            let expired = before.dom().filter(|id: Seq<char>| jobs::is_expired(before[id], now));
            &&& before.dom().len() - expired.len() > 20_000 ==> after.dom().len() >= 20_000
            &&& before.dom().len() - expired.len() <= 20_000 ==> after.dom()
                == before.dom().difference(expired)
        }),
{
    let list = choose|list: Seq<Seq<char>>| #[trigger]
        jobs::is_age_order(before, list) && after == before.remove_keys(
            jobs::removed_by(before, list, now),
        );
    let expired = jobs::expired_ids(before, now);
    let surplus = jobs::surplus(before, now);
    let n = jobs::at_most(surplus, list.len() as int);
    let oldest = jobs::first_ids(list, n);
    let removed = jobs::removed_by(before, list, now);
    assert(expired =~= before.dom().filter(|id: Seq<char>| jobs::is_expired(before[id], now)));
    assert(list.to_set() == jobs::ended_ids(before));
    if before.dom().len() - expired.len() > 20_000 {
        assert forall|id: Seq<char>| #[trigger] expired.contains(id) implies oldest.contains(id) by {
            assert(list.to_set().contains(id));
            let j = choose|j: int| 0 <= j < list.len() && list[j] == id;
            let start = list.take(j + 1);
            assert(start.no_duplicates());
            start.unique_seq_to_set();
            assert(start.to_set().subset_of(expired)) by {
                assert forall|x: Seq<char>| #[trigger] start.to_set().contains(x) implies
                    expired.contains(x) by {
                    let k = choose|k: int| 0 <= k < start.len() && start[k] == x;
                    assert(list[k] == x);
                    assert(list.to_set().contains(x));
                    if k < j {
                        assert(jobs::end_of(before[list[k]]) <= jobs::end_of(before[list[j]]));
                    }
                }
            }
            vstd::set_lib::lemma_len_subset(start.to_set(), expired);
            assert(list.take(n)[j] == id);
        }
        let start = list.take(n);
        assert(start.no_duplicates());
        start.unique_seq_to_set();
        assert(removed =~= oldest);
        assert forall|x: Seq<char>| #[trigger] oldest.contains(x) implies before.dom().contains(
            x,
        ) by {
            let k = choose|k: int| 0 <= k < start.len() && start[k] == x;
            assert(list[k] == x);
            assert(list.to_set().contains(x));
        }
        assert(after.dom() =~= before.dom().difference(oldest));
        assert(before.dom() =~= after.dom() + oldest);
        vstd::set_lib::lemma_set_disjoint_lens(after.dom(), oldest);
    } else {
        assert(list.take(0) =~= Seq::empty());
        assert(oldest =~= Set::empty());
        assert(removed =~= expired);
        assert(after.dom() =~= before.dom().difference(expired));
    }
}

/// A cleanup is due once a minute, and where 20,000 jobs are stored.
pub proof fn law_cleanup_is_due_each_minute(store: jobs::JobStore, now: i64)
    ensures
        jobs::cleanup_due(store, now) <==> store.jobs().dom().len() >= 20_000 || now
            - store.last_cleanup() >= 60 * 1000,
{
}

/// The statuses that are counted are those that the jobs have.
pub proof fn law_statuses_are_counted(
    stats: jobs::JobStoreStats,
    all: Jobs,
    ids: Set<Seq<char>>,
)
    requires
        jobs::counts_of(stats, all, ids),
    ensures
        stats.queued == ids.filter(|id: Seq<char>| all[id].status == JobStatus::Queued).len(),
        stats.running == ids.filter(|id: Seq<char>| all[id].status == JobStatus::Running).len(),
        stats.succeeded == ids.filter(|id: Seq<char>| all[id].status == JobStatus::Succeeded).len(),
        stats.failed == ids.filter(|id: Seq<char>| all[id].status == JobStatus::Failed).len(),
        stats.cancelled == ids.filter(|id: Seq<char>| all[id].status == JobStatus::Cancelled).len(),
{
    assert(ids.filter(|id: Seq<char>| all[id].status == JobStatus::Queued) =~= jobs::with_status(
        all,
        ids,
        JobStatus::Queued,
    ));
    assert(ids.filter(|id: Seq<char>| all[id].status == JobStatus::Running) =~= jobs::with_status(
        all,
        ids,
        JobStatus::Running,
    ));
    assert(ids.filter(|id: Seq<char>| all[id].status == JobStatus::Succeeded) =~= jobs::with_status(
        all,
        ids,
        JobStatus::Succeeded,
    ));
    assert(ids.filter(|id: Seq<char>| all[id].status == JobStatus::Failed) =~= jobs::with_status(
        all,
        ids,
        JobStatus::Failed,
    ));
    assert(ids.filter(|id: Seq<char>| all[id].status == JobStatus::Cancelled) =~= jobs::with_status(
        all,
        ids,
        JobStatus::Cancelled,
    ));
}

} // verus!
