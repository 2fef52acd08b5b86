//! What becomes of a chat session: how it is created, continued, changed, shown and kept.

use vstd::prelude::*;
use vstd::string::*;

use crate::job_table::JobStatus;
use crate::order;
use crate::sessions;
use crate::sessions::{
    ChatJobView, ChatSessionDetail, ChatSessionsSnapshot, ChatSummaryView, ContinueTarget,
    JobChange, SessionError, SessionFault, SessionView, Sessions, SessionsView,
};
use crate::text;

verus! {

/// A text as a session stores it: whole, or its first 40,000 characters and three dots.
pub open spec fn stored_text(text: Seq<char>) -> Seq<char> {
    if text.len() <= 40_000 {
        text
    } else {
        text.take(40_000) + "..."@
    }
}

/// When what was changed at a time expires: thirty days later.
pub open spec fn thirty_days_after(now: i64) -> int {
    if now + 30 * 24 * 60 * 60 * 1000 <= i64::MAX {
        now + 30 * 24 * 60 * 60 * 1000
    } else {
        i64::MAX as int
    }
}

/// Whether a job of a session is one that waits to be run with a prompt.
pub open spec fn waits_with(
    job: ChatJobView,
    job_id: Seq<char>,
    parent: Option<Seq<char>>,
    prompt: Seq<char>,
    now: i64,
) -> bool {
    &&& job.job_id == job_id
    &&& job.parent_job_id == parent
    &&& job.prompt == stored_text(prompt)
    &&& job.status == "queued"@
    &&& job.created_at == now
    &&& job.started_at is None
    &&& job.ended_at is None
    &&& job.output is None
    &&& job.error is None
}

/// A session is created with one job, whose prompt is the one that was given, and which is the
/// first, the latest and the running one. It expires thirty days later.
pub proof fn law_sessions_begin_with_one_job(
    job_id: Seq<char>,
    prompt: Seq<char>,
    workdir: Seq<char>,
    now: i64,
)
    ensures
        ({
            let session = sessions::new_session(job_id, prompt, workdir, now);
            &&& session.jobs.len() == 1
            &&& waits_with(session.jobs[0], job_id, None, prompt, now)
            &&& session.root_job_id == job_id
            &&& session.latest_job_id == job_id
            &&& session.active_job_id == Some(job_id)
            &&& session.session_id is None
            &&& session.workdir == workdir
            &&& session.status == "queued"@
            &&& session.created_at == now
            &&& session.updated_at == now
            &&& session.expires_at == thirty_days_after(now)
        }),
{
}

/// A continuation adds one job to the session, behind those that it has, whose prompt is the
/// one that was given, and which follows the latest job. All that was said before stays, and so
/// do all other sessions. What is run is told the same.
pub proof fn law_a_continuation_adds_one_job(
    before: SessionsView,
    after: SessionsView,
    source: Seq<char>,
    job_id: Seq<char>,
    prompt: Seq<char>,
    workdir: Option<Seq<char>>,
    now: i64,
    result: Result<ContinueTarget, SessionError>,
)
    requires
        sessions::is_continuation(before, after, source, job_id, prompt, workdir, now, result),
        result is Ok,
    ensures
        after.updated_at == now,
        ({
            let left = sessions::kept(before.sessions, now);
            &&& after.sessions.len() == left.len()
            &&& sessions::root_of(left, source) matches Some(at) && {
                let old = left[at].1;
                let new = after.sessions[at].1;
                let told = result->Ok_0;
                &&& 0 <= at < left.len()
                &&& after.sessions[at].0 == left[at].0
                &&& forall|i: int|
                    0 <= i < left.len() && i != at ==> (#[trigger] after.sessions[i]) == left[i]
                &&& new.jobs.len() == old.jobs.len() + 1
                &&& forall|i: int|
                    0 <= i < old.jobs.len() ==> (#[trigger] new.jobs[i]) == old.jobs[i]
                &&& waits_with(new.jobs.last(), job_id, Some(old.latest_job_id), prompt, now)
                &&& new.latest_job_id == job_id
                &&& new.active_job_id == Some(job_id)
                &&& new.status == "queued"@
                &&& new.root_job_id == old.root_job_id
                &&& new.session_id == old.session_id
                &&& new.created_at == old.created_at
                &&& new.updated_at == now
                &&& new.expires_at == thirty_days_after(now)
                &&& workdir is None ==> new.workdir == old.workdir
                &&& workdir matches Some(dir) ==> new.workdir == dir
                &&& told.root_job_id@ == left[at].0
                &&& told.parent_job_id@ == old.latest_job_id
                &&& old.session_id == Some(told.session_id@)
                &&& told.workdir@ == new.workdir
                &&& told.expires_at == new.expires_at
            }
        }),
{
}

/// The job that continues a session has the prompt that the first job of a session would have.
pub proof fn law_prompts_are_stored_alike(
    session: SessionView,
    job_id: Seq<char>,
    prompt: Seq<char>,
    workdir: Option<Seq<char>>,
    dir: Seq<char>,
    now: i64,
)
    ensures
        sessions::continued(session, job_id, prompt, workdir, now).jobs.last().prompt
            == sessions::new_session(job_id, prompt, dir, now).jobs[0].prompt,
        prompt.len() <= 40_000 ==> sessions::continued(
            session,
            job_id,
            prompt,
            workdir,
            now,
        ).jobs.last().prompt == prompt,
{
}

/// A continuation is refused just where the job is unknown, its session has expired or runs, or
/// the agent gave it no identifier, and a refusal changes nothing but that it drops expired
/// sessions.
pub proof fn law_continuations_are_refused(
    before: SessionsView,
    after: SessionsView,
    source: Seq<char>,
    job_id: Seq<char>,
    prompt: Seq<char>,
    workdir: Option<Seq<char>>,
    now: i64,
    result: Result<ContinueTarget, SessionError>,
)
    requires
        sessions::is_continuation(before, after, source, job_id, prompt, workdir, now, result),
    ensures
        ({
            let left = sessions::kept(before.sessions, now);
            let found = sessions::root_of(left, source);
            let session = left[found->0].1;
            &&& result is Err <==> found is None || session.expires_at <= now
                || session.active_job_id is Some || session.session_id is None
            &&& result matches Err(error) ==> {
                &&& after.sessions == left
                &&& after.updated_at == before.updated_at
                &&& error@ matches SessionFault::UnknownJob(id) ==> found is None && id == source
                &&& found is None ==> error@ is UnknownJob
                &&& error@ is Expired <==> found is Some && session.expires_at <= now
                &&& error@ matches SessionFault::Running(id) ==> session.active_job_id == Some(id)
                &&& error@ is Running <==> found is Some && session.expires_at > now
                    && session.active_job_id is Some
                &&& error@ is NoSession <==> found is Some && session.expires_at > now
                    && session.active_job_id is None && session.session_id is None
            }
        }),
{
}

/// Whether nothing but one job of one session has changed, and nothing of who the job is and
/// what it was asked, nor of where the session belongs.
pub open spec fn changes_one_job(
    before: SessionsView,
    after: SessionsView,
    at: int,
    place: int,
    now: i64,
) -> bool {
    let old = before.sessions[at].1;
    let new = after.sessions[at].1;
    &&& after.updated_at == now
    &&& after.sessions.len() == before.sessions.len()
    &&& forall|i: int|
        0 <= i < before.sessions.len() && i != at ==> (#[trigger] after.sessions[i])
            == before.sessions[i]
    &&& after.sessions[at].0 == before.sessions[at].0
    &&& new.jobs.len() == old.jobs.len()
    &&& forall|i: int|
        0 <= i < old.jobs.len() && i != place ==> (#[trigger] new.jobs[i]) == old.jobs[i]
    &&& new.jobs[place].job_id == old.jobs[place].job_id
    &&& new.jobs[place].parent_job_id == old.jobs[place].parent_job_id
    &&& new.jobs[place].prompt == old.jobs[place].prompt
    &&& new.jobs[place].created_at == old.jobs[place].created_at
    &&& new.root_job_id == old.root_job_id
    &&& new.latest_job_id == old.latest_job_id
    &&& new.workdir == old.workdir
    &&& new.created_at == old.created_at
}

/// A job that starts is noted as running since then, and so is its session.
pub proof fn law_started_jobs_run(
    data: SessionsView,
    job_id: Seq<char>,
    started: i64,
    now: i64,
    at: int,
    place: int,
)
    requires
        sessions::root_of(data.sessions, job_id) == Some(at),
        place == sessions::job_place(data.sessions[at].1.jobs, job_id),
        place < data.sessions[at].1.jobs.len(),
    ensures
        ({
            let after = sessions::with_change(data, job_id, JobChange::Started(started), now);
            let old = data.sessions[at].1;
            let new = after.sessions[at].1;
            &&& changes_one_job(data, after, at, place, now)
            &&& new.jobs[place].status == "running"@
            &&& new.jobs[place].started_at == Some(started)
            &&& new.jobs[place].ended_at == old.jobs[place].ended_at
            &&& new.jobs[place].output == old.jobs[place].output
            &&& new.jobs[place].error == old.jobs[place].error
            &&& new.status == "running"@
            &&& new.updated_at == started
            &&& new.expires_at == old.expires_at
            &&& new.active_job_id == old.active_job_id
            &&& new.session_id == old.session_id
        }),
{
}

/// The identifier that the agent gives is noted in the session, and nothing else is.
pub proof fn law_identifiers_are_noted(
    data: SessionsView,
    job_id: Seq<char>,
    session_id: Seq<char>,
    time: i64,
    now: i64,
    at: int,
    place: int,
)
    requires
        sessions::root_of(data.sessions, job_id) == Some(at),
        place == sessions::job_place(data.sessions[at].1.jobs, job_id),
        place < data.sessions[at].1.jobs.len(),
    ensures
        ({
            let after = sessions::with_change(
                data,
                job_id,
                JobChange::Attached(session_id, time),
                now,
            );
            let old = data.sessions[at].1;
            let new = after.sessions[at].1;
            &&& changes_one_job(data, after, at, place, now)
            &&& new.jobs[place] == old.jobs[place]
            &&& new.session_id == Some(session_id)
            &&& new.status == old.status
            &&& new.updated_at == time
            &&& new.expires_at == old.expires_at
            &&& new.active_job_id == old.active_job_id
        }),
{
}

/// A job that has ended keeps what it said and why it failed, and its session can be continued
/// for thirty days from then on, unless another of its jobs runs.
pub proof fn law_ended_jobs_keep_what_they_said(
    data: SessionsView,
    job_id: Seq<char>,
    status: JobStatus,
    output: Option<Seq<char>>,
    error: Option<Seq<char>>,
    ended: i64,
    now: i64,
    at: int,
    place: int,
)
    requires
        sessions::root_of(data.sessions, job_id) == Some(at),
        place == sessions::job_place(data.sessions[at].1.jobs, job_id),
        place < data.sessions[at].1.jobs.len(),
    ensures
        ({
            let after = sessions::with_change(
                data,
                job_id,
                JobChange::Finished(status, output, error, ended),
                now,
            );
            let old = data.sessions[at].1;
            let new = after.sessions[at].1;
            let label = match status {
                JobStatus::Queued => "queued"@,
                JobStatus::Running => "running"@,
                JobStatus::Succeeded => "succeeded"@,
                JobStatus::Failed => "failed"@,
                JobStatus::Cancelled => "cancelled"@,
            };
            &&& changes_one_job(data, after, at, place, now)
            &&& new.jobs[place].status == label
            &&& new.jobs[place].started_at == old.jobs[place].started_at
            &&& new.jobs[place].ended_at == Some(ended)
            &&& output is None <==> new.jobs[place].output is None
            &&& output matches Some(said) ==> new.jobs[place].output == Some(stored_text(said))
            &&& error is None <==> new.jobs[place].error is None
            &&& error matches Some(reason) ==> new.jobs[place].error == Some(stored_text(reason))
            &&& new.status == label
            &&& new.updated_at == ended
            &&& new.expires_at == thirty_days_after(ended)
            &&& old.active_job_id == Some(job_id) ==> new.active_job_id is None
            &&& old.active_job_id != Some(job_id) ==> new.active_job_id == old.active_job_id
            &&& new.session_id == old.session_id
        }),
{
    lemma_place(data.sessions[at].1.jobs, job_id);
}

/// The place of a job is the first at which its identifier stands, if it stands anywhere.
pub proof fn law_jobs_stand_where_their_identifier_does(jobs: Seq<ChatJobView>, job_id: Seq<char>)
    ensures
        ({
            let place = sessions::job_place(jobs, job_id) as int;
            &&& place <= jobs.len()
            &&& place < jobs.len() ==> jobs[place].job_id == job_id
            &&& forall|i: int| 0 <= i < place ==> (#[trigger] jobs[i]).job_id != job_id
        }),
{
    lemma_place(jobs, job_id);
}

proof fn lemma_place(jobs: Seq<ChatJobView>, job_id: Seq<char>)
    ensures
        sessions::job_place(jobs, job_id) <= jobs.len(),
        sessions::job_place(jobs, job_id) < jobs.len() ==> jobs[sessions::job_place(
            jobs,
            job_id,
        ) as int].job_id == job_id,
        forall|i: int|
            0 <= i < sessions::job_place(jobs, job_id) ==> (#[trigger] jobs[i]).job_id != job_id,
    decreases jobs.len(),
{
    if jobs.len() > 0 && jobs[0].job_id != job_id {
        let rest = jobs.skip(1);
        lemma_place(rest, job_id);
        assert forall|i: int| 0 <= i < sessions::job_place(jobs, job_id) implies (
        #[trigger] jobs[i]).job_id != job_id by {
            if i > 0 {
                assert(rest[i - 1] == jobs[i]);
            }
        }
    }
}

/// A session stays at a cleanup just where it has not expired or one of its jobs runs. Those
/// that stay are as they were, in their order.
pub proof fn law_cleanup_drops_what_has_expired(
    data: Sessions,
    now: i64,
    entry: (Seq<char>, SessionView),
)
    ensures
        sessions::kept(data, now).contains(entry) <==> data.contains(entry) && (
        entry.1.expires_at > now || entry.1.active_job_id is Some),
    decreases data.len(),
{
    if data.len() > 0 {
        let front = data.drop_last();
        law_cleanup_drops_what_has_expired(front, now, entry);
        assert(data == front.push(data.last()));
        if data.contains(entry) && entry != data.last() {
            let i = choose|i: int| 0 <= i < data.len() && data[i] == entry;
            assert(front[i] == entry);
        }
        if front.contains(entry) {
            let i = choose|i: int| 0 <= i < front.len() && front[i] == entry;
            assert(data[i] == entry);
        }
        assert(data[data.len() - 1] == data.last());
        let before = sessions::kept(front, now);
        let after = sessions::kept(data, now);
        if before.contains(entry) {
            let i = choose|i: int| 0 <= i < before.len() && before[i] == entry;
            assert(after[i] == entry);
        }
        if after.contains(entry) && entry != data.last() {
            let i = choose|i: int| 0 <= i < after.len() && after[i] == entry;
            assert(before[i] == entry);
        }
        if after.len() > before.len() {
            assert(after[after.len() - 1] == data.last());
        }
    }
}

/// The sessions that stay at a cleanup stand in their order.
pub proof fn law_kept_sessions_stay_in_order(
    data: Sessions,
    entry: (Seq<char>, SessionView),
    now: i64,
)
    ensures
        entry.1.expires_at > now || entry.1.active_job_id is Some ==> sessions::kept(
            data.push(entry),
            now,
        ) == sessions::kept(data, now).push(entry),
        entry.1.expires_at <= now && entry.1.active_job_id is None ==> sessions::kept(
            data.push(entry),
            now,
        ) == sessions::kept(data, now),
        sessions::kept(Seq::empty(), now).len() == 0,
{
    assert(data.push(entry).drop_last() =~= data);
}

/// The account tells the jobs in their order.
pub proof fn law_accounts_follow_the_jobs(
    name: Seq<char>,
    jobs: Seq<ChatJobView>,
    n: nat,
)
    requires
        n < jobs.len(),
    ensures
        sessions::history_lines(name, jobs, 0).len() == 0,
        sessions::history_lines(name, jobs, n).is_prefix_of(
            sessions::history_lines(name, jobs, n + 1),
        ),
        sessions::history_lines(name, jobs, n + 1).skip(
            sessions::history_lines(name, jobs, n).len() as int,
        ) == sessions::job_lines(name, n as int, jobs[n as int]),
{
    let before = sessions::history_lines(name, jobs, n);
    let after = sessions::history_lines(name, jobs, n + 1);
    let own = sessions::job_lines(name, n as int, jobs[n as int]);
    assert(after == before + own);
    assert(before =~= after.subrange(0, before.len() as int));
    assert(after.skip(before.len() as int) =~= own);
}

/// What is shown of a session is what it holds, with the beginning of its first prompt as the
/// title, and whether it can be continued, with the reason where it cannot.
pub proof fn law_sessions_are_shown_as_they_are(session: SessionView, now: i64)
    ensures
        ({
            let shown = sessions::summarized(session, now);
            &&& shown.root_job_id == session.root_job_id
            &&& shown.latest_job_id == session.latest_job_id
            &&& shown.session_id == session.session_id
            &&& shown.workdir == session.workdir
            &&& shown.status == session.status
            &&& shown.created_at == session.created_at
            &&& shown.updated_at == session.updated_at
            &&& shown.expires_at == session.expires_at
            &&& shown.active_job_id == session.active_job_id
            &&& shown.job_count == session.jobs.len()
            &&& session.jobs.len() == 0 ==> shown.title == "未命名任务"@
            &&& session.jobs.len() > 0 && session.jobs[0].prompt.len() <= 140 ==> shown.title
                == session.jobs[0].prompt
            &&& session.jobs.len() > 0 && session.jobs[0].prompt.len() > 140 ==> shown.title
                == session.jobs[0].prompt.take(140) + "..."@
            &&& shown.resumable <==> session.expires_at > now && session.active_job_id is None
                && session.session_id is Some
            &&& shown.resumable <==> shown.blocked_reason is None
            &&& session.expires_at <= now ==> shown.blocked_reason == Some("聊天记录已过期"@)
            &&& session.expires_at > now ==> (session.active_job_id matches Some(id)
                ==> shown.blocked_reason == Some("任务运行中："@ + id))
            &&& session.expires_at > now && session.active_job_id is None && session.session_id
                is None ==> shown.blocked_reason == Some("没有可恢复的 Agent SDK session"@)
        }),
{
}

/// All sessions are shown, each once, those that changed last first.
pub proof fn law_latest_sessions_are_shown_first(
    snapshot: ChatSessionsSnapshot,
    data: SessionsView,
    now: i64,
    i: int,
)
    requires
        sessions::is_snapshot(snapshot, data, now),
        0 <= i < data.sessions.len(),
    ensures
        snapshot.updated_at == data.updated_at,
        snapshot.sessions@.len() == data.sessions.len(),
        exists|k: int|
            0 <= k < snapshot.sessions@.len() && (#[trigger] snapshot.sessions@[k])@
                == sessions::summarized(data.sessions[i].1, now),
        forall|a: int, b: int|
            0 <= a < b < snapshot.sessions@.len() ==> (#[trigger] snapshot.sessions@[a])@.updated_at
                >= (#[trigger] snapshot.sessions@[b])@.updated_at,
{
    let order = choose|order: Seq<usize>| #[trigger]
        sessions::shows_sessions(snapshot.sessions@, data.sessions, now, order);
    let n = data.sessions.len();
    let times = sessions::change_times(data.sessions);
    order::lemma_arrangement_covers(order, n, i);
    let k = choose|k: int| 0 <= k < n && order[k] == i;
    assert(snapshot.sessions@[k]@ == sessions::summarized(data.sessions[i].1, now));
    assert forall|a: int, b: int| 0 <= a < b < snapshot.sessions@.len() implies (
    #[trigger] snapshot.sessions@[a])@.updated_at >= (
    #[trigger] snapshot.sessions@[b])@.updated_at by {
        assert(order::comes_before(times, true, order[a] as int, order[b] as int));
        assert(order[a] < n && order[b] < n);
    }
}

// ---------------------------------------------------------------------------
// The account of a session
// ---------------------------------------------------------------------------

proof fn lemma_lines_stand_in_text(lines: Seq<Seq<char>>, separator: Seq<char>, i: int) -> (at: int)
    requires
        0 <= i < lines.len(),
    ensures
        text::stands_at(text::joined(lines, separator), lines[i], at),
        i + 1 < lines.len() ==> text::stands_at(
            text::joined(lines, separator),
            lines[i] + separator + lines[i + 1],
            at,
        ),
        i == lines.len() - 1 ==> at + lines[i].len() == text::joined(lines, separator).len(),
    decreases lines.len(),
{
    let whole = text::joined(lines, separator);
    if lines.len() == 1 {
        assert(whole.subrange(0, lines[0].len() as int) =~= lines[0]);
        0
    } else {
        let front = lines.drop_last();
        let head = text::joined(front, separator);
        if i < front.len() {
            let at = lemma_lines_stand_in_text(front, separator, i);
            assert(front[i] == lines[i]);
            assert(whole.subrange(at, at + lines[i].len()) =~= head.subrange(
                at,
                at + lines[i].len(),
            ));
            if i + 1 < front.len() {
                let pair = lines[i] + separator + lines[i + 1];
                assert(front[i + 1] == lines[i + 1]);
                assert(whole.subrange(at, at + pair.len()) =~= head.subrange(at, at + pair.len()));
            } else {
                let pair = lines[i] + separator + lines[i + 1];
                assert(head.subrange(at, at + lines[i].len()) =~= head.skip(at));
                assert(whole.subrange(at, at + pair.len()) =~= pair);
            }
            at
        } else {
            let at = (head + separator).len() as int;
            assert(whole.subrange(at, at + lines[i].len()) =~= lines[i]);
            at
        }
    }
}

proof fn lemma_history(name: Seq<char>, jobs: Seq<ChatJobView>, n: nat, i: int) -> (at: int)
    requires
        0 <= i < n <= jobs.len(),
    ensures
        0 <= at,
        at + sessions::job_lines(name, i, jobs[i]).len() <= sessions::history_lines(
            name,
            jobs,
            n,
        ).len(),
        forall|k: int|
            0 <= k < sessions::job_lines(name, i, jobs[i]).len() ==> sessions::history_lines(
                name,
                jobs,
                n,
            )[at + k] == #[trigger] sessions::job_lines(name, i, jobs[i])[k],
    decreases n,
{
    let front = sessions::history_lines(name, jobs, (n - 1) as nat);
    if i < n - 1 {
        lemma_history(name, jobs, (n - 1) as nat, i)
    } else {
        front.len() as int
    }
}

/// What the lines of a job are.
proof fn lemma_job_lines(name: Seq<char>, index: int, job: ChatJobView)
    ensures
        ({
            let own = sessions::job_lines(name, index, job);
            let asked: int = if job.parent_job_id is Some {
                2
            } else {
                1
            };
            &&& own.len() > asked + 3
            &&& own[0] == "### 第 "@ + text::numeral((index + 1) as nat) + " 轮 · "@ + job.status
                + " · "@ + job.job_id
            &&& job.parent_job_id matches Some(parent) ==> own[1] == "- parent_job_id: "@ + parent
            &&& own[asked] == "- 用户要求:"@
            &&& own[asked + 1] == job.prompt
            &&& job.error matches Some(error) ==> own[asked + 2] == "- "@ + name + " 错误:"@
                && own[asked + 3] == error
            &&& job.error is None ==> (job.output matches Some(output) ==> own[asked + 2] == "- "@
                + name + " 回复:"@ && own[asked + 3] == output)
            &&& job.error is None && job.output is None ==> own[asked + 2] == "- "@ + name
                + " 回复: 任务尚未完成。"@
        }),
{
}

/// Where an account is not cut, each line of a job stands in it, with the next behind it.
proof fn lemma_own_line(
    name: Seq<char>,
    summary: ChatSummaryView,
    jobs: Seq<ChatJobView>,
    i: int,
    k: int,
)
    requires
        0 <= i < jobs.len(),
        0 <= k < sessions::job_lines(name, i, jobs[i]).len(),
        sessions::context(name, summary, jobs).len() <= 80_000,
    ensures
        ({
            let account = sessions::context(name, summary, jobs);
            let own = sessions::job_lines(name, i, jobs[i]);
            &&& text::has_text(account, own[k])
            &&& k + 1 < own.len() ==> text::has_text(account, own[k] + "\n"@ + own[k + 1])
        }),
{
    let head = sessions::head_lines(name, summary);
    let history = sessions::history_lines(name, jobs, jobs.len());
    let tail = sessions::advice_lines();
    let lines = head + history + tail;
    let account = sessions::context(name, summary, jobs);
    let own = sessions::job_lines(name, i, jobs[i]);
    let at = lemma_history(name, jobs, jobs.len(), i);
    let start = head.len() + at;
    reveal_strlit("...");
    assert(account == text::joined(lines, "\n"@));
    assert(history[at + k] == own[k]);
    assert(lines[start + k] == own[k]);
    let p = lemma_lines_stand_in_text(lines, "\n"@, start + k);
    assert(text::stands_at(account, own[k], p));
    if k + 1 < own.len() {
        assert(history[at + (k + 1)] == own[k + 1]);
        assert(lines[start + k + 1] == own[k + 1]);
        assert(text::stands_at(account, own[k] + "\n"@ + own[k + 1], p));
    }
}

/// The account of a session that is given to another agent is never much longer than 80,000
/// characters. Where it is not cut, it holds for each job who it is, what was asked and what
/// came of it: the error of one that has an error, else the reply.
pub proof fn law_accounts_tell_every_job(
    name: Seq<char>,
    summary: ChatSummaryView,
    jobs: Seq<ChatJobView>,
    i: int,
)
    requires
        0 <= i < jobs.len(),
    ensures
        ({
            let account = sessions::context(name, summary, jobs);
            let job = jobs[i];
            &&& account.len() <= 80_003
            &&& account.len() <= 80_000 ==> {
                &&& text::has_text(
                    account,
                    "### 第 "@ + text::numeral((i + 1) as nat) + " 轮 · "@ + job.status + " · "@
                        + job.job_id,
                )
                &&& text::has_text(account, "- 用户要求:"@ + "\n"@ + job.prompt)
                &&& job.parent_job_id matches Some(parent) ==> text::has_text(
                    account,
                    "- parent_job_id: "@ + parent,
                )
                &&& job.error is None && job.output is None ==> text::has_text(
                    account,
                    "- "@ + name + " 回复: 任务尚未完成。"@,
                )
                &&& job.error matches Some(error) ==> text::has_text(
                    account,
                    ("- "@ + name + " 错误:"@) + "\n"@ + error,
                )
                &&& job.error is None ==> (job.output matches Some(output) ==> text::has_text(
                    account,
                    ("- "@ + name + " 回复:"@) + "\n"@ + output,
                ))
            }
        }),
{
    let account = sessions::context(name, summary, jobs);
    let own = sessions::job_lines(name, i, jobs[i]);
    let job = jobs[i];
    let asked: int = if job.parent_job_id is Some {
        2
    } else {
        1
    };
    reveal_strlit("...");
    if account.len() <= 80_000 {
        lemma_job_lines(name, i, job);
        lemma_own_line(name, summary, jobs, i, 0);
        lemma_own_line(name, summary, jobs, i, 1);
        lemma_own_line(name, summary, jobs, i, asked);
        lemma_own_line(name, summary, jobs, i, asked + 2);
    }
}

/// The account begins with the session: its jobs, its directory, its status and whether it can
/// be continued.
pub proof fn law_accounts_tell_the_session(
    name: Seq<char>,
    summary: ChatSummaryView,
    jobs: Seq<ChatJobView>,
)
    ensures
        ({
            let account = sessions::context(name, summary, jobs);
            account.len() <= 80_000 ==> {
                &&& text::has_text(account, "# "@ + name + " MCP 任务上下文"@)
                &&& text::has_text(account, "## 历史轮次"@)
                &&& text::has_text(account, "## Codex 续聊建议"@)
                &&& text::has_text(account, "- root_job_id: "@ + summary.root_job_id)
                &&& text::has_text(account, "- latest_job_id: "@ + summary.latest_job_id)
                &&& text::has_text(account, "- workdir: "@ + summary.workdir)
                &&& text::has_text(account, "- status: "@ + summary.status)
                &&& summary.resumable ==> text::has_text(account, "- resumable: "@ + "true"@)
                &&& !summary.resumable ==> text::has_text(account, "- resumable: "@ + "false"@)
                &&& text::has_text(
                    account,
                    "- expires_at: "@ + text::signed_numeral(summary.expires_at as int),
                )
                &&& summary.session_id matches Some(id) ==> text::has_text(
                    account,
                    "- session_id: "@ + id,
                )
                &&& summary.blocked_reason matches Some(reason) ==> text::has_text(
                    account,
                    "- blocked_reason: "@ + reason,
                )
            }
        }),
{
    let head = sessions::head_lines(name, summary);
    let lines = head + sessions::history_lines(name, jobs, jobs.len())
        + sessions::advice_lines();
    let account = sessions::context(name, summary, jobs);
    reveal_strlit("...");
    if account.len() <= 80_000 {
        assert(account == text::joined(lines, "\n"@));
        assert forall|k: int| 0 <= k < head.len() implies text::has_text(
            account,
            #[trigger] head[k],
        ) by {
            let at = lemma_lines_stand_in_text(lines, "\n"@, k);
            assert(lines[k] == head[k]);
            assert(text::stands_at(account, head[k], at));
        }
        let tail = sessions::advice_lines();
        let last = lemma_lines_stand_in_text(lines, "\n"@, lines.len() - 2);
        assert(lines[lines.len() - 2] == tail[0]);
        assert(tail[0] == "## Codex 续聊建议"@);
        assert(text::stands_at(account, tail[0], last));
        assert(head[0] == "# "@ + name + " MCP 任务上下文"@);
        assert(head[head.len() - 1] == "## 历史轮次"@);
        assert(head[1] == "- root_job_id: "@ + summary.root_job_id);
        assert(head[2] == "- latest_job_id: "@ + summary.latest_job_id);
        assert(head[3] == "- workdir: "@ + summary.workdir);
        assert(head[4] == "- status: "@ + summary.status);
        assert(head[5] == "- resumable: "@ + (if summary.resumable {
            "true"@
        } else {
            "false"@
        }));
        assert(head[6] == "- expires_at: "@ + text::signed_numeral(summary.expires_at as int));
        let more: int = if summary.session_id is Some {
            1
        } else {
            0
        };
        if summary.session_id is Some {
            assert(head[7] == "- session_id: "@ + summary.session_id->0);
        }
        if summary.blocked_reason is Some {
            assert(head[7 + more] == "- blocked_reason: "@ + summary.blocked_reason->0);
        }
    }
}

/// Each refusal says why, and names the job that it is about.
pub proof fn law_refusals_say_why(id: Seq<char>)
    ensures
        sessions::fault_text(SessionFault::UnknownJob(id)) == "找不到可续聊的 job_id："@ + id,
        sessions::fault_text(SessionFault::Expired) == "聊天记录已过期，无法继续"@,
        sessions::fault_text(SessionFault::Running(id)) == "当前 session 正在运行："@ + id
            + "，请等待完成或取消后再继续"@,
        sessions::fault_text(SessionFault::NoSession)
            == "这个 job 没有可恢复的 Agent SDK session，无法继续"@,
        sessions::fault_text(SessionFault::Gone) == "聊天记录不存在或已被清理"@,
        sessions::fault_text(SessionFault::Busy(id)) == "当前 session 正在运行："@ + id
            + "，请完成或取消后再删除"@,
{
}

// ---------------------------------------------------------------------------
// Cleanup, deletion and details
// ---------------------------------------------------------------------------

proof fn lemma_kept_all(data: Sessions, now: i64)
    ensures
        sessions::kept(data, now).len() <= data.len(),
        sessions::kept(data, now).len() == data.len() <==> forall|i: int|
            0 <= i < data.len() ==> (#[trigger] data[i]).1.expires_at > now
                || data[i].1.active_job_id is Some,
    decreases data.len(),
{
    if data.len() > 0 {
        let front = data.drop_last();
        lemma_kept_all(front, now);
        assert forall|i: int| 0 <= i < front.len() implies front[i] == #[trigger] data[i] by {
        }
        assert(data[data.len() - 1] == data.last());
        if sessions::kept(data, now).len() == data.len() {
            assert forall|i: int| 0 <= i < data.len() implies (#[trigger] data[i]).1.expires_at
                > now || data[i].1.active_job_id is Some by {
                if i < front.len() {
                    assert(front[i] == data[i]);
                }
            }
        }
        if forall|i: int|
            0 <= i < data.len() ==> (#[trigger] data[i]).1.expires_at > now
                || data[i].1.active_job_id is Some {
            assert forall|i: int| 0 <= i < front.len() implies (#[trigger] front[i]).1.expires_at
                > now || front[i].1.active_job_id is Some by {
                assert(front[i] == data[i]);
            }
        }
    }
}

/// A cleanup that finds nothing to drop changes nothing; one that drops a session notes when it
/// did.
pub proof fn law_cleanup_notes_what_it_drops(data: SessionsView, now: i64)
    ensures
        sessions::has_expired(data, now) <==> exists|i: int|
            0 <= i < data.sessions.len() && (#[trigger] data.sessions[i]).1.expires_at <= now
                && data.sessions[i].1.active_job_id is None,
        !sessions::has_expired(data, now) ==> sessions::cleaned(data, now) == data,
        sessions::has_expired(data, now) ==> sessions::cleaned(data, now).updated_at == now
            && sessions::cleaned(data, now).sessions == sessions::kept(data.sessions, now),
        sessions::pruned(data, now).updated_at == data.updated_at,
        sessions::pruned(data, now).sessions == sessions::kept(data.sessions, now),
{
    lemma_kept_all(data.sessions, now);
}

/// A session is deleted where it is there and none of its jobs runs; else the user is told what
/// stands in the way, and nothing changes.
pub proof fn law_deletions_are_refused(
    before: SessionsView,
    after: SessionsView,
    job_id: Seq<char>,
    now: i64,
    result: Result<ChatSessionsSnapshot, SessionError>,
)
    requires
        sessions::is_deletion(before, after, job_id, now, result),
    ensures
        ({
            let found = sessions::root_of(before.sessions, job_id);
            let active = before.sessions[found->0].1.active_job_id;
            &&& result is Ok <==> found is Some && active is None
            &&& result matches Err(error) ==> after == before && (found is None ==> error@
                == SessionFault::Gone) && (found is Some ==> error@ == SessionFault::Busy(
                active->0,
            ))
            &&& result matches Ok(snapshot) ==> {
                &&& after.updated_at == now
                &&& sessions::is_snapshot(snapshot, after, now)
                &&& after.sessions.len() < before.sessions.len()
            }
        }),
{
    if result is Ok {
        let at = sessions::root_of(before.sessions, job_id)->0;
        lemma_kept_all(before.sessions.remove(at), now);
    }
}

/// What is shown of a session in detail is the session, its jobs, or as many of the last of them
/// as were asked for, and the account of these.
pub proof fn law_details_are_of_the_session(
    name: Seq<char>,
    detail: Option<ChatSessionDetail>,
    data: Sessions,
    job_id: Seq<char>,
    limit: Option<usize>,
    now: i64,
)
    requires
        sessions::is_detail(name, detail, data, job_id, limit, now),
    ensures
        detail is Some <==> sessions::root_of(data, job_id) is Some,
        detail matches Some(shown) ==> {
            let session = data[sessions::root_of(data, job_id)->0].1;
            let jobs = sessions::job_views(shown.jobs@);
            &&& shown.summary@ == sessions::summarized(session, now)
            &&& shown.codex_context@ == sessions::context(name, shown.summary@, jobs)
            &&& limit is None ==> jobs == session.jobs
            &&& limit matches Some(n) ==> (n == 0 || n >= session.jobs.len() ==> jobs
                == session.jobs)
            &&& limit matches Some(n) ==> (0 < n < session.jobs.len() ==> jobs.len() == n
                && forall|i: int|
                0 <= i < n ==> (#[trigger] jobs[i]) == session.jobs[session.jobs.len() - n + i])
        },
{
}

/// No session is there at first.
pub proof fn law_no_session_is_there_at_first()
    ensures
        sessions::no_sessions().sessions.len() == 0,
        sessions::no_sessions().updated_at == 0,
        sessions::stored_view(None) == sessions::no_sessions(),
{
}

} // verus!
