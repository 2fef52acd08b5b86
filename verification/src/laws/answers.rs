//! What the clients of the server ask, and what they are told.

use vstd::prelude::*;
use vstd::string::*;

use crate::job_table::{JobStatus, JobView};
use crate::jobs;
use crate::json::JsonTree;
use crate::laws::results;
use crate::laws::texts;
use crate::logs::LogLevel;
use crate::mcp;
use crate::mcp::WorkdirState;
use crate::sessions;
use crate::sessions::{ChatJobView, ChatSessionDetail, ChatSummaryView};
use crate::text;

verus! {

/// The words of the answers are different ones.
proof fn lemma_history_words()
    ensures
        "job_id"@ != "status"@,
        "job_id"@ != "complete"@,
        "job_id"@ != "cwd"@,
        "job_id"@ != "prompt_preview"@,
        "job_id"@ != "created_at"@,
        "job_id"@ != "started_at"@,
        "job_id"@ != "ended_at"@,
        "job_id"@ != "output_recent"@,
        "job_id"@ != "output_truncated"@,
        "job_id"@ != "error"@,
        "job_id"@ != "root_job_id"@,
        "job_id"@ != "latest_job_id"@,
        "job_id"@ != "session_id"@,
        "job_id"@ != "workdir"@,
        "job_id"@ != "updated_at"@,
        "job_id"@ != "expires_at"@,
        "job_id"@ != "active_job_id"@,
        "job_id"@ != "job_count"@,
        "job_id"@ != "title"@,
        "job_id"@ != "resumable"@,
        "job_id"@ != "blocked_reason"@,
        "job_id"@ != "codex_context"@,
        "job_id"@ != "jobs"@,
        "job_id"@ != "parent_job_id"@,
        "job_id"@ != "prompt"@,
        "job_id"@ != "output"@,
        "job_id"@ != "tool"@,
        "status"@ != "complete"@,
        "status"@ != "cwd"@,
        "status"@ != "prompt_preview"@,
        "status"@ != "created_at"@,
        "status"@ != "started_at"@,
        "status"@ != "ended_at"@,
        "status"@ != "output_recent"@,
        "status"@ != "output_truncated"@,
        "status"@ != "error"@,
        "status"@ != "root_job_id"@,
        "status"@ != "latest_job_id"@,
        "status"@ != "session_id"@,
        "status"@ != "workdir"@,
        "status"@ != "updated_at"@,
        "status"@ != "expires_at"@,
        "status"@ != "active_job_id"@,
        "status"@ != "job_count"@,
        "status"@ != "title"@,
        "status"@ != "resumable"@,
        "status"@ != "blocked_reason"@,
        "status"@ != "codex_context"@,
        "status"@ != "jobs"@,
        "status"@ != "parent_job_id"@,
        "status"@ != "prompt"@,
        "status"@ != "output"@,
        "status"@ != "tool"@,
        "complete"@ != "cwd"@,
        "complete"@ != "prompt_preview"@,
        "complete"@ != "created_at"@,
        "complete"@ != "started_at"@,
        "complete"@ != "ended_at"@,
        "complete"@ != "output_recent"@,
        "complete"@ != "output_truncated"@,
        "complete"@ != "error"@,
        "complete"@ != "root_job_id"@,
        "complete"@ != "latest_job_id"@,
        "complete"@ != "session_id"@,
        "complete"@ != "workdir"@,
        "complete"@ != "updated_at"@,
        "complete"@ != "expires_at"@,
        "complete"@ != "active_job_id"@,
        "complete"@ != "job_count"@,
        "complete"@ != "title"@,
        "complete"@ != "resumable"@,
        "complete"@ != "blocked_reason"@,
        "complete"@ != "codex_context"@,
        "complete"@ != "jobs"@,
        "complete"@ != "parent_job_id"@,
        "complete"@ != "prompt"@,
        "complete"@ != "output"@,
        "complete"@ != "tool"@,
        "cwd"@ != "prompt_preview"@,
        "cwd"@ != "created_at"@,
        "cwd"@ != "started_at"@,
        "cwd"@ != "ended_at"@,
        "cwd"@ != "output_recent"@,
        "cwd"@ != "output_truncated"@,
        "cwd"@ != "error"@,
        "cwd"@ != "root_job_id"@,
        "cwd"@ != "latest_job_id"@,
        "cwd"@ != "session_id"@,
        "cwd"@ != "workdir"@,
        "cwd"@ != "updated_at"@,
        "cwd"@ != "expires_at"@,
        "cwd"@ != "active_job_id"@,
        "cwd"@ != "job_count"@,
        "cwd"@ != "title"@,
        "cwd"@ != "resumable"@,
        "cwd"@ != "blocked_reason"@,
        "cwd"@ != "codex_context"@,
        "cwd"@ != "jobs"@,
        "cwd"@ != "parent_job_id"@,
        "cwd"@ != "prompt"@,
        "cwd"@ != "output"@,
        "cwd"@ != "tool"@,
        "prompt_preview"@ != "created_at"@,
        "prompt_preview"@ != "started_at"@,
        "prompt_preview"@ != "ended_at"@,
        "prompt_preview"@ != "output_recent"@,
        "prompt_preview"@ != "output_truncated"@,
        "prompt_preview"@ != "error"@,
        "prompt_preview"@ != "root_job_id"@,
        "prompt_preview"@ != "latest_job_id"@,
        "prompt_preview"@ != "session_id"@,
        "prompt_preview"@ != "workdir"@,
        "prompt_preview"@ != "updated_at"@,
        "prompt_preview"@ != "expires_at"@,
        "prompt_preview"@ != "active_job_id"@,
        "prompt_preview"@ != "job_count"@,
        "prompt_preview"@ != "title"@,
        "prompt_preview"@ != "resumable"@,
        "prompt_preview"@ != "blocked_reason"@,
        "prompt_preview"@ != "codex_context"@,
        "prompt_preview"@ != "jobs"@,
        "prompt_preview"@ != "parent_job_id"@,
        "prompt_preview"@ != "prompt"@,
        "prompt_preview"@ != "output"@,
        "prompt_preview"@ != "tool"@,
        "created_at"@ != "started_at"@,
        "created_at"@ != "ended_at"@,
        "created_at"@ != "output_recent"@,
        "created_at"@ != "output_truncated"@,
        "created_at"@ != "error"@,
        "created_at"@ != "root_job_id"@,
        "created_at"@ != "latest_job_id"@,
        "created_at"@ != "session_id"@,
        "created_at"@ != "workdir"@,
        "created_at"@ != "updated_at"@,
        "created_at"@ != "expires_at"@,
        "created_at"@ != "active_job_id"@,
        "created_at"@ != "job_count"@,
        "created_at"@ != "title"@,
        "created_at"@ != "resumable"@,
        "created_at"@ != "blocked_reason"@,
        "created_at"@ != "codex_context"@,
        "created_at"@ != "jobs"@,
        "created_at"@ != "parent_job_id"@,
        "created_at"@ != "prompt"@,
        "created_at"@ != "output"@,
        "created_at"@ != "tool"@,
        "started_at"@ != "ended_at"@,
        "started_at"@ != "output_recent"@,
        "started_at"@ != "output_truncated"@,
        "started_at"@ != "error"@,
        "started_at"@ != "root_job_id"@,
        "started_at"@ != "latest_job_id"@,
        "started_at"@ != "session_id"@,
        "started_at"@ != "workdir"@,
        "started_at"@ != "updated_at"@,
        "started_at"@ != "expires_at"@,
        "started_at"@ != "active_job_id"@,
        "started_at"@ != "job_count"@,
        "started_at"@ != "title"@,
        "started_at"@ != "resumable"@,
        "started_at"@ != "blocked_reason"@,
        "started_at"@ != "codex_context"@,
        "started_at"@ != "jobs"@,
        "started_at"@ != "parent_job_id"@,
        "started_at"@ != "prompt"@,
        "started_at"@ != "output"@,
        "started_at"@ != "tool"@,
        "ended_at"@ != "output_recent"@,
        "ended_at"@ != "output_truncated"@,
        "ended_at"@ != "error"@,
        "ended_at"@ != "root_job_id"@,
        "ended_at"@ != "latest_job_id"@,
        "ended_at"@ != "session_id"@,
        "ended_at"@ != "workdir"@,
        "ended_at"@ != "updated_at"@,
        "ended_at"@ != "expires_at"@,
        "ended_at"@ != "active_job_id"@,
        "ended_at"@ != "job_count"@,
        "ended_at"@ != "title"@,
        "ended_at"@ != "resumable"@,
        "ended_at"@ != "blocked_reason"@,
        "ended_at"@ != "codex_context"@,
        "ended_at"@ != "jobs"@,
        "ended_at"@ != "parent_job_id"@,
        "ended_at"@ != "prompt"@,
        "ended_at"@ != "output"@,
        "ended_at"@ != "tool"@,
        "output_recent"@ != "output_truncated"@,
        "output_recent"@ != "error"@,
        "output_recent"@ != "root_job_id"@,
        "output_recent"@ != "latest_job_id"@,
        "output_recent"@ != "session_id"@,
        "output_recent"@ != "workdir"@,
        "output_recent"@ != "updated_at"@,
        "output_recent"@ != "expires_at"@,
        "output_recent"@ != "active_job_id"@,
        "output_recent"@ != "job_count"@,
        "output_recent"@ != "title"@,
        "output_recent"@ != "resumable"@,
        "output_recent"@ != "blocked_reason"@,
        "output_recent"@ != "codex_context"@,
        "output_recent"@ != "jobs"@,
        "output_recent"@ != "parent_job_id"@,
        "output_recent"@ != "prompt"@,
        "output_recent"@ != "output"@,
        "output_recent"@ != "tool"@,
        "output_truncated"@ != "error"@,
        "output_truncated"@ != "root_job_id"@,
        "output_truncated"@ != "latest_job_id"@,
        "output_truncated"@ != "session_id"@,
        "output_truncated"@ != "workdir"@,
        "output_truncated"@ != "updated_at"@,
        "output_truncated"@ != "expires_at"@,
        "output_truncated"@ != "active_job_id"@,
        "output_truncated"@ != "job_count"@,
        "output_truncated"@ != "title"@,
        "output_truncated"@ != "resumable"@,
        "output_truncated"@ != "blocked_reason"@,
        "output_truncated"@ != "codex_context"@,
        "output_truncated"@ != "jobs"@,
        "output_truncated"@ != "parent_job_id"@,
        "output_truncated"@ != "prompt"@,
        "output_truncated"@ != "output"@,
        "output_truncated"@ != "tool"@,
        "error"@ != "root_job_id"@,
        "error"@ != "latest_job_id"@,
        "error"@ != "session_id"@,
        "error"@ != "workdir"@,
        "error"@ != "updated_at"@,
        "error"@ != "expires_at"@,
        "error"@ != "active_job_id"@,
        "error"@ != "job_count"@,
        "error"@ != "title"@,
        "error"@ != "resumable"@,
        "error"@ != "blocked_reason"@,
        "error"@ != "codex_context"@,
        "error"@ != "jobs"@,
        "error"@ != "parent_job_id"@,
        "error"@ != "prompt"@,
        "error"@ != "output"@,
        "error"@ != "tool"@,
        "root_job_id"@ != "latest_job_id"@,
        "root_job_id"@ != "session_id"@,
        "root_job_id"@ != "workdir"@,
        "root_job_id"@ != "updated_at"@,
        "root_job_id"@ != "expires_at"@,
        "root_job_id"@ != "active_job_id"@,
        "root_job_id"@ != "job_count"@,
        "root_job_id"@ != "title"@,
        "root_job_id"@ != "resumable"@,
        "root_job_id"@ != "blocked_reason"@,
        "root_job_id"@ != "codex_context"@,
        "root_job_id"@ != "jobs"@,
        "root_job_id"@ != "parent_job_id"@,
        "root_job_id"@ != "prompt"@,
        "root_job_id"@ != "output"@,
        "root_job_id"@ != "tool"@,
        "latest_job_id"@ != "session_id"@,
        "latest_job_id"@ != "workdir"@,
        "latest_job_id"@ != "updated_at"@,
        "latest_job_id"@ != "expires_at"@,
        "latest_job_id"@ != "active_job_id"@,
        "latest_job_id"@ != "job_count"@,
        "latest_job_id"@ != "title"@,
        "latest_job_id"@ != "resumable"@,
        "latest_job_id"@ != "blocked_reason"@,
        "latest_job_id"@ != "codex_context"@,
        "latest_job_id"@ != "jobs"@,
        "latest_job_id"@ != "parent_job_id"@,
        "latest_job_id"@ != "prompt"@,
        "latest_job_id"@ != "output"@,
        "latest_job_id"@ != "tool"@,
        "session_id"@ != "workdir"@,
        "session_id"@ != "updated_at"@,
        "session_id"@ != "expires_at"@,
        "session_id"@ != "active_job_id"@,
        "session_id"@ != "job_count"@,
        "session_id"@ != "title"@,
        "session_id"@ != "resumable"@,
        "session_id"@ != "blocked_reason"@,
        "session_id"@ != "codex_context"@,
        "session_id"@ != "jobs"@,
        "session_id"@ != "parent_job_id"@,
        "session_id"@ != "prompt"@,
        "session_id"@ != "output"@,
        "session_id"@ != "tool"@,
        "workdir"@ != "updated_at"@,
        "workdir"@ != "expires_at"@,
        "workdir"@ != "active_job_id"@,
        "workdir"@ != "job_count"@,
        "workdir"@ != "title"@,
        "workdir"@ != "resumable"@,
        "workdir"@ != "blocked_reason"@,
        "workdir"@ != "codex_context"@,
        "workdir"@ != "jobs"@,
        "workdir"@ != "parent_job_id"@,
        "workdir"@ != "prompt"@,
        "workdir"@ != "output"@,
        "workdir"@ != "tool"@,
        "updated_at"@ != "expires_at"@,
        "updated_at"@ != "active_job_id"@,
        "updated_at"@ != "job_count"@,
        "updated_at"@ != "title"@,
        "updated_at"@ != "resumable"@,
        "updated_at"@ != "blocked_reason"@,
        "updated_at"@ != "codex_context"@,
        "updated_at"@ != "jobs"@,
        "updated_at"@ != "parent_job_id"@,
        "updated_at"@ != "prompt"@,
        "updated_at"@ != "output"@,
        "updated_at"@ != "tool"@,
        "expires_at"@ != "active_job_id"@,
        "expires_at"@ != "job_count"@,
        "expires_at"@ != "title"@,
        "expires_at"@ != "resumable"@,
        "expires_at"@ != "blocked_reason"@,
        "expires_at"@ != "codex_context"@,
        "expires_at"@ != "jobs"@,
        "expires_at"@ != "parent_job_id"@,
        "expires_at"@ != "prompt"@,
        "expires_at"@ != "output"@,
        "expires_at"@ != "tool"@,
        "active_job_id"@ != "job_count"@,
        "active_job_id"@ != "title"@,
        "active_job_id"@ != "resumable"@,
        "active_job_id"@ != "blocked_reason"@,
        "active_job_id"@ != "codex_context"@,
        "active_job_id"@ != "jobs"@,
        "active_job_id"@ != "parent_job_id"@,
        "active_job_id"@ != "prompt"@,
        "active_job_id"@ != "output"@,
        "active_job_id"@ != "tool"@,
        "job_count"@ != "title"@,
        "job_count"@ != "resumable"@,
        "job_count"@ != "blocked_reason"@,
        "job_count"@ != "codex_context"@,
        "job_count"@ != "jobs"@,
        "job_count"@ != "parent_job_id"@,
        "job_count"@ != "prompt"@,
        "job_count"@ != "output"@,
        "job_count"@ != "tool"@,
        "title"@ != "resumable"@,
        "title"@ != "blocked_reason"@,
        "title"@ != "codex_context"@,
        "title"@ != "jobs"@,
        "title"@ != "parent_job_id"@,
        "title"@ != "prompt"@,
        "title"@ != "output"@,
        "title"@ != "tool"@,
        "resumable"@ != "blocked_reason"@,
        "resumable"@ != "codex_context"@,
        "resumable"@ != "jobs"@,
        "resumable"@ != "parent_job_id"@,
        "resumable"@ != "prompt"@,
        "resumable"@ != "output"@,
        "resumable"@ != "tool"@,
        "blocked_reason"@ != "codex_context"@,
        "blocked_reason"@ != "jobs"@,
        "blocked_reason"@ != "parent_job_id"@,
        "blocked_reason"@ != "prompt"@,
        "blocked_reason"@ != "output"@,
        "blocked_reason"@ != "tool"@,
        "codex_context"@ != "jobs"@,
        "codex_context"@ != "parent_job_id"@,
        "codex_context"@ != "prompt"@,
        "codex_context"@ != "output"@,
        "codex_context"@ != "tool"@,
        "jobs"@ != "parent_job_id"@,
        "jobs"@ != "prompt"@,
        "jobs"@ != "output"@,
        "jobs"@ != "tool"@,
        "parent_job_id"@ != "prompt"@,
        "parent_job_id"@ != "output"@,
        "parent_job_id"@ != "tool"@,
        "prompt"@ != "output"@,
        "prompt"@ != "tool"@,
        "output"@ != "tool"@,
{
    reveal_strlit("job_id");
    reveal_strlit("status");
    reveal_strlit("complete");
    reveal_strlit("cwd");
    reveal_strlit("prompt_preview");
    reveal_strlit("created_at");
    reveal_strlit("started_at");
    reveal_strlit("ended_at");
    reveal_strlit("output_recent");
    reveal_strlit("output_truncated");
    reveal_strlit("error");
    reveal_strlit("root_job_id");
    reveal_strlit("latest_job_id");
    reveal_strlit("session_id");
    reveal_strlit("workdir");
    reveal_strlit("updated_at");
    reveal_strlit("expires_at");
    reveal_strlit("active_job_id");
    reveal_strlit("job_count");
    reveal_strlit("title");
    reveal_strlit("resumable");
    reveal_strlit("blocked_reason");
    reveal_strlit("codex_context");
    reveal_strlit("jobs");
    reveal_strlit("parent_job_id");
    reveal_strlit("prompt");
    reveal_strlit("output");
    reveal_strlit("tool");
    assert("job_id"@.len() == 6);
    assert("status"@.len() == 6);
    assert("complete"@.len() == 8);
    assert("cwd"@.len() == 3);
    assert("prompt_preview"@.len() == 14);
    assert("created_at"@.len() == 10);
    assert("started_at"@.len() == 10);
    assert("ended_at"@.len() == 8);
    assert("output_recent"@.len() == 13);
    assert("output_truncated"@.len() == 16);
    assert("error"@.len() == 5);
    assert("root_job_id"@.len() == 11);
    assert("latest_job_id"@.len() == 13);
    assert("session_id"@.len() == 10);
    assert("workdir"@.len() == 7);
    assert("updated_at"@.len() == 10);
    assert("expires_at"@.len() == 10);
    assert("active_job_id"@.len() == 13);
    assert("job_count"@.len() == 9);
    assert("title"@.len() == 5);
    assert("resumable"@.len() == 9);
    assert("blocked_reason"@.len() == 14);
    assert("codex_context"@.len() == 13);
    assert("jobs"@.len() == 4);
    assert("parent_job_id"@.len() == 13);
    assert("prompt"@.len() == 6);
    assert("output"@.len() == 6);
    assert("tool"@.len() == 4);
    assert("job_id"@[0] == 'j' && "status"@[0] == 's');
    assert("job_id"@[0] == 'j' && "prompt"@[0] == 'p');
    assert("job_id"@[0] == 'j' && "output"@[0] == 'o');
    assert("status"@[0] == 's' && "prompt"@[0] == 'p');
    assert("status"@[0] == 's' && "output"@[0] == 'o');
    assert("complete"@[0] == 'c' && "ended_at"@[0] == 'e');
    assert("prompt_preview"@[0] == 'p' && "blocked_reason"@[0] == 'b');
    assert("created_at"@[0] == 'c' && "started_at"@[0] == 's');
    assert("created_at"@[0] == 'c' && "session_id"@[0] == 's');
    assert("created_at"@[0] == 'c' && "updated_at"@[0] == 'u');
    assert("created_at"@[0] == 'c' && "expires_at"@[0] == 'e');
    assert("started_at"@[1] == 't' && "session_id"@[1] == 'e');
    assert("started_at"@[0] == 's' && "updated_at"@[0] == 'u');
    assert("started_at"@[0] == 's' && "expires_at"@[0] == 'e');
    assert("output_recent"@[0] == 'o' && "latest_job_id"@[0] == 'l');
    assert("output_recent"@[0] == 'o' && "active_job_id"@[0] == 'a');
    assert("output_recent"@[0] == 'o' && "codex_context"@[0] == 'c');
    assert("output_recent"@[0] == 'o' && "parent_job_id"@[0] == 'p');
    assert("error"@[0] == 'e' && "title"@[0] == 't');
    assert("latest_job_id"@[0] == 'l' && "active_job_id"@[0] == 'a');
    assert("latest_job_id"@[0] == 'l' && "codex_context"@[0] == 'c');
    assert("latest_job_id"@[0] == 'l' && "parent_job_id"@[0] == 'p');
    assert("session_id"@[0] == 's' && "updated_at"@[0] == 'u');
    assert("session_id"@[0] == 's' && "expires_at"@[0] == 'e');
    assert("updated_at"@[0] == 'u' && "expires_at"@[0] == 'e');
    assert("active_job_id"@[0] == 'a' && "codex_context"@[0] == 'c');
    assert("active_job_id"@[0] == 'a' && "parent_job_id"@[0] == 'p');
    assert("job_count"@[0] == 'j' && "resumable"@[0] == 'r');
    assert("codex_context"@[0] == 'c' && "parent_job_id"@[0] == 'p');
    assert("jobs"@[0] == 'j' && "tool"@[0] == 't');
    assert("prompt"@[0] == 'p' && "output"@[0] == 'o');
}

// ---------------------------------------------------------------------------
// Questions
// ---------------------------------------------------------------------------

/// A caller waits as long as it asks to, between a second and ten minutes, and a minute and a
/// half where it does not say.
pub proof fn law_waits_are_as_long_as_asked(requested: Option<u64>)
    ensures
        1 <= mcp::wait_seconds(requested) <= 600,
        requested is None ==> mcp::wait_seconds(requested) == 90,
        requested matches Some(n) ==> (1 <= n <= 600 ==> mcp::wait_seconds(requested) == n),
        requested matches Some(n) ==> (n == 0 ==> mcp::wait_seconds(requested) == 1),
        requested matches Some(n) ==> (n > 600 ==> mcp::wait_seconds(requested) == 600),
{
}

/// A caller that polls waits as long as it asks to, ten minutes at most, and three seconds where
/// it does not say. It may ask not to wait at all.
pub proof fn law_polls_are_as_long_as_asked(requested: Option<u64>)
    ensures
        mcp::poll_seconds(requested) <= 600,
        requested is None ==> mcp::poll_seconds(requested) == 3,
        requested matches Some(n) ==> (n <= 600 ==> mcp::poll_seconds(requested) == n),
        requested matches Some(n) ==> (n > 600 ==> mcp::poll_seconds(requested) == 600),
{
}

proof fn lemma_visible(ids: Seq<Seq<char>>, id: Seq<char>)
    ensures
        mcp::visible(ids).contains(id) <==> exists|i: int|
            0 <= i < ids.len() && !texts::all_white(#[trigger] ids[i]) && id == text::trimmed(ids[i]),
    decreases ids.len(),
{
    if ids.len() > 0 {
        let front = ids.drop_last();
        let last = ids.last();
        lemma_visible(front, id);
        texts::law_trimming_takes_off_white(last);
        let before = mcp::visible(front);
        let after = mcp::visible(ids);
        if before.contains(id) {
            let k = choose|k: int| 0 <= k < before.len() && before[k] == id;
            assert(after[k] == id);
            let i = choose|i: int|
                0 <= i < front.len() && !texts::all_white(#[trigger] front[i]) && id
                    == text::trimmed(front[i]);
            assert(ids[i] == front[i]);
        }
        if after.contains(id) && !before.contains(id) {
            let k = choose|k: int| 0 <= k < after.len() && after[k] == id;
            if k < before.len() {
                assert(before[k] == id);
            }
            assert(ids[ids.len() - 1] == last);
        }
        if exists|i: int|
            0 <= i < ids.len() && !texts::all_white(#[trigger] ids[i]) && id == text::trimmed(
                ids[i],
            ) {
            let i = choose|i: int|
                0 <= i < ids.len() && !texts::all_white(#[trigger] ids[i]) && id == text::trimmed(
                    ids[i],
                );
            if i < front.len() {
                assert(front[i] == ids[i]);
            } else {
                assert(after[after.len() - 1] == id);
            }
        }
    }
}

/// The jobs that a caller asks for are those that it names, without the white round the names,
/// each once, and without blank names.
pub proof fn law_callers_get_what_they_name(ids: Seq<Seq<char>>, id: Seq<char>)
    ensures
        mcp::meant_ids(ids).contains(id) <==> exists|i: int|
            0 <= i < ids.len() && !texts::all_white(#[trigger] ids[i]) && id == text::trimmed(ids[i]),
        mcp::meant_ids(ids).no_duplicates(),
{
    lemma_visible(ids, id);
    results::law_repeated_names_count_once(mcp::visible(ids));
    assert(mcp::visible(ids).contains(id) <==> jobs::once(mcp::visible(ids)).contains(id));
}

/// The jobs that are named stand in the order in which they were named first.
pub proof fn law_names_keep_their_order(ids: Seq<Seq<char>>, id: Seq<char>)
    ensures
        ({
            let before = mcp::meant_ids(ids);
            let after = mcp::meant_ids(ids.push(id));
            let name = text::trimmed(id);
            &&& texts::all_white(id) || before.contains(name) ==> after == before
            &&& !texts::all_white(id) && !before.contains(name) ==> after == before.push(name)
        }),
{
    assert(ids.push(id).drop_last() =~= ids);
    texts::law_trimming_takes_off_white(id);
    let seen = mcp::visible(ids);
    let name = text::trimmed(id);
    assert(seen.push(name).drop_last() =~= seen);
}

/// A list of names is refused just where it names no job, or more than may be named.
pub proof fn law_lists_are_refused(ids: Seq<Seq<char>>, max: usize)
    ensures
        mcp::ids_refusal(ids, max) is None <==> 0 < mcp::meant_ids(ids).len() <= max,
        mcp::meant_ids(ids).len() == 0 ==> mcp::ids_refusal(ids, max) == Some("job_ids 不能为空"@),
        mcp::meant_ids(ids).len() > max && mcp::meant_ids(ids).len() > 0 ==> mcp::ids_refusal(
            ids,
            max,
        ) == Some("一次最多处理 "@ + text::numeral(max as nat) + " 个任务"@),
        mcp::meant_ids(ids).len() == 0 <==> forall|i: int|
            0 <= i < ids.len() ==> texts::all_white(#[trigger] ids[i]),
{
    let meant = mcp::meant_ids(ids);
    if meant.len() > 0 {
        law_callers_get_what_they_name(ids, meant[0]);
        assert(meant.contains(meant[0]));
    } else {
        assert forall|i: int| 0 <= i < ids.len() implies texts::all_white(#[trigger] ids[i]) by {
            law_callers_get_what_they_name(ids, text::trimmed(ids[i]));
            if !texts::all_white(ids[i]) {
                assert(meant.contains(text::trimmed(ids[i])));
            }
        }
    }
}

/// A task runs in the directory that is asked for; where none is, in that of the server, and
/// where that is unknown in the current one.
pub proof fn law_tasks_run_where_asked(workdir: Option<Seq<char>>, current: Option<Seq<char>>)
    ensures
        ({
            let dir = mcp::chosen_dir(workdir, current);
            let is_asked = workdir is Some && !texts::all_white(workdir->0);
            &&& is_asked ==> Some(dir) == workdir
            &&& !is_asked && current is Some ==> Some(dir) == current
            &&& !is_asked && current is None ==> dir == "."@
        }),
{
    if workdir is Some {
        texts::law_trimming_takes_off_white(workdir->0);
    }
}

/// A directory is refused just where something else stands there or it cannot be looked at, and
/// the reason names it.
pub proof fn law_directories_are_refused(state: WorkdirState, cwd: Seq<char>)
    ensures
        mcp::workdir_refusal(state, cwd) is None <==> state is Directory || state is Missing,
        state is NoDirectory ==> mcp::workdir_refusal(state, cwd) == Some(
            "workdir 不是目录："@ + cwd,
        ),
        state matches WorkdirState::Unknown(error) ==> mcp::workdir_refusal(state, cwd) == Some(
            "无法访问 workdir "@ + cwd + "："@ + error@,
        ),
{
}

/// What is logged of a directory names it, and the tool that it is for.
pub proof fn law_directories_are_logged(
    level: LogLevel,
    summary: Seq<char>,
    tool: Seq<char>,
    cwd: Seq<char>,
)
    ensures
        ({
            let log = mcp::workdir_log(level, summary, tool, cwd);
            &&& log.level == level
            &&& log.summary == summary
            &&& log.source == "mcp"@
            &&& log.request_id is None
            &&& log.task_id is None
            &&& log.detail matches Some(detail) && detail.get("tool"@) == Some(JsonTree::Text(tool))
                && detail.get("workdir"@) == Some(JsonTree::Text(cwd))
        }),
{
    lemma_history_words();
}

/// A file is handed over with its name, and its first 80,000 characters where it is longer.
pub proof fn law_files_are_handed_over(files: Seq<(String, String)>, i: int)
    requires
        0 <= i < files.len(),
    ensures
        ({
            let file = files[i].0@;
            let content = files[i].1@;
            let blocks = mcp::file_blocks(files);
            &&& blocks.len() == files.len()
            &&& content.len() <= 80_000 ==> blocks[i] == "[File: "@ + file + "]\n"@ + content
                + "\n"@
            &&& content.len() > 80_000 ==> blocks[i] == "[File: "@ + file + "]\n"@ + (content.take(
                80_000,
            ) + "\n...[truncated]"@) + "\n"@
        }),
{
}

/// An amount is the one that is asked for, or else the usual one.
pub proof fn law_amounts_are_as_asked(requested: Option<usize>, usual: usize)
    ensures
        requested is None ==> mcp::amount(requested, usual) == usual,
        requested matches Some(n) ==> mcp::amount(requested, usual) == n,
{
}

// ---------------------------------------------------------------------------
// Answers
// ---------------------------------------------------------------------------

/// The status of a job says who the job is, how it went and the end of what it said.
pub proof fn law_the_status_tells_the_job(job: JobView, recent: nat)
    ensures
        ({
            let told = mcp::summary_tree(jobs::summary(job, recent));
            &&& told.get("job_id"@) == Some(JsonTree::Text(job.job_id))
            &&& told.get("status"@) == Some(JsonTree::Text(results::status_word(job.status)))
            &&& told.get("complete"@) == Some(
                JsonTree::Bool(job.status != JobStatus::Queued && job.status != JobStatus::Running),
            )
            &&& told.get("cwd"@) == Some(JsonTree::Text(job.cwd))
            &&& job.prompt.len() <= 500 ==> told.get("prompt_preview"@) == Some(
                JsonTree::Text(job.prompt),
            )
            &&& told.get("created_at"@) == Some(JsonTree::Integer(job.created_at as int))
            &&& told.get("started_at"@) == Some(results::time_or_null(job.started_at))
            &&& told.get("ended_at"@) == Some(results::time_or_null(job.ended_at))
            &&& told.get("output_recent"@) matches Some(JsonTree::Text(end)) && {
                &&& end.is_suffix_of(job.output)
                &&& job.output.len() <= recent ==> end == job.output
                &&& job.output.len() > recent ==> end.len() == recent
            }
            &&& told.get("output_truncated"@) == Some(JsonTree::Bool(job.output_truncated))
            &&& job.error matches Some(error) ==> told.get("error"@) == Some(JsonTree::Text(error))
            &&& job.error is None ==> told.get("error"@) == Some(JsonTree::Null)
        }),
{
    lemma_history_words();
    results::law_summaries_are_of_the_job(job, recent);
}

/// What is said of a job that is not known names it.
pub proof fn law_unknown_jobs_are_named(job_id: Seq<char>)
    ensures
        JsonTree::Object(mcp::not_found(job_id)).get("job_id"@) == Some(JsonTree::Text(job_id)),
        JsonTree::Object(mcp::not_found(job_id)).get("status"@) == Some(
            JsonTree::Text("not_found"@),
        ),
        JsonTree::Object(mcp::not_found(job_id)).get("error"@) == Some(
            JsonTree::Text("Unknown job_id"@),
        ),
{
    lemma_history_words();
}

/// A text as an answer gives it.
pub open spec fn text_or_null(said: Option<Seq<char>>) -> JsonTree {
    match said {
        Some(text) => JsonTree::Text(text),
        None => JsonTree::Null,
    }
}

/// Whether an answer tells what is shown of a session.
pub open spec fn tells_session(told: JsonTree, shown: ChatSummaryView) -> bool {
    &&& told.get("root_job_id"@) == Some(JsonTree::Text(shown.root_job_id))
    &&& told.get("latest_job_id"@) == Some(JsonTree::Text(shown.latest_job_id))
    &&& told.get("session_id"@) == Some(text_or_null(shown.session_id))
    &&& told.get("workdir"@) == Some(JsonTree::Text(shown.workdir))
    &&& told.get("status"@) == Some(JsonTree::Text(shown.status))
    &&& told.get("created_at"@) == Some(JsonTree::Integer(shown.created_at as int))
    &&& told.get("updated_at"@) == Some(JsonTree::Integer(shown.updated_at as int))
    &&& told.get("expires_at"@) == Some(JsonTree::Integer(shown.expires_at as int))
    &&& told.get("active_job_id"@) == Some(text_or_null(shown.active_job_id))
    &&& told.get("job_count"@) == Some(JsonTree::Integer(shown.job_count as int))
    &&& told.get("title"@) == Some(JsonTree::Text(shown.title))
    &&& told.get("resumable"@) == Some(JsonTree::Bool(shown.resumable))
    &&& told.get("blocked_reason"@) == Some(text_or_null(shown.blocked_reason))
}

/// Whether an answer tells a job of a session.
pub open spec fn tells_chat_job(told: JsonTree, job: ChatJobView) -> bool {
    &&& told.get("job_id"@) == Some(JsonTree::Text(job.job_id))
    &&& told.get("parent_job_id"@) == Some(text_or_null(job.parent_job_id))
    &&& told.get("prompt"@) == Some(JsonTree::Text(job.prompt))
    &&& told.get("status"@) == Some(JsonTree::Text(job.status))
    &&& told.get("created_at"@) == Some(JsonTree::Integer(job.created_at as int))
    &&& told.get("started_at"@) == Some(results::time_or_null(job.started_at))
    &&& told.get("ended_at"@) == Some(results::time_or_null(job.ended_at))
    &&& told.get("output"@) == Some(text_or_null(job.output))
    &&& told.get("error"@) == Some(text_or_null(job.error))
}

proof fn lemma_chat_job(job: ChatJobView)
    ensures
        tells_chat_job(mcp::chat_job_tree(job), job),
{
    lemma_history_words();
}

/// The history of a session tells the session, the account of it, and each of its jobs in order:
/// what was asked and what came of it.
pub proof fn law_histories_tell_every_job(detail: ChatSessionDetail)
    ensures
        ({
            let told = mcp::detail_tree(detail);
            &&& tells_session(told, detail.summary@)
            &&& told.get("codex_context"@) == Some(JsonTree::Text(detail.codex_context@))
            &&& told.get("jobs"@) matches Some(JsonTree::Array(items)) && {
                &&& items.len() == detail.jobs@.len()
                &&& forall|i: int|
                    0 <= i < items.len() ==> tells_chat_job(
                        #[trigger] items[i],
                        detail.jobs@[i]@,
                    )
            }
        }),
{
    lemma_history_words();
    let views = sessions::job_views(detail.jobs@);
    let told = mcp::detail_tree(detail);
    let items = told.get("jobs"@)->0->Array_0;
    assert forall|i: int| 0 <= i < items.len() implies tells_chat_job(
        #[trigger] items[i],
        detail.jobs@[i]@,
    ) by {
        lemma_chat_job(views[i]);
    }
}

} // verus!
