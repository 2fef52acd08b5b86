//! The table in which jobs are kept, a `dashmap::DashMap` from identifiers to jobs.

use vstd::prelude::*;
use vstd::string::*;

use crate::text;

verus! {

/// `dashmap::DashMap`, a map.
#[verifier::external_type_specification]
#[verifier::external_body]
#[verifier::reject_recursive_types(K)]
#[verifier::reject_recursive_types(V)]
#[verifier::reject_recursive_types(S)]
pub struct ExDashMap<K, V, S>(dashmap::DashMap<K, V, S>);

/// Where a job stands.
#[derive(Debug, Clone, Copy, PartialEq, Eq, Structural)]
pub enum JobStatus {
    Queued,
    Running,
    Succeeded,
    Failed,
    Cancelled,
}

/// A job. Times are in milliseconds since the epoch.
#[derive(Debug)]
pub struct JobRecord {
    pub job_id: String,
    pub prompt: String,
    pub cwd: String,
    pub created_at: i64,
    pub started_at: Option<i64>,
    pub ended_at: Option<i64>,
    pub status: JobStatus,
    pub output: String,
    pub output_truncated: bool,
    pub error: Option<String>,
}

/// What a job says.
#[verifier::ext_equal]
pub struct JobView {
    pub job_id: Seq<char>,
    pub prompt: Seq<char>,
    pub cwd: Seq<char>,
    pub created_at: i64,
    pub started_at: Option<i64>,
    pub ended_at: Option<i64>,
    pub status: JobStatus,
    pub output: Seq<char>,
    pub output_truncated: bool,
    pub error: Option<Seq<char>>,
}

impl View for JobRecord {
    type V = JobView;

    open spec fn view(&self) -> JobView {
        JobView {
            job_id: self.job_id@,
            prompt: self.prompt@,
            cwd: self.cwd@,
            created_at: self.created_at,
            started_at: self.started_at,
            ended_at: self.ended_at,
            status: self.status,
            output: self.output@,
            output_truncated: self.output_truncated,
            error: text::option_text(self.error),
        }
    }
}

/// A table of jobs.
pub type JobTable = dashmap::DashMap<String, JobRecord, std::hash::RandomState>;

/// Jobs by their identifiers.
pub type Jobs = Map<Seq<char>, JobView>;

/// No jobs.
pub open spec fn no_jobs() -> Jobs {
    Map::empty()
}

/// The jobs that a table holds.
pub uninterp spec fn jobs_in(table: JobTable) -> Jobs;

/// `dashmap::DashMap::new` makes an empty table.
#[verifier::external_body]
pub(crate) fn new_table() -> (table: JobTable)
    ensures
        jobs_in(table) == no_jobs(),
{
    dashmap::DashMap::new()
}

/// `dashmap::DashMap::len` counts the jobs.
#[verifier::external_body]
pub(crate) fn count_jobs(table: &JobTable) -> (count: usize)
    ensures
        count == jobs_in(*table).dom().len(),
{
    table.len()
}

/// `dashmap::DashMap::insert` keeps a job under an identifier, in the place of the one that
/// was there.
#[verifier::external_body]
pub(crate) fn put_job(table: &mut JobTable, job_id: String, job: JobRecord)
    ensures
        jobs_in(*final(table)) == jobs_in(*old(table)).insert(job_id@, job@),
{
    table.insert(job_id, job);
}

/// `dashmap::DashMap::remove` takes the job with an identifier out, where there is one.
#[verifier::external_body]
pub(crate) fn take_job(table: &mut JobTable, job_id: &str) -> (job: Option<JobRecord>)
    ensures
        jobs_in(*final(table)) == jobs_in(*old(table)).remove(job_id@),
        match job {
            Some(j) => jobs_in(*old(table)).dom().contains(job_id@) && j@ == jobs_in(
                *old(table),
            )[job_id@],
            None => !jobs_in(*old(table)).dom().contains(job_id@),
        },
{
    table.remove(job_id).map(|(_, job)| job)
}

/// `dashmap::DashMap::get` looks the job with an identifier up. What `read` makes of it is
/// handed on.
#[verifier::external_body]
pub(crate) fn read_job<R, F: Fn(&JobRecord) -> R>(table: &JobTable, job_id: &str, read: F) -> (
    result: Option<R>)
    requires
        forall|job: &JobRecord| #[trigger] call_requires(read, (job,)),
    ensures
        match result {
            Some(r) => jobs_in(*table).dom().contains(job_id@) && exists|job: JobRecord|
                (#[trigger] job@) == jobs_in(*table)[job_id@] && call_ensures(read, (&job,), r),
            None => !jobs_in(*table).dom().contains(job_id@),
        },
{
    table.get(job_id).map(|entry| read(entry.value()))
}

/// `dashmap::DashMap::iter` gives the identifiers of all jobs, each of them once, in no
/// particular order.
#[verifier::external_body]
pub(crate) fn list_jobs(table: &JobTable) -> (ids: Vec<String>)
    ensures
        text::texts(ids@).no_duplicates(),
        text::texts(ids@).to_set() == jobs_in(*table).dom(),
{
    table.iter().map(|entry| entry.key().clone()).collect()
}

} // verus!
