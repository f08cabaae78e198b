//! Batch export queue: export jobs run one at a time, oldest first.

use vstd::prelude::*;
use crate::project::{is_uuid_v4_text, new_uuid_v4_text};
use crate::text::str_equals;
use crate::float_bits::{f32_clamp, f32_clamp_bits};

verus! {

/// Status of an export job.
#[derive(Debug, Clone, Copy, PartialEq, Eq, Structural)]
pub enum JobStatus {
    Queued,
    Running,
    Completed,
    Failed,
    Cancelled,
}

/// A single export job in the batch queue.
#[derive(Debug)]
pub struct ExportJob {
    pub id: String,
    pub name: String,
    /// Project file path to export.
    pub project_path: String,
    /// Output file path.
    pub output_path: String,
    /// Export preset name.
    pub preset: String,
    pub status: JobStatus,
    /// Progress (0.0 to 1.0 while running), as the bits of an `f32`.
    pub progress_bits: u32,
    /// Error message if failed.
    pub error: Option<String>,
    /// Submitted at (Unix epoch ms).
    pub submitted_at_ms: u64,
    /// Started at (Unix epoch ms), if running or done.
    pub started_at_ms: Option<u64>,
    /// Completed at (Unix epoch ms), if completed, failed or cancelled.
    pub completed_at_ms: Option<u64>,
}

/// The bits of the `f32` 0.0.
pub open spec fn progress_zero() -> u32 {
    0u32
}

/// The bits of the `f32` 1.0.
pub open spec fn progress_one() -> u32 {
    0x3F80_0000u32
}

/// The contents of an export job.
pub struct JobView {
    pub id: Seq<char>,
    pub name: Seq<char>,
    pub project_path: Seq<char>,
    pub output_path: Seq<char>,
    pub preset: Seq<char>,
    pub status: JobStatus,
    pub progress_bits: u32,
    pub error: Option<Seq<char>>,
    pub submitted_at_ms: u64,
    pub started_at_ms: Option<u64>,
    pub completed_at_ms: Option<u64>,
}

/// The text of an optional text.
pub open spec fn opt_text(s: Option<String>) -> Option<Seq<char>> {
    match s {
        Some(t) => Some(t@),
        None => None,
    }
}

impl ExportJob {
    /// The contents of the job.
    pub open spec fn view_of(self) -> JobView {
        JobView {
            id: self.id@,
            name: self.name@,
            project_path: self.project_path@,
            output_path: self.output_path@,
            preset: self.preset@,
            status: self.status,
            progress_bits: self.progress_bits,
            error: opt_text(self.error),
            submitted_at_ms: self.submitted_at_ms,
            started_at_ms: self.started_at_ms,
            completed_at_ms: self.completed_at_ms,
        }
    }

    /// A copy of the job.
    pub fn copy(&self) -> (r: ExportJob)
        ensures
            r.view_of() == self.view_of(),
    {
        ExportJob {
            id: self.id.clone(),
            name: self.name.clone(),
            project_path: self.project_path.clone(),
            output_path: self.output_path.clone(),
            preset: self.preset.clone(),
            status: self.status,
            progress_bits: self.progress_bits,
            error: match &self.error {
                Some(e) => Some(e.clone()),
                None => None,
            },
            submitted_at_ms: self.submitted_at_ms,
            started_at_ms: self.started_at_ms,
            completed_at_ms: self.completed_at_ms,
        }
    }
}

/// The contents of a list of jobs.
pub open spec fn jobs_view(jobs: Seq<ExportJob>) -> Seq<JobView> {
    Seq::new(jobs.len(), |i: int| jobs[i].view_of())
}

/// The position of the first job of `s` that satisfies `p` (the length
/// when none does).
pub open spec fn first_index(s: Seq<JobView>, p: spec_fn(JobView) -> bool) -> int
    decreases s.len(),
{
    if s.len() == 0 {
        0
    } else if first_index(s.drop_last(), p) < s.len() - 1 {
        first_index(s.drop_last(), p)
    } else if p(s.last()) {
        s.len() - 1
    } else {
        s.len() as int
    }
}

/// The job is waiting to run.
pub open spec fn is_queued(j: JobView) -> bool {
    j.status == JobStatus::Queued
}

/// The position of the oldest queued job (the length when none is queued).
pub open spec fn first_queued(s: Seq<JobView>) -> int {
    first_index(s, |j: JobView| is_queued(j))
}

/// The position of the first job with this id.
pub open spec fn position_of_id(s: Seq<JobView>, id: Seq<char>) -> int {
    first_index(s, |j: JobView| j.id == id)
}

/// The position of the first running job with this id.
pub open spec fn running_position(s: Seq<JobView>, id: Seq<char>) -> int {
    first_index(s, |j: JobView| j.id == id && j.status == JobStatus::Running)
}

/// The position of the first queued or running job with this id.
pub open spec fn cancellable_position(s: Seq<JobView>, id: Seq<char>) -> int {
    first_index(s, |j: JobView| j.id == id && (j.status == JobStatus::Queued || j.status == JobStatus::Running))
}

/// The job has finished: completed, failed or cancelled.
pub open spec fn is_finished(status: JobStatus) -> bool {
    status == JobStatus::Completed || status == JobStatus::Failed || status == JobStatus::Cancelled
}

/// How many jobs have `status`.
pub open spec fn count_status(s: Seq<JobView>, status: JobStatus) -> nat
    decreases s.len(),
{
    if s.len() == 0 {
        0
    } else {
        count_status(s.drop_last(), status) + if s.last().status == status { 1nat } else { 0nat }
    }
}

/// The jobs that have not finished, in queue order.
pub open spec fn unfinished(s: Seq<JobView>) -> Seq<JobView>
    decreases s.len(),
{
    if s.len() == 0 {
        Seq::empty()
    } else if is_finished(s.last().status) {
        unfinished(s.drop_last())
    } else {
        unfinished(s.drop_last()).push(s.last())
    }
}

proof fn lemma_first_index(s: Seq<JobView>, p: spec_fn(JobView) -> bool)
    ensures
        0 <= first_index(s, p) <= s.len(),
        first_index(s, p) < s.len() ==> p(s[first_index(s, p)]),
        forall|j: int| 0 <= j < first_index(s, p) ==> !p(#[trigger] s[j]),
    decreases s.len(),
{
    if s.len() > 0 {
        let u = s.drop_last();
        lemma_first_index(u, p);
        assert forall|j: int| 0 <= j < first_index(s, p) implies !p(#[trigger] s[j]) by {
            if j < s.len() - 1 {
                assert(u[j] == s[j]);
            }
        }
    }
}

proof fn lemma_first_index_unique(s: Seq<JobView>, p: spec_fn(JobView) -> bool, k: int)
    requires
        0 <= k <= s.len(),
        k < s.len() ==> p(s[k]),
        forall|j: int| 0 <= j < k ==> !p(#[trigger] s[j]),
    ensures
        first_index(s, p) == k,
{
    lemma_first_index(s, p);
    let q = first_index(s, p);
    if q < k {
        assert(!p(s[q]));
    } else if k < q {
        assert(!p(s[k]));
    }
}

/// The state of the queue: its jobs in submission order, and whether a stop
/// was requested.
pub struct QueueView {
    pub jobs: Seq<JobView>,
    pub stop_requested: bool,
}

/// The batch export queue.
pub struct BatchExportQueue {
    jobs: Vec<ExportJob>,
    /// Set to stop the queue after the current job.
    stop_requested: bool,
}

impl View for BatchExportQueue {
    type V = QueueView;

    closed spec fn view(&self) -> QueueView {
        QueueView { jobs: jobs_view(self.jobs@), stop_requested: self.stop_requested }
    }
}

/// `std::time::SystemTime`, carried through opaquely.
#[verifier::external_type_specification]
#[verifier::external_body]
pub struct ExSystemTime(std::time::SystemTime);

/// `std::time::SystemTimeError`, carried through opaquely.
#[verifier::external_type_specification]
#[verifier::external_body]
pub struct ExSystemTimeError(std::time::SystemTimeError);

/// `SystemTime::now`: the clock. Nothing is promised of it.
#[verifier::external_body]
fn system_time_now() -> std::time::SystemTime {
    std::time::SystemTime::now()
}

/// `SystemTime::duration_since(UNIX_EPOCH)`: the time since the epoch, or
/// an error for a clock set before it. Nothing is promised of it.
#[verifier::external_body]
fn since_unix_epoch(t: &std::time::SystemTime) -> Result<std::time::Duration, std::time::SystemTimeError> {
    t.duration_since(std::time::UNIX_EPOCH)
}

/// `Duration::as_millis`: the whole milliseconds of a duration (opaque
/// here, so nothing is promised of the number).
#[verifier::external_body]
fn duration_as_millis(d: &std::time::Duration) -> u128 {
    d.as_millis()
}

/// The current Unix time in milliseconds (0 for a clock before the epoch).
fn unix_millis_now() -> u64 {
    let now = system_time_now();
    match since_unix_epoch(&now) {
        Ok(d) => duration_as_millis(&d) as u64,
        Err(_) => 0,
    }
}

impl BatchExportQueue {
    /// An empty queue, not stopped.
    pub fn new() -> (r: Self)
        ensures
            r@.jobs.len() == 0,
            !r@.stop_requested,
    {
        let r = BatchExportQueue { jobs: Vec::new(), stop_requested: false };
        assert(r@.jobs =~= Seq::<JobView>::empty());
        r
    }

    /// Adds a job to the end of the queue with a fresh id, status queued,
    /// no progress and the current time as submission time; returns the id.
    pub fn enqueue(&mut self, job: ExportJob) -> (r: String)
        ensures
            is_uuid_v4_text(r@),
            final(self)@.stop_requested == old(self)@.stop_requested,
            final(self)@.jobs.len() == old(self)@.jobs.len() + 1,
            final(self)@.jobs.drop_last() == old(self)@.jobs,
            final(self)@.jobs.last() == (JobView {
                id: r@,
                status: JobStatus::Queued,
                progress_bits: progress_zero(),
                submitted_at_ms: final(self)@.jobs.last().submitted_at_ms,
                ..job.view_of()
            }),
    {
        let mut job = job;
        job.id = new_uuid_v4_text();
        job.status = JobStatus::Queued;
        job.progress_bits = 0;
        job.submitted_at_ms = unix_millis_now();
        let id = job.id.clone();
        let ghost old_jobs = self.jobs@;
        self.jobs.push(job);
        assert(jobs_view(self.jobs@).drop_last() =~= jobs_view(old_jobs));
        id
    }

    /// Takes the oldest queued job, marks it running (with the current time
    /// as start) and returns a copy; `None` when a stop was requested or no
    /// job is queued.
    pub fn dequeue_next(&mut self) -> (r: Option<ExportJob>)
        ensures
            final(self)@.stop_requested == old(self)@.stop_requested,
            old(self)@.stop_requested || first_queued(old(self)@.jobs) == old(self)@.jobs.len() ==> r is None
                && final(self)@.jobs == old(self)@.jobs,
            !old(self)@.stop_requested && first_queued(old(self)@.jobs) < old(self)@.jobs.len() ==> final(self)@.jobs
                == old(self)@.jobs.update(first_queued(old(self)@.jobs), JobView {
                    status: JobStatus::Running,
                    started_at_ms: final(self)@.jobs[first_queued(old(self)@.jobs)].started_at_ms,
                    ..old(self)@.jobs[first_queued(old(self)@.jobs)]
                }),
            !old(self)@.stop_requested && first_queued(old(self)@.jobs) < old(self)@.jobs.len() ==> final(self)@.jobs[first_queued(old(self)@.jobs)].started_at_ms is Some,
            !old(self)@.stop_requested && first_queued(old(self)@.jobs) < old(self)@.jobs.len() ==> (r matches Some(j)
                && j.view_of() == final(self)@.jobs[first_queued(old(self)@.jobs)]),
    {
        let ghost v = self@.jobs;
        let ghost p = |j: JobView| is_queued(j);
        proof {
            lemma_first_index(v, p);
        }
        if self.stop_requested {
            return None;
        }
        let mut i: usize = 0;
        while i < self.jobs.len()
            invariant
                v == jobs_view(self.jobs@),
                self.jobs@ == old(self).jobs@,
                self.stop_requested == old(self).stop_requested,
                p == (|j: JobView| is_queued(j)),
                !self.stop_requested,
                i <= self.jobs@.len(),
                forall|j: int| 0 <= j < i ==> !p(#[trigger] v[j]),
            decreases self.jobs@.len() - i,
        {
            if self.jobs[i].status == JobStatus::Queued {
                proof {
                    lemma_first_index_unique(v, p, i as int);
                }
                let now = unix_millis_now();
                let mut job = self.jobs[i].copy();
                job.status = JobStatus::Running;
                job.started_at_ms = Some(now);
                let out = job.copy();
                self.jobs.set(i, job);
                assert(jobs_view(self.jobs@) =~= v.update(i as int, JobView {
                    status: JobStatus::Running,
                    started_at_ms: Some(now),
                    ..v[i as int]
                }));
                assert(self@.jobs[i as int].started_at_ms == Some(now));
                assert(out.view_of() == self@.jobs[i as int]);
                assert(first_queued(old(self)@.jobs) == i);
                return Some(out);
            }
            i = i + 1;
        }
        proof {
            lemma_first_index_unique(v, p, i as int);
        }
        None
    }

    /// Sets the progress (`f32` bits) of the first running job with this id,
    /// clamped to `[0.0, 1.0]`; nothing changes when there is none.
    pub fn update_progress(&mut self, job_id: &str, progress_bits: u32)
        ensures
            final(self)@.stop_requested == old(self)@.stop_requested,
            ({
                let k = running_position(old(self)@.jobs, job_id@);
                if k < old(self)@.jobs.len() {
                    final(self)@.jobs == old(self)@.jobs.update(k, JobView {
                        progress_bits: f32_clamp(progress_bits, progress_zero(), progress_one()),
                        ..old(self)@.jobs[k]
                    })
                } else {
                    final(self)@.jobs == old(self)@.jobs
                }
            }),
    {
        let ghost v = self@.jobs;
        let ghost p = |j: JobView| j.id == job_id@ && j.status == JobStatus::Running;
        proof {
            lemma_first_index(v, p);
        }
        let mut i: usize = 0;
        while i < self.jobs.len()
            invariant
                v == jobs_view(self.jobs@),
                self.jobs@ == old(self).jobs@,
                self.stop_requested == old(self).stop_requested,
                p == (|j: JobView| j.id == job_id@ && j.status == JobStatus::Running),
                i <= self.jobs@.len(),
                forall|j: int| 0 <= j < i ==> !p(#[trigger] v[j]),
            decreases self.jobs@.len() - i,
        {
            if str_equals(self.jobs[i].id.as_str(), job_id) && self.jobs[i].status == JobStatus::Running {
                proof {
                    lemma_first_index_unique(v, p, i as int);
                }
                let clamped = f32_clamp_bits(progress_bits, 0, 0x3F80_0000);
                let mut job = self.jobs[i].copy();
                job.progress_bits = clamped;
                self.jobs.set(i, job);
                assert(jobs_view(self.jobs@) =~= v.update(i as int, JobView { progress_bits: clamped, ..v[i as int] }));
                return;
            }
            i = i + 1;
        }
        proof {
            lemma_first_index_unique(v, p, i as int);
        }
    }

    /// The position of the first job with this id (the length when none).
    fn position_of(&self, job_id: &str) -> (k: usize)
        ensures
            k as int == position_of_id(self@.jobs, job_id@),
    {
        let ghost v = self@.jobs;
        let ghost p = |j: JobView| j.id == job_id@;
        let mut i: usize = 0;
        while i < self.jobs.len()
            invariant
                v == jobs_view(self.jobs@),
                p == (|j: JobView| j.id == job_id@),
                i <= self.jobs@.len(),
                forall|j: int| 0 <= j < i ==> !p(#[trigger] v[j]),
            decreases self.jobs@.len() - i,
        {
            if str_equals(self.jobs[i].id.as_str(), job_id) {
                proof {
                    lemma_first_index_unique(v, p, i as int);
                }
                return i;
            }
            i = i + 1;
        }
        proof {
            lemma_first_index_unique(v, p, i as int);
        }
        i
    }

    /// Marks the first job with this id completed: full progress and the
    /// current time as completion time.
    pub fn complete(&mut self, job_id: &str)
        ensures
            final(self)@.stop_requested == old(self)@.stop_requested,
            ({
                let k = position_of_id(old(self)@.jobs, job_id@);
                if k < old(self)@.jobs.len() {
                    &&& final(self)@.jobs == old(self)@.jobs.update(k, JobView {
                        status: JobStatus::Completed,
                        progress_bits: progress_one(),
                        completed_at_ms: final(self)@.jobs[k].completed_at_ms,
                        ..old(self)@.jobs[k]
                    })
                    &&& final(self)@.jobs[k].completed_at_ms is Some
                } else {
                    final(self)@.jobs == old(self)@.jobs
                }
            }),
    {
        let now = unix_millis_now();
        let k = self.position_of(job_id);
        proof {
            lemma_first_index(self@.jobs, |j: JobView| j.id == job_id@);
        }
        if k < self.jobs.len() {
            let ghost v = self@.jobs;
            let mut job = self.jobs[k].copy();
            job.status = JobStatus::Completed;
            job.progress_bits = 0x3F80_0000;
            job.completed_at_ms = Some(now);
            self.jobs.set(k, job);
            assert(jobs_view(self.jobs@) =~= v.update(k as int, JobView {
                status: JobStatus::Completed,
                progress_bits: progress_one(),
                completed_at_ms: Some(now),
                ..v[k as int]
            }));
        }
    }

    /// Marks the first job with this id failed, with its error message and
    /// the current time as completion time.
    pub fn fail(&mut self, job_id: &str, error: String)
        ensures
            final(self)@.stop_requested == old(self)@.stop_requested,
            ({
                let k = position_of_id(old(self)@.jobs, job_id@);
                if k < old(self)@.jobs.len() {
                    &&& final(self)@.jobs == old(self)@.jobs.update(k, JobView {
                        status: JobStatus::Failed,
                        error: Some(error@),
                        completed_at_ms: final(self)@.jobs[k].completed_at_ms,
                        ..old(self)@.jobs[k]
                    })
                    &&& final(self)@.jobs[k].completed_at_ms is Some
                } else {
                    final(self)@.jobs == old(self)@.jobs
                }
            }),
    {
        let now = unix_millis_now();
        let k = self.position_of(job_id);
        proof {
            lemma_first_index(self@.jobs, |j: JobView| j.id == job_id@);
        }
        if k < self.jobs.len() {
            let ghost v = self@.jobs;
            let ghost e = error@;
            let mut job = self.jobs[k].copy();
            job.status = JobStatus::Failed;
            job.error = Some(error);
            job.completed_at_ms = Some(now);
            self.jobs.set(k, job);
            assert(jobs_view(self.jobs@) =~= v.update(k as int, JobView {
                status: JobStatus::Failed,
                error: Some(e),
                completed_at_ms: Some(now),
                ..v[k as int]
            }));
        }
    }

    /// Cancels the first job with this id that is queued or running, with
    /// the current time as completion time.
    pub fn cancel(&mut self, job_id: &str)
        ensures
            final(self)@.stop_requested == old(self)@.stop_requested,
            ({
                let k = cancellable_position(old(self)@.jobs, job_id@);
                if k < old(self)@.jobs.len() {
                    &&& final(self)@.jobs == old(self)@.jobs.update(k, JobView {
                        status: JobStatus::Cancelled,
                        completed_at_ms: final(self)@.jobs[k].completed_at_ms,
                        ..old(self)@.jobs[k]
                    })
                    &&& final(self)@.jobs[k].completed_at_ms is Some
                } else {
                    final(self)@.jobs == old(self)@.jobs
                }
            }),
    {
        let ghost v = self@.jobs;
        let ghost p = |j: JobView| j.id == job_id@ && (j.status == JobStatus::Queued || j.status == JobStatus::Running);
        proof {
            lemma_first_index(v, p);
        }
        let mut i: usize = 0;
        while i < self.jobs.len()
            invariant
                v == jobs_view(self.jobs@),
                self.jobs@ == old(self).jobs@,
                self.stop_requested == old(self).stop_requested,
                p == (|j: JobView| j.id == job_id@ && (j.status == JobStatus::Queued || j.status == JobStatus::Running)),
                i <= self.jobs@.len(),
                forall|j: int| 0 <= j < i ==> !p(#[trigger] v[j]),
            decreases self.jobs@.len() - i,
        {
            let st = self.jobs[i].status;
            if str_equals(self.jobs[i].id.as_str(), job_id) && (st == JobStatus::Queued || st == JobStatus::Running) {
                proof {
                    lemma_first_index_unique(v, p, i as int);
                }
                let now = unix_millis_now();
                let mut job = self.jobs[i].copy();
                job.status = JobStatus::Cancelled;
                job.completed_at_ms = Some(now);
                self.jobs.set(i, job);
                assert(jobs_view(self.jobs@) =~= v.update(i as int, JobView {
                    status: JobStatus::Cancelled,
                    completed_at_ms: Some(now),
                    ..v[i as int]
                }));
                return;
            }
            i = i + 1;
        }
        proof {
            lemma_first_index_unique(v, p, i as int);
        }
    }

    /// Requests the queue to stop after the current job.
    pub fn request_stop(&mut self)
        ensures
            final(self)@.jobs == old(self)@.jobs,
            final(self)@.stop_requested,
    {
        self.stop_requested = true;
    }

    /// Clears the stop request (resumes the queue).
    pub fn resume(&mut self)
        ensures
            final(self)@.jobs == old(self)@.jobs,
            !final(self)@.stop_requested,
    {
        self.stop_requested = false;
    }

    /// A snapshot of all jobs, in queue order.
    pub fn jobs(&self) -> (r: Vec<ExportJob>)
        ensures
            jobs_view(r@) == self@.jobs,
    {
        let mut r: Vec<ExportJob> = Vec::new();
        let mut i: usize = 0;
        while i < self.jobs.len()
            invariant
                i <= self.jobs@.len(),
                r@.len() == i,
                forall|j: int| 0 <= j < i ==> #[trigger] r@[j].view_of() == self.jobs@[j].view_of(),
            decreases self.jobs@.len() - i,
        {
            r.push(self.jobs[i].copy());
            i = i + 1;
        }
        assert(jobs_view(r@) =~= jobs_view(self.jobs@));
        r
    }

    /// A snapshot of the first job with this id.
    pub fn job(&self, job_id: &str) -> (r: Option<ExportJob>)
        ensures
            ({
                let k = position_of_id(self@.jobs, job_id@);
                if k < self@.jobs.len() {
                    r matches Some(j) && j.view_of() == self@.jobs[k]
                } else {
                    r is None
                }
            }),
    {
        let k = self.position_of(job_id);
        if k < self.jobs.len() {
            Some(self.jobs[k].copy())
        } else {
            None
        }
    }

    /// Counts the jobs with a status.
    pub fn count_by_status(&self, status: JobStatus) -> (r: usize)
        ensures
            r == count_status(self@.jobs, status),
    {
        let ghost v = self@.jobs;
        let mut n: usize = 0;
        let mut i: usize = 0;
        while i < self.jobs.len()
            invariant
                v == jobs_view(self.jobs@),
                i <= self.jobs@.len(),
                n == count_status(v.take(i as int), status),
                n <= i,
            decreases self.jobs@.len() - i,
        {
            assert(v.take(i + 1).drop_last() =~= v.take(i as int));
            if self.jobs[i].status == status {
                n = n + 1;
            }
            i = i + 1;
        }
        assert(v.take(i as int) =~= v);
        n
    }

    /// Removes the completed, failed and cancelled jobs, keeping the others
    /// in order.
    pub fn clear_finished(&mut self)
        ensures
            final(self)@.stop_requested == old(self)@.stop_requested,
            final(self)@.jobs == unfinished(old(self)@.jobs),
    {
        let ghost v = self@.jobs;
        let mut kept: Vec<ExportJob> = Vec::new();
        let mut i: usize = 0;
        while i < self.jobs.len()
            invariant
                v == jobs_view(self.jobs@),
                self.jobs@ == old(self).jobs@,
                self.stop_requested == old(self).stop_requested,
                i <= self.jobs@.len(),
                jobs_view(kept@) == unfinished(v.take(i as int)),
            decreases self.jobs@.len() - i,
        {
            assert(v.take(i + 1).drop_last() =~= v.take(i as int));
            let st = self.jobs[i].status;
            if !(st == JobStatus::Completed || st == JobStatus::Failed || st == JobStatus::Cancelled) {
                kept.push(self.jobs[i].copy());
                assert(jobs_view(kept@) =~= unfinished(v.take(i + 1)));
            }
            i = i + 1;
        }
        assert(v.take(i as int) =~= v);
        self.jobs = kept;
    }
}

/// A job enqueued with an id no other job has is the one found under that
/// id, and it is queued.
pub proof fn lemma_enqueue_then_lookup(jobs: Seq<JobView>, job: JobView)
    requires
        forall|i: int| 0 <= i < jobs.len() ==> #[trigger] jobs[i].id != job.id,
        job.status == JobStatus::Queued,
    ensures
        position_of_id(jobs.push(job), job.id) == jobs.len(),
        jobs.push(job)[position_of_id(jobs.push(job), job.id)].status == JobStatus::Queued,
{
    let s = jobs.push(job);
    assert forall|j: int| 0 <= j < jobs.len() implies !(|v: JobView| v.id == job.id)(#[trigger] s[j]) by {
        assert(s[j] == jobs[j]);
    }
    lemma_first_index_unique(s, |v: JobView| v.id == job.id, jobs.len() as int);
}

/// Jobs are run in the order they were queued: with no job waiting before,
/// of two jobs queued one after the other the first is taken first, and
/// once it runs the second is next.
pub proof fn lemma_dequeue_in_queue_order(jobs: Seq<JobView>, a: JobView, b: JobView, started: Option<u64>)
    requires
        first_queued(jobs) == jobs.len(),
        a.status == JobStatus::Queued,
        b.status == JobStatus::Queued,
    ensures
        first_queued(jobs.push(a).push(b)) == jobs.len(),
        first_queued(jobs.push(a).push(b).update(jobs.len() as int, JobView {
            status: JobStatus::Running,
            started_at_ms: started,
            ..a
        })) == jobs.len() + 1,
{
    let p = |j: JobView| is_queued(j);
    lemma_first_index(jobs, p);
    let s = jobs.push(a).push(b);
    assert forall|j: int| 0 <= j < jobs.len() implies !p(#[trigger] s[j]) by {
        assert(s[j] == jobs[j]);
    }
    lemma_first_index_unique(s, p, jobs.len() as int);
    let t = s.update(jobs.len() as int, JobView { status: JobStatus::Running, started_at_ms: started, ..a });
    assert forall|j: int| 0 <= j < jobs.len() + 1 implies !p(#[trigger] t[j]) by {
        if j < jobs.len() {
            assert(t[j] == jobs[j]);
        }
    }
    lemma_first_index_unique(t, p, jobs.len() + 1int);
}

/// Clearing the finished jobs leaves no completed, failed or cancelled job
/// and every queued or running job.
pub proof fn lemma_clear_finished_counts(s: Seq<JobView>, status: JobStatus)
    ensures
        is_finished(status) ==> count_status(unfinished(s), status) == 0,
        !is_finished(status) ==> count_status(unfinished(s), status) == count_status(s, status),
    decreases s.len(),
{
    if s.len() > 0 {
        lemma_clear_finished_counts(s.drop_last(), status);
        let u = unfinished(s.drop_last());
        if !is_finished(s.last().status) {
            assert(unfinished(s).drop_last() =~= u);
        }
    }
}

/// Every job has exactly one status: the counts of the five statuses add up
/// to the number of jobs.
pub proof fn lemma_counts_add_up(s: Seq<JobView>)
    ensures
        count_status(s, JobStatus::Queued) + count_status(s, JobStatus::Running) + count_status(s, JobStatus::Completed)
            + count_status(s, JobStatus::Failed) + count_status(s, JobStatus::Cancelled) == s.len(),
    decreases s.len(),
{
    if s.len() > 0 {
        lemma_counts_add_up(s.drop_last());
    }
}

} // verus!
