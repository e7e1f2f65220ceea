//! The transcription queue: jobs for recordings, what the user can do with
//! them, and the decisions of the background worker that runs them.

use vstd::prelude::*;

use crate::clock::rfc3339_shaped;
use crate::presets::opt_view;
use crate::text::{clone_opt_string, eq_str, owned};

verus! {

/// How many times a transcription is attempted before the job fails.
pub const MAX_RETRIES: u32 = 3;

/// One transcription to run.
#[derive(Debug, Clone)]
pub struct TranscriptionJob {
    pub recording_path: String,
    pub srt_path: String,
    /// "pending", "in_progress", "completed" or "failed".
    pub status: String,
    pub created_at: String,
    pub progress_percent: u8,
    pub retry_count: u32,
    pub error: Option<String>,
}

/// A job with its strings taken as character sequences.
pub struct TranscriptionJobView {
    pub recording_path: Seq<char>,
    pub srt_path: Seq<char>,
    pub status: Seq<char>,
    pub created_at: Seq<char>,
    pub progress_percent: u8,
    pub retry_count: u32,
    pub error: Option<Seq<char>>,
}

impl View for TranscriptionJob {
    type V = TranscriptionJobView;

    open spec fn view(&self) -> TranscriptionJobView {
        TranscriptionJobView {
            recording_path: self.recording_path@,
            srt_path: self.srt_path@,
            status: self.status@,
            created_at: self.created_at@,
            progress_percent: self.progress_percent,
            retry_count: self.retry_count,
            error: opt_view(self.error),
        }
    }
}

impl TranscriptionJob {
    /// A copy of this job.
    pub fn copy_job(&self) -> (r: TranscriptionJob)
        ensures
            r == *self,
    {
        TranscriptionJob {
            recording_path: self.recording_path.clone(),
            srt_path: self.srt_path.clone(),
            status: self.status.clone(),
            created_at: self.created_at.clone(),
            progress_percent: self.progress_percent,
            retry_count: self.retry_count,
            error: clone_opt_string(&self.error),
        }
    }
}

/// The views of a list of jobs.
pub open spec fn jobs_view(s: Seq<TranscriptionJob>) -> Seq<TranscriptionJobView> {
    s.map_values(|j: TranscriptionJob| j@)
}

/// A job still to be run or being run.
pub open spec fn is_active(j: TranscriptionJobView) -> bool {
    j.status == "pending"@ || j.status == "in_progress"@
}

/// A job that keeps its recording from being queued again: one neither
/// completed nor failed.
pub open spec fn is_open(j: TranscriptionJobView) -> bool {
    j.status != "completed"@ && j.status != "failed"@
}

/// Some job of `s` is active.
pub open spec fn any_active(s: Seq<TranscriptionJobView>) -> bool {
    exists|i: int| 0 <= i < s.len() && is_active(#[trigger] s[i])
}

/// Some open job of `s` is for the recording at `path`.
pub open spec fn has_open_job(s: Seq<TranscriptionJobView>, path: Seq<char>) -> bool {
    exists|i: int| 0 <= i < s.len() && #[trigger] s[i].recording_path == path && is_open(s[i])
}

/// No two open jobs of `s` are for the same recording.
pub open spec fn open_jobs_distinct(s: Seq<TranscriptionJobView>) -> bool {
    forall|i: int, j: int|
        0 <= i < s.len() && 0 <= j < s.len() && i != j && is_open(#[trigger] s[i]) && is_open(#[trigger] s[j])
            ==> s[i].recording_path != s[j].recording_path
}

/// `i` is the position of the first job of `s` for the recording at `path`.
pub open spec fn first_for(s: Seq<TranscriptionJobView>, path: Seq<char>, i: int) -> bool {
    &&& 0 <= i < s.len()
    &&& s[i].recording_path == path
    &&& forall|j: int| 0 <= j < i ==> #[trigger] s[j].recording_path != path
}

/// Some job of `s` is for the recording at `path`.
pub open spec fn has_job_for(s: Seq<TranscriptionJobView>, path: Seq<char>) -> bool {
    exists|i: int| 0 <= i < s.len() && #[trigger] s[i].recording_path == path
}

/// A job interrupted while running goes back to waiting, from the start.
pub open spec fn recovered(j: TranscriptionJobView) -> TranscriptionJobView {
    if j.status == "in_progress"@ {
        TranscriptionJobView { status: "pending"@, progress_percent: 0, ..j }
    } else {
        j
    }
}

/// A new job for the recording at `path`, queued at `created_at`.
pub open spec fn new_job_view(path: Seq<char>, srt_path: Seq<char>, created_at: Seq<char>) -> TranscriptionJobView {
    TranscriptionJobView {
        recording_path: path,
        srt_path,
        status: "pending"@,
        created_at,
        progress_percent: 0,
        retry_count: 0,
        error: None,
    }
}

/// A failed job set to run again from the start.
pub open spec fn retried(j: TranscriptionJobView) -> TranscriptionJobView {
    TranscriptionJobView { status: "pending"@, progress_percent: 0, error: None, retry_count: 0, ..j }
}

/// A job as the worker records a change of state: status and progress
/// always, the error when one is given, the retry count when above zero.
pub open spec fn updated_job(
    j: TranscriptionJobView,
    status: Seq<char>,
    progress: u8,
    error: Option<Seq<char>>,
    retry_count: u32,
) -> TranscriptionJobView {
    TranscriptionJobView {
        status,
        progress_percent: progress,
        error: match error {
            Some(e) => Some(e),
            None => j.error,
        },
        retry_count: if retry_count > 0 { retry_count } else { j.retry_count },
        ..j
    }
}

/// The jobs after the first one for `path` is changed as `updated_job`
/// says; unchanged when there is none.
pub open spec fn jobs_after_update(
    s: Seq<TranscriptionJobView>,
    path: Seq<char>,
    status: Seq<char>,
    progress: u8,
    error: Option<Seq<char>>,
    retry_count: u32,
) -> Seq<TranscriptionJobView> {
    if has_job_for(s, path) {
        let i = choose|i: int| first_for(s, path, i);
        s.update(i, updated_job(s[i], status, progress, error, retry_count))
    } else {
        s
    }
}

/// The position of the first job for the recording at `path`.
fn position_for(jobs: &Vec<TranscriptionJob>, path: &String) -> (r: Option<usize>)
    ensures
        match r {
            Some(i) => first_for(jobs_view(jobs@), path@, i as int),
            None => !has_job_for(jobs_view(jobs@), path@),
        },
{
    let ghost v = jobs_view(jobs@);
    let mut i: usize = 0;
    while i < jobs.len()
        invariant
            i <= jobs.len(),
            v == jobs_view(jobs@),
            forall|k: int| 0 <= k < i ==> #[trigger] v[k].recording_path != path@,
        decreases jobs.len() - i,
    {
        if jobs[i].recording_path == *path {
            assert(v[i as int].recording_path == path@);
            return Some(i);
        }
        i = i + 1;
    }
    None
}

/// There is only one first job for a recording.
pub proof fn lemma_first_for_unique(s: Seq<TranscriptionJobView>, path: Seq<char>, i: int, k: int)
    requires
        first_for(s, path, i),
        first_for(s, path, k),
    ensures
        i == k,
{
    if i < k {
        assert(s[i].recording_path != path);
    }
    if k < i {
        assert(s[k].recording_path != path);
    }
}

/// Whether some job of `jobs` is still to be run or being run.
pub fn jobs_have_active(jobs: &Vec<TranscriptionJob>) -> (r: bool)
    ensures
        r == any_active(jobs_view(jobs@)),
{
    let ghost v = jobs_view(jobs@);
    let mut i: usize = 0;
    while i < jobs.len()
        invariant
            i <= jobs.len(),
            v == jobs_view(jobs@),
            forall|k: int| 0 <= k < i ==> !is_active(#[trigger] v[k]),
        decreases jobs.len() - i,
    {
        if eq_str(&jobs[i].status, "pending") || eq_str(&jobs[i].status, "in_progress") {
            assert(is_active(v[i as int]));
            return true;
        }
        i = i + 1;
    }
    false
}

/// Changes the first job for the recording at `recording_path` as the
/// worker records a change of state (see `updated_job`); does nothing when
/// there is no such job.
pub fn update_job(
    jobs: &mut Vec<TranscriptionJob>,
    recording_path: &str,
    status: &str,
    progress: u8,
    error: Option<&str>,
    retry_count: u32,
)
    ensures
        jobs_view(final(jobs)@) == jobs_after_update(jobs_view(old(jobs)@), recording_path@, status@,
            progress, match error { Some(e) => Some(e@), None => None }, retry_count),
{
    let key = owned(recording_path);
    match position_for(jobs, &key) {
        None => {},
        Some(i) => {
            let ghost v = jobs_view(jobs@);
            let mut j = jobs[i].copy_job();
            j.status = owned(status);
            j.progress_percent = progress;
            match error {
                Some(e) => {
                    j.error = Some(owned(e));
                },
                None => {},
            }
            if retry_count > 0 {
                j.retry_count = retry_count;
            }
            let ghost jv = j@;
            jobs.set(i, j);
            proof {
                let c = choose|c: int| first_for(v, recording_path@, c);
                lemma_first_for_unique(v, recording_path@, i as int, c);
                assert(jobs_view(jobs@) =~= v.update(i as int, jv));
            }
        },
    }
}

/// Takes the first waiting job of `jobs` to run: marks it running from 0 %
/// and returns it as marked. `None` when no job is waiting.
pub fn claim_next_pending(jobs: &mut Vec<TranscriptionJob>) -> (r: Option<TranscriptionJob>)
    ensures
        r is None ==> final(jobs)@ == old(jobs)@
            && forall|k: int| 0 <= k < old(jobs)@.len() ==> #[trigger] old(jobs)@[k]@.status != "pending"@,
        r matches Some(j) ==> exists|i: int| {
            &&& 0 <= i < old(jobs)@.len()
            &&& old(jobs)@[i]@.status == "pending"@
            &&& forall|k: int| 0 <= k < i ==> #[trigger] old(jobs)@[k]@.status != "pending"@
            &&& j@ == TranscriptionJobView { status: "in_progress"@, progress_percent: 0, ..old(jobs)@[i]@ }
            &&& final(jobs)@ == old(jobs)@.update(i, j)
        },
{
    let mut i: usize = 0;
    while i < jobs.len()
        invariant
            i <= jobs.len(),
            jobs@ == old(jobs)@,
            forall|k: int| 0 <= k < i ==> #[trigger] old(jobs)@[k]@.status != "pending"@,
        decreases jobs.len() - i,
    {
        if eq_str(&jobs[i].status, "pending") {
            let mut j = jobs[i].copy_job();
            j.status = owned("in_progress");
            j.progress_percent = 0;
            jobs.set(i, j.copy_job());
            return Some(j);
        }
        i = i + 1;
    }
    None
}

/// What becomes of a failed attempt with `retry_count` attempts failed
/// before it: the new count, and "pending" to try again while fewer than
/// `MAX_RETRIES` attempts have failed, "failed" after that.
pub open spec fn error_outcome(retry_count: u32) -> (int, Seq<char>) {
    let n = retry_count + 1;
    (n, if n < MAX_RETRIES { "pending"@ } else { "failed"@ })
}

/// The count and status a job gets when an attempt fails (`error_outcome`).
pub fn job_error_outcome(retry_count: u32) -> (r: (u32, String))
    requires
        retry_count < u32::MAX,
    ensures
        (r.0 as int, r.1@) == error_outcome(retry_count),
{
    let new_retry = retry_count + 1;
    if new_retry < MAX_RETRIES {
        (new_retry, owned("pending"))
    } else {
        (new_retry, owned("failed"))
    }
}

/// How running a job ended, as the worker sees it.
#[derive(Debug, Clone)]
pub enum JobOutcome {
    /// The speech model is not on disk.
    ModelMissing,
    /// The recording's file is not on disk.
    RecordingMissing,
    /// The transcript was written to this path.
    Completed(String),
    /// The transcription failed with this error.
    TranscriptionFailed(String),
    /// Writing the transcript failed with this error.
    SrtWriteFailed(String),
}

/// What the worker reports of a finished job.
#[derive(Debug, Clone)]
pub struct JobReport {
    /// The transcription status to record in the history.
    pub history_status: String,
    /// The transcript to record in the history, when there is one.
    pub transcript_path: Option<String>,
    /// The error to announce when the job failed for good.
    pub failed_error: Option<String>,
}

/// The message of an error in the worker.
pub open spec fn outcome_error(outcome: JobOutcome) -> Seq<char> {
    match outcome {
        JobOutcome::ModelMissing => "Whisper model not downloaded"@,
        JobOutcome::RecordingMissing => "Recording file not found"@,
        JobOutcome::Completed(_) => Seq::empty(),
        JobOutcome::TranscriptionFailed(e) => "Transcription failed: "@ + e@,
        JobOutcome::SrtWriteFailed(e) => "Failed to write SRT: "@ + e@,
    }
}

/// Records in `jobs` how running `job` ended, and says what to report:
/// a missing model or recording fails the job at once; a written transcript
/// completes it at 100 %; a failed attempt counts against the job's retries
/// (see `error_outcome`) and is announced when the job fails for good.
pub fn settle_job(jobs: &mut Vec<TranscriptionJob>, job: &TranscriptionJob, outcome: JobOutcome) -> (r: JobReport)
    requires
        job.retry_count < u32::MAX,
    ensures
        match outcome {
            JobOutcome::ModelMissing | JobOutcome::RecordingMissing => {
                &&& jobs_view(final(jobs)@) == jobs_after_update(jobs_view(old(jobs)@), job.recording_path@,
                    "failed"@, 0, Some(outcome_error(outcome)), job.retry_count)
                &&& r.history_status@ == "failed"@
                &&& r.transcript_path is None
                &&& r.failed_error matches Some(e) && e@ == outcome_error(outcome)
            },
            JobOutcome::Completed(srt) => {
                &&& jobs_view(final(jobs)@) == jobs_after_update(jobs_view(old(jobs)@), job.recording_path@,
                    "completed"@, 100, None, 0)
                &&& r.history_status@ == "completed"@
                &&& r.transcript_path matches Some(t) && t@ == srt@
                &&& r.failed_error is None
            },
            JobOutcome::TranscriptionFailed(_) | JobOutcome::SrtWriteFailed(_) => {
                let (n, status) = error_outcome(job.retry_count);
                &&& jobs_view(final(jobs)@) == jobs_after_update(jobs_view(old(jobs)@), job.recording_path@,
                    status, 0, Some(outcome_error(outcome)), n as u32)
                &&& r.history_status@ == status
                &&& r.transcript_path is None
                &&& (status == "failed"@ ==> (r.failed_error matches Some(e) && e@ == outcome_error(outcome)))
                &&& (status != "failed"@ ==> r.failed_error is None)
            },
        },
{
    match outcome {
        JobOutcome::ModelMissing => {
            let msg = owned("Whisper model not downloaded");
            update_job(jobs, job.recording_path.as_str(), "failed", 0, Some(msg.as_str()), job.retry_count);
            JobReport { history_status: owned("failed"), transcript_path: None, failed_error: Some(msg) }
        },
        JobOutcome::RecordingMissing => {
            let msg = owned("Recording file not found");
            update_job(jobs, job.recording_path.as_str(), "failed", 0, Some(msg.as_str()), job.retry_count);
            JobReport { history_status: owned("failed"), transcript_path: None, failed_error: Some(msg) }
        },
        JobOutcome::Completed(srt) => {
            update_job(jobs, job.recording_path.as_str(), "completed", 100, None, 0);
            JobReport { history_status: owned("completed"), transcript_path: Some(srt), failed_error: None }
        },
        JobOutcome::TranscriptionFailed(e) => {
            let mut msg = owned("Transcription failed: ");
            msg.append(e.as_str());
            fail_attempt(jobs, job, msg)
        },
        JobOutcome::SrtWriteFailed(e) => {
            let mut msg = owned("Failed to write SRT: ");
            msg.append(e.as_str());
            fail_attempt(jobs, job, msg)
        },
    }
}

/// Records a failed attempt of `job` with the message `msg`.
fn fail_attempt(jobs: &mut Vec<TranscriptionJob>, job: &TranscriptionJob, msg: String) -> (r: JobReport)
    requires
        job.retry_count < u32::MAX,
    ensures
        ({
            let (n, status) = error_outcome(job.retry_count);
            &&& jobs_view(final(jobs)@) == jobs_after_update(jobs_view(old(jobs)@), job.recording_path@,
                status, 0, Some(msg@), n as u32)
            &&& r.history_status@ == status
            &&& r.transcript_path is None
            &&& (status == "failed"@ ==> (r.failed_error matches Some(e) && e@ == msg@))
            &&& (status != "failed"@ ==> r.failed_error is None)
        }),
{
    let (new_retry, new_status) = job_error_outcome(job.retry_count);
    update_job(jobs, job.recording_path.as_str(), new_status.as_str(), 0, Some(msg.as_str()), new_retry);
    let failed = eq_str(&new_status, "failed");
    JobReport {
        history_status: new_status,
        transcript_path: None,
        failed_error: if failed { Some(msg) } else { None },
    }
}

/// The queue of transcription jobs, and the file it is stored in.
pub struct TranscriptionQueueManager {
    jobs: Vec<TranscriptionJob>,
    queue_path: String,
}

impl TranscriptionQueueManager {
    /// The jobs, oldest first.
    pub closed spec fn jobs(&self) -> Seq<TranscriptionJobView> {
        jobs_view(self.jobs@)
    }

    /// The file the queue is stored in.
    pub closed spec fn file(&self) -> Seq<char> {
        self.queue_path@
    }

    /// The queue stored at `queue_path`, holding the jobs read from it
    /// (none when nothing could be read).
    pub fn new(queue_path: String, loaded: Option<Vec<TranscriptionJob>>) -> (r: TranscriptionQueueManager)
        ensures
            r.file() == queue_path@,
            loaded matches Some(v) ==> r.jobs() == jobs_view(v@),
            loaded is None ==> r.jobs() == Seq::<TranscriptionJobView>::empty(),
    {
        let jobs = match loaded {
            Some(v) => v,
            None => Vec::new(),
        };
        proof {
            if loaded is None {
                assert(jobs_view(jobs@) =~= Seq::<TranscriptionJobView>::empty());
            }
        }
        TranscriptionQueueManager { jobs, queue_path }
    }

    /// The file the queue is stored in.
    pub fn path(&self) -> (r: &String)
        ensures
            r@ == self.file(),
    {
        &self.queue_path
    }

    /// All jobs, as they are to be stored.
    pub fn all_jobs(&self) -> (r: &Vec<TranscriptionJob>)
        ensures
            jobs_view(r@) == self.jobs(),
    {
        &self.jobs
    }

    /// Puts back to waiting, from the start, every job that was running
    /// when the application stopped; returns how many there were.
    pub fn recover_interrupted(&mut self) -> (r: usize)
        ensures
            final(self).file() == old(self).file(),
            final(self).jobs() == old(self).jobs().map_values(|j: TranscriptionJobView| recovered(j)),
            final(self).jobs().len() == old(self).jobs().len(),
            forall|k: int| 0 <= k < old(self).jobs().len() ==> {
                &&& (#[trigger] final(self).jobs()[k]).retry_count == old(self).jobs()[k].retry_count
                &&& final(self).jobs()[k].recording_path == old(self).jobs()[k].recording_path
                &&& final(self).jobs()[k].error == old(self).jobs()[k].error
                &&& (old(self).jobs()[k].status == "in_progress"@ ==> final(self).jobs()[k].status == "pending"@
                    && final(self).jobs()[k].progress_percent == 0)
                &&& (old(self).jobs()[k].status != "in_progress"@ ==> final(self).jobs()[k] == old(self).jobs()[k])
            },
            forall|k: int| 0 <= k < final(self).jobs().len() ==> #[trigger] final(self).jobs()[k].status != "in_progress"@,
            r <= old(self).jobs().len(),
            r == 0 <==> forall|k: int| 0 <= k < old(self).jobs().len() ==> #[trigger] old(self).jobs()[k].status != "in_progress"@,
    {
        let ghost before = jobs_view(self.jobs@);
        let mut count: usize = 0;
        let mut i: usize = 0;
        while i < self.jobs.len()
            invariant
                i <= self.jobs.len(),
                self.jobs.len() == before.len(),
                self.queue_path == old(self).queue_path,
                before == old(self).jobs(),
                count <= i,
                forall|k: int| 0 <= k < i ==> #[trigger] jobs_view(self.jobs@)[k] == recovered(before[k]),
                forall|k: int| i <= k < before.len() ==> #[trigger] jobs_view(self.jobs@)[k] == before[k],
                count == 0 <==> forall|k: int| 0 <= k < i ==> #[trigger] before[k].status != "in_progress"@,
            decreases self.jobs.len() - i,
        {
            assert(jobs_view(self.jobs@)[i as int] == before[i as int]);
            let ghost prev = self.jobs@;
            if eq_str(&self.jobs[i].status, "in_progress") {
                let mut j = self.jobs[i].copy_job();
                j.status = owned("pending");
                j.progress_percent = 0;
                let ghost jv = j@;
                self.jobs.set(i, j);
                assert(jv == recovered(before[i as int]));
                assert(jobs_view(self.jobs@) =~= jobs_view(prev).update(i as int, jv));
                count = count + 1;
            } else {
                assert(recovered(before[i as int]) == before[i as int]);
            }
            i = i + 1;
        }
        proof {
            assert(jobs_view(self.jobs@) =~= before.map_values(|j: TranscriptionJobView| recovered(j)));
            assert forall|k: int| 0 <= k < jobs_view(self.jobs@).len() implies #[trigger] jobs_view(self.jobs@)[k].status != "in_progress"@ by {
                assert(jobs_view(self.jobs@)[k] == recovered(before[k]));
                reveal_strlit("pending");
                reveal_strlit("in_progress");
                assert("pending"@[0] != "in_progress"@[0]);
            }
        }
        count
    }

    /// Queues a transcription of the recording at `recording_path`, with its
    /// transcript to go to `srt_path`, at `created_at`. Nothing happens when
    /// an open job for that recording is queued already; the result says
    /// whether the job was added.
    pub fn enqueue_at(&mut self, recording_path: &str, srt_path: &str, created_at: &String) -> (r: bool)
        ensures
            final(self).file() == old(self).file(),
            r == !has_open_job(old(self).jobs(), recording_path@),
            !r ==> final(self).jobs() == old(self).jobs(),
            r ==> final(self).jobs() == old(self).jobs().push(new_job_view(recording_path@, srt_path@, created_at@)),
            open_jobs_distinct(old(self).jobs()) ==> open_jobs_distinct(final(self).jobs()),
    {
        let ghost before = jobs_view(self.jobs@);
        let key = owned(recording_path);
        let mut i: usize = 0;
        while i < self.jobs.len()
            invariant
                i <= self.jobs.len(),
                before == jobs_view(self.jobs@),
                self.jobs == old(self).jobs,
                self.queue_path == old(self).queue_path,
                key@ == recording_path@,
                forall|k: int| 0 <= k < i ==> !(#[trigger] before[k].recording_path == recording_path@ && is_open(before[k])),
            decreases self.jobs.len() - i,
        {
            let j = &self.jobs[i];
            assert(before[i as int] == j@);
            if j.recording_path == key && !eq_str(&j.status, "completed") && !eq_str(&j.status, "failed") {
                assert(before[i as int].recording_path == recording_path@ && is_open(before[i as int]));
                assert(old(self).jobs() == before);
                return false;
            }
            i = i + 1;
        }
        let job = TranscriptionJob {
            recording_path: key,
            srt_path: owned(srt_path),
            status: owned("pending"),
            created_at: created_at.clone(),
            progress_percent: 0,
            retry_count: 0,
            error: None,
        };
        let ghost jv = job@;
        self.jobs.push(job);
        proof {
            assert(jobs_view(self.jobs@) =~= before.push(jv));
            let after = before.push(jv);
            if open_jobs_distinct(before) {
                assert forall|a: int, b: int|
                    0 <= a < after.len() && 0 <= b < after.len() && a != b && is_open(#[trigger] after[a]) && is_open(#[trigger] after[b])
                    implies after[a].recording_path != after[b].recording_path by {
                    if a == before.len() as int {
                        assert(after[b] == before[b]);
                    } else if b == before.len() as int {
                        assert(after[a] == before[a]);
                    } else {
                        assert(after[a] == before[a] && after[b] == before[b]);
                    }
                }
            }
        }
        true
    }

    /// Queues a transcription of the recording at `recording_path` now, as
    /// `enqueue_at` does.
    pub fn enqueue(&mut self, recording_path: &str, srt_path: &str) -> (r: bool)
        ensures
            final(self).file() == old(self).file(),
            r == !has_open_job(old(self).jobs(), recording_path@),
            !r ==> final(self).jobs() == old(self).jobs(),
            r ==> final(self).jobs().len() == old(self).jobs().len() + 1
                && rfc3339_shaped(final(self).jobs().last().created_at)
                && final(self).jobs() == old(self).jobs().push(new_job_view(recording_path@, srt_path@,
                    final(self).jobs().last().created_at)),
            open_jobs_distinct(old(self).jobs()) ==> open_jobs_distinct(final(self).jobs()),
    {
        let now = crate::clock::utc_now_rfc3339();
        self.enqueue_at(recording_path, srt_path, &now)
    }

    /// Whether some job is still to be run or being run.
    pub fn has_active_jobs(&self) -> (r: bool)
        ensures
            r == any_active(self.jobs()),
    {
        jobs_have_active(&self.jobs)
    }

    /// A copy of all jobs.
    pub fn get_jobs(&self) -> (r: Vec<TranscriptionJob>)
        ensures
            jobs_view(r@) == self.jobs(),
    {
        let mut out: Vec<TranscriptionJob> = Vec::new();
        let mut i: usize = 0;
        while i < self.jobs.len()
            invariant
                i <= self.jobs.len(),
                out@.len() == i,
                forall|k: int| 0 <= k < i ==> #[trigger] out@[k] == self.jobs@[k],
            decreases self.jobs.len() - i,
        {
            out.push(self.jobs[i].copy_job());
            i = i + 1;
        }
        assert(jobs_view(out@) =~= jobs_view(self.jobs@));
        out
    }

    /// Sets the failed job for the recording at `recording_path` to run
    /// again from the start, with its retries and error cleared. Refused when
    /// the first job for it has not failed, or when there is none.
    pub fn retry_job(&mut self, recording_path: &str) -> (r: Result<(), String>)
        ensures
            final(self).file() == old(self).file(),
            !has_job_for(old(self).jobs(), recording_path@) ==> (r matches Err(m) && m@ == "Job not found"@
                && final(self).jobs() == old(self).jobs()),
            forall|i: int| #[trigger] first_for(old(self).jobs(), recording_path@, i) ==> {
                if old(self).jobs()[i].status == "failed"@ {
                    r is Ok && final(self).jobs() == old(self).jobs().update(i, retried(old(self).jobs()[i]))
                } else {
                    r matches Err(m) && m@ == "Can only retry failed jobs"@
                        && final(self).jobs() == old(self).jobs()
                }
            },
    {
        let key = owned(recording_path);
        match position_for(&self.jobs, &key) {
            None => Err(owned("Job not found")),
            Some(i) => {
                let ghost before = jobs_view(self.jobs@);
                proof {
                    assert forall|k: int| #[trigger] first_for(before, recording_path@, k) implies k == i by {
                        lemma_first_for_unique(before, recording_path@, i as int, k);
                    }
                }
                if !eq_str(&self.jobs[i].status, "failed") {
                    return Err(owned("Can only retry failed jobs"));
                }
                let mut j = self.jobs[i].copy_job();
                j.status = owned("pending");
                j.progress_percent = 0;
                j.error = None;
                j.retry_count = 0;
                let ghost jv = j@;
                self.jobs.set(i, j);
                assert(jobs_view(self.jobs@) =~= before.update(i as int, jv));
                Ok(())
            },
        }
    }

    /// Removes every job for the recording at `recording_path`. Refused
    /// when there is none.
    pub fn cancel_job(&mut self, recording_path: &str) -> (r: Result<(), String>)
        ensures
            final(self).file() == old(self).file(),
            final(self).jobs() == old(self).jobs().filter(|j: TranscriptionJobView| j.recording_path != recording_path@),
            r is Ok <==> has_job_for(old(self).jobs(), recording_path@),
            r matches Err(m) ==> m@ == "Job not found"@,
            !has_job_for(final(self).jobs(), recording_path@),
    {
        let ghost before = jobs_view(self.jobs@);
        let ghost pred = |j: TranscriptionJobView| j.recording_path != recording_path@;
        let key = owned(recording_path);
        let mut kept: Vec<TranscriptionJob> = Vec::new();
        let mut i: usize = 0;
        while i < self.jobs.len()
            invariant
                i <= self.jobs.len(),
                jobs_view(self.jobs@) == before,
                pred == (|j: TranscriptionJobView| j.recording_path != recording_path@),
                key@ == recording_path@,
                jobs_view(kept@) == before.take(i as int).filter(pred),
                kept@.len() <= i,
                kept@.len() == i <==> forall|k: int| 0 <= k < i ==> #[trigger] before[k].recording_path != recording_path@,
            decreases self.jobs.len() - i,
        {
            proof {
                before.lemma_take_succ_push(i as int);
                before.take(i as int).lemma_filter_push(before[i as int], pred);
            }
            if self.jobs[i].recording_path != key {
                let ghost k = kept@;
                kept.push(self.jobs[i].copy_job());
                assert(jobs_view(kept@) =~= jobs_view(k).push(before[i as int]));
            } else {
                proof {
                    before.take(i as int).lemma_filter_len(pred);
                }
            }
            i = i + 1;
        }
        assert(before.take(before.len() as int) =~= before);
        let removed_none = kept.len() == self.jobs.len();
        self.jobs = kept;
        proof {
            let after = before.filter(pred);
            assert forall|k: int| 0 <= k < after.len() implies #[trigger] after[k].recording_path != recording_path@ by {
                before.lemma_filter_pred(pred, k);
            }
        }
        if removed_none {
            Err(owned("Job not found"))
        } else {
            Ok(())
        }
    }
}


/// When some job is for a recording, one of them is the first.
pub proof fn lemma_first_for_exists(s: Seq<TranscriptionJobView>, path: Seq<char>)
    requires
        has_job_for(s, path),
    ensures
        exists|i: int| first_for(s, path, i),
    decreases s.len(),
{
    let t = s.drop_last();
    if has_job_for(t, path) {
        lemma_first_for_exists(t, path);
        let i = choose|i: int| first_for(t, path, i);
        assert(t[i] == s[i]);
        assert forall|j: int| 0 <= j < i implies #[trigger] s[j].recording_path != path by {
            assert(t[j] == s[j]);
            assert(t[j].recording_path != path);
        }
        assert(first_for(s, path, i));
    } else {
        let i = s.len() - 1;
        assert forall|j: int| 0 <= j < i implies #[trigger] s[j].recording_path != path by {
            assert(t[j] == s[j]);
        }
        let k = choose|k: int| 0 <= k < s.len() && #[trigger] s[k].recording_path == path;
        if k < i {
            assert(t[k] == s[k]);
            assert(t[k].recording_path == path);
            assert(has_job_for(t, path));
        }
        assert(k == i);
        assert(s[i].recording_path == path);
        assert(first_for(s, path, i));
    }
}

/// A job fails for good on its `MAX_RETRIES`-th failed attempt, the third,
/// and is tried again before that.
pub proof fn law_retries_bounded(retry_count: u32)
    ensures
        error_outcome(retry_count).0 == retry_count + 1,
        error_outcome(retry_count).1 == "failed"@ <==> retry_count + 1 >= MAX_RETRIES,
        error_outcome(retry_count).1 == "pending"@ <==> retry_count + 1 < MAX_RETRIES,
        retry_count >= 2 ==> error_outcome(retry_count).1 == "failed"@,
        retry_count < 2 ==> error_outcome(retry_count).1 == "pending"@,
{
    reveal_strlit("failed");
    reveal_strlit("pending");
    assert("failed"@[0] != "pending"@[0]);
}

/// A job that a worker update finds keeps its recording, transcript path and
/// creation time; only its state changes.
pub proof fn law_update_keeps_identity(
    s: Seq<TranscriptionJobView>,
    path: Seq<char>,
    status: Seq<char>,
    progress: u8,
    error: Option<Seq<char>>,
    retry_count: u32,
)
    ensures
        jobs_after_update(s, path, status, progress, error, retry_count).len() == s.len(),
        forall|i: int| 0 <= i < s.len() ==> {
            let t = #[trigger] jobs_after_update(s, path, status, progress, error, retry_count)[i];
            &&& t.recording_path == s[i].recording_path
            &&& t.srt_path == s[i].srt_path
            &&& t.created_at == s[i].created_at
        },
{
    if has_job_for(s, path) {
        lemma_first_for_exists(s, path);
    }
}

/// A retried job starts afresh: waiting, at 0 %, without an error or
/// failed attempts.
pub proof fn law_retried_job_starts_afresh(j: TranscriptionJobView)
    ensures
        is_active(retried(j)),
        retried(j).progress_percent == 0,
        retried(j).error is None,
        retried(j).retry_count == 0,
        retried(j).recording_path == j.recording_path,
{
}

/// Recovery touches only a job that was running when the application
/// stopped: it goes back to waiting at 0 %, and keeps its recording, its
/// transcript path, its creation time, its error and the count of attempts
/// that already failed (which still count toward `MAX_RETRIES`). Any other
/// job is left as it is.
pub proof fn law_recovery_keeps_the_job(j: TranscriptionJobView)
    ensures
        j.status == "in_progress"@ ==> recovered(j).status == "pending"@ && recovered(j).progress_percent == 0,
        j.status != "in_progress"@ ==> recovered(j) == j,
        recovered(j).recording_path == j.recording_path,
        recovered(j).srt_path == j.srt_path,
        recovered(j).created_at == j.created_at,
        recovered(j).retry_count == j.retry_count,
        recovered(j).error == j.error,
{
}

/// A retry clears the failed attempts, the error and the progress and puts
/// the job back to waiting; its recording, transcript path and creation
/// time stay.
pub proof fn law_retry_keeps_the_job(j: TranscriptionJobView)
    ensures
        retried(j).status == "pending"@,
        retried(j).progress_percent == 0,
        retried(j).retry_count == 0,
        retried(j).error is None,
        retried(j).recording_path == j.recording_path,
        retried(j).srt_path == j.srt_path,
        retried(j).created_at == j.created_at,
{
}

/// A worker update sets the status and progress given; it records the
/// error when one is given and keeps the earlier one otherwise, and sets
/// the count of failed attempts only when a positive count is given.
pub proof fn law_worker_update_fields(
    j: TranscriptionJobView,
    status: Seq<char>,
    progress: u8,
    error: Option<Seq<char>>,
    retry_count: u32,
)
    ensures
        updated_job(j, status, progress, error, retry_count).status == status,
        updated_job(j, status, progress, error, retry_count).progress_percent == progress,
        error is Some ==> updated_job(j, status, progress, error, retry_count).error == error,
        error is None ==> updated_job(j, status, progress, error, retry_count).error == j.error,
        retry_count > 0 ==> updated_job(j, status, progress, error, retry_count).retry_count == retry_count,
        retry_count == 0 ==> updated_job(j, status, progress, error, retry_count).retry_count == j.retry_count,
        updated_job(j, status, progress, error, retry_count).recording_path == j.recording_path,
        updated_job(j, status, progress, error, retry_count).srt_path == j.srt_path,
        updated_job(j, status, progress, error, retry_count).created_at == j.created_at,
{
}

/// A new job waits at 0 %, with no failed attempt and no error, for the
/// recording and transcript path given, created at the time given.
pub proof fn law_new_job_waits(path: Seq<char>, srt_path: Seq<char>, created_at: Seq<char>)
    ensures
        new_job_view(path, srt_path, created_at).status == "pending"@,
        new_job_view(path, srt_path, created_at).progress_percent == 0,
        new_job_view(path, srt_path, created_at).retry_count == 0,
        new_job_view(path, srt_path, created_at).error is None,
        new_job_view(path, srt_path, created_at).recording_path == path,
        new_job_view(path, srt_path, created_at).srt_path == srt_path,
        new_job_view(path, srt_path, created_at).created_at == created_at,
{
}

/// A job waiting or running keeps its recording from being queued again;
/// a completed or failed one does not.
pub proof fn law_open_jobs(j: TranscriptionJobView)
    ensures
        is_active(j) ==> is_open(j),
        j.status == "completed"@ ==> !is_open(j) && !is_active(j),
        j.status == "failed"@ ==> !is_open(j) && !is_active(j),
{
    reveal_strlit("pending");
    reveal_strlit("in_progress");
    reveal_strlit("completed");
    reveal_strlit("failed");
    assert("pending"@[0] != "completed"@[0] && "pending"@[0] != "failed"@[0]);
    assert("in_progress"@[0] != "completed"@[0] && "in_progress"@[0] != "failed"@[0]);
}

/// Once a recording is queued, queueing it again is refused: the new job
/// is an open job for it.
pub proof fn law_queued_twice_is_refused(
    s: Seq<TranscriptionJobView>,
    path: Seq<char>,
    srt_path: Seq<char>,
    created_at: Seq<char>,
)
    ensures
        has_open_job(s.push(new_job_view(path, srt_path, created_at)), path),
        is_active(new_job_view(path, srt_path, created_at)),
{
    let t = s.push(new_job_view(path, srt_path, created_at));
    law_open_jobs(new_job_view(path, srt_path, created_at));
    assert(t[s.len() as int] == new_job_view(path, srt_path, created_at));
    assert(t[s.len() as int].recording_path == path && is_open(t[s.len() as int]));
}

/// A worker update changes only the first job for the recording.
pub proof fn law_update_changes_the_first_job_only(
    s: Seq<TranscriptionJobView>,
    path: Seq<char>,
    status: Seq<char>,
    progress: u8,
    error: Option<Seq<char>>,
    retry_count: u32,
    i: int,
)
    requires
        first_for(s, path, i),
    ensures
        jobs_after_update(s, path, status, progress, error, retry_count)[i] == updated_job(s[i], status, progress,
            error, retry_count),
        forall|k: int| 0 <= k < s.len() && k != i ==>
            #[trigger] jobs_after_update(s, path, status, progress, error, retry_count)[k] == s[k],
{
    assert(has_job_for(s, path));
    let c = choose|c: int| first_for(s, path, c);
    lemma_first_for_unique(s, path, i, c);
}

} // verus!
