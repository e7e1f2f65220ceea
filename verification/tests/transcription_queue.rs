use effective_recorder::transcription_queue::{
    claim_next_pending, job_error_outcome, jobs_have_active, settle_job, update_job, JobOutcome,
    TranscriptionJob, TranscriptionQueueManager, MAX_RETRIES,
};

fn job(path: &str, status: &str) -> TranscriptionJob {
    TranscriptionJob {
        recording_path: path.to_string(),
        srt_path: path.replace(".mp4", ".srt"),
        status: status.to_string(),
        created_at: String::from("2024-01-01T00:00:00Z"),
        progress_percent: 40,
        retry_count: 1,
        error: Some(String::from("earlier")),
    }
}

fn queue(jobs: Vec<TranscriptionJob>) -> TranscriptionQueueManager {
    TranscriptionQueueManager::new(String::from("/cfg/transcription_queue.json"), Some(jobs))
}

fn statuses(q: &TranscriptionQueueManager) -> Vec<String> {
    q.all_jobs().iter().map(|j| j.status.clone()).collect()
}

#[test]
fn new_queue_is_empty_or_loaded() {
    let q = TranscriptionQueueManager::new(String::from("/cfg/q.json"), None);
    assert_eq!(q.path(), "/cfg/q.json");
    assert!(q.get_jobs().is_empty());
    assert!(!q.has_active_jobs());
    let q = queue(vec![job("/r/a.mp4", "completed")]);
    assert_eq!(q.get_jobs().len(), 1);
}

#[test]
fn interrupted_jobs_wait_again_from_the_start() {
    let mut q = queue(vec![job("/r/a.mp4", "in_progress"), job("/r/b.mp4", "failed"), job("/r/c.mp4", "in_progress")]);
    assert_eq!(q.recover_interrupted(), 2);
    assert_eq!(statuses(&q), vec!["pending", "failed", "pending"]);
    assert_eq!(q.all_jobs()[0].progress_percent, 0);
    assert_eq!(q.all_jobs()[1].progress_percent, 40);
    assert_eq!(q.recover_interrupted(), 0);
}

#[test]
fn enqueue_adds_a_pending_job_once() {
    let mut q = queue(Vec::new());
    assert!(q.enqueue_at("/r/a.mp4", "/r/a.srt", &String::from("2024-03-03T03:03:03Z")));
    let j = &q.all_jobs()[0];
    assert_eq!(j.recording_path, "/r/a.mp4");
    assert_eq!(j.srt_path, "/r/a.srt");
    assert_eq!(j.status, "pending");
    assert_eq!(j.created_at, "2024-03-03T03:03:03Z");
    assert_eq!(j.progress_percent, 0);
    assert_eq!(j.retry_count, 0);
    assert_eq!(j.error, None);
    assert!(!q.enqueue_at("/r/a.mp4", "/r/a.srt", &String::from("later")));
    assert_eq!(q.all_jobs().len(), 1);
    assert!(q.has_active_jobs());
}

#[test]
fn a_finished_recording_can_be_queued_again() {
    let mut q = queue(vec![job("/r/a.mp4", "completed"), job("/r/b.mp4", "failed"), job("/r/c.mp4", "in_progress")]);
    assert!(q.enqueue("/r/a.mp4", "/r/a.srt"));
    assert!(q.enqueue("/r/b.mp4", "/r/b.srt"));
    assert!(!q.enqueue("/r/c.mp4", "/r/c.srt"));
    assert_eq!(q.all_jobs().len(), 5);
    assert_eq!(&q.all_jobs()[4].created_at[10..11], "T");
}

#[test]
fn active_jobs_are_pending_or_running() {
    assert!(!jobs_have_active(&vec![job("a", "completed"), job("b", "failed")]));
    assert!(jobs_have_active(&vec![job("a", "completed"), job("b", "pending")]));
    assert!(jobs_have_active(&vec![job("a", "in_progress")]));
}

#[test]
fn retry_only_failed_jobs() {
    let mut q = queue(vec![job("/r/a.mp4", "failed"), job("/r/b.mp4", "completed")]);
    assert_eq!(q.retry_job("/r/none.mp4"), Err(String::from("Job not found")));
    assert_eq!(q.retry_job("/r/b.mp4"), Err(String::from("Can only retry failed jobs")));
    assert_eq!(q.retry_job("/r/a.mp4"), Ok(()));
    let j = &q.all_jobs()[0];
    assert_eq!(j.status, "pending");
    assert_eq!(j.progress_percent, 0);
    assert_eq!(j.retry_count, 0);
    assert_eq!(j.error, None);
}

#[test]
fn cancel_removes_every_job_of_the_recording() {
    let mut q = queue(vec![job("/r/a.mp4", "failed"), job("/r/b.mp4", "pending"), job("/r/a.mp4", "pending")]);
    assert_eq!(q.cancel_job("/r/a.mp4"), Ok(()));
    assert_eq!(q.all_jobs().len(), 1);
    assert_eq!(q.all_jobs()[0].recording_path, "/r/b.mp4");
    assert_eq!(q.cancel_job("/r/a.mp4"), Err(String::from("Job not found")));
}

#[test]
fn the_worker_takes_the_first_pending_job() {
    let mut jobs = vec![job("/r/a.mp4", "completed"), job("/r/b.mp4", "pending"), job("/r/c.mp4", "pending")];
    let claimed = claim_next_pending(&mut jobs).unwrap();
    assert_eq!(claimed.recording_path, "/r/b.mp4");
    assert_eq!(claimed.status, "in_progress");
    assert_eq!(claimed.progress_percent, 0);
    assert_eq!(jobs[1].status, "in_progress");
    assert_eq!(jobs[2].status, "pending");
    let next = claim_next_pending(&mut jobs).unwrap();
    assert_eq!(next.recording_path, "/r/c.mp4");
    assert!(claim_next_pending(&mut jobs).is_none());
}

#[test]
fn update_job_changes_state_of_the_first_match() {
    let mut jobs = vec![job("/r/a.mp4", "in_progress"), job("/r/a.mp4", "pending")];
    update_job(&mut jobs, "/r/a.mp4", "in_progress", 55, None, 0);
    assert_eq!(jobs[0].progress_percent, 55);
    assert_eq!(jobs[0].error.as_deref(), Some("earlier"));
    assert_eq!(jobs[0].retry_count, 1);
    assert_eq!(jobs[1].progress_percent, 40);
    update_job(&mut jobs, "/r/a.mp4", "failed", 0, Some("boom"), 2);
    assert_eq!(jobs[0].status, "failed");
    assert_eq!(jobs[0].error.as_deref(), Some("boom"));
    assert_eq!(jobs[0].retry_count, 2);
    update_job(&mut jobs, "/r/none.mp4", "failed", 0, None, 0);
    assert_eq!(jobs.len(), 2);
}

#[test]
fn error_outcome_counts_toward_three_attempts() {
    assert_eq!(MAX_RETRIES, 3);
    assert_eq!(job_error_outcome(0), (1, String::from("pending")));
    assert_eq!(job_error_outcome(1), (2, String::from("pending")));
    assert_eq!(job_error_outcome(2), (3, String::from("failed")));
    assert_eq!(job_error_outcome(7), (8, String::from("failed")));
}

#[test]
fn settle_missing_model_fails_at_once() {
    let j = job("/r/a.mp4", "in_progress");
    let mut jobs = vec![j.copy_job()];
    let r = settle_job(&mut jobs, &j, JobOutcome::ModelMissing);
    assert_eq!(r.history_status, "failed");
    assert_eq!(r.transcript_path, None);
    assert_eq!(r.failed_error.as_deref(), Some("Whisper model not downloaded"));
    assert_eq!(jobs[0].status, "failed");
    assert_eq!(jobs[0].progress_percent, 0);
    assert_eq!(jobs[0].error.as_deref(), Some("Whisper model not downloaded"));
    assert_eq!(jobs[0].retry_count, 1);
    let r = settle_job(&mut jobs, &j, JobOutcome::RecordingMissing);
    assert_eq!(r.failed_error.as_deref(), Some("Recording file not found"));
}

#[test]
fn settle_completed_job() {
    let j = job("/r/a.mp4", "in_progress");
    let mut jobs = vec![j.copy_job()];
    let r = settle_job(&mut jobs, &j, JobOutcome::Completed(String::from("/r/a.srt")));
    assert_eq!(r.history_status, "completed");
    assert_eq!(r.transcript_path.as_deref(), Some("/r/a.srt"));
    assert_eq!(r.failed_error, None);
    assert_eq!(jobs[0].status, "completed");
    assert_eq!(jobs[0].progress_percent, 100);
}

#[test]
fn settle_failed_attempts_retry_then_fail() {
    let mut j = job("/r/a.mp4", "in_progress");
    j.retry_count = 0;
    let mut jobs = vec![j.copy_job()];
    let r = settle_job(&mut jobs, &j, JobOutcome::TranscriptionFailed(String::from("no audio")));
    assert_eq!(r.history_status, "pending");
    assert_eq!(r.failed_error, None);
    assert_eq!(jobs[0].status, "pending");
    assert_eq!(jobs[0].retry_count, 1);
    assert_eq!(jobs[0].error.as_deref(), Some("Transcription failed: no audio"));
    j.retry_count = 2;
    let r = settle_job(&mut jobs, &j, JobOutcome::SrtWriteFailed(String::from("read-only")));
    assert_eq!(r.history_status, "failed");
    assert_eq!(r.failed_error.as_deref(), Some("Failed to write SRT: read-only"));
    assert_eq!(jobs[0].retry_count, 3);
}
