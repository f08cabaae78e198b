use editors_engine::export_engine::batch::{BatchExportQueue, ExportJob, JobStatus};

fn sample_job(name: &str) -> ExportJob {
    ExportJob {
        id: String::new(),
        name: name.into(),
        project_path: "/tmp/proj.epp".into(),
        output_path: format!("/tmp/{}.mp4", name),
        preset: "1080p_h264".into(),
        status: JobStatus::Queued,
        progress_bits: 0.0f32.to_bits(),
        error: None,
        submitted_at_ms: 0,
        started_at_ms: None,
        completed_at_ms: None,
    }
}

#[test]
fn enqueue_assigns_id_and_status() {
    let mut q = BatchExportQueue::new();
    let id = q.enqueue(sample_job("job1"));
    assert!(!id.is_empty());
    assert_eq!(q.job(&id).unwrap().status, JobStatus::Queued);
}

#[test]
fn dequeue_returns_oldest_queued() {
    let mut q = BatchExportQueue::new();
    let id1 = q.enqueue(sample_job("job1"));
    let id2 = q.enqueue(sample_job("job2"));
    let next = q.dequeue_next().unwrap();
    assert_eq!(next.id, id1);
    assert_eq!(next.status, JobStatus::Running);
    let next = q.dequeue_next().unwrap();
    assert_eq!(next.id, id2);
}

#[test]
fn dequeue_returns_none_when_empty() {
    let mut q = BatchExportQueue::new();
    assert!(q.dequeue_next().is_none());
}

#[test]
fn complete_marks_job_done() {
    let mut q = BatchExportQueue::new();
    let id = q.enqueue(sample_job("job1"));
    q.dequeue_next();
    q.complete(&id);
    let job = q.job(&id).unwrap();
    assert_eq!(job.status, JobStatus::Completed);
    assert_eq!(f32::from_bits(job.progress_bits), 1.0);
    assert!(job.completed_at_ms.is_some());
}

#[test]
fn fail_records_error() {
    let mut q = BatchExportQueue::new();
    let id = q.enqueue(sample_job("job1"));
    q.dequeue_next();
    q.fail(&id, "encoder failed".into());
    let job = q.job(&id).unwrap();
    assert_eq!(job.status, JobStatus::Failed);
    assert_eq!(job.error.as_deref(), Some("encoder failed"));
}

#[test]
fn cancel_queued_job() {
    let mut q = BatchExportQueue::new();
    let id = q.enqueue(sample_job("job1"));
    q.cancel(&id);
    assert_eq!(q.job(&id).unwrap().status, JobStatus::Cancelled);
}

#[test]
fn stop_request_blocks_dequeue() {
    let mut q = BatchExportQueue::new();
    q.enqueue(sample_job("job1"));
    q.request_stop();
    assert!(q.dequeue_next().is_none());
    q.resume();
    assert!(q.dequeue_next().is_some());
}

#[test]
fn clear_finished_removes_terminal_jobs() {
    let mut q = BatchExportQueue::new();
    let id1 = q.enqueue(sample_job("job1"));
    let id2 = q.enqueue(sample_job("job2"));
    q.complete(&id1);
    assert_eq!(q.jobs().len(), 2);
    q.clear_finished();
    assert_eq!(q.jobs().len(), 1);
    assert_eq!(q.jobs()[0].id, id2);
}

#[test]
fn count_by_status() {
    let mut q = BatchExportQueue::new();
    let id1 = q.enqueue(sample_job("job1"));
    let _id2 = q.enqueue(sample_job("job2"));
    let _id3 = q.enqueue(sample_job("job3"));
    q.complete(&id1);
    assert_eq!(q.count_by_status(JobStatus::Completed), 1);
    assert_eq!(q.count_by_status(JobStatus::Queued), 2);
}

#[test]
fn progress_updates_only_running_jobs() {
    let mut q = BatchExportQueue::new();
    let id = q.enqueue(sample_job("job1"));
    q.update_progress(&id, 0.5f32.to_bits());
    assert_eq!(f32::from_bits(q.job(&id).unwrap().progress_bits), 0.0);
    q.dequeue_next();
    q.update_progress(&id, 0.5f32.to_bits());
    assert_eq!(f32::from_bits(q.job(&id).unwrap().progress_bits), 0.5);
    q.update_progress("no-such-id", 0.9f32.to_bits());
    assert_eq!(q.jobs().len(), 1);
}

#[test]
fn cancel_leaves_finished_jobs_alone() {
    let mut q = BatchExportQueue::new();
    let id = q.enqueue(sample_job("job1"));
    q.complete(&id);
    q.cancel(&id);
    assert_eq!(q.job(&id).unwrap().status, JobStatus::Completed);
    assert!(q.job("missing").is_none());
}

#[test]
fn enqueue_resets_fields_and_keeps_the_rest() {
    let mut q = BatchExportQueue::new();
    let mut j = sample_job("job1");
    j.status = JobStatus::Failed;
    j.progress_bits = 0.7f32.to_bits();
    let id = q.enqueue(j);
    let job = q.job(&id).unwrap();
    assert_eq!(job.id.len(), 36);
    assert_eq!(job.status, JobStatus::Queued);
    assert_eq!(job.progress_bits, 0);
    assert_eq!(job.name, "job1");
    assert_eq!(job.output_path, "/tmp/job1.mp4");
    assert!(job.submitted_at_ms > 0);
}

#[test]
fn progress_is_clamped_to_unit_range() {
    let mut q = BatchExportQueue::new();
    let id = q.enqueue(sample_job("job1"));
    q.dequeue_next();
    q.update_progress(&id, 1.5f32.to_bits());
    assert_eq!(f32::from_bits(q.job(&id).unwrap().progress_bits), 1.0);
    q.update_progress(&id, (-0.25f32).to_bits());
    assert_eq!(f32::from_bits(q.job(&id).unwrap().progress_bits), 0.0);
    q.update_progress(&id, 0.75f32.to_bits());
    assert_eq!(f32::from_bits(q.job(&id).unwrap().progress_bits), 0.75);
}
