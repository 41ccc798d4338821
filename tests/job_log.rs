use voicenote::job::{
    apply_update, push_log, Job, JobStatus, JobUpdate, Stage, SummaryStatus, LOG_CAPACITY,
    PROGRESS_FULL,
};

fn test_job(id: &str, filename: &str) -> Job {
    Job {
        id: id.to_string(),
        filename: filename.to_string(),
        status: JobStatus::Queued,
        progress: 0,
        stage: Stage::Import,
        logs: Vec::new(),
        created_at: "0".to_string(),
        audio_path: String::new(),
        transcript_txt_path: String::new(),
        transcript_json_path: String::new(),
        transcript_srt_path: String::new(),
        md_preview: None,
        summary_status: None,
        summary_model: None,
        summary_error: None,
        summary_md: None,
        exported_to_obsidian: false,
    }
}

#[test]
fn log_buffer_is_bounded() {
    let mut job = test_job("job_1", "audio.m4a");
    for idx in 0..2100 {
        push_log(&mut job, &format!("line {idx}"));
    }
    assert_eq!(job.logs.len(), 2000);
    assert_eq!(job.logs.first().cloned(), Some("line 100".to_string()));
    assert_eq!(job.logs.last().cloned(), Some("line 2099".to_string()));
}

#[test]
fn log_keeps_every_line_below_capacity() {
    let mut job = test_job("job_2", "b.m4a");
    for idx in 0..LOG_CAPACITY {
        push_log(&mut job, &format!("l{idx}"));
    }
    assert_eq!(job.logs.len(), LOG_CAPACITY);
    assert_eq!(job.logs[0], "l0");
    push_log(&mut job, "next");
    assert_eq!(job.logs.len(), LOG_CAPACITY);
    assert_eq!(job.logs[0], "l1");
    assert_eq!(job.logs[LOG_CAPACITY - 1], "next");
}

#[test]
fn log_append_keeps_other_fields() {
    let mut job = test_job("job_3", "c.m4a");
    job.progress = 500;
    push_log(&mut job, "hello");
    assert_eq!(job.id, "job_3");
    assert_eq!(job.filename, "c.m4a");
    assert_eq!(job.progress, 500);
    assert_eq!(job.logs, vec!["hello".to_string()]);
}

#[test]
fn start_update_marks_running_convert() {
    let mut job = test_job("job_4", "d.m4a");
    apply_update(&mut job, &JobUpdate::Start);
    assert_eq!(job.status, JobStatus::Running);
    assert_eq!(job.stage, Stage::Convert);
    assert_eq!(job.progress, 100000);
    assert_eq!(job.logs, vec!["Worker started.".to_string()]);
}

#[test]
fn transcribing_progress_never_decreases() {
    let mut job = test_job("job_5", "e.m4a");
    apply_update(&mut job, &JobUpdate::Transcribing { progress: 600000 });
    assert_eq!(job.progress, 600000);
    assert_eq!(job.stage, Stage::Transcribe);
    apply_update(&mut job, &JobUpdate::Transcribing { progress: 540000 });
    assert_eq!(job.progress, 600000);
}

#[test]
fn fail_update_records_reason() {
    let mut job = test_job("job_6", "f.m4a");
    apply_update(&mut job, &JobUpdate::Fail { message: "ffmpeg convert failed".to_string() });
    assert_eq!(job.status, JobStatus::Error);
    assert_eq!(job.stage, Stage::Error);
    assert_eq!(job.logs.last().cloned(), Some("ffmpeg convert failed".to_string()));
}

#[test]
fn complete_and_cancel_updates() {
    let mut job = test_job("job_7", "g.m4a");
    apply_update(
        &mut job,
        &JobUpdate::Complete {
            txt: "t.txt".to_string(),
            json: "t.json".to_string(),
            srt: "t.srt".to_string(),
            preview: "Transcript ready.".to_string(),
            summary_state: SummaryStatus::NotStarted,
            line: "Whisper finished.".to_string(),
        },
    );
    assert_eq!(job.status, JobStatus::Done);
    assert_eq!(job.progress, PROGRESS_FULL);
    assert_eq!(job.transcript_json_path, "t.json");
    assert_eq!(job.md_preview.as_deref(), Some("Transcript ready."));
    assert_eq!(job.summary_status, Some(SummaryStatus::NotStarted));
    apply_update(&mut job, &JobUpdate::Cancel);
    assert_eq!(job.status, JobStatus::Cancelled);
    assert_eq!(job.stage, Stage::Cancelled);
    assert_eq!(job.logs.last().cloned(), Some("Job cancelled.".to_string()));
}

#[test]
fn summary_updates() {
    let mut job = test_job("job_8", "h.m4a");
    job.summary_error = Some("old".to_string());
    apply_update(&mut job, &JobUpdate::SummaryStarted { model: "m".to_string(), clear_error: false });
    assert_eq!(job.summary_status, Some(SummaryStatus::Running));
    assert_eq!(job.summary_error.as_deref(), Some("old"));
    apply_update(&mut job, &JobUpdate::SummaryStarted { model: "m".to_string(), clear_error: true });
    assert_eq!(job.summary_error, None);
    apply_update(
        &mut job,
        &JobUpdate::SummaryFinished { model: "m".to_string(), summary: "S".to_string() },
    );
    assert_eq!(job.summary_status, Some(SummaryStatus::Done));
    assert_eq!(job.summary_md.as_deref(), Some("S"));
    assert_eq!(job.md_preview.as_deref(), Some("S"));
    apply_update(
        &mut job,
        &JobUpdate::SummaryFailed { model: "m2".to_string(), error: "E".to_string() },
    );
    assert_eq!(job.summary_status, Some(SummaryStatus::Error));
    assert_eq!(job.summary_error.as_deref(), Some("E"));
    assert_eq!(job.summary_model.as_deref(), Some("m2"));
}
