use voicenote::codec::{decode_job, encode_job, index_from_text, index_to_text, progress_string};
use voicenote::job::{Job, JobStatus, Stage, SummaryStatus};
use voicenote::store::JobIndex;

fn stored_job(id: &str, filename: &str) -> Job {
    Job {
        id: id.to_string(),
        filename: filename.to_string(),
        status: JobStatus::Queued,
        progress: 0,
        stage: Stage::Import,
        logs: Vec::new(),
        created_at: "0".to_string(),
        audio_path: String::new(),
        transcript_txt_path: String::new(),
        transcript_json_path: String::new(),
        transcript_srt_path: String::new(),
        md_preview: None,
        summary_status: None,
        summary_model: None,
        summary_error: None,
        summary_md: None,
        exported_to_obsidian: false,
    }
}

#[test]
fn index_persistence_roundtrip() {
    let index = JobIndex { jobs: vec![stored_job("job_a", "a.m4a"), stored_job("job_b", "b.m4a")] };
    let text = index_to_text(&index);
    let loaded = index_from_text(&text).expect("load index");
    assert_eq!(loaded.jobs.len(), 2);
    assert_eq!(loaded.jobs[0].id, "job_a");
    assert_eq!(loaded.jobs[1].id, "job_b");
}

#[test]
fn every_field_survives_save_and_load() {
    let mut j = stored_job("job_x", "talk.m4a");
    j.status = JobStatus::Done;
    j.stage = Stage::Done;
    j.progress = 360000;
    j.logs = vec!["one".to_string(), "two \"quoted\"".to_string()];
    j.created_at = "1700000000".to_string();
    j.audio_path = "/j/x/audio.original.m4a".to_string();
    j.transcript_txt_path = "/j/x/whisper.txt".to_string();
    j.transcript_json_path = "/j/x/whisper.json".to_string();
    j.transcript_srt_path = "/j/x/whisper.srt".to_string();
    j.md_preview = Some("Transcript ready.".to_string());
    j.summary_status = Some(SummaryStatus::Skipped);
    j.summary_model = Some("qwen".to_string());
    j.summary_error = None;
    j.summary_md = Some("# S".to_string());
    j.exported_to_obsidian = true;
    let index = JobIndex { jobs: vec![j, stored_job("job_y", "y.m4a")] };
    let loaded = index_from_text(&index_to_text(&index)).unwrap();
    let a = &loaded.jobs[0];
    assert_eq!(a.status, JobStatus::Done);
    assert_eq!(a.stage, Stage::Done);
    assert_eq!(a.progress, 360000);
    assert_eq!(a.logs, vec!["one".to_string(), "two \"quoted\"".to_string()]);
    assert_eq!(a.md_preview.as_deref(), Some("Transcript ready."));
    assert_eq!(a.summary_status, Some(SummaryStatus::Skipped));
    assert_eq!(a.summary_model.as_deref(), Some("qwen"));
    assert_eq!(a.summary_error, None);
    assert_eq!(a.summary_md.as_deref(), Some("# S"));
    assert!(a.exported_to_obsidian);
    assert_eq!(loaded.jobs[1].id, "job_y");
    let again = decode_job(&encode_job(&loaded.jobs[1])).unwrap();
    assert_eq!(again.filename, "y.m4a");
}

#[test]
fn documents_from_earlier_versions_load() {
    let text = r#"{"jobs":[{"id":"j1","filename":"a.m4a","status":"running","progress":0.3,"stage":"transcribe","logs":["x"],"created_at":"5","audio_path":"/a","transcript_txt_path":"","transcript_json_path":"","transcript_srt_path":"","md_preview":null,"summary_status":"not_started","summary_model":null,"summary_error":null,"summary_md":null,"exported_to_obsidian":false}]}"#;
    let ix = index_from_text(text).unwrap();
    assert_eq!(ix.jobs[0].progress, 300000);
    assert_eq!(ix.jobs[0].status, JobStatus::Running);
    assert_eq!(ix.jobs[0].summary_status, Some(SummaryStatus::NotStarted));
}

#[test]
fn malformed_index_documents_are_refused() {
    assert!(index_from_text("{").unwrap_err().starts_with("invalid index.json: "));
    assert!(index_from_text(r#"{"jobs":[{"id":"x"}]}"#).unwrap_err().starts_with("invalid index.json: "));
    assert!(index_from_text(r#"{"other":1}"#).unwrap_err().starts_with("invalid index.json: "));
    assert!(index_from_text(&index_to_text(&JobIndex { jobs: vec![stored_job("solo", "a")] })).is_ok());
    let doc = format!(
        "{{\"jobs\":[{},{}]}}",
        job_text(&stored_job("same", "a")),
        job_text(&stored_job("same", "b"))
    );
    assert_eq!(index_from_text(&doc).unwrap_err(), "invalid index.json: duplicate job id in index document");
}

fn job_text(j: &Job) -> String {
    let t = index_to_text(&JobIndex { jobs: vec![j.snapshot()] });
    let start = t.find('[').unwrap() + 1;
    let end = t.rfind(']').unwrap();
    t[start..end].to_string()
}

#[test]
fn progress_text_has_six_decimals() {
    assert_eq!(progress_string(0), "0.000000");
    assert_eq!(progress_string(360000), "0.360000");
    assert_eq!(progress_string(1000000), "1.000000");
}
