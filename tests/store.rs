use voicenote::intake::{build_job_audio_path, new_job};
use voicenote::job::{JobStatus, JobUpdate, SummaryStatus};
use voicenote::store::JobIndex;

#[test]
fn insert_prepends_and_rejects_duplicate_ids() {
    let mut s = JobIndex::new();
    assert!(s.insert(new_job("a".to_string(), "/x/a.m4a", "/j/a/audio.original.m4a".to_string(), "1".to_string())));
    assert!(s.insert(new_job("b".to_string(), "/x/b.m4a", "/j/b/audio.original.m4a".to_string(), "2".to_string())));
    assert!(!s.insert(new_job("a".to_string(), "/x/c.m4a", "p".to_string(), "3".to_string())));
    let all = s.list();
    assert_eq!(all.len(), 2);
    assert_eq!(all[0].id, "b");
    assert_eq!(all[1].id, "a");
    assert_eq!(all[1].filename, "a.m4a");
}

#[test]
fn mutate_get_and_delete() {
    let mut s = JobIndex::new();
    s.insert(new_job("a".to_string(), "/x/a.m4a", "p".to_string(), "1".to_string()));
    let snap = s.mutate("a", &JobUpdate::Cancel).unwrap();
    assert_eq!(snap.status, JobStatus::Cancelled);
    assert_eq!(s.get("a").unwrap().status, JobStatus::Cancelled);
    assert!(s.mutate("zz", &JobUpdate::Cancel).is_none());
    assert!(s.get("zz").is_none());
    assert!(s.delete("a"));
    assert!(!s.delete("a"));
    assert_eq!(s.list().len(), 0);
}

#[test]
fn new_job_is_queued_with_one_log_line() {
    let j = new_job("job_1".to_string(), "/home/u/sample.m4a", "/j/job_1/audio.original.m4a".to_string(), "7".to_string());
    assert_eq!(j.filename, "sample.m4a");
    assert_eq!(j.status, JobStatus::Queued);
    assert_eq!(j.progress, 0);
    assert_eq!(j.logs, vec!["Queued for processing.".to_string()]);
    assert_eq!(j.summary_status, Some(SummaryStatus::NotStarted));
    assert_eq!(j.created_at, "7");
}

#[test]
fn job_audio_path_keeps_extension() {
    assert_eq!(build_job_audio_path("/data/jobs", "job_1", "/x/y/talk.M4A"), "/data/jobs/job_1/audio.original.M4A");
    assert_eq!(build_job_audio_path("/data/jobs/", "job_2", "/x/noext"), "/data/jobs/job_2/audio.original");
}

#[test]
fn audio_name_follows_std_extension() {
    for src in ["/x/a.tar.gz", "/x/.hidden", "/x/a.", "/x/..", "/x/noext", "rel/b.wav", "c.d/e"] {
        let expected = match std::path::Path::new(src).extension().and_then(|e| e.to_str()) {
            Some(e) if !e.is_empty() => format!("/j/id/audio.original.{e}"),
            _ => "/j/id/audio.original".to_string(),
        };
        assert_eq!(build_job_audio_path("/j", "id", src), expected, "{src}");
    }
}
