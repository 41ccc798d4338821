use voicenote::release::{ffmpeg_status_key, whisper_binary_status_key};
use voicenote::status::{DownloadState, ModelDownloadStatus, StartOutcome, StatusTable};

fn fresh(key: &str, msg: &str, now: u64) -> ModelDownloadStatus {
    ModelDownloadStatus::downloading(key.to_string(), "whisper.cpp".to_string(), msg.to_string(), now)
}

#[test]
fn second_start_returns_in_flight_status() {
    let mut t = StatusTable::new();
    match t.begin(fresh("small", "Downloading ggml-small.bin", 100)) {
        StartOutcome::Started(s) => assert_eq!(s.started_at, Some(100)),
        StartOutcome::InFlight(_) => panic!("nothing was running"),
    }
    match t.begin(fresh("small", "again", 200)) {
        StartOutcome::InFlight(s) => {
            assert_eq!(s.state, DownloadState::Downloading);
            assert_eq!(s.started_at, Some(100));
            assert_eq!(s.message.as_deref(), Some("Downloading ggml-small.bin"));
        }
        StartOutcome::Started(_) => panic!("a second writer was started"),
    }
    assert_eq!(t.get("small").unwrap().started_at, Some(100));
}

#[test]
fn finished_download_can_start_again() {
    let mut t = StatusTable::new();
    let mut s = fresh("ffmpeg", "Downloading FFmpeg", 1);
    t.begin(s.snapshot());
    s.total_bytes = 10;
    s.downloaded_bytes = 10;
    s.complete(5);
    t.record(s);
    let done = t.get("ffmpeg").unwrap();
    assert_eq!(done.state, DownloadState::Done);
    assert_eq!(done.finished_at, Some(5));
    assert_eq!(done.message.as_deref(), Some("Download complete"));
    assert!(matches!(t.begin(fresh("ffmpeg", "again", 7)), StartOutcome::Started(_)));
}

#[test]
fn failure_is_recorded() {
    let mut t = StatusTable::new();
    let mut s = fresh("tiny", "x", 1);
    t.begin(s.snapshot());
    s.fail("Download failed (404): nope".to_string());
    t.record(s);
    let e = t.get("tiny").unwrap();
    assert_eq!(e.state, DownloadState::Error);
    assert_eq!(e.message.as_deref(), Some("Download failed (404): nope"));
}

#[test]
fn unknown_artifact_reports_idle() {
    let t = StatusTable::new();
    let s = t.status_or_idle(whisper_binary_status_key(), "whisper.cpp".to_string());
    assert_eq!(s.state, DownloadState::Idle);
    assert_eq!(s.model_size, "whisper-binary");
    assert_eq!(s.total_bytes, 0);
    assert_eq!(s.started_at, None);
    assert_eq!(ffmpeg_status_key(), "ffmpeg");
}

#[test]
fn byte_counters() {
    let mut s = fresh("base", "m", 1);
    s.set_total(100);
    s.add_downloaded(40);
    s.add_downloaded(60);
    assert_eq!(s.total_bytes, 100);
    assert_eq!(s.downloaded_bytes, 100);
    s.add_downloaded(u64::MAX);
    assert_eq!(s.downloaded_bytes, u64::MAX);
}
