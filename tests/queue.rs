use std::sync::mpsc;
use voicenote::config::AppConfig;
use voicenote::pipeline::{Event, Pipeline};
use voicenote::queue::{JobQueueState, Worker};

fn finished_run(id: &str) -> Pipeline {
    let (mut p, _) = Pipeline::new(id.to_string(), AppConfig::default().pipeline_settings());
    p.advance(Event::JobLoaded { audio_path: None });
    p
}

#[test]
fn earlier_job_finishes_before_later_begins() {
    let mut w = Worker::new();
    w.submit("job_a".to_string());
    w.submit("job_b".to_string());
    assert!(!w.is_busy());
    assert_eq!(w.start_next().as_deref(), Some("job_a"));
    assert!(w.is_busy());
    let run = finished_run("job_a");
    w.finish(&run);
    assert!(!w.is_busy());
    assert_eq!(w.start_next().as_deref(), Some("job_b"));
    w.finish(&finished_run("job_b"));
    assert_eq!(w.start_next(), None);
}

#[test]
fn idle_worker_with_nothing_queued_starts_nothing() {
    let mut w = Worker::new();
    assert_eq!(w.start_next(), None);
    w.submit("x".to_string());
    assert_eq!(w.start_next().as_deref(), Some("x"));
}

#[test]
fn enqueue_hands_ids_to_the_consumer_in_order() {
    let (tx, rx) = mpsc::channel::<String>();
    let mut q = JobQueueState::new(tx);
    q.enqueue("a".to_string()).unwrap();
    q.enqueue("b".to_string()).unwrap();
    assert_eq!(rx.recv().unwrap(), "a");
    assert_eq!(rx.recv().unwrap(), "b");
    drop(rx);
    let err = q.enqueue("c".to_string()).unwrap_err();
    assert!(err.starts_with("failed to enqueue job: "));
}
