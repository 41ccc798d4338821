use voicenote::config::AppConfig;
use voicenote::intake::new_job;
use voicenote::job::{JobStatus, Stage, SummaryStatus, PROGRESS_FULL};
use voicenote::pipeline::{Action, Event, Phase, Pipeline, Step, PLACEHOLDER_PREVIEW};
use voicenote::progress::updates_for_stdout_line;
use voicenote::store::JobIndex;

fn setup() -> JobIndex {
    let mut store = JobIndex::new();
    let job = new_job(
        "job_1".to_string(),
        "/home/u/sample.m4a",
        "/data/jobs/job_1/audio.original.m4a".to_string(),
        "0".to_string(),
    );
    assert!(store.insert(job));
    store
}

fn observe(store: &mut JobIndex, step: &Step, seen: &mut Vec<(JobStatus, Stage, u32)>) {
    if let Some(u) = &step.update {
        let j = store.mutate("job_1", u).expect("job is stored");
        seen.push((j.status, j.stage, j.progress));
    }
}

fn run_to_outputs(store: &mut JobIndex, cfg: &AppConfig, seen: &mut Vec<(JobStatus, Stage, u32)>) -> Pipeline {
    let (mut p, step) = Pipeline::new("job_1".to_string(), cfg.pipeline_settings());
    assert!(matches!(step.action, Action::LoadJob));
    observe(store, &step, seen);
    let audio = store.get("job_1").unwrap().audio_path;
    let step = p.advance(Event::JobLoaded { audio_path: Some(audio) });
    assert!(matches!(step.action, Action::ResolveTranscoder));
    let step = p.advance(Event::TranscoderResolved { result: Ok("/opt/ffmpeg".to_string()) });
    match &step.action {
        Action::Convert { transcoder, input, output } => {
            assert_eq!(transcoder, "/opt/ffmpeg");
            assert_eq!(input, "/data/jobs/job_1/audio.original.m4a");
            assert_eq!(output, "/data/jobs/job_1/audio.wav");
        }
        _ => panic!("expected a conversion"),
    }
    let step = p.advance(Event::Converted { result: Ok(()) });
    observe(store, &step, seen);
    match &step.action {
        Action::ResolveEngine { model_size } => assert_eq!(model_size, "small"),
        _ => panic!("expected engine resolution"),
    }
    let step = p.advance(Event::EngineResolved {
        result: Ok(("/opt/whisper".to_string(), "/opt/ggml-small.bin".to_string())),
    });
    match &step.action {
        Action::RunEngine { engine, model, audio, output_base, language } => {
            assert_eq!(engine, "/opt/whisper");
            assert_eq!(model, "/opt/ggml-small.bin");
            assert_eq!(audio, "/data/jobs/job_1/audio.wav");
            assert_eq!(output_base, "/data/jobs/job_1/whisper");
            assert_eq!(language.as_deref(), Some("en"));
        }
        _ => panic!("expected the engine run"),
    }
    for line in ["whisper: progress = 10%", "loading model", "progress 55%", "progress 100%"] {
        for u in updates_for_stdout_line(line) {
            let j = store.mutate("job_1", &u).unwrap();
            if !matches!(u, voicenote::job::JobUpdate::Log { .. }) {
                seen.push((j.status, j.stage, j.progress));
            }
        }
    }
    let step = p.advance(Event::EngineFinished { result: Ok(()) });
    match &step.action {
        Action::CheckOutputs { txt, json } => {
            assert_eq!(txt, "/data/jobs/job_1/whisper.txt");
            assert_eq!(json, "/data/jobs/job_1/whisper.json");
        }
        _ => panic!("expected an output check"),
    }
    p
}

#[test]
fn default_run_reaches_done_through_each_stage() {
    let mut store = setup();
    let cfg = AppConfig::default();
    assert_eq!(store.get("job_1").unwrap().status, JobStatus::Queued);
    let mut seen = Vec::new();
    let mut p = run_to_outputs(&mut store, &cfg, &mut seen);
    let step = p.advance(Event::OutputsChecked { present: true });
    observe(&mut store, &step, &mut seen);
    assert!(matches!(step.action, Action::Summarize));
    assert_eq!(p.phase, Phase::Finished);
    assert_eq!(seen[0], (JobStatus::Running, Stage::Convert, 100000));
    assert_eq!(seen[1], (JobStatus::Running, Stage::Transcribe, 300000));
    assert_eq!(seen[2], (JobStatus::Running, Stage::Transcribe, 360000));
    assert_eq!(seen[3], (JobStatus::Running, Stage::Transcribe, 630000));
    assert_eq!(seen[4], (JobStatus::Running, Stage::Transcribe, 900000));
    assert_eq!(seen[5], (JobStatus::Done, Stage::Done, PROGRESS_FULL));
    for w in seen.windows(2) {
        assert!(w[0].2 <= w[1].2);
    }
    let job = store.get("job_1").unwrap();
    assert_eq!(job.summary_status, Some(SummaryStatus::NotStarted));
    assert_eq!(job.transcript_srt_path, "/data/jobs/job_1/whisper.srt");
    assert_eq!(job.md_preview.as_deref(), Some("Transcript ready."));
    assert_eq!(job.logs.last().map(|s| s.as_str()), Some("Whisper finished."));
}

#[test]
fn run_without_auto_summary_stops() {
    let mut store = setup();
    let mut cfg = AppConfig::default();
    cfg.auto_summarize_after_transcription = false;
    let mut seen = Vec::new();
    let mut p = run_to_outputs(&mut store, &cfg, &mut seen);
    let step = p.advance(Event::OutputsChecked { present: true });
    observe(&mut store, &step, &mut seen);
    assert!(matches!(step.action, Action::Stop));
    assert_eq!(store.get("job_1").unwrap().summary_status, Some(SummaryStatus::NotStarted));
}

#[test]
fn run_with_summaries_disabled_skips_them() {
    let mut store = setup();
    let mut cfg = AppConfig::default();
    cfg.enable_summarization = false;
    let mut seen = Vec::new();
    let mut p = run_to_outputs(&mut store, &cfg, &mut seen);
    let step = p.advance(Event::OutputsChecked { present: true });
    observe(&mut store, &step, &mut seen);
    assert!(matches!(step.action, Action::Stop));
    assert_eq!(store.get("job_1").unwrap().summary_status, Some(SummaryStatus::Skipped));
}

#[test]
fn missing_engine_output_completes_with_placeholders() {
    let mut store = setup();
    let cfg = AppConfig::default();
    let mut seen = Vec::new();
    let mut p = run_to_outputs(&mut store, &cfg, &mut seen);
    let step = p.advance(Event::OutputsChecked { present: false });
    match &step.action {
        Action::WritePlaceholders { job_dir } => assert_eq!(job_dir, "/data/jobs/job_1"),
        _ => panic!("expected placeholders"),
    }
    let step = p.advance(Event::PlaceholdersWritten {
        result: Ok((
            "/data/jobs/job_1/transcript.txt".to_string(),
            "/data/jobs/job_1/segments.json".to_string(),
            "/data/jobs/job_1/transcript.srt".to_string(),
        )),
    });
    observe(&mut store, &step, &mut seen);
    assert!(matches!(step.action, Action::Stop));
    let job = store.get("job_1").unwrap();
    assert_eq!(job.status, JobStatus::Done);
    assert_eq!(job.progress, PROGRESS_FULL);
    assert_eq!(job.md_preview.as_deref(), Some(PLACEHOLDER_PREVIEW));
    assert_eq!(job.transcript_json_path, "/data/jobs/job_1/segments.json");
    assert_eq!(job.summary_status, Some(SummaryStatus::Skipped));
    assert_eq!(job.logs.last().map(|s| s.as_str()), Some("Worker finished (stub)."));
}

#[test]
fn stage_failure_is_terminal_error() {
    let mut store = setup();
    let cfg = AppConfig::default();
    let (mut p, step) = Pipeline::new("job_1".to_string(), cfg.pipeline_settings());
    let mut seen = Vec::new();
    observe(&mut store, &step, &mut seen);
    let audio = store.get("job_1").unwrap().audio_path;
    p.advance(Event::JobLoaded { audio_path: Some(audio) });
    let step = p.advance(Event::TranscoderResolved { result: Err("FFmpeg not found.".to_string()) });
    observe(&mut store, &step, &mut seen);
    assert!(matches!(step.action, Action::Stop));
    assert_eq!(p.phase, Phase::Failed);
    let job = store.get("job_1").unwrap();
    assert_eq!(job.status, JobStatus::Error);
    assert_eq!(job.stage, Stage::Error);
    assert_eq!(job.logs.last().map(|s| s.as_str()), Some("FFmpeg not found."));
    let after = p.advance(Event::Converted { result: Ok(()) });
    assert!(after.update.is_none());
    assert!(matches!(after.action, Action::Stop));
}

#[test]
fn unexpected_event_fails_the_run() {
    let cfg = AppConfig::default();
    let (mut p, _) = Pipeline::new("job_9".to_string(), cfg.pipeline_settings());
    let step = p.advance(Event::Converted { result: Ok(()) });
    assert_eq!(p.phase, Phase::Failed);
    match step.update {
        Some(voicenote::job::JobUpdate::Fail { message }) => assert_eq!(message, "unexpected pipeline event"),
        _ => panic!("expected a failure"),
    }
}

#[test]
fn missing_job_stops_without_update() {
    let cfg = AppConfig::default();
    let (mut p, _) = Pipeline::new("ghost".to_string(), cfg.pipeline_settings());
    let step = p.advance(Event::JobLoaded { audio_path: None });
    assert!(step.update.is_none());
    assert_eq!(p.phase, Phase::Failed);
}
