use voicenote::job::{Job, JobStatus, JobUpdate, Stage, SummaryStatus};
use voicenote::summary::{
    build_summary_prompt, finish_summary_run, generate_url, get_summary, interpret_generation,
    plan_summary_request, plan_summary_run, summary_inputs, GenerationOutcome, RunStart, SummaryPlan,
};

fn job_with(status: Option<SummaryStatus>, md: Option<&str>) -> Job {
    Job {
        id: "j".to_string(),
        filename: "a.m4a".to_string(),
        status: JobStatus::Done,
        progress: 1000000,
        stage: Stage::Done,
        logs: Vec::new(),
        created_at: "0".to_string(),
        audio_path: "/d/jobs/j/audio.original.m4a".to_string(),
        transcript_txt_path: "/d/jobs/j/whisper.txt".to_string(),
        transcript_json_path: String::new(),
        transcript_srt_path: String::new(),
        md_preview: None,
        summary_status: status,
        summary_model: Some("llama".to_string()),
        summary_error: None,
        summary_md: md.map(|s| s.to_string()),
        exported_to_obsidian: false,
    }
}

#[test]
fn prompt_substitutes_or_appends() {
    assert_eq!(build_summary_prompt("Sum: {text} ({text})", "T"), "Sum: T (T)");
    assert_eq!(build_summary_prompt("Summarize.", "hello"), "Summarize.\n\nhello\n");
}

#[test]
fn endpoint_drops_trailing_slashes() {
    assert_eq!(generate_url("http://127.0.0.1:11434//"), "http://127.0.0.1:11434/api/generate");
    assert_eq!(generate_url("http://h"), "http://h/api/generate");
}

#[test]
fn each_failure_has_its_message() {
    let u = "http://h/api/generate";
    assert_eq!(interpret_generation(u, GenerationOutcome::TimedOut).unwrap_err(), "Ollama timeout after 120s at http://h/api/generate");
    assert_eq!(
        interpret_generation(u, GenerationOutcome::Unreachable).unwrap_err(),
        "Ollama not reachable at http://h/api/generate. Is Ollama running?"
    );
    assert_eq!(
        interpret_generation(u, GenerationOutcome::Failed { error: "boom".to_string() }).unwrap_err(),
        "Ollama request failed: boom"
    );
    assert_eq!(
        interpret_generation(u, GenerationOutcome::Rejected { status: "500 Internal Server Error".to_string(), body: "x".to_string() }).unwrap_err(),
        "Ollama error: 500 Internal Server Error x"
    );
    assert_eq!(
        interpret_generation(u, GenerationOutcome::Answered { body: r#"{"response":"  "}"#.to_string() }).unwrap_err(),
        "Ollama returned empty response."
    );
    assert!(interpret_generation(u, GenerationOutcome::Answered { body: "oops".to_string() })
        .unwrap_err()
        .starts_with("Invalid Ollama response: "));
    assert_eq!(
        interpret_generation(u, GenerationOutcome::Answered { body: r##"{"response":"# Notes"}"##.to_string() }).unwrap(),
        "# Notes"
    );
}

#[test]
fn request_plans() {
    match plan_summary_request(false, "m", None) {
        SummaryPlan::Reply { response } => {
            assert_eq!(response.summary_status, SummaryStatus::Skipped);
            assert_eq!(response.summary_model, "m");
        }
        _ => panic!(),
    }
    let running = job_with(Some(SummaryStatus::Running), Some("partial"));
    match plan_summary_request(true, "m", Some(&running)) {
        SummaryPlan::Reply { response } => {
            assert_eq!(response.summary_status, SummaryStatus::Running);
            assert_eq!(response.summary_model, "llama");
            assert_eq!(response.summary_md, "partial");
        }
        _ => panic!(),
    }
    let idle = job_with(None, None);
    match plan_summary_request(true, "m", Some(&idle)) {
        SummaryPlan::Start { update, response } => {
            assert!(matches!(update, JobUpdate::SummaryStarted { clear_error: true, .. }));
            assert_eq!(response.summary_status, SummaryStatus::Running);
        }
        _ => panic!(),
    }
}

#[test]
fn run_plans_reuse_or_begin() {
    let done = job_with(Some(SummaryStatus::Done), Some("cached"));
    match plan_summary_run(Some(&done), "m", false) {
        RunStart::Existing { response } => assert_eq!(response.summary_md, "cached"),
        _ => panic!(),
    }
    assert!(matches!(plan_summary_run(Some(&done), "m", true), RunStart::Begin { .. }));
    let blank = job_with(Some(SummaryStatus::Done), Some("  "));
    assert!(matches!(plan_summary_run(Some(&blank), "m", false), RunStart::Begin { .. }));
    assert!(matches!(plan_summary_run(None, "m", false), RunStart::Begin { .. }));
}

#[test]
fn run_inputs_and_outcomes() {
    let j = job_with(None, None);
    let (t, d) = summary_inputs(Some(&j)).unwrap();
    assert_eq!(t, "/d/jobs/j/whisper.txt");
    assert_eq!(d, "/d/jobs/j");
    assert_eq!(summary_inputs(None).unwrap_err(), "Transcript not found.");
    let mut k = job_with(None, None);
    k.transcript_txt_path = String::new();
    assert_eq!(summary_inputs(Some(&k)).unwrap_err(), "Transcript path missing.");
    let (u, r) = finish_summary_run("m", Ok("S".to_string()));
    assert!(matches!(u, JobUpdate::SummaryFinished { .. }));
    assert_eq!(r.unwrap().summary_status, SummaryStatus::Done);
    let (u, r) = finish_summary_run("m", Err("E".to_string()));
    assert!(matches!(u, JobUpdate::SummaryFailed { .. }));
    assert_eq!(r.unwrap_err(), "E");
}

#[test]
fn summary_view_prefers_stored_text_then_file() {
    let stored = job_with(None, Some("stored"));
    let r = get_summary(&stored, Some("file".to_string()));
    assert_eq!(r.summary_md, "stored");
    assert_eq!(r.summary_status, SummaryStatus::Done);
    let none = job_with(None, None);
    let r = get_summary(&none, Some("file".to_string()));
    assert_eq!(r.summary_md, "file");
    let r = get_summary(&none, None);
    assert_eq!(r.summary_md, "");
    assert_eq!(r.summary_status, SummaryStatus::NotStarted);
    assert_eq!(r.summary_model, "llama");
}
