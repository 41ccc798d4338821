//! The pipeline executor: drives one job from `queued` through conversion
//! and transcription to `done` or `error`. It decides; the caller performs
//! each requested action (processes, files) and reports back an event.

use vstd::prelude::*;
use crate::job::{opt_view, JobUpdate, SummaryStatus, PROGRESS_TRANSCRIBE};
use crate::paths::{join_path, joined, parent_of, path_parent};
use crate::text::{trim, trimmed};

verus! {

/// Preview text of a job completed with placeholder artifacts.
pub const PLACEHOLDER_PREVIEW: &'static str = "Stub transcript from Rust core.";

/// Text of the placeholder transcript.
pub const PLACEHOLDER_TRANSCRIPT: &'static str = "Stub transcript from Rust core.\n";

/// Segments of the placeholder transcript, as JSON.
pub const PLACEHOLDER_SEGMENTS: &'static str = "[{\"start\":0.0,\"end\":1.5,\"text\":\"Stub segment one.\"},{\"start\":1.6,\"end\":3.2,\"text\":\"Stub segment two.\"}]";

/// Preview text of a job completed with the speech engine's own output.
pub const TRANSCRIPT_PREVIEW: &'static str = "Transcript ready.";

/// The configuration a run takes at its start; later changes do not reach it.
#[derive(Debug)]
pub struct PipelineSettings {
    pub model_size: String,
    pub language: Option<String>,
    pub summarize: bool,
    pub auto_summarize: bool,
}

/// Where a run stands.
#[derive(Clone, Copy, Debug, PartialEq, Eq, Structural)]
pub enum Phase {
    Loading,
    ResolvingTranscoder,
    Converting,
    ResolvingEngine,
    Transcribing,
    CheckingOutputs,
    WritingPlaceholders,
    Finished,
    Failed,
}

impl Phase {
    /// The run is over.
    pub open spec fn is_terminal(self) -> bool {
        self is Finished || self is Failed
    }
}

/// What the caller is asked to do next.
#[derive(Debug)]
pub enum Action {
    /// Apply the step's update to the stored job and report `JobLoaded`.
    LoadJob,
    /// Locate the transcoder and report `TranscoderResolved`.
    ResolveTranscoder,
    /// Convert `input` to 16 kHz mono WAV at `output` (unless it exists)
    /// and report `Converted`.
    Convert { transcoder: String, input: String, output: String },
    /// Locate the speech engine and model and report `EngineResolved`.
    ResolveEngine { model_size: String },
    /// Run the speech engine, feeding its output lines to the job, and
    /// report `EngineFinished`.
    RunEngine {
        engine: String,
        model: String,
        audio: String,
        output_base: String,
        language: Option<String>,
    },
    /// Report with `OutputsChecked` whether both files exist.
    CheckOutputs { txt: String, json: String },
    /// Write placeholder artifacts into `job_dir` and report `PlaceholdersWritten`.
    WritePlaceholders { job_dir: String },
    /// Start the summary of the job as a detached task; the run is over.
    Summarize,
    /// The run is over.
    Stop,
}

/// What the caller reports back.
#[derive(Debug)]
pub enum Event {
    /// The job's audio path, or `None` when the job is not in the store.
    JobLoaded { audio_path: Option<String> },
    TranscoderResolved { result: Result<String, String> },
    Converted { result: Result<(), String> },
    /// The engine binary and the model file.
    EngineResolved { result: Result<(String, String), String> },
    EngineFinished { result: Result<(), String> },
    OutputsChecked { present: bool },
    /// The text, segments and subtitle paths written.
    PlaceholdersWritten { result: Result<(String, String, String), String> },
}

/// One decision: an update for the stored job, a line to publish without
/// storing it, and the next action.
#[derive(Debug)]
pub struct Step {
    pub update: Option<JobUpdate>,
    pub notice: Option<String>,
    pub action: Action,
}

/// The run of one job.
#[derive(Debug)]
pub struct Pipeline {
    pub job_id: String,
    pub settings: PipelineSettings,
    pub phase: Phase,
    pub job_dir: String,
    pub audio_path: String,
}

/// A step that records `msg` as the job's failure and ends the run.
pub open spec fn fails_with(r: Step, msg: Seq<char>) -> bool {
    &&& r.update matches Some(JobUpdate::Fail { message }) && message@ == msg
    &&& r.action is Stop
}

/// The language argument for the engine: the configured language, trimmed,
/// unless it is missing or blank.
pub open spec fn language_arg(l: Option<String>) -> Option<Seq<char>> {
    match l {
        Some(s) => if trimmed(s@).len() > 0 {
            Some(trimmed(s@))
        } else {
            None
        },
        None => None,
    }
}

/// Base path (without extension) of the engine's output files.
pub open spec fn output_base_of(job_dir: Seq<char>) -> Seq<char> {
    joined(job_dir, "whisper"@)
}

impl Pipeline {
    /// `post` is `pre` in a new phase, with the job's paths unchanged.
    pub open spec fn moved_to(pre: Pipeline, post: Pipeline, ph: Phase) -> bool {
        post == (Pipeline { phase: ph, ..pre })
    }

    /// The decision the run makes on event `e` in state `pre`.
    pub open spec fn transition(pre: Pipeline, e: Event, post: Pipeline, r: Step) -> bool {
        let wav = joined(pre.job_dir@, "audio.wav"@);
        let base = output_base_of(pre.job_dir@);
        if pre.phase.is_terminal() {
            post == pre && r.update is None && r.action is Stop
        } else {
            match (pre.phase, e) {
                (Phase::Loading, Event::JobLoaded { audio_path: None }) => {
                    Self::moved_to(pre, post, Phase::Failed) && r.update is None && r.action is Stop
                },
                (Phase::Loading, Event::JobLoaded { audio_path: Some(a) }) => match parent_of(a@) {
                    None => Self::moved_to(pre, post, Phase::Failed) && fails_with(
                        r,
                        "missing job directory"@,
                    ),
                    Some(d) => {
                        &&& post.phase == Phase::ResolvingTranscoder
                        &&& post.job_id == pre.job_id && post.settings == pre.settings
                        &&& post.job_dir@ == d && post.audio_path@ == a@
                        &&& r.update is None && r.action is ResolveTranscoder
                    },
                },
                (Phase::ResolvingTranscoder, Event::TranscoderResolved { result: Err(m) }) => {
                    Self::moved_to(pre, post, Phase::Failed) && fails_with(r, m@)
                },
                (Phase::ResolvingTranscoder, Event::TranscoderResolved { result: Ok(t) }) => {
                    &&& Self::moved_to(pre, post, Phase::Converting)
                    &&& r.update is None
                    &&& r.action matches Action::Convert { transcoder, input, output } && transcoder
                        == t && input@ == pre.audio_path@ && output@ == wav
                },
                (Phase::Converting, Event::Converted { result: Err(m) }) => {
                    Self::moved_to(pre, post, Phase::Failed) && fails_with(r, m@)
                },
                (Phase::Converting, Event::Converted { result: Ok(_) }) => {
                    &&& Self::moved_to(pre, post, Phase::ResolvingEngine)
                    &&& r.update == Some(JobUpdate::Transcribing { progress: PROGRESS_TRANSCRIBE })
                    &&& r.action matches Action::ResolveEngine { model_size } && model_size
                        == pre.settings.model_size
                },
                (Phase::ResolvingEngine, Event::EngineResolved { result: Err(m) }) => {
                    Self::moved_to(pre, post, Phase::Failed) && fails_with(r, m@)
                },
                (Phase::ResolvingEngine, Event::EngineResolved { result: Ok((bin, model_file)) }) => {
                    &&& Self::moved_to(pre, post, Phase::Transcribing)
                    &&& r.update is None
                    &&& r.action matches Action::RunEngine {
                        engine,
                        model,
                        audio,
                        output_base,
                        language,
                    } && engine == bin && model == model_file && audio@ == wav && output_base@
                        == base && opt_view(language) == language_arg(pre.settings.language)
                },
                (Phase::Transcribing, Event::EngineFinished { result: Err(m) }) => {
                    Self::moved_to(pre, post, Phase::Failed) && fails_with(r, m@)
                },
                (Phase::Transcribing, Event::EngineFinished { result: Ok(_) }) => {
                    &&& Self::moved_to(pre, post, Phase::CheckingOutputs)
                    &&& r.update is None
                    &&& r.action matches Action::CheckOutputs { txt, json } && txt@ == base
                        + ".txt"@ && json@ == base + ".json"@
                },
                (Phase::CheckingOutputs, Event::OutputsChecked { present: false }) => {
                    &&& Self::moved_to(pre, post, Phase::WritingPlaceholders)
                    &&& r.update is None
                    &&& r.action matches Action::WritePlaceholders { job_dir } && job_dir
                        == pre.job_dir
                },
                (Phase::CheckingOutputs, Event::OutputsChecked { present: true }) => {
                    &&& Self::moved_to(pre, post, Phase::Finished)
                    &&& r.update matches Some(
                        JobUpdate::Complete { txt, json, srt, preview, summary_state, line },
                    ) && txt@ == base + ".txt"@ && json@ == base + ".json"@ && srt@ == base
                        + ".srt"@ && preview@ == TRANSCRIPT_PREVIEW@ && line@ == "Whisper finished."@
                        && summary_state == (if pre.settings.summarize {
                        SummaryStatus::NotStarted
                    } else {
                        SummaryStatus::Skipped
                    })
                    &&& if pre.settings.summarize && pre.settings.auto_summarize {
                        r.action is Summarize
                    } else {
                        r.action is Stop
                    }
                },
                (Phase::WritingPlaceholders, Event::PlaceholdersWritten { result: Err(m) }) => {
                    Self::moved_to(pre, post, Phase::Failed) && fails_with(r, m@)
                },
                (Phase::WritingPlaceholders, Event::PlaceholdersWritten { result: Ok((t, j, s)) }) => {
                    &&& Self::moved_to(pre, post, Phase::Finished)
                    &&& r.update matches Some(
                        JobUpdate::Complete { txt, json, srt, preview, summary_state, line },
                    ) && txt == t && json == j && srt == s && preview@ == PLACEHOLDER_PREVIEW@
                        && summary_state == SummaryStatus::Skipped && line@
                        == "Worker finished (stub)."@
                    &&& r.action is Stop
                },
                _ => Self::moved_to(pre, post, Phase::Failed) && fails_with(
                    r,
                    "unexpected pipeline event"@,
                ),
            }
        }
    }

    /// A new run for job `job_id`. Its first step marks the job running
    /// (converting, progress 0.10) and asks for the job's audio path.
    pub fn new(job_id: String, settings: PipelineSettings) -> (r: (Pipeline, Step))
        ensures
            r.0.phase == Phase::Loading,
            r.0.job_id == job_id,
            r.0.settings == settings,
            r.1.update == Some(JobUpdate::Start),
            r.1.action is LoadJob,
    {
        (
            Pipeline {
                job_id,
                settings,
                phase: Phase::Loading,
                job_dir: String::new(),
                audio_path: String::new(),
            },
            Step { update: Some(JobUpdate::Start), notice: None, action: Action::LoadJob },
        )
    }

    fn fail(&mut self, message: String) -> (r: Step)
        ensures
            Self::moved_to(*old(self), *final(self), Phase::Failed),
            fails_with(r, message@),
    {
        self.phase = Phase::Failed;
        Step { update: Some(JobUpdate::Fail { message }), notice: None, action: Action::Stop }
    }

    /// Makes the decision for event `e`, as `transition` states it.
    pub fn advance(&mut self, e: Event) -> (r: Step)
        ensures
            Self::transition(*old(self), e, *final(self), r),
    {
        if self.phase == Phase::Finished || self.phase == Phase::Failed {
            return Step { update: None, notice: None, action: Action::Stop };
        }
        let wav = join_path(self.job_dir.as_str(), "audio.wav");
        let base = join_path(self.job_dir.as_str(), "whisper");
        match (self.phase, e) {
            (Phase::Loading, Event::JobLoaded { audio_path: None }) => {
                self.phase = Phase::Failed;
                Step {
                    update: None,
                    notice: Some("Worker error: job not found".to_owned()),
                    action: Action::Stop,
                }
            },
            (Phase::Loading, Event::JobLoaded { audio_path: Some(a) }) => {
                match path_parent(a.as_str()) {
                    None => self.fail("missing job directory".to_owned()),
                    Some(d) => {
                        self.phase = Phase::ResolvingTranscoder;
                        self.job_dir = d;
                        self.audio_path = a;
                        Step { update: None, notice: None, action: Action::ResolveTranscoder }
                    },
                }
            },
            (Phase::ResolvingTranscoder, Event::TranscoderResolved { result: Err(m) }) => {
                self.fail(m)
            },
            (Phase::ResolvingTranscoder, Event::TranscoderResolved { result: Ok(t) }) => {
                self.phase = Phase::Converting;
                Step {
                    update: None,
                    notice: Some("Converting audio to 16k mono WAV...".to_owned()),
                    action: Action::Convert {
                        transcoder: t,
                        input: self.audio_path.clone(),
                        output: wav,
                    },
                }
            },
            (Phase::Converting, Event::Converted { result: Err(m) }) => self.fail(m),
            (Phase::Converting, Event::Converted { result: Ok(_) }) => {
                self.phase = Phase::ResolvingEngine;
                Step {
                    update: Some(JobUpdate::Transcribing { progress: PROGRESS_TRANSCRIBE }),
                    notice: Some("Running whisper.cpp...".to_owned()),
                    action: Action::ResolveEngine { model_size: self.settings.model_size.clone() },
                }
            },
            (Phase::ResolvingEngine, Event::EngineResolved { result: Err(m) }) => self.fail(m),
            (Phase::ResolvingEngine, Event::EngineResolved { result: Ok((bin, model_file)) }) => {
                self.phase = Phase::Transcribing;
                let language = match &self.settings.language {
                    Some(l) => {
                        let t = trim(l.as_str());
                        if crate::text::is_blank(l.as_str()) {
                            None
                        } else {
                            Some(t)
                        }
                    },
                    None => None,
                };
                Step {
                    update: None,
                    notice: None,
                    action: Action::RunEngine {
                        engine: bin,
                        model: model_file,
                        audio: wav,
                        output_base: base,
                        language,
                    },
                }
            },
            (Phase::Transcribing, Event::EngineFinished { result: Err(m) }) => self.fail(m),
            (Phase::Transcribing, Event::EngineFinished { result: Ok(_) }) => {
                self.phase = Phase::CheckingOutputs;
                let txt = base.clone().concat(".txt");
                let json = base.concat(".json");
                Step { update: None, notice: None, action: Action::CheckOutputs { txt, json } }
            },
            (Phase::CheckingOutputs, Event::OutputsChecked { present: false }) => {
                self.phase = Phase::WritingPlaceholders;
                Step {
                    update: None,
                    notice: Some("Whisper output missing; falling back to stub.".to_owned()),
                    action: Action::WritePlaceholders { job_dir: self.job_dir.clone() },
                }
            },
            (Phase::CheckingOutputs, Event::OutputsChecked { present: true }) => {
                self.phase = Phase::Finished;
                let summary_state = if self.settings.summarize {
                    SummaryStatus::NotStarted
                } else {
                    SummaryStatus::Skipped
                };
                let update = JobUpdate::Complete {
                    txt: base.clone().concat(".txt"),
                    json: base.clone().concat(".json"),
                    srt: base.concat(".srt"),
                    preview: TRANSCRIPT_PREVIEW.to_owned(),
                    summary_state,
                    line: "Whisper finished.".to_owned(),
                };
                if self.settings.summarize && self.settings.auto_summarize {
                    Step {
                        update: Some(update),
                        notice: Some("Summarization queued.".to_owned()),
                        action: Action::Summarize,
                    }
                } else {
                    Step {
                        update: Some(update),
                        notice: Some("Summarization skipped.".to_owned()),
                        action: Action::Stop,
                    }
                }
            },
            (Phase::WritingPlaceholders, Event::PlaceholdersWritten { result: Err(m) }) => {
                self.fail(m)
            },
            (Phase::WritingPlaceholders, Event::PlaceholdersWritten { result: Ok((t, j, s)) }) => {
                self.phase = Phase::Finished;
                Step {
                    update: Some(
                        JobUpdate::Complete {
                            txt: t,
                            json: j,
                            srt: s,
                            preview: PLACEHOLDER_PREVIEW.to_owned(),
                            summary_state: SummaryStatus::Skipped,
                            line: "Worker finished (stub).".to_owned(),
                        },
                    ),
                    notice: None,
                    action: Action::Stop,
                }
            },
            _ => self.fail("unexpected pipeline event".to_owned()),
        }
    }
}

} // verus!
