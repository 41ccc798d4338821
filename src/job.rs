//! The job record: statuses, stages, the bounded log and progress.

use vstd::prelude::*;

verus! {

/// Maximum number of log lines a job keeps; older lines are dropped first.
pub const LOG_CAPACITY: usize = 2000;

/// Progress is kept in millionths: `PROGRESS_FULL` stands for 1.0.
pub const PROGRESS_FULL: u32 = 1000000;

/// Overall lifecycle status of a job.
#[derive(Clone, Copy, Debug, PartialEq, Eq, Structural)]
pub enum JobStatus {
    Queued,
    Running,
    Done,
    Error,
    Cancelled,
}

/// The pipeline stage a job is in.
#[derive(Clone, Copy, Debug, PartialEq, Eq, Structural)]
pub enum Stage {
    Import,
    Convert,
    Transcribe,
    Done,
    Error,
    Cancelled,
}

/// State of the optional summary attached to a job.
#[derive(Clone, Copy, Debug, PartialEq, Eq, Structural)]
pub enum SummaryStatus {
    NotStarted,
    Running,
    Done,
    Error,
    Skipped,
}

impl JobStatus {
    /// A terminal status is never left by the pipeline.
    pub open spec fn is_terminal(self) -> bool {
        self is Done || self is Error || self is Cancelled
    }
}

/// One unit of pipeline work, from submission to a terminal status.
#[derive(Debug)]
pub struct Job {
    pub id: String,
    pub filename: String,
    pub status: JobStatus,
    /// Progress in millionths, `0 ..= PROGRESS_FULL`.
    pub progress: u32,
    pub stage: Stage,
    pub logs: Vec<String>,
    pub created_at: String,
    pub audio_path: String,
    pub transcript_txt_path: String,
    pub transcript_json_path: String,
    pub transcript_srt_path: String,
    pub md_preview: Option<String>,
    pub summary_status: Option<SummaryStatus>,
    pub summary_model: Option<String>,
    pub summary_error: Option<String>,
    pub summary_md: Option<String>,
    pub exported_to_obsidian: bool,
}

/// The character content of each string in a sequence.
pub open spec fn lines_view(v: Seq<String>) -> Seq<Seq<char>> {
    v.map_values(|s: String| s@)
}

/// The log after appending `line` to `logs` and dropping the oldest lines
/// beyond the capacity.
pub open spec fn bounded_append(logs: Seq<Seq<char>>, line: Seq<char>) -> Seq<Seq<char>> {
    let s = logs.push(line);
    if s.len() > LOG_CAPACITY {
        s.subrange(s.len() - LOG_CAPACITY, s.len() as int)
    } else {
        s
    }
}

/// The log after appending every line of `lines` in order.
pub open spec fn append_all(logs: Seq<Seq<char>>, lines: Seq<Seq<char>>) -> Seq<Seq<char>>
    decreases lines.len(),
{
    if lines.len() == 0 {
        logs
    } else {
        bounded_append(append_all(logs, lines.drop_last()), lines.last())
    }
}

/// The most recent `LOG_CAPACITY` entries of `s` (all of them if fewer).
pub open spec fn most_recent(s: Seq<Seq<char>>) -> Seq<Seq<char>> {
    if s.len() > LOG_CAPACITY {
        s.subrange(s.len() - LOG_CAPACITY, s.len() as int)
    } else {
        s
    }
}

/// The mathematical model of a job: every string as its characters.
pub struct JobView {
    pub id: Seq<char>,
    pub filename: Seq<char>,
    pub status: JobStatus,
    pub progress: u32,
    pub stage: Stage,
    pub logs: Seq<Seq<char>>,
    pub created_at: Seq<char>,
    pub audio_path: Seq<char>,
    pub transcript_txt_path: Seq<char>,
    pub transcript_json_path: Seq<char>,
    pub transcript_srt_path: Seq<char>,
    pub md_preview: Option<Seq<char>>,
    pub summary_status: Option<SummaryStatus>,
    pub summary_model: Option<Seq<char>>,
    pub summary_error: Option<Seq<char>>,
    pub summary_md: Option<Seq<char>>,
    pub exported_to_obsidian: bool,
}

/// The characters of an optional string.
pub open spec fn opt_view(o: Option<String>) -> Option<Seq<char>> {
    match o {
        Some(s) => Some(s@),
        None => None,
    }
}

impl View for Job {
    type V = JobView;

    open spec fn view(&self) -> JobView {
        JobView {
            id: self.id@,
            filename: self.filename@,
            status: self.status,
            progress: self.progress,
            stage: self.stage,
            logs: lines_view(self.logs@),
            created_at: self.created_at@,
            audio_path: self.audio_path@,
            transcript_txt_path: self.transcript_txt_path@,
            transcript_json_path: self.transcript_json_path@,
            transcript_srt_path: self.transcript_srt_path@,
            md_preview: opt_view(self.md_preview),
            summary_status: self.summary_status,
            summary_model: opt_view(self.summary_model),
            summary_error: opt_view(self.summary_error),
            summary_md: opt_view(self.summary_md),
            exported_to_obsidian: self.exported_to_obsidian,
        }
    }
}

impl JobView {
    /// Well-formed: bounded log and progress within `0 ..= 1`.
    pub open spec fn wf(self) -> bool {
        &&& self.logs.len() <= LOG_CAPACITY
        &&& self.progress <= PROGRESS_FULL
    }
}

impl Job {
    /// A copy of the job, equal to it in every field.
    pub fn snapshot(&self) -> (r: Job)
        ensures
            r@ == self@,
    {
        let logs = self.logs.clone();
        proof {
            assert(logs@ =~= self.logs@);
        }
        Job {
            id: self.id.clone(),
            filename: self.filename.clone(),
            status: self.status,
            progress: self.progress,
            stage: self.stage,
            logs,
            created_at: self.created_at.clone(),
            audio_path: self.audio_path.clone(),
            transcript_txt_path: self.transcript_txt_path.clone(),
            transcript_json_path: self.transcript_json_path.clone(),
            transcript_srt_path: self.transcript_srt_path.clone(),
            md_preview: clone_text(&self.md_preview),
            summary_status: self.summary_status,
            summary_model: clone_text(&self.summary_model),
            summary_error: clone_text(&self.summary_error),
            summary_md: clone_text(&self.summary_md),
            exported_to_obsidian: self.exported_to_obsidian,
        }
    }
}

/// A copy of an optional string.
pub fn clone_text(o: &Option<String>) -> (r: Option<String>)
    ensures
        r == *o,
{
    match o {
        Some(s) => Some(s.clone()),
        None => None,
    }
}

/// Appends `line` to the job's log, dropping the oldest lines so that at
/// most `LOG_CAPACITY` remain. Every other field is left as it was.
pub fn push_log(job: &mut Job, line: &str)
    ensures
        final(job)@ == (JobView { logs: bounded_append(old(job)@.logs, line@), ..old(job)@ }),
{
    let ghost before = job@.logs;
    job.logs.push(line.to_owned());
    proof {
        assert(job@.logs =~= before.push(line@));
    }
    if job.logs.len() > LOG_CAPACITY {
        let excess = job.logs.len() - LOG_CAPACITY;
        let ghost pushed = job.logs@;
        let tail = job.logs.split_off(excess);
        job.logs = tail;
        proof {
            assert(job@.logs =~= lines_view(pushed).subrange(
                excess as int,
                pushed.len() as int,
            ));
        }
    }
}

/// Progress while converting audio (0.10).
pub const PROGRESS_CONVERT: u32 = 100000;

/// Progress when transcription starts (0.30); it then rises towards 0.90.
pub const PROGRESS_TRANSCRIBE: u32 = 300000;

/// A change to one job, as the pipeline, cancellation and summaries make them.
#[derive(Debug)]
pub enum JobUpdate {
    /// The worker picked the job up: running, converting, progress 0.10.
    Start,
    /// A stage failed: terminal error, with the reason logged.
    Fail { message: String },
    /// Transcribing, with progress raised to at least `progress`.
    Transcribing { progress: u32 },
    /// One line for the log.
    Log { line: String },
    /// The pipeline finished: artifacts, preview and summary state recorded.
    Complete {
        txt: String,
        json: String,
        srt: String,
        preview: String,
        summary_state: SummaryStatus,
        line: String,
    },
    /// Cancelled on request.
    Cancel,
    /// A summary run started with `model`; `clear_error` drops an earlier error.
    SummaryStarted { model: String, clear_error: bool },
    /// A summary run produced `summary`.
    SummaryFinished { model: String, summary: String },
    /// A summary run failed with `error`.
    SummaryFailed { model: String, error: String },
}

/// The greater of two progress values.
pub open spec fn max_progress(a: u32, b: u32) -> u32 {
    if a >= b {
        a
    } else {
        b
    }
}

impl JobUpdate {
    /// A progress value carried by an update lies within `0 ..= 1`.
    pub open spec fn wf(self) -> bool {
        self matches JobUpdate::Transcribing { progress } ==> progress <= PROGRESS_FULL
    }

    /// The job after this update.
    pub open spec fn apply_spec(self, j: JobView) -> JobView {
        match self {
            JobUpdate::Start => JobView {
                status: JobStatus::Running,
                stage: Stage::Convert,
                progress: PROGRESS_CONVERT,
                logs: bounded_append(j.logs, "Worker started."@),
                ..j
            },
            JobUpdate::Fail { message } => JobView {
                status: JobStatus::Error,
                stage: Stage::Error,
                logs: bounded_append(j.logs, message@),
                ..j
            },
            JobUpdate::Transcribing { progress } => JobView {
                stage: Stage::Transcribe,
                progress: max_progress(j.progress, progress),
                ..j
            },
            JobUpdate::Log { line } => JobView { logs: bounded_append(j.logs, line@), ..j },
            JobUpdate::Complete { txt, json, srt, preview, summary_state, line } => JobView {
                status: JobStatus::Done,
                stage: Stage::Done,
                progress: PROGRESS_FULL,
                transcript_txt_path: txt@,
                transcript_json_path: json@,
                transcript_srt_path: srt@,
                md_preview: Some(preview@),
                summary_status: Some(summary_state),
                logs: bounded_append(j.logs, line@),
                ..j
            },
            JobUpdate::Cancel => JobView {
                status: JobStatus::Cancelled,
                stage: Stage::Cancelled,
                logs: bounded_append(j.logs, "Job cancelled."@),
                ..j
            },
            JobUpdate::SummaryStarted { model, clear_error } => JobView {
                summary_status: Some(SummaryStatus::Running),
                summary_model: Some(model@),
                summary_error: if clear_error {
                    None
                } else {
                    j.summary_error
                },
                ..j
            },
            JobUpdate::SummaryFinished { model, summary } => JobView {
                summary_status: Some(SummaryStatus::Done),
                summary_md: Some(summary@),
                summary_error: None,
                summary_model: Some(model@),
                md_preview: Some(summary@),
                ..j
            },
            JobUpdate::SummaryFailed { model, error } => JobView {
                summary_status: Some(SummaryStatus::Error),
                summary_error: Some(error@),
                summary_model: Some(model@),
                ..j
            },
        }
    }
}

/// Applies `u` to `job`. Well-formedness is kept, and only `Start`, which
/// begins a new run, can lower the progress.
pub fn apply_update(job: &mut Job, u: &JobUpdate)
    ensures
        final(job)@ == u.apply_spec(old(job)@),
        old(job)@.wf() && u.wf() ==> final(job)@.wf(),
        old(job)@.wf() && !(u is Start) ==> final(job).progress >= old(job).progress,
{
    proof {
        lemma_bounded_append_len(old(job)@.logs, Seq::empty());
    }
    match u {
        JobUpdate::Start => {
            job.status = JobStatus::Running;
            job.stage = Stage::Convert;
            job.progress = PROGRESS_CONVERT;
            push_log(job, "Worker started.");
        },
        JobUpdate::Fail { message } => {
            job.status = JobStatus::Error;
            job.stage = Stage::Error;
            push_log(job, message.as_str());
        },
        JobUpdate::Transcribing { progress } => {
            job.stage = Stage::Transcribe;
            if *progress > job.progress {
                job.progress = *progress;
            }
        },
        JobUpdate::Log { line } => {
            push_log(job, line.as_str());
        },
        JobUpdate::Complete { txt, json, srt, preview, summary_state, line } => {
            job.status = JobStatus::Done;
            job.stage = Stage::Done;
            job.progress = PROGRESS_FULL;
            job.transcript_txt_path = txt.clone();
            job.transcript_json_path = json.clone();
            job.transcript_srt_path = srt.clone();
            job.md_preview = Some(preview.clone());
            job.summary_status = Some(*summary_state);
            push_log(job, line.as_str());
        },
        JobUpdate::Cancel => {
            job.status = JobStatus::Cancelled;
            job.stage = Stage::Cancelled;
            push_log(job, "Job cancelled.");
        },
        JobUpdate::SummaryStarted { model, clear_error } => {
            job.summary_status = Some(SummaryStatus::Running);
            job.summary_model = Some(model.clone());
            if *clear_error {
                job.summary_error = None;
            }
        },
        JobUpdate::SummaryFinished { model, summary } => {
            job.summary_status = Some(SummaryStatus::Done);
            job.summary_md = Some(summary.clone());
            job.summary_error = None;
            job.summary_model = Some(model.clone());
            job.md_preview = Some(summary.clone());
        },
        JobUpdate::SummaryFailed { model, error } => {
            job.summary_status = Some(SummaryStatus::Error);
            job.summary_error = Some(error.clone());
            job.summary_model = Some(model.clone());
        },
    }
}

/// Appending never takes the log past its capacity.
pub proof fn lemma_bounded_append_len(logs: Seq<Seq<char>>, line: Seq<char>)
    ensures
        bounded_append(logs, line).len() <= LOG_CAPACITY || logs.len() >= LOG_CAPACITY + 1,
        logs.len() <= LOG_CAPACITY ==> bounded_append(logs, line).len() <= LOG_CAPACITY,
        forall|l: Seq<char>| #[trigger] bounded_append(logs, l).len() <= LOG_CAPACITY,
{
    assert forall|l: Seq<char>| #[trigger] bounded_append(logs, l).len() <= LOG_CAPACITY by {
    }
}

/// The log buffer keeps exactly the most recent `LOG_CAPACITY` lines of
/// everything appended, in order, whatever the number of appends.
pub proof fn lemma_log_keeps_most_recent(start: Seq<Seq<char>>, lines: Seq<Seq<char>>)
    requires
        start.len() <= LOG_CAPACITY,
    ensures
        append_all(start, lines) == most_recent(start + lines),
    decreases lines.len(),
{
    if lines.len() == 0 {
        assert(start + lines =~= start);
    } else {
        lemma_log_keeps_most_recent(start, lines.drop_last());
        let prev = start + lines.drop_last();
        assert((start + lines) =~= prev.push(lines.last()));
        let m = most_recent(prev);
        if prev.len() > LOG_CAPACITY {
            assert(most_recent(start + lines) =~= bounded_append(m, lines.last()));
        } else {
            assert(most_recent(start + lines) =~= bounded_append(m, lines.last()));
        }
    }
}

} // verus!
