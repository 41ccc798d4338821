//! Summaries: the prompt, when a run starts or returns what exists, how the
//! inference service's answer is read, and what is recorded afterwards.

use vstd::prelude::*;
use crate::job::{clone_text, opt_view, Job, JobUpdate, SummaryStatus};
use crate::json::{json_of_text, parse_json};
use crate::text::{contains, has_sub, is_blank, replace_all, replaced, trimmed};

verus! {

/// The placeholder a prompt template marks the transcript's place with.
pub open spec fn placeholder() -> Seq<char> {
    "{text}"@
}

/// The prompt: the transcript in place of each placeholder, or after the
/// template when it has none.
pub open spec fn prompt_of(template: Seq<char>, transcript: Seq<char>) -> Seq<char> {
    if has_sub(template, placeholder()) {
        replaced(template, placeholder(), transcript)
    } else {
        template + "\n\n"@ + transcript + "\n"@
    }
}

/// Builds the prompt for `transcript` from `template`.
pub fn build_summary_prompt(template: &str, transcript: &str) -> (r: String)
    ensures
        r@ == prompt_of(template@, transcript@),
{
    if contains(template, "{text}") {
        proof {
            reveal_strlit("{text}");
        }
        replace_all(template, "{text}", transcript)
    } else {
        template.to_owned().concat("\n\n").concat(transcript).concat("\n")
    }
}

/// `s` without its trailing '/' characters.
pub open spec fn without_trailing_slashes(s: Seq<char>) -> Seq<char>
    decreases s.len(),
{
    if s.len() > 0 && s.last() == '/' {
        without_trailing_slashes(s.drop_last())
    } else {
        s
    }
}

/// The generation endpoint under the service's base URL.
pub open spec fn generate_url_of(base: Seq<char>) -> Seq<char> {
    without_trailing_slashes(base) + "/api/generate"@
}

/// The generation endpoint under `base_url`.
pub fn generate_url(base_url: &str) -> (r: String)
    ensures
        r@ == generate_url_of(base_url@),
{
    let cs = crate::text::chars_of(base_url);
    let mut n = cs.len();
    assert(cs@.subrange(0, cs@.len() as int) =~= base_url@);
    while n > 0 && cs[n - 1] == '/'
        invariant
            n <= cs@.len(),
            cs@ == base_url@,
            without_trailing_slashes(cs@.subrange(0, n as int)) == without_trailing_slashes(
                base_url@,
            ),
        decreases n,
    {
        assert(cs@.subrange(0, n as int).drop_last() =~= cs@.subrange(0, n - 1));
        n = n - 1;
    }
    assert(cs@.subrange(0, cs@.len() as int) =~= base_url@);
    let base = crate::text::string_of(crate::progress::slice_chars(&cs, 0, n).as_slice());
    base.concat("/api/generate")
}

/// How the single generation request ended.
#[derive(Debug)]
pub enum GenerationOutcome {
    /// The request timed out.
    TimedOut,
    /// The service could not be reached.
    Unreachable,
    /// Another transport failure, with its text.
    Failed { error: String },
    /// A response whose status is not a success: the status and the body.
    Rejected { status: String, body: String },
    /// A successful response and its body.
    Answered { body: String },
}

/// The summary a generation produced, or the message for its failure.
pub open spec fn generation_result(url: Seq<char>, o: GenerationOutcome) -> Result<Seq<char>, Seq<char>> {
    match o {
        GenerationOutcome::TimedOut => Err("Ollama timeout after 120s at "@ + url),
        GenerationOutcome::Unreachable => Err(
            "Ollama not reachable at "@ + url + ". Is Ollama running?"@,
        ),
        GenerationOutcome::Failed { error } => Err("Ollama request failed: "@ + error@),
        GenerationOutcome::Rejected { status, body } => Err(
            "Ollama error: "@ + status@ + " "@ + body@,
        ),
        GenerationOutcome::Answered { body } => match json_of_text(body@) {
            Err(e) => Err("Invalid Ollama response: "@ + e),
            Ok(doc) => {
                let response = doc.str_member("response"@);
                if trimmed(response).len() == 0 {
                    Err("Ollama returned empty response."@)
                } else {
                    Ok(response)
                }
            },
        },
    }
}

/// A result with its strings as characters.
pub open spec fn result_view(r: Result<String, String>) -> Result<Seq<char>, Seq<char>> {
    match r {
        Ok(s) => Ok(s@),
        Err(e) => Err(e@),
    }
}

/// Reads the outcome of the generation request made to `url`: each kind
/// of failure has its own message, and an empty answer is a failure.
pub fn interpret_generation(url: &str, o: GenerationOutcome) -> (r: Result<String, String>)
    ensures
        result_view(r) == generation_result(url@, o),
{
    match o {
        GenerationOutcome::TimedOut => Err("Ollama timeout after 120s at ".to_owned().concat(url)),
        GenerationOutcome::Unreachable => Err(
            "Ollama not reachable at ".to_owned().concat(url).concat(". Is Ollama running?"),
        ),
        GenerationOutcome::Failed { error } => Err(
            "Ollama request failed: ".to_owned().concat(error.as_str()),
        ),
        GenerationOutcome::Rejected { status, body } => Err(
            "Ollama error: ".to_owned().concat(status.as_str()).concat(" ").concat(body.as_str()),
        ),
        GenerationOutcome::Answered { body } => match parse_json(body.as_str()) {
            Err(e) => Err("Invalid Ollama response: ".to_owned().concat(e.as_str())),
            Ok(doc) => {
                let response = doc.get_str("response");
                if is_blank(response.as_str()) {
                    Err("Ollama returned empty response.".to_owned())
                } else {
                    Ok(response)
                }
            },
        },
    }
}

/// A job's summary as the front end reads it.
#[derive(Debug)]
pub struct SummaryResponse {
    pub summary_status: SummaryStatus,
    pub summary_model: String,
    pub summary_error: Option<String>,
    pub summary_md: String,
}

/// The summary state of a job, `not_started` when it has none.
pub open spec fn status_or_not_started(j: Job) -> SummaryStatus {
    match j.summary_status {
        Some(s) => s,
        None => SummaryStatus::NotStarted,
    }
}

/// A job's summary text holds more than white space.
pub open spec fn has_summary_text(j: Job) -> bool {
    j.summary_md matches Some(s) && trimmed(s@).len() > 0
}

/// The characters of an optional string, empty when absent.
pub open spec fn text_or_empty(o: Option<String>) -> Seq<char> {
    match o {
        Some(s) => s@,
        None => Seq::empty(),
    }
}

/// The characters of an optional string, `d` when absent.
pub open spec fn text_or(o: Option<String>, d: Seq<char>) -> Seq<char> {
    match o {
        Some(s) => s@,
        None => d,
    }
}

fn text_or_default(o: &Option<String>, d: &str) -> (r: String)
    ensures
        r@ == text_or(*o, d@),
{
    match o {
        Some(s) => s.clone(),
        None => d.to_owned(),
    }
}

/// The summary of a job as it stands, reported under `model` when the job
/// names none.
pub open spec fn current_summary(j: Job, model: Seq<char>, r: SummaryResponse) -> bool {
    &&& r.summary_status == status_or_not_started(j)
    &&& r.summary_model@ == text_or(j.summary_model, model)
    &&& opt_view(r.summary_error) == opt_view(j.summary_error)
    &&& r.summary_md@ == text_or_empty(j.summary_md)
}

fn current(j: &Job, model: &str) -> (r: SummaryResponse)
    ensures
        current_summary(*j, model@, r),
{
    let status = match j.summary_status {
        Some(s) => s,
        None => SummaryStatus::NotStarted,
    };
    proof {
        reveal_strlit("");
        assert(""@ =~= Seq::<char>::empty());
    }
    SummaryResponse {
        summary_status: status,
        summary_model: text_or_default(&j.summary_model, model),
        summary_error: clone_text(&j.summary_error),
        summary_md: text_or_default(&j.summary_md, ""),
    }
}

/// What a summary request leads to.
#[derive(Debug)]
pub enum SummaryPlan {
    /// Answer with this response; nothing is started.
    Reply { response: SummaryResponse },
    /// Apply `update` to the job, answer with `response`, and start a run.
    Start { update: JobUpdate, response: SummaryResponse },
}

/// The job is known and its summary run is in progress.
pub open spec fn run_in_progress(job: Option<&Job>) -> bool {
    match job {
        Some(j) => status_or_not_started(*j) == SummaryStatus::Running,
        None => false,
    }
}

/// A reply that the summary is skipped.
pub open spec fn replies_skipped(r: SummaryPlan, model: Seq<char>) -> bool {
    match r {
        SummaryPlan::Reply { response } => {
            &&& response.summary_status == SummaryStatus::Skipped
            &&& response.summary_model@ == model
            &&& response.summary_error is None
            &&& response.summary_md@.len() == 0
        },
        _ => false,
    }
}

/// A reply with the job's summary as it stands.
pub open spec fn replies_current(r: SummaryPlan, j: Job, model: Seq<char>) -> bool {
    match r {
        SummaryPlan::Reply { response } => current_summary(j, model, response),
        _ => false,
    }
}

/// A run started under `model`, dropping an earlier error.
pub open spec fn starts_run(r: SummaryPlan, model: Seq<char>) -> bool {
    match r {
        SummaryPlan::Start { update, response } => {
            &&& update == (JobUpdate::SummaryStarted { model: model_of(update), clear_error: true })
            &&& model_of(update)@ == model
            &&& response.summary_status == SummaryStatus::Running
            &&& response.summary_model@ == model
            &&& response.summary_error is None
            &&& response.summary_md@.len() == 0
        },
        _ => false,
    }
}

/// The model an update names, if it names one.
pub open spec fn model_of(u: JobUpdate) -> String {
    match u {
        JobUpdate::SummaryStarted { model, .. } => model,
        JobUpdate::SummaryFinished { model, .. } => model,
        JobUpdate::SummaryFailed { model, .. } => model,
        _ => arbitrary(),
    }
}

/// Decides a summary request for `job` (absent when unknown) under the
/// configured `model`. Disabled summaries are skipped; a run in progress
/// is reported rather than duplicated; otherwise a new run starts.
pub fn plan_summary_request(enabled: bool, model: &str, job: Option<&Job>) -> (r: SummaryPlan)
    ensures
        !enabled ==> replies_skipped(r, model@),
        enabled && run_in_progress(job) ==> replies_current(r, *job.unwrap(), model@),
        enabled && !run_in_progress(job) ==> starts_run(r, model@),
{
    if !enabled {
        return SummaryPlan::Reply {
            response: SummaryResponse {
                summary_status: SummaryStatus::Skipped,
                summary_model: model.to_owned(),
                summary_error: None,
                summary_md: String::new(),
            },
        };
    }
    if let Some(j) = job {
        if j.summary_status == Some(SummaryStatus::Running) {
            return SummaryPlan::Reply { response: current(j, model) };
        }
    }
    SummaryPlan::Start {
        update: JobUpdate::SummaryStarted { model: model.to_owned(), clear_error: true },
        response: SummaryResponse {
            summary_status: SummaryStatus::Running,
            summary_model: model.to_owned(),
            summary_error: None,
            summary_md: String::new(),
        },
    }
}

/// What a summary run does first.
#[derive(Debug)]
pub enum RunStart {
    /// Return this response; no new run.
    Existing { response: SummaryResponse },
    /// Apply `update` and go on with the run.
    Begin { update: JobUpdate },
}

/// A run in progress, or a finished summary that is not blank.
pub open spec fn reusable(job: Option<&Job>) -> bool {
    match job {
        Some(j) => status_or_not_started(*j) == SummaryStatus::Running || (status_or_not_started(
            *j,
        ) == SummaryStatus::Done && has_summary_text(*j)),
        None => false,
    }
}

/// Decides how a summary run for `job` begins. Unless `force`d, a run in
/// progress is returned as it is, and so is a finished non-blank summary.
pub fn plan_summary_run(job: Option<&Job>, model: &str, force: bool) -> (r: RunStart)
    ensures
        !force && reusable(job) ==> match r {
            RunStart::Existing { response } => current_summary(*job.unwrap(), model@, response),
            _ => false,
        },
        !(!force && reusable(job)) ==> match r {
            RunStart::Begin { update } => update == (JobUpdate::SummaryStarted {
                model: model_of(update),
                clear_error: false,
            }) && model_of(update)@ == model@,
            _ => false,
        },
{
    if !force {
        if let Some(j) = job {
            let status = match j.summary_status {
                Some(s) => s,
                None => SummaryStatus::NotStarted,
            };
            if status == SummaryStatus::Running {
                return RunStart::Existing { response: current(j, model) };
            }
            if status == SummaryStatus::Done {
                if let Some(s) = &j.summary_md {
                    if !is_blank(s.as_str()) {
                        return RunStart::Existing { response: current(j, model) };
                    }
                }
            }
        }
    }
    RunStart::Begin {
        update: JobUpdate::SummaryStarted { model: model.to_owned(), clear_error: false },
    }
}

/// The transcript to summarize and the directory for the summary file,
/// from the job as it stands once the run has begun.
pub fn summary_inputs(job: Option<&Job>) -> (r: Result<(String, String), String>)
    ensures
        match job {
            None => r matches Err(m) && m@ == "Transcript not found."@,
            Some(j) => if j.transcript_txt_path@.len() == 0 {
                r matches Err(m) && m@ == "Transcript path missing."@
            } else {
                match crate::paths::parent_of(j.audio_path@) {
                    None => r matches Err(m) && m@ == "Job directory missing."@,
                    Some(d) => r matches Ok((t, dir)) && t@ == j.transcript_txt_path@ && dir@ == d,
                }
            },
        },
{
    match job {
        None => Err("Transcript not found.".to_owned()),
        Some(j) => {
            let tc = crate::text::chars_of(j.transcript_txt_path.as_str());
            if tc.len() == 0 {
                return Err("Transcript path missing.".to_owned());
            }
            match crate::paths::job_dir_from_audio_path(j.audio_path.as_str()) {
                None => Err("Job directory missing.".to_owned()),
                Some(d) => Ok((j.transcript_txt_path.clone(), d)),
            }
        },
    }
}

/// What a finished run records on the job and returns: the summary, or
/// the failure.
pub fn finish_summary_run(model: &str, result: Result<String, String>) -> (r: (
    JobUpdate,
    Result<SummaryResponse, String>,
))
    ensures
        match result {
            Ok(s) => {
                &&& r.0 matches JobUpdate::SummaryFinished { model: m, summary } && m@ == model@
                    && summary@ == s@
                &&& r.1 matches Ok(resp) && resp.summary_status == SummaryStatus::Done
                    && resp.summary_model@ == model@ && resp.summary_error is None
                    && resp.summary_md@ == s@
            },
            Err(e) => {
                &&& r.0 matches JobUpdate::SummaryFailed { model: m, error } && m@ == model@
                    && error@ == e@
                &&& r.1 matches Err(e2) && e2@ == e@
            },
        },
{
    match result {
        Ok(s) => (
            JobUpdate::SummaryFinished { model: model.to_owned(), summary: s.clone() },
            Ok(
                SummaryResponse {
                    summary_status: SummaryStatus::Done,
                    summary_model: model.to_owned(),
                    summary_error: None,
                    summary_md: s,
                },
            ),
        ),
        Err(e) => (
            JobUpdate::SummaryFailed { model: model.to_owned(), error: e.clone() },
            Err(e),
        ),
    }
}

/// The summary shown for a job: its stored text when not blank, else the
/// summary file's `file_text` when there is one, else nothing yet.
pub fn get_summary(job: &Job, file_text: Option<String>) -> (r: SummaryResponse)
    ensures
        opt_view(r.summary_error) == opt_view(job.summary_error),
        r.summary_model@ == text_or(job.summary_model, Seq::empty()),
        has_summary_text(*job) ==> r.summary_md@ == text_or_empty(job.summary_md)
            && r.summary_status == (match job.summary_status {
            Some(s) => s,
            None => SummaryStatus::Done,
        }),
        !has_summary_text(*job) && file_text is Some ==> r.summary_md@ == text_or_empty(file_text)
            && r.summary_status == (match job.summary_status {
            Some(s) => s,
            None => SummaryStatus::Done,
        }),
        !has_summary_text(*job) && file_text is None ==> r.summary_md@.len() == 0
            && r.summary_status == status_or_not_started(*job),
{
    proof {
        reveal_strlit("");
    }
    let model = text_or_default(&job.summary_model, "");
    let error = clone_text(&job.summary_error);
    let status_done = match job.summary_status {
        Some(s) => s,
        None => SummaryStatus::Done,
    };
    if let Some(s) = &job.summary_md {
        if !is_blank(s.as_str()) {
            return SummaryResponse {
                summary_status: status_done,
                summary_model: model,
                summary_error: error,
                summary_md: s.clone(),
            };
        }
    }
    match file_text {
        Some(content) => SummaryResponse {
            summary_status: status_done,
            summary_model: model,
            summary_error: error,
            summary_md: content,
        },
        None => SummaryResponse {
            summary_status: match job.summary_status {
                Some(s) => s,
                None => SummaryStatus::NotStarted,
            },
            summary_model: model,
            summary_error: error,
            summary_md: String::new(),
        },
    }
}

} // verus!
