//! Creating a job for an audio file handed to the application.

use vstd::prelude::*;
use crate::job::{Job, JobStatus, JobView, Stage, SummaryStatus, bounded_append};
use crate::paths::{extension_of, file_name_of, join_path, joined, path_extension, path_file_name};

verus! {

/// The name of a job's copy of its audio: `audio.original`, with the
/// source's extension when it has one.
pub open spec fn audio_file_name_of(source: Seq<char>) -> Seq<char> {
    match extension_of(source) {
        Some(e) => if e.len() > 0 {
            "audio.original."@ + e
        } else {
            "audio.original"@
        },
        None => "audio.original"@,
    }
}

/// Where a job's copy of its audio goes: `<jobs_dir>/<job_id>/audio.original[.ext]`.
pub fn build_job_audio_path(jobs_dir: &str, job_id: &str, source_path: &str) -> (r: String)
    ensures
        r@ == joined(joined(jobs_dir@, job_id@), audio_file_name_of(source_path@)),
{
    let dir = join_path(jobs_dir, job_id);
    let name = match path_extension(source_path) {
        Some(e) => {
            if crate::text::chars_of(e.as_str()).len() > 0 {
                "audio.original.".to_owned().concat(e.as_str())
            } else {
                "audio.original".to_owned()
            }
        },
        None => "audio.original".to_owned(),
    };
    join_path(dir.as_str(), name.as_str())
}

/// The display name of a job for `source_path`.
pub open spec fn display_name_of(source: Seq<char>) -> Seq<char> {
    match file_name_of(source) {
        Some(n) => n,
        None => "unknown-audio"@,
    }
}

/// A queued job for the audio at `source_path`, copied to `audio_path`.
pub fn new_job(id: String, source_path: &str, audio_path: String, created_at: String) -> (r: Job)
    ensures
        r@ == (JobView {
            id: id@,
            filename: display_name_of(source_path@),
            status: JobStatus::Queued,
            progress: 0,
            stage: Stage::Import,
            logs: bounded_append(Seq::empty(), "Queued for processing."@),
            created_at: created_at@,
            audio_path: audio_path@,
            transcript_txt_path: Seq::empty(),
            transcript_json_path: Seq::empty(),
            transcript_srt_path: Seq::empty(),
            md_preview: None,
            summary_status: Some(SummaryStatus::NotStarted),
            summary_model: None,
            summary_error: None,
            summary_md: None,
            exported_to_obsidian: false,
        }),
        r@.wf(),
{
    let filename = match path_file_name(source_path) {
        Some(n) => n,
        None => "unknown-audio".to_owned(),
    };
    let mut job = Job {
        id,
        filename,
        status: JobStatus::Queued,
        progress: 0,
        stage: Stage::Import,
        logs: Vec::new(),
        created_at,
        audio_path,
        transcript_txt_path: String::new(),
        transcript_json_path: String::new(),
        transcript_srt_path: String::new(),
        md_preview: None,
        summary_status: Some(SummaryStatus::NotStarted),
        summary_model: None,
        summary_error: None,
        summary_md: None,
        exported_to_obsidian: false,
    };
    assert(job@.logs =~= Seq::<Seq<char>>::empty());
    crate::job::push_log(&mut job, "Queued for processing.");
    job
}

} // verus!
