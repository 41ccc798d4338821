//! Download and install status of each artifact (a model size, or one of
//! the two binaries), with at most one download in flight per artifact.

use vstd::prelude::*;
use crate::job::{clone_text, opt_view};
use crate::text::str_eq;

verus! {

/// Where an artifact's download stands.
#[derive(Clone, Copy, Debug, PartialEq, Eq, Structural)]
pub enum DownloadState {
    Idle,
    Downloading,
    Done,
    Error,
}

/// Progress and outcome of one artifact's download.
#[derive(Debug)]
pub struct ModelDownloadStatus {
    pub state: DownloadState,
    /// The artifact key: a model size, or a fixed key for a binary.
    pub model_size: String,
    pub repo_id: String,
    pub total_bytes: u64,
    pub downloaded_bytes: u64,
    pub message: Option<String>,
    pub started_at: Option<u64>,
    pub finished_at: Option<u64>,
}

/// The model of a status: strings as their characters.
pub struct StatusView {
    pub state: DownloadState,
    pub key: Seq<char>,
    pub repo_id: Seq<char>,
    pub total_bytes: u64,
    pub downloaded_bytes: u64,
    pub message: Option<Seq<char>>,
    pub started_at: Option<u64>,
    pub finished_at: Option<u64>,
}

impl View for ModelDownloadStatus {
    type V = StatusView;

    open spec fn view(&self) -> StatusView {
        StatusView {
            state: self.state,
            key: self.model_size@,
            repo_id: self.repo_id@,
            total_bytes: self.total_bytes,
            downloaded_bytes: self.downloaded_bytes,
            message: opt_view(self.message),
            started_at: self.started_at,
            finished_at: self.finished_at,
        }
    }
}

impl ModelDownloadStatus {
    /// A copy equal to this status.
    pub fn snapshot(&self) -> (r: ModelDownloadStatus)
        ensures
            r@ == self@,
    {
        ModelDownloadStatus {
            state: self.state,
            model_size: self.model_size.clone(),
            repo_id: self.repo_id.clone(),
            total_bytes: self.total_bytes,
            downloaded_bytes: self.downloaded_bytes,
            message: clone_text(&self.message),
            started_at: self.started_at,
            finished_at: self.finished_at,
        }
    }

    /// The status of an artifact nothing has been done for yet.
    pub fn idle(key: String, repo_id: String) -> (r: ModelDownloadStatus)
        ensures
            r@ == (StatusView {
                state: DownloadState::Idle,
                key: key@,
                repo_id: repo_id@,
                total_bytes: 0,
                downloaded_bytes: 0,
                message: None,
                started_at: None,
                finished_at: None,
            }),
    {
        ModelDownloadStatus {
            state: DownloadState::Idle,
            model_size: key,
            repo_id,
            total_bytes: 0,
            downloaded_bytes: 0,
            message: None,
            started_at: None,
            finished_at: None,
        }
    }

    /// The status of a download starting now, at `now` seconds.
    pub fn downloading(key: String, repo_id: String, message: String, now: u64) -> (r:
        ModelDownloadStatus)
        ensures
            r@ == (StatusView {
                state: DownloadState::Downloading,
                key: key@,
                repo_id: repo_id@,
                total_bytes: 0,
                downloaded_bytes: 0,
                message: Some(message@),
                started_at: Some(now),
                finished_at: None,
            }),
    {
        ModelDownloadStatus {
            state: DownloadState::Downloading,
            model_size: key,
            repo_id,
            total_bytes: 0,
            downloaded_bytes: 0,
            message: Some(message),
            started_at: Some(now),
            finished_at: None,
        }
    }

    /// Records the size the response announced.
    pub fn set_total(&mut self, total: u64)
        ensures
            final(self)@ == (StatusView { total_bytes: total, ..old(self)@ }),
    {
        self.total_bytes = total;
    }

    /// Counts `n` more bytes written, saturating at the largest count.
    pub fn add_downloaded(&mut self, n: u64)
        ensures
            final(self)@ == (StatusView {
                downloaded_bytes: if old(self).downloaded_bytes + n > u64::MAX {
                    u64::MAX
                } else {
                    (old(self).downloaded_bytes + n) as u64
                },
                ..old(self)@
            }),
    {
        if self.downloaded_bytes > u64::MAX - n {
            self.downloaded_bytes = u64::MAX;
        } else {
            self.downloaded_bytes = self.downloaded_bytes + n;
        }
    }

    /// Records a failure with `message`.
    pub fn fail(&mut self, message: String)
        ensures
            final(self)@ == (StatusView {
                state: DownloadState::Error,
                message: Some(message@),
                ..old(self)@
            }),
    {
        self.state = DownloadState::Error;
        self.message = Some(message);
    }

    /// Records success at `now` seconds.
    pub fn complete(&mut self, now: u64)
        ensures
            final(self)@ == (StatusView {
                state: DownloadState::Done,
                finished_at: Some(now),
                message: Some("Download complete"@),
                ..old(self)@
            }),
    {
        self.state = DownloadState::Done;
        self.finished_at = Some(now);
        self.message = Some("Download complete".to_owned());
    }
}

/// The first index at or after `i` holding a status for `key`.
pub open spec fn key_from(s: Seq<StatusView>, key: Seq<char>, i: int) -> Option<int>
    decreases s.len() - i,
{
    if 0 <= i < s.len() {
        if s[i].key == key {
            Some(i)
        } else {
            key_from(s, key, i + 1)
        }
    } else {
        None
    }
}

/// The status recorded for `key`.
pub open spec fn lookup(s: Seq<StatusView>, key: Seq<char>) -> Option<StatusView> {
    match key_from(s, key, 0) {
        Some(i) => Some(s[i]),
        None => None,
    }
}

/// The table after recording `st` for its key, replacing an earlier status.
pub open spec fn recorded(s: Seq<StatusView>, st: StatusView) -> Seq<StatusView> {
    match key_from(s, st.key, 0) {
        Some(i) => s.update(i, st),
        None => s.push(st),
    }
}

/// A download for `key` is in flight.
pub open spec fn in_flight(s: Seq<StatusView>, key: Seq<char>) -> bool {
    lookup(s, key) matches Some(v) && v.state is Downloading
}

/// What starting a download did.
#[derive(Debug)]
pub enum StartOutcome {
    /// A download was already in flight: its status, unchanged. No new
    /// writer may be started.
    InFlight(ModelDownloadStatus),
    /// The given status was recorded; the caller starts the one writer.
    Started(ModelDownloadStatus),
}

/// The statuses of all artifacts.
#[derive(Debug)]
pub struct StatusTable {
    entries: Vec<ModelDownloadStatus>,
}

impl View for StatusTable {
    type V = Seq<StatusView>;

    closed spec fn view(&self) -> Seq<StatusView> {
        self.entries@.map_values(|e: ModelDownloadStatus| e@)
    }
}

proof fn lemma_key_from_update(s: Seq<StatusView>, key: Seq<char>, i: int, j: int, st: StatusView)
    requires
        0 <= i <= j < s.len(),
        key_from(s, key, i) == Some(j),
        st.key == key,
    ensures
        key_from(s.update(j, st), key, i) == Some(j),
    decreases j - i,
{
    if i < j {
        lemma_key_from_update(s, key, i + 1, j, st);
    }
}

proof fn lemma_key_from_push(s: Seq<StatusView>, key: Seq<char>, i: int, st: StatusView)
    requires
        0 <= i <= s.len(),
        key_from(s, key, i) is None,
        st.key == key,
    ensures
        key_from(s.push(st), key, i) == Some(s.len() as int),
    decreases s.len() - i,
{
    if i < s.len() {
        lemma_key_from_push(s, key, i + 1, st);
    }
}

/// Once `st` is recorded, looking up its key gives `st`.
pub proof fn lemma_lookup_recorded(s: Seq<StatusView>, st: StatusView)
    ensures
        lookup(recorded(s, st), st.key) == Some(st),
{
    match key_from(s, st.key, 0) {
        Some(i) => {
            lemma_key_from_bounds(s, st.key, 0);
            lemma_key_from_update(s, st.key, 0, i, st);
        },
        None => {
            lemma_key_from_push(s, st.key, 0, st);
        },
    }
}

proof fn lemma_key_from_bounds(s: Seq<StatusView>, key: Seq<char>, i: int)
    requires
        0 <= i,
    ensures
        key_from(s, key, i) matches Some(j) ==> i <= j < s.len() && s[j].key == key,
    decreases s.len() - i,
{
    if 0 <= i < s.len() && s[i].key != key {
        lemma_key_from_bounds(s, key, i + 1);
    }
}

/// A second start for an artifact whose download was started coalesces
/// with it: the start finds the in-flight status, identical to the one
/// recorded, so no second writer is launched.
pub proof fn lemma_second_start_coalesces(s: Seq<StatusView>, first: StatusView)
    requires
        first.state is Downloading,
    ensures
        in_flight(recorded(s, first), first.key),
        lookup(recorded(s, first), first.key) == Some(first),
{
    lemma_lookup_recorded(s, first);
}

impl StatusTable {
    /// An empty table.
    pub fn new() -> (r: StatusTable)
        ensures
            r@ == Seq::<StatusView>::empty(),
    {
        let r = StatusTable { entries: Vec::new() };
        assert(r@ =~= Seq::<StatusView>::empty());
        r
    }

    fn find(&self, key: &str) -> (r: Option<usize>)
        ensures
            match r {
                Some(i) => key_from(self@, key@, 0) == Some(i as int),
                None => key_from(self@, key@, 0) is None,
            },
            r matches Some(i) ==> i < self@.len(),
    {
        let mut i: usize = 0;
        while i < self.entries.len()
            invariant
                i <= self@.len(),
                key_from(self@, key@, i as int) == key_from(self@, key@, 0),
            decreases self@.len() - i,
        {
            if str_eq(self.entries[i].model_size.as_str(), key) {
                return Some(i);
            }
            i = i + 1;
        }
        None
    }

    /// The status recorded for `key`.
    pub fn get(&self, key: &str) -> (r: Option<ModelDownloadStatus>)
        ensures
            match r {
                Some(st) => lookup(self@, key@) == Some(st@),
                None => lookup(self@, key@) is None,
            },
    {
        match self.find(key) {
            Some(i) => Some(self.entries[i].snapshot()),
            None => None,
        }
    }

    /// The status for `key`, or an idle one under `repo_id` when nothing
    /// is recorded.
    pub fn status_or_idle(&self, key: String, repo_id: String) -> (r: ModelDownloadStatus)
        ensures
            match lookup(self@, key@) {
                Some(st) => r@ == st,
                None => r@ == (StatusView {
                    state: DownloadState::Idle,
                    key: key@,
                    repo_id: repo_id@,
                    total_bytes: 0,
                    downloaded_bytes: 0,
                    message: None,
                    started_at: None,
                    finished_at: None,
                }),
            },
    {
        match self.get(key.as_str()) {
            Some(st) => st,
            None => ModelDownloadStatus::idle(key, repo_id),
        }
    }

    /// Records `st` for its key, replacing an earlier status.
    pub fn record(&mut self, st: ModelDownloadStatus)
        ensures
            final(self)@ == recorded(old(self)@, st@),
    {
        let ghost before = self@;
        let ghost v = st@;
        match self.find(st.model_size.as_str()) {
            Some(i) => {
                self.entries.set(i, st);
                assert(self@ =~= before.update(i as int, v));
            },
            None => {
                self.entries.push(st);
                assert(self@ =~= before.push(v));
            },
        }
    }

    /// Starts a download of `fresh.model_size` unless one is in flight:
    /// then the in-flight status comes back and nothing changes; else
    /// `fresh` is recorded and comes back as `Started`.
    pub fn begin(&mut self, fresh: ModelDownloadStatus) -> (r: StartOutcome)
        ensures
            in_flight(old(self)@, fresh@.key) ==> {
                &&& r matches StartOutcome::InFlight(st) && lookup(old(self)@, fresh@.key) == Some(
                    st@,
                )
                &&& final(self)@ == old(self)@
            },
            !in_flight(old(self)@, fresh@.key) ==> {
                &&& r matches StartOutcome::Started(st) && st@ == fresh@
                &&& final(self)@ == recorded(old(self)@, fresh@)
            },
    {
        match self.get(fresh.model_size.as_str()) {
            Some(existing) => {
                if existing.state == DownloadState::Downloading {
                    return StartOutcome::InFlight(existing);
                }
            },
            None => {},
        }
        let copy = fresh.snapshot();
        self.record(fresh);
        StartOutcome::Started(copy)
    }
}

/// Statuses and install directories of the downloadable artifacts.
#[derive(Debug)]
pub struct ModelDownloadState {
    pub models_dir: String,
    pub whisper_dir: String,
    pub ffmpeg_dir: String,
    pub statuses: StatusTable,
}

} // verus!
