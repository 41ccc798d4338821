//! The job store: every job, most recent first, with unique ids.

use vstd::prelude::*;
use crate::job::{apply_update, Job, JobUpdate, JobView};
use crate::text::str_eq;

verus! {

/// The ids of a sequence of jobs.
pub open spec fn ids_of(jobs: Seq<JobView>) -> Seq<Seq<char>> {
    jobs.map_values(|j: JobView| j.id)
}

/// No two jobs share an id.
pub open spec fn ids_unique(jobs: Seq<JobView>) -> bool {
    forall|a: int, b: int|
        0 <= a < jobs.len() && 0 <= b < jobs.len() && a != b ==> (#[trigger] jobs[a]).id
            != (#[trigger] jobs[b]).id
}

/// Index of the job with id `id`, if any.
pub open spec fn index_of(jobs: Seq<JobView>, id: Seq<char>) -> Option<int> {
    if exists|k: int| 0 <= k < jobs.len() && (#[trigger] jobs[k]).id == id {
        Some(choose|k: int| 0 <= k < jobs.len() && (#[trigger] jobs[k]).id == id)
    } else {
        None
    }
}

/// The models of a sequence of jobs.
pub open spec fn views_of(v: Seq<Job>) -> Seq<JobView> {
    v.map_values(|j: Job| j@)
}

/// The record of all jobs, most recent first.
#[derive(Debug)]
pub struct JobIndex {
    pub jobs: Vec<Job>,
}

impl View for JobIndex {
    type V = Seq<JobView>;

    open spec fn view(&self) -> Seq<JobView> {
        views_of(self.jobs@)
    }
}

impl JobIndex {
    /// Ids are unique and every job is well formed.
    pub open spec fn wf(self) -> bool {
        &&& ids_unique(self@)
        &&& forall|k: int| 0 <= k < self@.len() ==> (#[trigger] self@[k]).wf()
    }

    /// An empty store.
    pub fn new() -> (r: JobIndex)
        ensures
            r@ == Seq::<JobView>::empty(),
            r.wf(),
    {
        let r = JobIndex { jobs: Vec::new() };
        assert(r@ =~= Seq::<JobView>::empty());
        r
    }

    /// The position of the job with id `id`.
    pub fn position(&self, id: &str) -> (r: Option<usize>)
        ensures
            match r {
                Some(k) => k < self@.len() && self@[k as int].id == id@,
                None => forall|k: int| 0 <= k < self@.len() ==> (#[trigger] self@[k]).id != id@,
            },
    {
        let mut k: usize = 0;
        while k < self.jobs.len()
            invariant
                k <= self@.len(),
                forall|m: int| 0 <= m < k ==> (#[trigger] self@[m]).id != id@,
            decreases self@.len() - k,
        {
            if str_eq(self.jobs[k].id.as_str(), id) {
                return Some(k);
            }
            k = k + 1;
        }
        None
    }

    /// Snapshots of all jobs, in order.
    pub fn list(&self) -> (r: Vec<Job>)
        ensures
            views_of(r@) == self@,
    {
        let mut out: Vec<Job> = Vec::new();
        let mut k: usize = 0;
        while k < self.jobs.len()
            invariant
                k <= self@.len(),
                views_of(out@) == self@.subrange(0, k as int),
            decreases self@.len() - k,
        {
            let ghost prev = out@;
            let snap = self.jobs[k].snapshot();
            out.push(snap);
            assert(out@ =~= prev.push(snap));
            assert(self@[k as int] == snap@);
            k = k + 1;
            assert(views_of(out@) =~= views_of(prev).push(snap@));
            assert(self@.subrange(0, k as int) =~= self@.subrange(0, k - 1).push(self@[k - 1]));
        }
        assert(self@.subrange(0, k as int) =~= self@);
        out
    }

    /// A snapshot of the job with id `id`.
    pub fn get(&self, id: &str) -> (r: Option<Job>)
        requires
            self.wf(),
        ensures
            match r {
                Some(j) => exists|k: int| 0 <= k < self@.len() && self@[k] == j@ && j@.id == id@,
                None => forall|k: int| 0 <= k < self@.len() ==> (#[trigger] self@[k]).id != id@,
            },
    {
        match self.position(id) {
            Some(k) => Some(self.jobs[k].snapshot()),
            None => None,
        }
    }

    /// Adds `job` in front, unless a job with its id is already stored.
    pub fn insert(&mut self, job: Job) -> (r: bool)
        requires
            old(self).wf(),
            job@.wf(),
        ensures
            final(self).wf(),
            r == (forall|k: int| 0 <= k < old(self)@.len() ==> (#[trigger] old(self)@[k]).id != job@.id),
            r ==> final(self)@ == seq![job@] + old(self)@,
            !r ==> final(self)@ == old(self)@,
    {
        match self.position(job.id.as_str()) {
            Some(_) => false,
            None => {
                let ghost before = self@;
                let ghost jv = job@;
                self.jobs.insert(0, job);
                assert(self@ =~= seq![jv] + before);
                assert forall|a: int, b: int|
                    0 <= a < self@.len() && 0 <= b < self@.len() && a != b implies (
                    #[trigger] self@[a]).id != (#[trigger] self@[b]).id by {
                    if a > 0 && b > 0 {
                        assert(self@[a] == before[a - 1]);
                        assert(self@[b] == before[b - 1]);
                    } else if a == 0 {
                        assert(self@[b] == before[b - 1]);
                    } else {
                        assert(self@[a] == before[a - 1]);
                    }
                }
                assert forall|k: int| 0 <= k < self@.len() implies (#[trigger] self@[k]).wf() by {
                    if k > 0 {
                        assert(self@[k] == before[k - 1]);
                    }
                }
                true
            },
        }
    }

    /// Applies `u` to the job with id `id` and returns its new snapshot;
    /// `None`, with nothing changed, when no such job is stored.
    pub fn mutate(&mut self, id: &str, u: &JobUpdate) -> (r: Option<Job>)
        requires
            old(self).wf(),
            u.wf(),
        ensures
            final(self).wf(),
            match r {
                Some(j) => exists|k: int|
                    0 <= k < old(self)@.len() && old(self)@[k].id == id@ && j@ == u.apply_spec(
                        old(self)@[k],
                    ) && final(self)@ == old(self)@.update(k, j@),
                None => final(self)@ == old(self)@ && forall|k: int|
                    0 <= k < old(self)@.len() ==> (#[trigger] old(self)@[k]).id != id@,
            },
    {
        match self.position(id) {
            None => None,
            Some(k) => {
                let ghost before = self@;
                let mut job = self.jobs[k].snapshot();
                apply_update(&mut job, u);
                let snap = job.snapshot();
                self.jobs.set(k, job);
                assert(self@ =~= before.update(k as int, snap@));
                assert forall|a: int, b: int|
                    0 <= a < self@.len() && 0 <= b < self@.len() && a != b implies (
                    #[trigger] self@[a]).id != (#[trigger] self@[b]).id by {
                    assert(before[a].id != before[b].id);
                }
                assert forall|m: int| 0 <= m < self@.len() implies (#[trigger] self@[m]).wf() by {
                    assert(before[m].wf());
                }
                Some(snap)
            },
        }
    }

    /// Removes the job with id `id`; whether one was stored.
    pub fn delete(&mut self, id: &str) -> (r: bool)
        requires
            old(self).wf(),
        ensures
            final(self).wf(),
            r == (exists|k: int| 0 <= k < old(self)@.len() && (#[trigger] old(self)@[k]).id == id@),
            r ==> exists|k: int|
                0 <= k < old(self)@.len() && old(self)@[k].id == id@ && final(self)@ == old(
                    self,
                )@.remove(k),
            !r ==> final(self)@ == old(self)@,
    {
        match self.position(id) {
            None => false,
            Some(k) => {
                let ghost before = self@;
                self.jobs.remove(k);
                assert(self@ =~= before.remove(k as int));
                assert forall|a: int, b: int|
                    0 <= a < self@.len() && 0 <= b < self@.len() && a != b implies (
                    #[trigger] self@[a]).id != (#[trigger] self@[b]).id by {
                    let a0 = if a < k { a } else { a + 1 };
                    let b0 = if b < k { b } else { b + 1 };
                    assert(self@[a] == before[a0]);
                    assert(self@[b] == before[b0]);
                }
                assert forall|m: int| 0 <= m < self@.len() implies (#[trigger] self@[m]).wf() by {
                    let m0 = if m < k { m } else { m + 1 };
                    assert(self@[m] == before[m0]);
                }
                true
            },
        }
    }
}

} // verus!
