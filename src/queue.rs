//! The worker queue: job ids in submission order, one consumer, one job
//! running at a time.

use vstd::prelude::*;
use std::sync::mpsc::Sender;
use crate::pipeline::Pipeline;
use crate::text::has_prefix;

verus! {

#[verifier::external_type_specification]
#[verifier::external_body]
#[verifier::reject_recursive_types(T)]
pub struct ExSender<T>(Sender<T>);

/// Relies on `std::sync::mpsc::Sender::send`: queues the id for the
/// consumer, failing only when the consumer has gone away; the error's text.
#[verifier::external_body]
fn send_id(sender: &Sender<String>, job_id: String) -> (r: Result<(), String>) {
    sender.send(job_id).map_err(|err| err.to_string())
}

/// The producer side of the queue.
pub struct JobQueueState {
    sender: Sender<String>,
    /// Every id handed to the consumer so far, in order.
    handed: Ghost<Seq<Seq<char>>>,
}

impl JobQueueState {
    /// The sending end the queue writes to.
    pub closed spec fn channel(self) -> Sender<String> {
        self.sender
    }

    /// Every id handed to the consumer so far, in order.
    pub closed spec fn handed(self) -> Seq<Seq<char>> {
        self.handed@
    }

    /// A queue feeding the consumer that holds the receiving end of `sender`.
    pub fn new(sender: Sender<String>) -> (r: Self)
        ensures
            r.channel() == sender,
            r.handed() == Seq::<Seq<char>>::empty(),
    {
        Self { sender, handed: Ghost(Seq::empty()) }
    }

    /// Hands `job_id`, unchanged, to the consumer without blocking, behind
    /// every id handed before it. Fails only when the consumer has shut
    /// down, with a message saying so, and then hands nothing.
    pub fn enqueue(&mut self, job_id: String) -> (r: Result<(), String>)
        ensures
            final(self).channel() == old(self).channel(),
            r is Ok ==> final(self).handed() == old(self).handed().push(job_id@),
            r matches Err(m) ==> final(self).handed() == old(self).handed() && has_prefix(
                m@,
                "failed to enqueue job: "@,
            ),
    {
        let ghost id = job_id@;
        match send_id(&self.sender, job_id) {
            Ok(()) => {
                self.handed = Ghost(self.handed@.push(id));
                Ok(())
            },
            Err(e) => {
                let m = "failed to enqueue job: ".to_owned().concat(e.as_str());
                assert(m@.subrange(0, "failed to enqueue job: "@.len() as int) =~= "failed to enqueue job: "@);
                Err(m)
            },
        }
    }
}

/// The consumer side: ids waiting in submission order and the one job
/// whose run is in progress.
pub struct Worker {
    pending: Vec<String>,
    current: Option<String>,
    /// Every id submitted so far, in order.
    submitted: Ghost<Seq<Seq<char>>>,
    /// How many runs have finished; they are the first ones submitted.
    finished: Ghost<nat>,
}

impl Worker {
    /// Every id submitted, in order.
    pub closed spec fn submitted(self) -> Seq<Seq<char>> {
        self.submitted@
    }

    /// How many runs have reached a terminal state.
    pub closed spec fn finished_count(self) -> nat {
        self.finished@
    }

    /// How many runs have begun.
    pub closed spec fn started_count(self) -> nat {
        self.finished@ + if self.current is Some {
            1nat
        } else {
            0nat
        }
    }

    /// The id of the run in progress.
    pub closed spec fn running(self) -> Option<Seq<char>> {
        match self.current {
            Some(id) => Some(id@),
            None => None,
        }
    }

    /// The run in progress, as a sequence of zero or one id.
    closed spec fn current_seq(self) -> Seq<Seq<char>> {
        match self.current {
            Some(id) => seq![id@],
            None => Seq::empty(),
        }
    }

    /// The submitted ids split into finished runs, the current run and the
    /// waiting ids, in order.
    pub closed spec fn wf(self) -> bool {
        let cur = self.current_seq();
        &&& self.finished@ <= self.submitted@.len()
        &&& self.submitted@ == self.submitted@.subrange(0, self.finished@ as int) + cur
            + self.pending@.map_values(|s: String| s@)
    }

    /// An idle worker with nothing submitted.
    pub fn new() -> (r: Worker)
        ensures
            r.wf(),
            r.submitted() == Seq::<Seq<char>>::empty(),
            r.finished_count() == 0,
            r.running() is None,
    {
        let r = Worker {
            pending: Vec::new(),
            current: None,
            submitted: Ghost(Seq::empty()),
            finished: Ghost(0),
        };
        assert(r.pending@.map_values(|s: String| s@) =~= Seq::<Seq<char>>::empty());
        r
    }

    /// Whether a run is in progress.
    pub fn is_busy(&self) -> (r: bool)
        ensures
            r == self.running() is Some,
    {
        self.current.is_some()
    }

    /// Queues `job_id` behind every id submitted before it.
    pub fn submit(&mut self, job_id: String)
        requires
            old(self).wf(),
        ensures
            final(self).wf(),
            final(self).submitted() == old(self).submitted().push(job_id@),
            final(self).finished_count() == old(self).finished_count(),
            final(self).running() == old(self).running(),
    {
        let ghost old_pending = self.pending@.map_values(|s: String| s@);
        let ghost id = job_id@;
        self.pending.push(job_id);
        self.submitted = Ghost(self.submitted@.push(id));
        assert(self.pending@.map_values(|s: String| s@) =~= old_pending.push(id));
        let ghost cur = self.current_seq();
        assert(self.submitted@.subrange(0, self.finished@ as int) =~= old(self).submitted@.subrange(0, self.finished@ as int));
        assert(self.submitted@ =~= self.submitted@.subrange(0, self.finished@ as int) + cur
            + self.pending@.map_values(|s: String| s@));
    }

    /// Begins the run of the oldest waiting id, if any. Only an idle worker
    /// begins a run.
    pub fn start_next(&mut self) -> (r: Option<String>)
        requires
            old(self).wf(),
            old(self).running() is None,
        ensures
            final(self).wf(),
            final(self).submitted() == old(self).submitted(),
            final(self).finished_count() == old(self).finished_count(),
            match r {
                Some(id) => {
                    &&& old(self).finished_count() < old(self).submitted().len()
                    &&& id@ == old(self).submitted()[old(self).finished_count() as int]
                    &&& final(self).running() == Some(id@)
                },
                None => {
                    &&& old(self).finished_count() == old(self).submitted().len()
                    &&& final(self).running() is None
                },
            },
    {
        if self.pending.len() == 0 {
            assert(self.pending@.map_values(|s: String| s@) =~= Seq::<Seq<char>>::empty());
            assert(self.submitted@ =~= self.submitted@.subrange(0, self.finished@ as int));
            return None;
        }
        let ghost old_pending = self.pending@.map_values(|s: String| s@);
        let id = self.pending.remove(0);
        assert(self.pending@.map_values(|s: String| s@) =~= old_pending.drop_first());
        assert(old_pending[0] == id@);
        self.current = Some(id.clone());
        proof {
            let f = self.finished@ as int;
            assert(self.submitted@ =~= self.submitted@.subrange(0, f) + seq![id@]
                + self.pending@.map_values(|s: String| s@));
            assert(self.submitted@[f] == id@);
        }
        Some(id)
    }

    /// Ends the current run once its pipeline has reached a terminal phase.
    pub fn finish(&mut self, run: &Pipeline)
        requires
            old(self).wf(),
            old(self).running() == Some(run.job_id@),
            run.phase.is_terminal(),
        ensures
            final(self).wf(),
            final(self).submitted() == old(self).submitted(),
            final(self).finished_count() == old(self).finished_count() + 1,
            final(self).running() is None,
    {
        let ghost f = self.finished@ as int;
        let ghost id = run.job_id@;
        self.current = None;
        self.finished = Ghost((f + 1) as nat);
        proof {
            assert(self.submitted@[f] == id) by {
                assert((self.submitted@.subrange(0, f) + seq![id] + self.pending@.map_values(
                    |s: String| s@,
                ))[f] == id);
            }
            assert(self.submitted@.subrange(0, f + 1) =~= self.submitted@.subrange(0, f).push(
                id,
            ));
            assert(self.submitted@ =~= self.submitted@.subrange(0, f + 1) + Seq::<
                Seq<char>,
            >::empty() + self.pending@.map_values(|s: String| s@));
        }
    }

    /// Runs happen strictly in submission order, one at a time: once the
    /// run of the id submitted at position `later` has begun, the run of
    /// every id submitted before it has reached a terminal state.
    pub proof fn lemma_earlier_runs_finish_first(self, earlier: int, later: int)
        requires
            self.wf(),
            0 <= earlier < later < self.submitted().len(),
            later < self.started_count(),
        ensures
            earlier < self.finished_count(),
    {
    }
}

} // verus!
