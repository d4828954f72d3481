//! Runs of a pool: the state that a new pool comes to under a sequence of
//! events, and what holds at the end of every run.

use crate::guarantees::{
    lemma_one_receiver, lemma_stopped_pool_has_no_live_worker, lemma_stopped_pool_ran_every_job,
};
use crate::model::PoolView;
use crate::preservation::{
    lemma_finish_inv, lemma_initial_inv, lemma_poll_inv, lemma_shutdown_inv, lemma_submit_inv,
};
use crate::worker::{JobOutcome, WorkerState};
use vstd::prelude::*;

verus! {

/// One call on the pool.
pub enum Event<J> {
    /// A producer submits a job.
    Submit(J),
    /// The worker with this index steps.
    Poll(usize),
    /// The worker with this index reports the end of its job.
    Finish(usize, JobOutcome),
    /// The owner shuts the pool down as far as it goes without waiting.
    Shutdown,
}

/// The jobs that the events submit, in order.
pub open spec fn submissions<J>(events: Seq<Event<J>>) -> Seq<J>
    decreases events.len(),
{
    if events.len() == 0 {
        Seq::empty()
    } else {
        match events.last() {
            Event::Submit(job) => submissions(events.drop_last()).push(job),
            _ => submissions(events.drop_last()),
        }
    }
}

/// Whether every submission comes before the first shutdown.
pub open spec fn submits_precede_shutdown<J>(events: Seq<Event<J>>) -> bool {
    forall|i: int, j: int|
        0 <= i < j < events.len() && (#[trigger] events[i]) is Shutdown ==> !((
        #[trigger] events[j]) is Submit)
}

impl<J> PoolView<J> {
    /// The pool after one event. An event that names a worker that the pool
    /// does not have leaves the pool as it is.
    pub open spec fn after(self, event: Event<J>) -> PoolView<J> {
        match event {
            Event::Submit(job) => self.submit(job),
            Event::Poll(i) => if i < self.size() {
                self.poll(i as int)
            } else {
                self
            },
            Event::Finish(i, outcome) => if i < self.size() {
                self.finish(i as int, outcome)
            } else {
                self
            },
            Event::Shutdown => self.shutdown(),
        }
    }

    /// The pool after a sequence of events.
    pub open spec fn after_all(self, events: Seq<Event<J>>) -> PoolView<J>
        decreases events.len(),
    {
        if events.len() == 0 {
            self
        } else {
            self.after_all(events.drop_last()).after(events.last())
        }
    }
}

/// Every state that a new pool can reach satisfies the invariant, and has the
/// workers that the pool was made with.
pub proof fn lemma_reachable_inv<J>(size: nat, events: Seq<Event<J>>)
    requires
        0 < size <= usize::MAX,
    ensures
        PoolView::<J>::initial(size).after_all(events).inv(),
        PoolView::<J>::initial(size).after_all(events).size() == size,
    decreases events.len(),
{
    if events.len() == 0 {
        lemma_initial_inv::<J>(size);
    } else {
        lemma_reachable_inv(size, events.drop_last());
        let before = PoolView::<J>::initial(size).after_all(events.drop_last());
        match events.last() {
            Event::Submit(job) => {
                lemma_submit_inv(before, job);
            },
            Event::Poll(i) => {
                if i < before.size() {
                    lemma_poll_inv(before, i as int);
                }
            },
            Event::Finish(i, outcome) => {
                if i < before.size() {
                    lemma_finish_inv(before, i as int, outcome);
                }
            },
            Event::Shutdown => {
                lemma_shutdown_inv(before);
            },
        }
    }
}

/// A pool accepts jobs exactly until its first shutdown.
pub proof fn lemma_open_until_shutdown<J>(size: nat, events: Seq<Event<J>>)
    ensures
        PoolView::<J>::initial(size).after_all(events).open <==> forall|i: int|
            0 <= i < events.len() ==> !((#[trigger] events[i]) is Shutdown),
    decreases events.len(),
{
    if events.len() > 0 {
        let init = events.drop_last();
        lemma_open_until_shutdown(size, init);
        let before = PoolView::<J>::initial(size).after_all(init);
        if forall|i: int| 0 <= i < events.len() ==> !((#[trigger] events[i]) is Shutdown) {
            assert forall|i: int| 0 <= i < init.len() implies !((#[trigger] init[i])
                is Shutdown) by {
                assert(init[i] == events[i]);
            }
            assert(!(events.last() is Shutdown));
        } else {
            let k: int = choose|k: int| 0 <= k < events.len() && (#[trigger] events[k]) is Shutdown;
            if k < init.len() {
                assert(init[k] is Shutdown);
            } else {
                assert(events.last() is Shutdown);
            }
        }
    }
}

/// Where every job is submitted before shutdown begins, the pool accepts
/// every submitted job, in the order of submission.
pub proof fn lemma_accepts_every_submission<J>(size: nat, events: Seq<Event<J>>)
    requires
        submits_precede_shutdown(events),
    ensures
        PoolView::<J>::initial(size).after_all(events).accepted == submissions(events),
    decreases events.len(),
{
    if events.len() > 0 {
        let init = events.drop_last();
        assert(submits_precede_shutdown(init)) by {
            assert forall|i: int, j: int|
                0 <= i < j < init.len() && (#[trigger] init[i]) is Shutdown implies !((
            #[trigger] init[j]) is Submit) by {
                assert(events[i] is Shutdown);
                assert(init[j] == events[j]);
            }
        }
        lemma_accepts_every_submission(size, init);
        lemma_open_until_shutdown(size, init);
        if events.last() is Submit {
            assert forall|i: int| 0 <= i < init.len() implies !((#[trigger] init[i])
                is Shutdown) by {
                if init[i] is Shutdown {
                    assert(events[i] is Shutdown);
                    assert(events[events.len() - 1] is Submit);
                }
            }
        }
    }
}

/// For every pool size of at least one and every run in which all jobs are
/// submitted before shutdown begins: once shutdown has returned, that is,
/// once every worker was joined, each submitted job was run to its end
/// exactly once. As many jobs have ended as were submitted, and the jobs
/// that have ended are the submitted ones.
pub proof fn lemma_every_submitted_job_runs<J>(size: nat, events: Seq<Event<J>>)
    requires
        0 < size <= usize::MAX,
        submits_precede_shutdown(events),
        PoolView::<J>::initial(size).after_all(events).stopped(),
    ensures
        ({
            let pool = PoolView::<J>::initial(size).after_all(events);
            &&& pool.completed.len() + pool.failed.len() == submissions(events).len()
            &&& pool.completed.to_multiset().add(pool.failed.to_multiset()) == submissions(
                events,
            ).to_multiset()
            &&& pool.pending.len() == 0
            &&& pool.failed.len() == 0 ==> pool.completed.len() == submissions(events).len()
        }),
{
    lemma_reachable_inv(size, events);
    lemma_accepts_every_submission(size, events);
    lemma_stopped_pool_ran_every_job(PoolView::<J>::initial(size).after_all(events));
}

/// In no state that a pool can reach are two workers inside a receive.
pub proof fn lemma_never_two_receivers<J>(size: nat, events: Seq<Event<J>>, i: int, j: int)
    requires
        0 < size <= usize::MAX,
        0 <= i < size,
        0 <= j < size,
        PoolView::<J>::initial(size).after_all(events).workers[i].state == WorkerState::Receiving,
        PoolView::<J>::initial(size).after_all(events).workers[j].state == WorkerState::Receiving,
    ensures
        i == j,
{
    lemma_reachable_inv(size, events);
    lemma_one_receiver(PoolView::<J>::initial(size).after_all(events), i, j);
}

/// After a run at whose end every worker was joined, no worker is alive.
pub proof fn lemma_no_worker_outlives_shutdown<J>(size: nat, events: Seq<Event<J>>, i: int)
    requires
        0 < size <= usize::MAX,
        0 <= i < size,
        PoolView::<J>::initial(size).after_all(events).stopped(),
    ensures
        PoolView::<J>::initial(size).after_all(events).workers[i].state == WorkerState::Exited,
{
    lemma_reachable_inv(size, events);
    lemma_stopped_pool_has_no_live_worker(PoolView::<J>::initial(size).after_all(events), i);
}

/// A job that is submitted after shutdown has begun is dropped: the pool is
/// as it was before the submission, and so is every count of jobs.
pub proof fn lemma_late_submission_is_dropped<J>(
    size: nat,
    events: Seq<Event<J>>,
    shutdown: int,
    job: J,
)
    requires
        0 <= shutdown < events.len(),
        events[shutdown] is Shutdown,
    ensures
        PoolView::<J>::initial(size).after_all(events.push(Event::Submit(job))) == PoolView::<
            J,
        >::initial(size).after_all(events),
{
    lemma_open_until_shutdown(size, events);
    assert(events.push(Event::Submit(job)).drop_last() =~= events);
}

} // verus!
