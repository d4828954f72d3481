//! What holds of every pool that satisfies the invariant, and so of every
//! pool that the operations can reach.

use crate::model::{first_alive, flight, PoolView, ShutdownStep};
use crate::preservation::{lemma_first_alive, lemma_flight_none};
use crate::worker::{JobOutcome, Step, Worker, WorkerState};
use vstd::prelude::*;
use vstd::seq_lib::group_to_multiset_ensures;

verus! {

/// A pool has at least one worker: a pool of none does not satisfy the
/// invariant.
pub proof fn lemma_pool_is_not_empty<J>(pool: PoolView<J>)
    ensures
        pool.inv() ==> pool.size() >= 1,
        !PoolView::<J>::initial(0).inv(),
{
}

/// No two workers are inside a receive at once: the worker that is, is the
/// one that holds the dequeue lock.
pub proof fn lemma_one_receiver<J>(pool: PoolView<J>, i: int, j: int)
    requires
        pool.inv(),
        0 <= i < pool.size(),
        0 <= j < pool.size(),
        pool.workers[i].state == WorkerState::Receiving,
        pool.workers[j].state == WorkerState::Receiving,
    ensures
        i == j,
        pool.lock == Some(i as usize),
{
}

/// The dequeue lock is never held by a worker that runs a job, nor by one
/// that is idle or has exited.
pub proof fn lemma_lock_held_only_in_receive<J>(pool: PoolView<J>, i: int)
    requires
        pool.inv(),
        0 <= i < pool.size(),
        pool.workers[i].state != WorkerState::Receiving,
    ensures
        pool.lock != Some(i as usize),
{
}

/// Jobs are handed out in the order in which they were accepted, none twice
/// and none skipped: what was started is a prefix of what was accepted, and
/// the rest is what is pending.
pub proof fn lemma_first_in_first_out<J>(pool: PoolView<J>)
    requires
        pool.inv(),
    ensures
        pool.started.len() + pool.pending.len() == pool.accepted.len(),
        pool.started == pool.accepted.take(pool.started.len() as int),
        pool.pending == pool.accepted.skip(pool.started.len() as int),
{
    assert(pool.started =~= pool.accepted.take(pool.started.len() as int));
    assert(pool.pending =~= pool.accepted.skip(pool.started.len() as int));
}

/// Every accepted job is in exactly one place: pending, in flight with a
/// worker, completed, or failed.
pub proof fn lemma_every_job_accounted_for<J>(pool: PoolView<J>)
    requires
        pool.inv(),
    ensures
        pool.accepted.to_multiset() == pool.pending.to_multiset().add(flight(pool.in_flight)).add(
            pool.completed.to_multiset(),
        ).add(pool.failed.to_multiset()),
{
    broadcast use group_to_multiset_ensures;

    vstd::seq_lib::lemma_multiset_commutative(pool.started, pool.pending);
    assert(pool.accepted.to_multiset() =~= pool.pending.to_multiset().add(
        flight(pool.in_flight),
    ).add(pool.completed.to_multiset()).add(pool.failed.to_multiset()));
}

/// A worker exits only when the queue is closed and drained: while a job is
/// pending or the pool accepts jobs, no worker has exited.
pub proof fn lemma_no_early_exit<J>(pool: PoolView<J>, i: int)
    requires
        pool.inv(),
        0 <= i < pool.size(),
        pool.open || pool.pending.len() > 0,
    ensures
        pool.workers[i].state != WorkerState::Exited,
        !pool.workers[i].joined,
{
}

/// Once every worker was joined, no worker is alive: each has exited.
pub proof fn lemma_stopped_pool_has_no_live_worker<J>(pool: PoolView<J>, i: int)
    requires
        pool.inv(),
        pool.stopped(),
        0 <= i < pool.size(),
    ensures
        pool.workers[i].state == WorkerState::Exited,
        pool.lock is None,
        pool.in_flight[i] is None,
{
    assert(pool.workers[i].joined);
    if let Some(holder) = pool.lock {
        assert(pool.workers[holder as int].joined);
    }
}

/// Once every worker was joined, every job that the pool accepted was run to
/// its end, once: nothing is pending, nothing is in flight, and the accepted
/// jobs are the completed and the failed ones. Where no job failed, the
/// completed jobs are the accepted ones, as many as were accepted.
pub proof fn lemma_stopped_pool_ran_every_job<J>(pool: PoolView<J>)
    requires
        pool.inv(),
        pool.stopped(),
    ensures
        !pool.open,
        pool.pending.len() == 0,
        flight(pool.in_flight).len() == 0,
        pool.started == pool.accepted,
        pool.accepted.to_multiset() == pool.completed.to_multiset().add(
            pool.failed.to_multiset(),
        ),
        pool.accepted.len() == pool.completed.len() + pool.failed.len(),
        pool.failed.len() == 0 ==> pool.completed.to_multiset() == pool.accepted.to_multiset()
            && pool.completed.len() == pool.accepted.len(),
{
    broadcast use group_to_multiset_ensures;

    assert(pool.workers[0].joined);
    assert forall|i: int| 0 <= i < pool.in_flight.len() implies (#[trigger] pool.in_flight[i])
        is None by {
        assert(pool.workers[i].joined);
    }
    lemma_flight_none(pool.in_flight);
    assert(pool.started =~= pool.accepted);
    assert(pool.accepted.to_multiset() =~= pool.completed.to_multiset().add(
        pool.failed.to_multiset(),
    ));
    assert(pool.accepted.to_multiset().len() == pool.completed.to_multiset().len()
        + pool.failed.to_multiset().len());
    if pool.failed.len() == 0 {
        assert(pool.failed.to_multiset().len() == 0);
        assert(pool.completed.to_multiset() =~= pool.accepted.to_multiset());
    }
}

/// A job that is submitted after shutdown has begun is dropped: the pool
/// stays as it is, and with it every count of jobs.
pub proof fn lemma_submit_after_shutdown<J>(pool: PoolView<J>, job: J)
    requires
        !pool.open,
    ensures
        pool.submit(job) == pool,
{
}

/// Shutdown is final: no operation makes a closed pool accept jobs again,
/// and none adds to what it accepted.
pub proof fn lemma_shutdown_is_final<J>(pool: PoolView<J>, job: J, i: int, outcome: JobOutcome)
    requires
        !pool.open,
    ensures
        !pool.submit(job).open && pool.submit(job).accepted == pool.accepted,
        !pool.poll(i).open && pool.poll(i).accepted == pool.accepted,
        !pool.finish(i, outcome).open && pool.finish(i, outcome).accepted == pool.accepted,
        !pool.shutdown().open && pool.shutdown().accepted == pool.accepted,
{
}

/// Workers with the same states have the same first worker that has not
/// exited.
proof fn lemma_first_alive_by_state(a: Seq<Worker>, b: Seq<Worker>, from: int)
    requires
        a.len() == b.len(),
        forall|i: int| 0 <= i < a.len() ==> (#[trigger] a[i]).state == b[i].state,
    ensures
        first_alive(a, from) == first_alive(b, from),
    decreases a.len() - from,
{
    if 0 <= from < a.len() && a[from].state == WorkerState::Exited {
        lemma_first_alive_by_state(a, b, from + 1);
    }
}

/// Shutting down twice is shutting down once: the second call joins no
/// worker again and leaves the pool as the first call left it. A pool that
/// is stopped stays as it is under any further shutdown.
pub proof fn lemma_shutdown_twice<J>(pool: PoolView<J>)
    requires
        pool.inv(),
    ensures
        pool.shutdown().shutdown() == pool.shutdown(),
        pool.shutdown().shutdown_step() == pool.shutdown_step(),
        pool.stopped() && !pool.open ==> pool.shutdown() == pool && pool.shutdown_step()
            == ShutdownStep::Done,
{
    let once = pool.shutdown();
    lemma_first_alive(pool.workers, 0);
    lemma_first_alive_by_state(once.workers, pool.workers, 0);
    assert(once.shutdown().workers =~= once.workers);
    if pool.stopped() && !pool.open {
        assert forall|i: int| 0 <= i < pool.workers.len() implies (#[trigger] pool.workers[i]).state
            == WorkerState::Exited by {
            assert(pool.workers[i].joined);
        }
        assert(first_alive(pool.workers, 0) == pool.workers.len());
        assert(once.workers =~= pool.workers);
    }
}

/// A shutdown is done exactly when every worker has exited; else it names
/// the first worker that has not, after joining those before it.
pub proof fn lemma_shutdown_waits_for_every_worker<J>(pool: PoolView<J>)
    requires
        pool.inv(),
    ensures
        pool.shutdown_step() is Done <==> pool.exited_before(pool.size() as int),
        pool.shutdown_step() is Done <==> pool.shutdown().stopped(),
        pool.shutdown_step() matches ShutdownStep::WaitFor(k) ==> {
            &&& k < pool.size()
            &&& pool.workers[k as int].state != WorkerState::Exited
            &&& pool.exited_before(k as int)
            &&& forall|i: int| 0 <= i < k ==> (#[trigger] pool.shutdown().workers[i]).joined
            &&& !pool.shutdown().workers[k as int].joined
        },
        !pool.shutdown().open,
        pool.shutdown().pending == pool.pending,
{
    lemma_first_alive(pool.workers, 0);
    let alive: int = first_alive(pool.workers, 0);
    if alive < pool.workers.len() {
        assert(!pool.workers[alive].joined);
        assert(!pool.shutdown().workers[alive].joined);
    }
}

/// A failing job is contained: the worker that ran it is idle again and takes
/// the next job like any other, and nothing else in the pool has changed. In
/// particular the dequeue lock is where it was: no job runs under it, so no
/// failure can leave it taken.
pub proof fn lemma_failed_job_is_contained<J>(pool: PoolView<J>, i: int)
    requires
        pool.inv(),
        0 <= i < pool.size(),
        pool.workers[i].state == WorkerState::Running,
    ensures
        ({
            let next = pool.finish(i, JobOutcome::Failed);
            &&& next.workers[i].state == WorkerState::Idle
            &&& forall|k: int| 0 <= k < pool.size() && k != i ==> next.workers[k] == pool.workers[k]
            &&& next.lock == pool.lock
            &&& next.lock != Some(i as usize)
            &&& next.pending == pool.pending
            &&& next.open == pool.open
            &&& next.completed == pool.completed
            &&& next.failed == pool.failed.push(pool.in_flight[i]->0)
        }),
{
}

/// A job is handed to one worker only: a step that hands out a job takes it
/// from the head of the queue and puts it in flight with the worker that
/// stepped, and with no other.
pub proof fn lemma_run_takes_the_head<J>(pool: PoolView<J>, i: int, job: J)
    requires
        pool.inv(),
        0 <= i < pool.size(),
        pool.poll_step(i) == Step::Run(job),
    ensures
        pool.pending.len() > 0,
        job == pool.pending[0],
        pool.poll(i).pending == pool.pending.drop_first(),
        pool.poll(i).in_flight[i] == Some(job),
        forall|k: int|
            0 <= k < pool.size() && k != i ==> pool.poll(i).in_flight[k] == pool.in_flight[k],
        pool.poll(i).workers[i].state == WorkerState::Running,
        pool.poll(i).lock is None,
{
}

} // verus!
