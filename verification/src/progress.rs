//! Progress: a pool never gets stuck, and a pool that is shut down comes to
//! a stop after a bounded number of steps.

use crate::model::PoolView;
use crate::worker::{JobOutcome, Step, Worker, WorkerState};
use vstd::prelude::*;

verus! {

/// The number of workers in a given state.
pub open spec fn tally(workers: Seq<Worker>, state: WorkerState) -> nat
    decreases workers.len(),
{
    if workers.len() == 0 {
        0
    } else {
        tally(workers.drop_last(), state) + if workers.last().state == state {
            1nat
        } else {
            0nat
        }
    }
}

/// The work that a pool has left: a bound on the number of steps that still
/// change it once it is closed. A job that is handed out, a job that ends and
/// a worker that exits each take from it.
pub open spec fn work_left<J>(pool: PoolView<J>) -> int {
    3 * pool.pending.len() + 2 * tally(pool.workers, WorkerState::Running) + (pool.workers.len()
        - tally(pool.workers, WorkerState::Exited))
}

/// No more workers are in a state than there are workers.
proof fn lemma_tally_bound(workers: Seq<Worker>, state: WorkerState)
    ensures
        tally(workers, state) <= workers.len(),
    decreases workers.len(),
{
    if workers.len() > 0 {
        lemma_tally_bound(workers.drop_last(), state);
    }
}

/// A worker that changes its state leaves the state it was in and enters the
/// one it is in.
proof fn lemma_tally_update(workers: Seq<Worker>, i: int, w: Worker, state: WorkerState)
    requires
        0 <= i < workers.len(),
    ensures
        tally(workers.update(i, w), state) == tally(workers, state) - (if workers[i].state
            == state {
            1int
        } else {
            0int
        }) + (if w.state == state {
            1int
        } else {
            0int
        }),
    decreases workers.len(),
{
    let updated = workers.update(i, w);
    if i == workers.len() - 1 {
        assert(updated.drop_last() =~= workers.drop_last());
    } else {
        lemma_tally_update(workers.drop_last(), i, w, state);
        assert(updated.drop_last() =~= workers.drop_last().update(i, w));
    }
}

/// Where no worker is in a state, the tally of that state is zero.
proof fn lemma_tally_none(workers: Seq<Worker>, state: WorkerState)
    requires
        forall|i: int| 0 <= i < workers.len() ==> (#[trigger] workers[i]).state != state,
    ensures
        tally(workers, state) == 0,
    decreases workers.len(),
{
    if workers.len() > 0 {
        assert(workers.last().state != state);
        lemma_tally_none(workers.drop_last(), state);
    }
}

/// The work left is never negative, and none is left exactly when nothing is
/// pending, no job runs and every worker has exited.
pub proof fn lemma_work_left_bound<J>(pool: PoolView<J>)
    ensures
        work_left(pool) >= 0,
        work_left(pool) == 0 ==> pool.pending.len() == 0 && tally(
            pool.workers,
            WorkerState::Exited,
        ) == pool.workers.len(),
        pool.pending.len() == 0 && pool.exited_before(pool.size() as int) ==> work_left(pool) == 0,
{
    lemma_tally_bound(pool.workers, WorkerState::Exited);
    if pool.pending.len() == 0 && pool.exited_before(pool.size() as int) {
        lemma_tally_none(pool.workers, WorkerState::Running);
        lemma_tally_all(pool.workers, WorkerState::Exited);
    }
}

/// Where every worker is in a state, the tally of that state is the number
/// of workers.
proof fn lemma_tally_all(workers: Seq<Worker>, state: WorkerState)
    requires
        forall|i: int| 0 <= i < workers.len() ==> (#[trigger] workers[i]).state == state,
    ensures
        tally(workers, state) == workers.len(),
    decreases workers.len(),
{
    if workers.len() > 0 {
        assert(workers.last().state == state);
        lemma_tally_all(workers.drop_last(), state);
    }
}

/// On a closed pool a step either changes nothing and tells the worker to
/// wait or to exit once more, or it takes from the work that is left.
pub proof fn lemma_step_takes_from_work_left<J>(pool: PoolView<J>, i: int)
    requires
        pool.inv(),
        !pool.open,
        0 <= i < pool.size(),
    ensures
        pool.poll(i) == pool || work_left(pool.poll(i)) < work_left(pool),
        pool.poll_step(i) is Run ==> work_left(pool.poll(i)) == work_left(pool) - 1,
        pool.poll_step(i) is Exit && pool.workers[i].state != WorkerState::Exited ==> work_left(
            pool.poll(i),
        ) == work_left(pool) - 1,
        pool.poll_step(i) is Wait ==> pool.poll(i) == pool,
{
    let next = pool.poll(i);
    let s = pool.workers[i].after_step(pool.lock, pool.pending, pool.open);
    lemma_tally_update(pool.workers, i, s.worker, WorkerState::Running);
    lemma_tally_update(pool.workers, i, s.worker, WorkerState::Exited);
    match s.step {
        Step::Run(job) => {},
        Step::Wait => {
            assert(s.worker == pool.workers[i]);
            assert(next.workers =~= pool.workers);
        },
        Step::Exit => {
            if pool.workers[i].state == WorkerState::Exited {
                assert(next.workers =~= pool.workers);
            }
        },
    }
}

/// The end of a job takes from the work that is left.
pub proof fn lemma_finish_takes_from_work_left<J>(pool: PoolView<J>, i: int, outcome: JobOutcome)
    requires
        pool.inv(),
        0 <= i < pool.size(),
        pool.workers[i].state == WorkerState::Running,
    ensures
        work_left(pool.finish(i, outcome)) == work_left(pool) - 2,
{
    let w = pool.workers[i].after_finish();
    lemma_tally_update(pool.workers, i, w, WorkerState::Running);
    lemma_tally_update(pool.workers, i, w, WorkerState::Exited);
}

/// On a closed pool a submission and a shutdown leave the work as it is:
/// nothing is added to it.
pub proof fn lemma_closed_pool_gets_no_work<J>(pool: PoolView<J>, job: J)
    requires
        pool.inv(),
        !pool.open,
    ensures
        work_left(pool.submit(job)) == work_left(pool),
        work_left(pool.shutdown()) == work_left(pool),
{
    lemma_tally_by_state(pool.shutdown().workers, pool.workers, WorkerState::Running);
    lemma_tally_by_state(pool.shutdown().workers, pool.workers, WorkerState::Exited);
}

/// Workers with the same states give the same tallies.
proof fn lemma_tally_by_state(a: Seq<Worker>, b: Seq<Worker>, state: WorkerState)
    requires
        a.len() == b.len(),
        forall|i: int| 0 <= i < a.len() ==> (#[trigger] a[i]).state == b[i].state,
    ensures
        tally(a, state) == tally(b, state),
    decreases a.len(),
{
    if a.len() > 0 {
        assert(a.last().state == b.last().state);
        lemma_tally_by_state(a.drop_last(), b.drop_last(), state);
    }
}

/// A pending job is never stuck behind the dequeue lock: the next step of
/// some worker takes the head of the queue, unless every worker is busy
/// running a job.
pub proof fn lemma_pending_job_is_taken<J>(pool: PoolView<J>)
    requires
        pool.inv(),
        pool.pending.len() > 0,
    ensures
        (exists|i: int|
            0 <= i < pool.size() && #[trigger] pool.poll_step(i) == Step::Run(pool.pending[0]))
            || (forall|i: int|
            0 <= i < pool.size() ==> (#[trigger] pool.workers[i]).state == WorkerState::Running),
{
    if let Some(holder) = pool.lock {
        assert(pool.poll_step(holder as int) == Step::Run(pool.pending[0]));
    } else if exists|i: int|
        0 <= i < pool.size() && (#[trigger] pool.workers[i]).state != WorkerState::Running {
        let i: int = choose|i: int|
            0 <= i < pool.size() && (#[trigger] pool.workers[i]).state != WorkerState::Running;
        assert(pool.workers[i].state == WorkerState::Idle);
        assert(pool.poll_step(i) == Step::Run(pool.pending[0]));
    }
}

/// A pool that is closed and drained winds down: as long as a worker has not
/// exited, some worker is running a job or exits with its next step.
pub proof fn lemma_closed_pool_winds_down<J>(pool: PoolView<J>, alive: int)
    requires
        pool.inv(),
        !pool.open,
        pool.pending.len() == 0,
        0 <= alive < pool.size(),
        pool.workers[alive].state != WorkerState::Exited,
    ensures
        exists|i: int|
            0 <= i < pool.size() && (#[trigger] pool.workers[i]).state != WorkerState::Exited && (
            pool.workers[i].state == WorkerState::Running || pool.poll_step(i) == Step::<J>::Exit),
{
    if let Some(holder) = pool.lock {
        assert(pool.workers[holder as int].state == WorkerState::Receiving);
        assert(pool.poll_step(holder as int) == Step::<J>::Exit);
    } else {
        assert(pool.workers[alive].state != WorkerState::Receiving);
        if pool.workers[alive].state == WorkerState::Idle {
            assert(pool.poll_step(alive) == Step::<J>::Exit);
        }
    }
}

} // verus!
