//! Every transition of the pool keeps the pool's invariant.

use crate::model::{first_alive, flight, PoolView};
use crate::worker::Worker;
use crate::worker::{JobOutcome, Step, WorkerState};
use vstd::multiset::Multiset;
use vstd::prelude::*;
use vstd::seq_lib::group_to_multiset_ensures;

verus! {

/// Putting a job into a slot adds it to what is in flight, whatever the slot
/// held before.
proof fn lemma_flight_update<J>(slots: Seq<Option<J>>, i: int, job: J)
    requires
        0 <= i < slots.len(),
    ensures
        flight(slots.update(i, Some(job))) == flight(slots.update(i, None)).insert(job),
    decreases slots.len(),
{
    let with = slots.update(i, Some(job));
    let without = slots.update(i, None);
    if i == slots.len() - 1 {
        assert(with.drop_last() =~= without.drop_last());
    } else {
        lemma_flight_update(slots.drop_last(), i, job);
        assert(with.drop_last() =~= slots.drop_last().update(i, Some(job)));
        assert(without.drop_last() =~= slots.drop_last().update(i, None));
        assert(flight(with) =~= flight(without).insert(job));
    }
}

/// Where no slot holds a job, nothing is in flight.
pub proof fn lemma_flight_none<J>(slots: Seq<Option<J>>)
    requires
        forall|i: int| 0 <= i < slots.len() ==> (#[trigger] slots[i]) is None,
    ensures
        flight(slots) == Multiset::<J>::empty(),
    decreases slots.len(),
{
    if slots.len() > 0 {
        assert(slots.last() is None);
        lemma_flight_none(slots.drop_last());
    }
}

/// A new pool satisfies the invariant.
pub proof fn lemma_initial_inv<J>(size: nat)
    requires
        0 < size <= usize::MAX,
    ensures
        PoolView::<J>::initial(size).inv(),
{
    broadcast use group_to_multiset_ensures;

    let p = PoolView::<J>::initial(size);
    lemma_flight_none(p.in_flight);
    assert(p.accepted =~= p.started + p.pending);
    assert(p.started.to_multiset() =~= flight(p.in_flight).add(p.completed.to_multiset()).add(
        p.failed.to_multiset(),
    ));
}

/// A submission keeps the invariant.
pub proof fn lemma_submit_inv<J>(pool: PoolView<J>, job: J)
    requires
        pool.inv(),
    ensures
        pool.submit(job).inv(),
{
    let next = pool.submit(job);
    if pool.open {
        assert(next.accepted =~= next.started + next.pending);
        assert forall|i: int| 0 <= i < next.workers.len() implies (#[trigger] next.workers[i]).state
            != WorkerState::Exited by {
            assert(pool.workers[i].state == WorkerState::Exited ==> !pool.open);
        }
    }
}

/// A worker's step keeps the invariant.
pub proof fn lemma_poll_inv<J>(pool: PoolView<J>, i: int)
    requires
        pool.inv(),
        0 <= i < pool.size(),
    ensures
        pool.poll(i).inv(),
{
    broadcast use group_to_multiset_ensures;

    let next = pool.poll(i);
    let s = pool.workers[i].after_step(pool.lock, pool.pending, pool.open);
    assert(pool.workers[i].id == i);
    assert forall|k: int| 0 <= k < next.workers.len() implies (#[trigger] next.workers[k]).id
        == k by {
        assert(pool.workers[k].id == k);
    }
    assert forall|k: int|
        0 <= k < next.workers.len() && (#[trigger] next.workers[k]).state
            == WorkerState::Receiving implies next.lock == Some(k as usize) by {
        if k != i {
            assert(pool.workers[k].state == WorkerState::Receiving);
            assert(pool.lock == Some(k as usize));
        }
    }
    if let Some(holder) = next.lock {
        if holder != i {
            assert(pool.lock == Some(holder));
            assert(next.workers[holder as int] == pool.workers[holder as int]);
        }
    }
    assert forall|k: int| 0 <= k < next.workers.len() implies ((#[trigger] next.in_flight[k]) is Some
        <==> next.workers[k].state == WorkerState::Running) by {
        assert(pool.in_flight[k] is Some <==> pool.workers[k].state == WorkerState::Running);
    }
    assert forall|k: int|
        0 <= k < next.workers.len() && (#[trigger] next.workers[k]).joined implies next.workers[k].state
        == WorkerState::Exited by {
        assert(pool.workers[k].joined ==> pool.workers[k].state == WorkerState::Exited);
        assert(pool.workers[i].state == WorkerState::Exited ==> s.worker == pool.workers[i]);
    }
    assert forall|k: int|
        0 <= k < next.workers.len() && (#[trigger] next.workers[k]).state
            == WorkerState::Exited implies !next.open && next.pending.len() == 0 by {
        if k != i {
            assert(pool.workers[k].state == WorkerState::Exited);
        } else {
            assert(pool.workers[i].state == WorkerState::Exited ==> !pool.open
                && pool.pending.len() == 0);
        }
    }
    match s.step {
        Step::Run(job) => {
            assert(pool.in_flight[i] is None);
            assert(pool.in_flight.update(i, None) =~= pool.in_flight);
            lemma_flight_update(pool.in_flight, i, job);
            assert(next.accepted =~= next.started + next.pending);
            assert(next.started.to_multiset() =~= flight(next.in_flight).add(
                next.completed.to_multiset(),
            ).add(next.failed.to_multiset()));
        },
        _ => {
            assert(next.pending == pool.pending);
        },
    }
}

/// The end of a job keeps the invariant.
pub proof fn lemma_finish_inv<J>(pool: PoolView<J>, i: int, outcome: JobOutcome)
    requires
        pool.inv(),
        0 <= i < pool.size(),
    ensures
        pool.finish(i, outcome).inv(),
{
    broadcast use group_to_multiset_ensures;

    let next = pool.finish(i, outcome);
    if let Some(job) = pool.in_flight[i] {
        assert(pool.workers[i].state == WorkerState::Running);
        assert(pool.in_flight.update(i, Some(job)) =~= pool.in_flight);
        lemma_flight_update(pool.in_flight, i, job);
        assert forall|k: int| 0 <= k < next.workers.len() implies (#[trigger] next.workers[k]).id
            == k by {
            assert(pool.workers[k].id == k);
        }
        assert forall|k: int|
            0 <= k < next.workers.len() && (#[trigger] next.workers[k]).state
                == WorkerState::Receiving implies next.lock == Some(k as usize) by {
            assert(pool.workers[k].state == WorkerState::Receiving);
        }
        if let Some(holder) = next.lock {
            assert(holder != i);
            assert(next.workers[holder as int] == pool.workers[holder as int]);
        }
        assert forall|k: int| 0 <= k < next.workers.len() implies ((
        #[trigger] next.in_flight[k]) is Some <==> next.workers[k].state
            == WorkerState::Running) by {
            assert(pool.in_flight[k] is Some <==> pool.workers[k].state == WorkerState::Running);
        }
        assert forall|k: int|
            0 <= k < next.workers.len() && (#[trigger] next.workers[k]).joined implies next.workers[k].state
            == WorkerState::Exited by {
            assert(pool.workers[k].joined ==> pool.workers[k].state == WorkerState::Exited);
        }
        assert forall|k: int|
            0 <= k < next.workers.len() && (#[trigger] next.workers[k]).state
                == WorkerState::Exited implies !next.open && next.pending.len() == 0 by {
            assert(pool.workers[k].state == WorkerState::Exited);
        }
        assert(next.started.to_multiset() =~= flight(next.in_flight).add(
            next.completed.to_multiset(),
        ).add(next.failed.to_multiset()));
    }
}

/// The first worker that has not exited: every worker before it has, and it
/// has not.
pub proof fn lemma_first_alive(workers: Seq<Worker>, from: int)
    requires
        0 <= from <= workers.len(),
    ensures
        from <= first_alive(workers, from) <= workers.len(),
        forall|i: int|
            from <= i < first_alive(workers, from) ==> (#[trigger] workers[i]).state
                == WorkerState::Exited,
        first_alive(workers, from) < workers.len() ==> workers[first_alive(workers, from)].state
            != WorkerState::Exited,
    decreases workers.len() - from,
{
    if from < workers.len() && workers[from].state == WorkerState::Exited {
        lemma_first_alive(workers, from + 1);
    }
}

/// A shutdown keeps the invariant.
pub proof fn lemma_shutdown_inv<J>(pool: PoolView<J>)
    requires
        pool.inv(),
    ensures
        pool.shutdown().inv(),
        pool.shutdown_step() is Done ==> pool.shutdown().stopped(),
{
    lemma_first_alive(pool.workers, 0);
    lemma_join_inv(pool, first_alive(pool.workers, 0));
}

/// Closing the queue and joining the first `count` workers keeps the
/// invariant, where each of them has exited.
proof fn lemma_join_inv<J>(pool: PoolView<J>, count: int)
    requires
        pool.inv(),
        pool.exited_before(count),
    ensures
        pool.closed_with_joined(count).inv(),
{
    let next = pool.closed_with_joined(count);
    assert forall|k: int| 0 <= k < next.workers.len() implies (#[trigger] next.workers[k]).id
        == k by {
        assert(pool.workers[k].id == k);
    }
    assert forall|k: int|
        0 <= k < next.workers.len() && (#[trigger] next.workers[k]).state
            == WorkerState::Receiving implies next.lock == Some(k as usize) by {
        assert(pool.workers[k].state == WorkerState::Receiving);
    }
    assert forall|k: int| 0 <= k < next.workers.len() implies ((#[trigger] next.in_flight[k]) is Some
        <==> next.workers[k].state == WorkerState::Running) by {
        assert(pool.in_flight[k] is Some <==> pool.workers[k].state == WorkerState::Running);
    }
    assert forall|k: int|
        0 <= k < next.workers.len() && (#[trigger] next.workers[k]).joined implies next.workers[k].state
        == WorkerState::Exited by {
        assert(pool.workers[k].joined ==> pool.workers[k].state == WorkerState::Exited);
    }
    assert forall|k: int|
        0 <= k < next.workers.len() && (#[trigger] next.workers[k]).state
            == WorkerState::Exited implies !next.open && next.pending.len() == 0 by {
        assert(pool.workers[k].state == WorkerState::Exited);
    }
}

} // verus!
