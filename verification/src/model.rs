//! The pool as a state machine over mathematical values: its state, its
//! transitions and the invariant that every transition keeps.

use crate::worker::{JobOutcome, Step, Worker, WorkerState};
use vstd::multiset::Multiset;
use vstd::prelude::*;

verus! {

/// What the caller of a shutdown has to do next.
#[derive(Clone, Copy, Debug, PartialEq, Eq, Structural)]
pub enum ShutdownStep {
    /// Block until the worker with this index has exited, then call again.
    WaitFor(usize),
    /// Every worker has exited and was joined.
    Done,
}

/// The state of a pool.
///
/// Besides what the pool holds at run time (workers, dequeue lock, queue) it
/// keeps the history of every job that was ever accepted: `accepted` in order
/// of submission, `started` in order of dequeue, `in_flight` the job that each
/// worker is running, `completed` and `failed` in order of their ends.
pub struct PoolView<J> {
    pub workers: Seq<Worker>,
    pub lock: Option<usize>,
    pub pending: Seq<J>,
    pub open: bool,
    pub accepted: Seq<J>,
    pub started: Seq<J>,
    pub in_flight: Seq<Option<J>>,
    pub completed: Seq<J>,
    pub failed: Seq<J>,
}

/// The jobs that are being run, as a multiset.
pub open spec fn flight<J>(slots: Seq<Option<J>>) -> Multiset<J>
    decreases slots.len(),
{
    if slots.len() == 0 {
        Multiset::empty()
    } else {
        match slots.last() {
            Some(job) => flight(slots.drop_last()).insert(job),
            None => flight(slots.drop_last()),
        }
    }
}

/// The index of the first worker at or after `from` that has not exited, or
/// the number of workers where all of them have.
pub open spec fn first_alive(workers: Seq<Worker>, from: int) -> int
    decreases workers.len() - from,
{
    if 0 <= from < workers.len() && workers[from].state == WorkerState::Exited {
        first_alive(workers, from + 1)
    } else {
        from
    }
}

/// `count` fresh workers, numbered from zero.
pub open spec fn fresh_workers(count: nat) -> Seq<Worker> {
    Seq::new(count, |i: int| Worker { id: i as usize, state: WorkerState::Idle, joined: false })
}

impl<J> PoolView<J> {
    /// The number of workers.
    pub open spec fn size(self) -> nat {
        self.workers.len()
    }

    /// A new pool of `size` idle workers around an empty, open queue.
    pub open spec fn initial(size: nat) -> PoolView<J> {
        PoolView {
            workers: fresh_workers(size),
            lock: None,
            pending: Seq::empty(),
            open: true,
            accepted: Seq::empty(),
            started: Seq::empty(),
            in_flight: Seq::new(size, |i: int| None::<J>),
            completed: Seq::empty(),
            failed: Seq::empty(),
        }
    }

    /// The invariant of the pool.
    pub open spec fn inv(self) -> bool {
        &&& self.workers.len() > 0
        &&& self.in_flight.len() == self.workers.len()
        &&& forall|i: int| 0 <= i < self.workers.len() ==> (#[trigger] self.workers[i]).id == i
        // the dequeue lock is held by the one worker that is inside a receive
        &&& self.lock matches Some(holder) ==> holder < self.workers.len() && self.workers[holder as int].state
            == WorkerState::Receiving
        &&& forall|i: int|
            0 <= i < self.workers.len() && (#[trigger] self.workers[i]).state
                == WorkerState::Receiving ==> self.lock == Some(i as usize)
        // a worker has a job in flight exactly while it is running
        &&& forall|i: int|
            0 <= i < self.workers.len() ==> ((#[trigger] self.in_flight[i]) is Some
                <==> self.workers[i].state == WorkerState::Running)
        // only an exited worker is joined, and a worker exits only from a
        // queue that is closed and drained
        &&& forall|i: int|
            0 <= i < self.workers.len() && (#[trigger] self.workers[i]).joined
                ==> self.workers[i].state == WorkerState::Exited
        &&& forall|i: int|
            0 <= i < self.workers.len() && (#[trigger] self.workers[i]).state
                == WorkerState::Exited ==> !self.open && self.pending.len() == 0
        // jobs leave the queue in the order in which they were accepted
        &&& self.accepted == self.started + self.pending
        // every started job is in flight, completed or failed, once
        &&& self.started.to_multiset() == flight(self.in_flight).add(
            self.completed.to_multiset(),
        ).add(self.failed.to_multiset())
    }

    /// Whether every worker was joined.
    pub open spec fn stopped(self) -> bool {
        forall|i: int| 0 <= i < self.workers.len() ==> (#[trigger] self.workers[i]).joined
    }

    /// Whether each of the first `count` workers has exited.
    pub open spec fn exited_before(self, count: int) -> bool {
        forall|i: int|
            0 <= i < count && i < self.workers.len() ==> (#[trigger] self.workers[i]).state
                == WorkerState::Exited
    }

    /// A submission: an open pool enqueues the job and records it as
    /// accepted; a pool whose shutdown has begun stays as it is.
    pub open spec fn submit(self, job: J) -> PoolView<J> {
        if self.open {
            PoolView {
                pending: self.pending.push(job),
                accepted: self.accepted.push(job),
                ..self
            }
        } else {
            self
        }
    }

    /// One step of worker `i`: the pool after it.
    pub open spec fn poll(self, i: int) -> PoolView<J> {
        let s = self.workers[i].after_step(self.lock, self.pending, self.open);
        match s.step {
            Step::Run(job) => PoolView {
                workers: self.workers.update(i, s.worker),
                lock: s.lock,
                pending: s.pending,
                started: self.started.push(job),
                in_flight: self.in_flight.update(i, Some(job)),
                ..self
            },
            _ => PoolView {
                workers: self.workers.update(i, s.worker),
                lock: s.lock,
                pending: s.pending,
                ..self
            },
        }
    }

    /// One step of worker `i`: what the worker has to do.
    pub open spec fn poll_step(self, i: int) -> Step<J> {
        self.workers[i].after_step(self.lock, self.pending, self.open).step
    }

    /// The end of the job that worker `i` is running: the worker is idle
    /// again and the job is recorded under its outcome. A worker that runs
    /// no job leaves the pool as it is.
    pub open spec fn finish(self, i: int, outcome: JobOutcome) -> PoolView<J> {
        match self.in_flight[i] {
            Some(job) => PoolView {
                workers: self.workers.update(i, self.workers[i].after_finish()),
                in_flight: self.in_flight.update(i, None),
                completed: if outcome == JobOutcome::Completed {
                    self.completed.push(job)
                } else {
                    self.completed
                },
                failed: if outcome == JobOutcome::Failed {
                    self.failed.push(job)
                } else {
                    self.failed
                },
                ..self
            },
            None => self,
        }
    }

    /// A shutdown as far as it goes without waiting: the send side is
    /// removed, and the workers are joined in the order of their indices, up
    /// to the first that has not exited.
    pub open spec fn shutdown(self) -> PoolView<J> {
        self.closed_with_joined(first_alive(self.workers, 0))
    }

    /// What the caller of a shutdown has to do next: wait for the first
    /// worker that has not exited, or nothing where all of them have.
    pub open spec fn shutdown_step(self) -> ShutdownStep {
        let alive: int = first_alive(self.workers, 0);
        if alive < self.workers.len() {
            ShutdownStep::WaitFor(alive as usize)
        } else {
            ShutdownStep::Done
        }
    }

    /// The pool after its send side was removed and its first `count` workers
    /// were joined.
    pub open spec fn closed_with_joined(self, count: int) -> PoolView<J> {
        PoolView {
            workers: Seq::new(
                self.workers.len(),
                |i: int|
                    if i < count {
                        Worker { joined: true, ..self.workers[i] }
                    } else {
                        self.workers[i]
                    },
            ),
            open: false,
            ..self
        }
    }
}

} // verus!
