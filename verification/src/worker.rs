//! One worker of the pool: its identity, where it stands in its loop, and the
//! rule by which it moves on.
//!
//! A worker's loop is: take the dequeue lock, receive, give the lock back,
//! run the job, repeat; on the closed signal, leave the loop. The lock is held
//! across the receive only, never while a job runs.

use crate::queue::{JobQueue, Received};
use vstd::prelude::*;

verus! {

/// Where a worker stands in its loop.
#[derive(Clone, Copy, Debug, PartialEq, Eq, Structural)]
pub enum WorkerState {
    /// Between jobs, not holding the dequeue lock.
    Idle,
    /// Holding the dequeue lock, inside a receive.
    Receiving,
    /// Running a job, not holding the dequeue lock.
    Running,
    /// Out of its loop for good, after the closed signal.
    Exited,
}

/// What a worker has to do after a step.
#[derive(Debug, PartialEq, Eq)]
pub enum Step<J> {
    /// Run this job to completion, then report how it ended.
    Run(J),
    /// Block until the pool changes, then step again.
    Wait,
    /// Leave the loop and end the thread.
    Exit,
}

/// How a job body ended.
#[derive(Clone, Copy, Debug, PartialEq, Eq, Structural)]
pub enum JobOutcome {
    /// The body returned.
    Completed,
    /// The body failed; the failure was caught at the worker's boundary.
    Failed,
}

/// A worker: an ordinal identity bound to one thread.
#[derive(Clone, Copy, Debug, PartialEq, Eq, Structural)]
pub struct Worker {
    /// The worker's index in its pool.
    pub id: usize,
    /// Where the worker stands in its loop.
    pub state: WorkerState,
    /// Whether the worker's thread handle was consumed by a join.
    pub joined: bool,
}

/// The result of one step, as a value: the worker after it, the dequeue lock
/// after it, what is left pending, and what the worker has to do.
pub struct Stepped<J> {
    pub worker: Worker,
    pub lock: Option<usize>,
    pub pending: Seq<J>,
    pub step: Step<J>,
}

impl Worker {
    /// The worker with another state.
    pub open spec fn in_state(self, state: WorkerState) -> Worker {
        Worker { state, ..self }
    }

    /// A receive by a worker that holds the dequeue lock: the oldest pending
    /// job if there is one, else a wait with the lock still held while the
    /// queue is open, else the exit.
    pub open spec fn after_receive<J>(self, pending: Seq<J>, open: bool) -> Stepped<J> {
        if pending.len() > 0 {
            Stepped {
                worker: self.in_state(WorkerState::Running),
                lock: None,
                pending: pending.drop_first(),
                step: Step::Run(pending[0]),
            }
        } else if open {
            Stepped {
                worker: self.in_state(WorkerState::Receiving),
                lock: Some(self.id),
                pending,
                step: Step::Wait,
            }
        } else {
            Stepped {
                worker: self.in_state(WorkerState::Exited),
                lock: None,
                pending,
                step: Step::Exit,
            }
        }
    }

    /// One step of the worker's loop, given who holds the dequeue lock, what
    /// is pending and whether the queue is open.
    pub open spec fn after_step<J>(self, lock: Option<usize>, pending: Seq<J>, open: bool) -> Stepped<
        J,
    > {
        match self.state {
            WorkerState::Idle => if lock is Some {
                Stepped { worker: self, lock, pending, step: Step::Wait }
            } else {
                self.after_receive(pending, open)
            },
            WorkerState::Receiving => self.after_receive(pending, open),
            WorkerState::Running => Stepped { worker: self, lock, pending, step: Step::Wait },
            WorkerState::Exited => Stepped { worker: self, lock, pending, step: Step::Exit },
        }
    }

    /// The worker after its job ended: idle again if it was running, else as
    /// it was.
    pub open spec fn after_finish(self) -> Worker {
        if self.state == WorkerState::Running {
            self.in_state(WorkerState::Idle)
        } else {
            self
        }
    }

    /// A fresh worker: idle, not joined.
    pub fn new(id: usize) -> (w: Worker)
        ensures
            w == (Worker { id, state: WorkerState::Idle, joined: false }),
    {
        Worker { id, state: WorkerState::Idle, joined: false }
    }

    /// Moves the worker one step through its loop.
    ///
    /// An idle worker takes the dequeue lock if it is free and receives at
    /// once; if the lock is taken it waits. A worker inside a receive tries
    /// again. It gets the oldest pending job, gives the lock back and has to
    /// run the job; or nothing is pending and it waits with the lock held; or
    /// the queue is closed and drained, and it gives the lock back and exits.
    /// A running worker is told to wait, an exited one to exit.
    pub fn step<J>(&mut self, lock: &mut Option<usize>, queue: &mut JobQueue<J>) -> (step: Step<J>)
        ensures
            ({
                let s = old(self).after_step(
                    *old(lock),
                    old(queue).pending(),
                    old(queue).accepting(),
                );
                &&& *final(self) == s.worker
                &&& *final(lock) == s.lock
                &&& final(queue).pending() == s.pending
                &&& step == s.step
            }),
            final(queue).accepting() == old(queue).accepting(),
    {
        match self.state {
            WorkerState::Idle => {
                if lock.is_some() {
                    return Step::Wait;
                }
            },
            WorkerState::Receiving => {},
            WorkerState::Running => {
                return Step::Wait;
            },
            WorkerState::Exited => {
                return Step::Exit;
            },
        }
        match queue.receive() {
            Received::Job(job) => {
                self.state = WorkerState::Running;
                *lock = None;
                Step::Run(job)
            },
            Received::Empty => {
                self.state = WorkerState::Receiving;
                *lock = Some(self.id);
                Step::Wait
            },
            Received::Closed => {
                self.state = WorkerState::Exited;
                *lock = None;
                Step::Exit
            },
        }
    }

    /// Records that the worker's job ended. Returns whether the worker was
    /// running one.
    pub fn finish(&mut self) -> (was_running: bool)
        ensures
            was_running == (old(self).state == WorkerState::Running),
            *final(self) == old(self).after_finish(),
    {
        if self.state == WorkerState::Running {
            self.state = WorkerState::Idle;
            true
        } else {
            false
        }
    }
}

} // verus!
