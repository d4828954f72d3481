//! The pool: a fixed set of workers around one job queue.
//!
//! The pool is driven from outside. A producer hands it jobs with
//! [`ThreadPool::execute`]. Each worker thread calls [`ThreadPool::poll`] with
//! its own index and obeys the answer: it runs the job it is given and reports
//! the end with [`ThreadPool::finish`], or waits for the pool to change, or
//! ends. [`ThreadPool::shutdown`] closes the queue and tells the caller which
//! worker to wait for, in turn, until all have been joined. Calls on one pool
//! are serialised by the caller; a job runs outside of any such call.

use crate::model::{first_alive, fresh_workers, PoolView, ShutdownStep};
use crate::preservation::{
    lemma_finish_inv, lemma_initial_inv, lemma_poll_inv, lemma_shutdown_inv, lemma_submit_inv,
};
use crate::queue::JobQueue;
use crate::worker::{JobOutcome, Step, Worker, WorkerState};
use vstd::prelude::*;

verus! {

/// A pool of workers and the queue that feeds them.
pub struct ThreadPool<J> {
    workers: Vec<Worker>,
    lock: Option<usize>,
    queue: JobQueue<J>,
    accepted: Ghost<Seq<J>>,
    started: Ghost<Seq<J>>,
    in_flight: Ghost<Seq<Option<J>>>,
    completed: Ghost<Seq<J>>,
    failed: Ghost<Seq<J>>,
}

impl<J> View for ThreadPool<J> {
    type V = PoolView<J>;

    closed spec fn view(&self) -> PoolView<J> {
        PoolView {
            workers: self.workers@,
            lock: self.lock,
            pending: self.queue.pending(),
            open: self.queue.accepting(),
            accepted: self.accepted@,
            started: self.started@,
            in_flight: self.in_flight@,
            completed: self.completed@,
            failed: self.failed@,
        }
    }
}

impl<J> ThreadPool<J> {
    /// Whether the pool is well formed: its state satisfies the invariant.
    pub open spec fn wf(&self) -> bool {
        self@.inv()
    }

    /// A pool of `size` workers, all idle, around an empty queue that accepts
    /// jobs. A pool has at least one worker.
    pub fn new(size: usize) -> (pool: ThreadPool<J>)
        requires
            size > 0,
        ensures
            pool.wf(),
            pool@ == PoolView::<J>::initial(size as nat),
    {
        let mut workers: Vec<Worker> = Vec::new();
        let mut id: usize = 0;
        while id < size
            invariant
                id <= size,
                workers@ == fresh_workers(id as nat),
            decreases size - id,
        {
            workers.push(Worker::new(id));
            id += 1;
            assert(workers@ =~= fresh_workers(id as nat));
        }
        let pool = ThreadPool {
            workers,
            lock: None,
            queue: JobQueue::new(),
            accepted: Ghost(Seq::empty()),
            started: Ghost(Seq::empty()),
            in_flight: Ghost(Seq::new(size as nat, |i: int| None::<J>)),
            completed: Ghost(Seq::empty()),
            failed: Ghost(Seq::empty()),
        };
        proof {
            lemma_initial_inv::<J>(size as nat);
        }
        pool
    }

    /// Submits a job. While the pool accepts jobs the job goes to the back of
    /// the queue. Once shutdown has begun the job is dropped and nothing
    /// changes. The call never waits.
    pub fn execute(&mut self, job: J)
        requires
            old(self).wf(),
        ensures
            final(self).wf(),
            final(self)@ == old(self)@.submit(job),
    {
        let ghost submitted = job;
        match self.queue.send(job) {
            Ok(()) => {
                self.accepted = Ghost(self.accepted@.push(submitted));
            },
            Err(_) => {},
        }
        proof {
            lemma_submit_inv(old(self)@, submitted);
        }
    }

    /// One step of the worker with index `worker`: see [`Worker::step`]. A
    /// job that is handed out has left the queue and is in flight with this
    /// worker until its end is reported.
    pub fn poll(&mut self, worker: usize) -> (step: Step<J>)
        requires
            old(self).wf(),
            worker < old(self)@.size(),
        ensures
            final(self).wf(),
            final(self)@ == old(self)@.poll(worker as int),
            step == old(self)@.poll_step(worker as int),
    {
        let mut w = self.workers[worker];
        let step = w.step(&mut self.lock, &mut self.queue);
        self.workers.set(worker, w);
        proof {
            let next = old(self)@.poll(worker as int);
            self.started = Ghost(next.started);
            self.in_flight = Ghost(next.in_flight);
            lemma_poll_inv(old(self)@, worker as int);
        }
        step
    }

    /// Reports the end of the job that the worker with index `worker` was
    /// given. The worker is idle again, whatever the outcome. Where the worker
    /// runs no job nothing changes.
    pub fn finish(&mut self, worker: usize, outcome: JobOutcome)
        requires
            old(self).wf(),
            worker < old(self)@.size(),
        ensures
            final(self).wf(),
            final(self)@ == old(self)@.finish(worker as int, outcome),
    {
        let mut w = self.workers[worker];
        if w.finish() {
            self.workers.set(worker, w);
            proof {
                let next = old(self)@.finish(worker as int, outcome);
                self.in_flight = Ghost(next.in_flight);
                self.completed = Ghost(next.completed);
                self.failed = Ghost(next.failed);
            }
        }
        proof {
            lemma_finish_inv(old(self)@, worker as int, outcome);
        }
    }

    /// Shuts the pool down as far as it can go without waiting.
    ///
    /// The queue is closed, so that no further job is accepted; what is
    /// pending stays and is still handed out. Then the workers are joined in
    /// the order of their indices. At the first one that has not exited the
    /// call returns its index: the caller waits for that worker's thread to
    /// end and calls again. `Done` means that every worker has exited and was
    /// joined. A call on a pool that is shut down changes nothing.
    pub fn shutdown(&mut self) -> (r: ShutdownStep)
        requires
            old(self).wf(),
        ensures
            final(self).wf(),
            final(self)@ == old(self)@.shutdown(),
            r == old(self)@.shutdown_step(),
            r is Done ==> final(self)@.stopped(),
    {
        self.queue.close();
        assert(self@.workers =~= old(self)@.closed_with_joined(0).workers);
        let mut i: usize = 0;
        while i < self.workers.len()
            invariant
                i <= self.workers.len(),
                first_alive(old(self)@.workers, 0) == first_alive(old(self)@.workers, i as int),
                self@ == old(self)@.closed_with_joined(i as int),
            ensures
                i <= self.workers.len(),
                i == first_alive(old(self)@.workers, 0),
                self@ == old(self)@.closed_with_joined(i as int),
            decreases self.workers.len() - i,
        {
            let w = self.workers[i];
            if w.state != WorkerState::Exited {
                break;
            }
            self.workers.set(i, Worker { id: w.id, state: w.state, joined: true });
            i += 1;
            assert(self@.workers =~= old(self)@.closed_with_joined(i as int).workers);
        }
        proof {
            lemma_shutdown_inv(old(self)@);
        }
        if i < self.workers.len() {
            ShutdownStep::WaitFor(i)
        } else {
            ShutdownStep::Done
        }
    }

    /// The number of workers.
    pub fn size(&self) -> (n: usize)
        ensures
            n == self@.size(),
    {
        self.workers.len()
    }

    /// Whether the pool accepts jobs: shutdown has not begun.
    pub fn is_open(&self) -> (r: bool)
        ensures
            r == self@.open,
    {
        self.queue.is_open()
    }

    /// The number of jobs that wait in the queue.
    pub fn pending(&self) -> (n: usize)
        ensures
            n == self@.pending.len(),
    {
        self.queue.len()
    }

    /// The worker with index `worker`.
    pub fn worker(&self, worker: usize) -> (w: Worker)
        requires
            worker < self@.size(),
        ensures
            w == self@.workers[worker as int],
    {
        self.workers[worker]
    }

    /// The index of the worker that holds the dequeue lock, if one does.
    pub fn lock_holder(&self) -> (holder: Option<usize>)
        ensures
            holder == self@.lock,
    {
        self.lock
    }

    /// Whether the pool is stopped: every worker was joined.
    pub fn is_stopped(&self) -> (r: bool)
        ensures
            r == self@.stopped(),
    {
        let mut i: usize = 0;
        while i < self.workers.len()
            invariant
                i <= self.workers.len(),
                forall|k: int| 0 <= k < i ==> (#[trigger] self@.workers[k]).joined,
            decreases self.workers.len() - i,
        {
            if !self.workers[i].joined {
                return false;
            }
            i += 1;
        }
        true
    }
}

} // verus!
