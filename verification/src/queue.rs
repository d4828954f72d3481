//! The job queue: a first-in first-out channel with a send side that can be
//! closed once and a receive side that drains what is pending.

use std::collections::VecDeque;
use vstd::prelude::*;

verus! {

/// What one receive attempt yields.
#[derive(Debug, PartialEq, Eq)]
pub enum Received<J> {
    /// The job at the head of the queue. It has left the queue.
    Job(J),
    /// Nothing is pending and the send side is still there: the receiver has
    /// to wait.
    Empty,
    /// Nothing is pending and the send side is gone: the closed signal.
    Closed,
}

/// An unbounded queue of jobs between producers and workers.
pub struct JobQueue<J> {
    pending: VecDeque<J>,
    open: bool,
}

impl<J> JobQueue<J> {
    /// The jobs that were sent and not yet received, oldest first.
    pub closed spec fn pending(&self) -> Seq<J> {
        self.pending@
    }

    /// Whether the send side is still present.
    pub closed spec fn accepting(&self) -> bool {
        self.open
    }

    /// An empty queue with its send side present.
    pub fn new() -> (q: Self)
        ensures
            q.pending() == Seq::<J>::empty(),
            q.accepting(),
    {
        JobQueue { pending: VecDeque::new(), open: true }
    }

    /// Enqueues `job` behind everything pending. On a closed queue nothing is
    /// enqueued and the job is handed back.
    pub fn send(&mut self, job: J) -> (r: Result<(), J>)
        ensures
            final(self).accepting() == old(self).accepting(),
            old(self).accepting() ==> r == Ok::<(), J>(()) && final(self).pending() == old(
                self,
            ).pending().push(job),
            !old(self).accepting() ==> r == Err::<(), J>(job) && final(self).pending() == old(
                self,
            ).pending(),
    {
        if self.open {
            self.pending.push_back(job);
            Ok(())
        } else {
            Err(job)
        }
    }

    /// Takes the oldest pending job, if there is one. Pending jobs are still
    /// delivered after the queue was closed; the closed signal comes only once
    /// the queue is drained.
    pub fn receive(&mut self) -> (r: Received<J>)
        ensures
            final(self).accepting() == old(self).accepting(),
            old(self).pending().len() > 0 ==> r == Received::Job(old(self).pending()[0])
                && final(self).pending() == old(self).pending().drop_first(),
            old(self).pending().len() == 0 ==> final(self).pending() == old(self).pending() && r
                == if old(self).accepting() {
                Received::<J>::Empty
            } else {
                Received::<J>::Closed
            },
    {
        match self.pending.pop_front() {
            Some(job) => Received::Job(job),
            None => if self.open {
                Received::Empty
            } else {
                Received::Closed
            },
        }
    }

    /// Removes the send side. Pending jobs stay. Closing twice is closing once.
    pub fn close(&mut self)
        ensures
            !final(self).accepting(),
            final(self).pending() == old(self).pending(),
    {
        self.open = false;
    }

    /// Whether the send side is still present.
    pub fn is_open(&self) -> (r: bool)
        ensures
            r == self.accepting(),
    {
        self.open
    }

    /// The number of pending jobs.
    pub fn len(&self) -> (n: usize)
        ensures
            n == self.pending().len(),
    {
        self.pending.len()
    }
}

} // verus!
