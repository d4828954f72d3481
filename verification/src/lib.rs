//! A fixed-size worker pool, stated as a verified protocol, and the rules of
//! a small file server that runs on it.
//!
//! The pool owns a job queue and the bookkeeping of its workers. It decides
//! who may dequeue, which job a worker runs next, when a worker has to wait
//! and when it may exit, and in which order workers are joined at shutdown.
//! The caller supplies the threads: each one asks the pool what to do next,
//! does it, and reports back.
//!
//! - [`queue`], [`worker`], [`threadpool`]: the job queue, one worker's loop,
//!   and the pool.
//! - [`model`]: the pool as a state machine over mathematical values.
//! - [`preservation`], [`guarantees`], [`progress`], [`trace`]: the
//!   invariant, what follows from it, why a pool never gets stuck, and what
//!   holds at the end of every run.
//! - [`request`], [`response`], [`static_files`]: what a request asks for,
//!   what is sent back, and which file may be served under which media type.

pub mod queue;
pub mod worker;
pub mod model;
pub mod preservation;
pub mod threadpool;
pub mod guarantees;
pub mod progress;
pub mod trace;
pub mod response;
pub mod request;
pub mod static_files;
