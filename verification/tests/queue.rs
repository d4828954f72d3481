use workpool::queue::{JobQueue, Received};
use workpool::worker::{Step, Worker, WorkerState};

#[test]
fn new_queue_is_open_and_empty() {
    let q: JobQueue<u8> = JobQueue::new();
    assert!(q.is_open());
    assert_eq!(q.len(), 0);
}

#[test]
fn queue_delivers_in_order_of_sending() {
    let mut q = JobQueue::new();
    assert_eq!(q.send('a'), Ok(()));
    assert_eq!(q.send('b'), Ok(()));
    assert_eq!(q.send('c'), Ok(()));
    assert_eq!(q.len(), 3);
    assert_eq!(q.receive(), Received::Job('a'));
    assert_eq!(q.send('d'), Ok(()));
    assert_eq!(q.receive(), Received::Job('b'));
    assert_eq!(q.receive(), Received::Job('c'));
    assert_eq!(q.receive(), Received::Job('d'));
    assert_eq!(q.len(), 0);
}

#[test]
fn open_empty_queue_makes_the_receiver_wait() {
    let mut q: JobQueue<u8> = JobQueue::new();
    assert_eq!(q.receive(), Received::Empty);
    assert_eq!(q.receive(), Received::Empty);
    assert!(q.is_open());
}

#[test]
fn closed_queue_hands_the_job_back() {
    let mut q = JobQueue::new();
    q.close();
    assert!(!q.is_open());
    assert_eq!(q.send(7), Err(7));
    assert_eq!(q.len(), 0);
    assert_eq!(q.receive(), Received::Closed);
}

#[test]
fn closed_queue_is_drained_before_the_closed_signal() {
    let mut q = JobQueue::new();
    assert_eq!(q.send(1), Ok(()));
    assert_eq!(q.send(2), Ok(()));
    q.close();
    q.close();
    assert_eq!(q.len(), 2);
    assert_eq!(q.receive(), Received::Job(1));
    assert_eq!(q.receive(), Received::Job(2));
    assert_eq!(q.receive(), Received::Closed);
    assert_eq!(q.receive(), Received::Closed);
}

#[test]
fn fresh_worker_is_idle() {
    let w = Worker::new(3);
    assert_eq!(w, Worker { id: 3, state: WorkerState::Idle, joined: false });
}

#[test]
fn idle_worker_takes_the_lock_and_the_job() {
    let mut q = JobQueue::new();
    assert_eq!(q.send("job"), Ok(()));
    let mut lock = None;
    let mut w = Worker::new(0);
    assert_eq!(w.step(&mut lock, &mut q), Step::Run("job"));
    assert_eq!(w.state, WorkerState::Running);
    assert_eq!(lock, None);
    assert_eq!(q.len(), 0);
}

#[test]
fn idle_worker_waits_while_another_holds_the_lock() {
    let mut q = JobQueue::new();
    assert_eq!(q.send("job"), Ok(()));
    let mut lock = Some(1);
    let mut w = Worker::new(0);
    assert_eq!(w.step(&mut lock, &mut q), Step::Wait);
    assert_eq!(w.state, WorkerState::Idle);
    assert_eq!(lock, Some(1));
    assert_eq!(q.len(), 1);
}

#[test]
fn worker_keeps_the_lock_while_it_waits_for_a_job() {
    let mut q: JobQueue<u8> = JobQueue::new();
    let mut lock = None;
    let mut w = Worker::new(2);
    assert_eq!(w.step(&mut lock, &mut q), Step::Wait);
    assert_eq!(w.state, WorkerState::Receiving);
    assert_eq!(lock, Some(2));
    assert_eq!(w.step(&mut lock, &mut q), Step::Wait);
    assert_eq!(lock, Some(2));
    assert_eq!(q.send(9), Ok(()));
    assert_eq!(w.step(&mut lock, &mut q), Step::Run(9));
    assert_eq!(lock, None);
}

#[test]
fn worker_exits_on_the_closed_signal_and_frees_the_lock() {
    let mut q: JobQueue<u8> = JobQueue::new();
    let mut lock = None;
    let mut w = Worker::new(0);
    assert_eq!(w.step(&mut lock, &mut q), Step::Wait);
    q.close();
    assert_eq!(w.step(&mut lock, &mut q), Step::Exit);
    assert_eq!(w.state, WorkerState::Exited);
    assert_eq!(lock, None);
    // an exited worker stays out
    assert_eq!(q.send(1), Err(1));
    assert_eq!(w.step(&mut lock, &mut q), Step::Exit);
    assert_eq!(w.state, WorkerState::Exited);
}

#[test]
fn running_worker_is_not_given_another_job() {
    let mut q = JobQueue::new();
    assert_eq!(q.send(1), Ok(()));
    assert_eq!(q.send(2), Ok(()));
    let mut lock = None;
    let mut w = Worker::new(0);
    assert_eq!(w.step(&mut lock, &mut q), Step::Run(1));
    assert_eq!(w.step(&mut lock, &mut q), Step::Wait);
    assert_eq!(q.len(), 1);
    assert!(w.finish());
    assert_eq!(w.state, WorkerState::Idle);
    assert!(!w.finish());
    assert_eq!(w.step(&mut lock, &mut q), Step::Run(2));
}
