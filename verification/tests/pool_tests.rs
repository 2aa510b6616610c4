use worker_pool::pool::PollOutcome;
use worker_pool::pool::PoolError;
use worker_pool::pool::PoolPhase;
use worker_pool::pool::ThreadPool;
use worker_pool::pool::WorkerStatus;
use worker_pool::task_queue::QueueError;
use worker_pool::task_queue::ReceiveOutcome;
use worker_pool::task_queue::TaskQueue;

fn sorted(v: &Vec<u64>) -> Vec<u64> {
    let mut s = v.clone();
    s.sort();
    s
}

#[test]
fn zero_workers_refused() {
    let r = ThreadPool::new(0);
    assert_eq!(r.err(), Some(PoolError::ConstructionError));
}

#[test]
fn pool_starts_with_idle_workers() {
    let pool = ThreadPool::new(3).unwrap();
    assert_eq!(pool.num_workers(), 3);
    assert_eq!(pool.current_phase(), PoolPhase::Active);
    for wid in 0..3 {
        assert_eq!(pool.status_of(wid), WorkerStatus::Idle);
    }
    assert_eq!(pool.pending_count(), 0);
    assert!(pool.completed_tasks().is_empty());
}

#[test]
fn every_task_runs_exactly_once() {
    for n in 1..6u32 {
        let mut pool = ThreadPool::new(n).unwrap();
        for id in 1..=9u64 {
            pool.execute(id).unwrap();
        }
        pool.teardown();
        assert_eq!(sorted(pool.completed_tasks()), vec![1, 2, 3, 4, 5, 6, 7, 8, 9]);
    }
}

#[test]
fn teardown_with_no_tasks_leaves_no_worker_alive() {
    let mut pool = ThreadPool::new(4).unwrap();
    pool.teardown();
    assert_eq!(pool.current_phase(), PoolPhase::Terminated);
    assert!(pool.completed_tasks().is_empty());
    for wid in 0..4 {
        assert_eq!(pool.status_of(wid), WorkerStatus::Terminated);
    }
}

#[test]
fn counter_ends_at_submitted_count() {
    for n in 1..5u32 {
        let mut pool = ThreadPool::new(n).unwrap();
        for id in 0..12u64 {
            pool.execute(id).unwrap();
        }
        pool.teardown();
        assert_eq!(pool.completed_tasks().len(), 12);
    }
}

#[test]
fn completions_grow_monotonically() {
    let mut pool = ThreadPool::new(1).unwrap();
    for id in 1..=3u64 {
        pool.execute(id).unwrap();
    }
    let mut seen: usize = 0;
    for _ in 0..3 {
        assert!(matches!(pool.worker_poll(0), PollOutcome::Claimed(_)));
        pool.worker_finish(0, true);
        assert_eq!(pool.completed_tasks().len(), seen + 1);
        seen += 1;
    }
    pool.teardown();
    assert_eq!(pool.completed_tasks(), &vec![1, 2, 3]);
}

#[test]
fn submit_after_teardown_fails_with_pool_closed() {
    let mut pool = ThreadPool::new(2).unwrap();
    pool.execute(1).unwrap();
    pool.teardown();
    assert_eq!(pool.execute(2), Err(PoolError::PoolClosed));
    assert_eq!(pool.completed_tasks(), &vec![1]);
}

#[test]
fn nine_ids_four_workers_give_the_exact_multiset() {
    let mut pool = ThreadPool::new(4).unwrap();
    for id in 1..=9u64 {
        pool.execute(id).unwrap();
    }
    pool.teardown();
    let done = pool.completed_tasks();
    assert_eq!(done.len(), 9);
    assert_eq!(sorted(done), (1..=9).collect::<Vec<u64>>());
}

#[test]
fn workers_may_finish_out_of_order() {
    let mut pool = ThreadPool::new(2).unwrap();
    pool.execute(1).unwrap();
    pool.execute(2).unwrap();
    assert_eq!(pool.worker_poll(0), PollOutcome::Claimed(1));
    assert_eq!(pool.worker_poll(1), PollOutcome::Claimed(2));
    pool.worker_finish(1, true);
    pool.worker_finish(0, true);
    assert_eq!(pool.completed_tasks(), &vec![2, 1]);
    pool.teardown();
    assert_eq!(sorted(pool.completed_tasks()), vec![1, 2]);
}

#[test]
fn queued_tasks_drain_before_exit() {
    // One worker; it is still busy with the first task while the second is
    // queued and teardown begins: the second must run, not be dropped.
    let mut pool = ThreadPool::new(1).unwrap();
    pool.execute(1).unwrap();
    assert_eq!(pool.worker_poll(0), PollOutcome::Claimed(1));
    pool.execute(2).unwrap();
    pool.teardown();
    assert_eq!(pool.completed_tasks(), &vec![1, 2]);
    assert_eq!(pool.current_phase(), PoolPhase::Terminated);
}

#[test]
fn failing_task_does_not_cost_a_worker() {
    let mut pool = ThreadPool::new(1).unwrap();
    pool.execute(7).unwrap();
    pool.execute(8).unwrap();
    assert_eq!(pool.worker_poll(0), PollOutcome::Claimed(7));
    pool.worker_finish(0, false);
    assert_eq!(pool.status_of(0), WorkerStatus::Idle);
    assert_eq!(pool.worker_poll(0), PollOutcome::Claimed(8));
    pool.worker_finish(0, true);
    pool.teardown();
    assert_eq!(pool.completed_tasks(), &vec![7, 8]);
}

#[test]
fn idle_worker_waits_while_pool_is_open_and_queue_empty() {
    let mut pool = ThreadPool::new(1).unwrap();
    assert_eq!(pool.worker_poll(0), PollOutcome::Waiting);
    assert_eq!(pool.status_of(0), WorkerStatus::Idle);
}

#[test]
fn queue_delivers_in_fifo_order() {
    let mut q: TaskQueue<u64> = TaskQueue::new();
    q.send(10).unwrap();
    q.send(20).unwrap();
    q.send(30).unwrap();
    assert_eq!(q.len(), 3);
    assert_eq!(q.receive(), ReceiveOutcome::Task(10));
    assert_eq!(q.receive(), ReceiveOutcome::Task(20));
    assert_eq!(q.receive(), ReceiveOutcome::Task(30));
    assert_eq!(q.receive(), ReceiveOutcome::Pending);
}

#[test]
fn closed_queue_drains_then_signals() {
    let mut q: TaskQueue<u64> = TaskQueue::new();
    q.send(1).unwrap();
    q.send(2).unwrap();
    q.close();
    assert_eq!(q.receive(), ReceiveOutcome::Task(1));
    assert_eq!(q.receive(), ReceiveOutcome::Task(2));
    assert_eq!(q.receive(), ReceiveOutcome::Closed);
    assert_eq!(q.receive(), ReceiveOutcome::Closed);
}

#[test]
fn send_on_closed_queue_fails() {
    let mut q: TaskQueue<u64> = TaskQueue::new();
    q.close();
    assert_eq!(q.send(5), Err(QueueError::ChannelClosed));
    assert_eq!(q.len(), 0);
}
