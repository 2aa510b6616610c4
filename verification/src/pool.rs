//! The worker pool: a fixed set of workers sharing one task queue, with a
//! deterministic shutdown-and-drain protocol.
//!
//! This module verifies the coordination protocol itself. A task is
//! represented by its identity (a `u64`): the only observable role a task
//! plays in the protocol is *which* unit of work it is and that it is
//! executed exactly once — running the actual callable is the business of
//! whatever host drives the pool. The pool is therefore a state machine:
//! submissions push task ids into the queue, each worker repeatedly claims
//! the oldest queued task, holds it while busy, and records it as completed;
//! teardown closes the queue, drains every queued task and retires every
//! worker.
//!
//! The central invariant, exposed by [`ThreadPool::lemma_conservation`], is
//! conservation: at every reachable state the tasks delivered to workers
//! followed by the tasks still queued are exactly the tasks submitted, in
//! submission order, and the delivered tasks are exactly the completed ones
//! plus those a worker is still holding. From it the teardown contract
//! proves the drain guarantee: after teardown the multiset of completed
//! task ids equals the multiset of submitted ids — nothing lost, nothing
//! run twice.

use vstd::multiset::Multiset;
use vstd::prelude::*;

use crate::task_queue::ReceiveOutcome;
use crate::task_queue::TaskQueue;

verus! {

broadcast use
    vstd::seq_lib::group_to_multiset_ensures,
    vstd::multiset::group_multiset_axioms,
;

/// Errors surfaced by the pool.
#[derive(Debug, Clone, Copy, PartialEq, Eq, Structural)]
pub enum PoolError {
    /// The pool was requested with zero workers (or a worker could not be
    /// brought up): the pool does not come into existence.
    ConstructionError,
    /// A submission arrived after teardown had begun.
    PoolClosed,
}

/// The pool's lifecycle. Transitions are one-directional:
/// `Active` → `ShuttingDown` → `Terminated`.
#[derive(Debug, Clone, Copy, PartialEq, Eq, Structural)]
pub enum PoolPhase {
    /// Accepting submissions; workers running.
    Active,
    /// The queue is closed; workers are draining what is already queued.
    ShuttingDown,
    /// Every worker has observed the closed signal and stopped.
    Terminated,
}

/// What one worker is doing.
#[derive(Debug, Clone, Copy, PartialEq, Eq, Structural)]
pub enum WorkerStatus {
    /// Blocked on the queue, ready to claim the next task.
    Idle,
    /// Executing the task with the recorded id.
    Busy(u64),
    /// Has observed the closed signal and left its loop; never restarted.
    Terminated,
}

/// What one scheduling step of an idle worker observed.
#[derive(Debug, Clone, Copy, PartialEq, Eq, Structural)]
pub enum PollOutcome {
    /// The worker claimed the oldest queued task and is now busy with it.
    Claimed(u64),
    /// The worker observed the closed signal and terminated.
    Stopped,
    /// The queue is open but empty: the worker keeps waiting.
    Waiting,
}

/// The task a busy worker holds (`0` when the worker is not busy).
pub open spec fn task_of(w: WorkerStatus) -> u64 {
    match w {
        WorkerStatus::Busy(t) => t,
        _ => 0,
    }
}

/// The multiset contribution of one worker: the task it holds, if busy.
pub open spec fn status_load(w: WorkerStatus) -> Multiset<u64> {
    match w {
        WorkerStatus::Busy(t) => Multiset::empty().insert(t),
        _ => Multiset::empty(),
    }
}

/// The multiset of tasks currently held by busy workers.
pub open spec fn busy_of(ws: Seq<WorkerStatus>) -> Multiset<u64>
    decreases ws.len(),
{
    if ws.len() == 0 {
        Multiset::empty()
    } else {
        busy_of(ws.drop_last()).add(status_load(ws.last()))
    }
}

/// Appending a worker adds exactly that worker's load.
pub proof fn lemma_busy_of_push(ws: Seq<WorkerStatus>, w: WorkerStatus)
    ensures
        busy_of(ws.push(w)) == busy_of(ws).add(status_load(w)),
{
    assert(ws.push(w).drop_last() =~= ws);
    assert(ws.push(w).last() == w);
}

/// Replacing one worker's status exchanges the old load for the new one.
pub proof fn lemma_busy_of_update(ws: Seq<WorkerStatus>, i: int, w: WorkerStatus)
    requires
        0 <= i < ws.len(),
    ensures
        busy_of(ws.update(i, w)).add(status_load(ws[i])) == busy_of(ws).add(status_load(w)),
    decreases ws.len(),
{
    let upd = ws.update(i, w);
    if i == ws.len() - 1 {
        assert(upd.drop_last() =~= ws.drop_last());
        assert(upd.last() == w);
        assert(busy_of(upd) == busy_of(ws.drop_last()).add(status_load(w)));
        assert(ws.last() == ws[i]);
        assert(busy_of(ws) == busy_of(ws.drop_last()).add(status_load(ws[i])));
        assert(busy_of(upd).add(status_load(ws[i])) =~= busy_of(ws).add(status_load(w)));
    } else {
        assert(upd.drop_last() =~= ws.drop_last().update(i, w));
        assert(upd.last() == ws.last());
        assert(busy_of(upd) == busy_of(ws.drop_last().update(i, w)).add(status_load(ws.last())));
        assert(busy_of(ws) == busy_of(ws.drop_last()).add(status_load(ws.last())));
        lemma_busy_of_update(ws.drop_last(), i, w);
        assert(ws.drop_last()[i] == ws[i]);
        assert(busy_of(ws.drop_last().update(i, w)).add(status_load(ws[i])) == busy_of(
            ws.drop_last(),
        ).add(status_load(w)));
        assert forall|v: u64|
            busy_of(upd).add(status_load(ws[i])).count(v) == busy_of(ws).add(
                status_load(w),
            ).count(v) by {
            assert(busy_of(ws.drop_last().update(i, w)).add(status_load(ws[i])).count(v)
                == busy_of(ws.drop_last()).add(status_load(w)).count(v));
        }
        assert(busy_of(upd).add(status_load(ws[i])) =~= busy_of(ws).add(status_load(w)));
    }
}

/// A set of workers none of which is busy holds no tasks.
pub proof fn lemma_busy_of_none_busy(ws: Seq<WorkerStatus>)
    requires
        forall|i: int| 0 <= i < ws.len() ==> !((#[trigger] ws[i]) is Busy),
    ensures
        busy_of(ws) == Multiset::<u64>::empty(),
    decreases ws.len(),
{
    if ws.len() > 0 {
        lemma_busy_of_none_busy(ws.drop_last());
        assert(busy_of(ws) =~= Multiset::<u64>::empty());
    }
}

/// The worker pool: a fixed worker set, the producer side of the task
/// queue, and the record of what has been submitted and completed.
pub struct ThreadPool {
    queue: TaskQueue<u64>,
    workers: Vec<WorkerStatus>,
    completed: Vec<u64>,
    phase: PoolPhase,
    submitted: Ghost<Seq<u64>>,
    delivered: Ghost<Seq<u64>>,
}

impl ThreadPool {
    /// The pool's lifecycle phase.
    pub closed spec fn phase(self) -> PoolPhase {
        self.phase
    }

    /// The statuses of the workers, by worker id.
    pub closed spec fn workers(self) -> Seq<WorkerStatus> {
        self.workers@
    }

    /// How many workers the pool was constructed with.
    pub open spec fn worker_count(self) -> nat {
        self.workers().len()
    }

    /// The status of one worker.
    pub open spec fn worker_status(self, wid: int) -> WorkerStatus {
        self.workers()[wid]
    }

    /// Every task id ever accepted by `execute`, in submission order.
    pub closed spec fn submitted(self) -> Seq<u64> {
        self.submitted@
    }

    /// Every task id delivered to some worker, in delivery order.
    pub closed spec fn delivered(self) -> Seq<u64> {
        self.delivered@
    }

    /// Every task id whose execution has finished, in completion order.
    pub closed spec fn completed(self) -> Seq<u64> {
        self.completed@
    }

    /// The task ids accepted but not yet claimed by a worker, oldest first.
    pub closed spec fn pending(self) -> Seq<u64> {
        self.queue.tasks()
    }

    /// The pool's invariant, established by `new` and preserved by every
    /// operation.
    pub closed spec fn wf(self) -> bool {
        &&& self.workers@.len() >= 1
        &&& (self.phase is Active <==> !self.queue.is_closed())
        &&& (self.phase is Active ==> forall|i: int|
            0 <= i < self.workers@.len() ==> !((#[trigger] self.workers@[i]) is Terminated))
        &&& (self.phase is Terminated ==> forall|i: int|
            0 <= i < self.workers@.len() ==> (#[trigger] self.workers@[i]) is Terminated)
        &&& ((forall|i: int|
            0 <= i < self.workers@.len() ==> (#[trigger] self.workers@[i]) is Terminated)
            ==> self.queue.tasks().len() == 0)
        &&& self.delivered@ + self.queue.tasks() == self.submitted@
        &&& self.delivered@.to_multiset() == self.completed@.to_multiset().add(
            busy_of(self.workers@),
        )
    }

    /// Conservation of tasks, at every reachable state: delivery happens in
    /// submission order with the still-queued tasks forming the rest, and
    /// what was delivered is exactly what was completed plus what busy
    /// workers are holding — no task is lost, duplicated or reordered on its
    /// way to a worker.
    pub proof fn lemma_conservation(self)
        requires
            self.wf(),
        ensures
            self.delivered() + self.pending() == self.submitted(),
            self.delivered().to_multiset() == self.completed().to_multiset().add(
                busy_of(self.workers()),
            ),
    {
    }

    /// Constructs a pool with `size` workers sharing a fresh open queue.
    /// `size == 0` is refused with `ConstructionError`: such a pool never
    /// comes into existence and no worker is created.
    pub fn new(size: u32) -> (r: Result<ThreadPool, PoolError>)
        ensures
            size == 0 ==> r == Err::<ThreadPool, PoolError>(PoolError::ConstructionError),
            size >= 1 ==> (r matches Ok(p) && {
                &&& p.wf()
                &&& p.phase() is Active
                &&& p.worker_count() == size
                &&& forall|i: int| 0 <= i < size ==> (#[trigger] p.worker_status(i)) is Idle
                &&& p.submitted() == Seq::<u64>::empty()
                &&& p.delivered() == Seq::<u64>::empty()
                &&& p.completed() == Seq::<u64>::empty()
                &&& p.pending() == Seq::<u64>::empty()
            }),
    {
        if size == 0 {
            return Err(PoolError::ConstructionError);
        }
        let mut workers: Vec<WorkerStatus> = Vec::new();
        let mut id: u32 = 0;
        while id < size
            invariant
                id <= size,
                workers@.len() == id,
                forall|i: int| 0 <= i < id ==> (#[trigger] workers@[i]) is Idle,
                busy_of(workers@) == Multiset::<u64>::empty(),
            decreases size - id,
        {
            proof {
                lemma_busy_of_push(workers@, WorkerStatus::Idle);
                assert(busy_of(workers@.push(WorkerStatus::Idle)) =~= Multiset::<u64>::empty());
            }
            workers.push(WorkerStatus::Idle);
            id = id + 1;
        }
        let pool = ThreadPool {
            queue: TaskQueue::new(),
            workers,
            completed: Vec::new(),
            phase: PoolPhase::Active,
            submitted: Ghost(Seq::empty()),
            delivered: Ghost(Seq::empty()),
        };
        proof {
            assert(pool.delivered@ + pool.queue.tasks() =~= pool.submitted@);
            assert(pool.delivered@.to_multiset() =~= pool.completed@.to_multiset().add(
                busy_of(pool.workers@),
            ));
        }
        Ok(pool)
    }

    /// Submits one task for execution by some worker. Non-blocking: the
    /// task id is appended to the queue and the call returns. Succeeds
    /// exactly while the pool is `Active`; once teardown has begun every
    /// submission fails with `PoolClosed` and the pool is unchanged — a
    /// task is never silently dropped.
    pub fn execute(&mut self, task: u64) -> (r: Result<(), PoolError>)
        requires
            old(self).wf(),
        ensures
            final (self).wf(),
            old(self).phase() is Active ==> {
                &&& r is Ok
                &&& final (self).phase() is Active
                &&& final (self).submitted() == old(self).submitted().push(task)
                &&& final (self).pending() == old(self).pending().push(task)
                &&& final (self).delivered() == old(self).delivered()
                &&& final (self).completed() == old(self).completed()
                &&& final (self).workers() == old(self).workers()
            },
            !(old(self).phase() is Active) ==> {
                &&& r == Err::<(), PoolError>(PoolError::PoolClosed)
                &&& *final (self) == *old(self)
            },
    {
        match self.phase {
            PoolPhase::Active => {
                let sent = self.queue.send(task);
                proof {
                    assert(sent is Ok);
                }
                self.submitted = Ghost(self.submitted@.push(task));
                proof {
                    assert(self.delivered@ + self.queue.tasks() =~= self.submitted@);
                }
                Ok(())
            },
            _ => Err(PoolError::PoolClosed),
        }
    }

    /// Begins teardown: closes the producer side of the queue, so that no
    /// further task can ever be accepted. Tasks already queued are kept for
    /// the workers to drain. May be called once, while the pool is active.
    pub fn shutdown(&mut self)
        requires
            old(self).wf(),
            old(self).phase() is Active,
        ensures
            final (self).wf(),
            final (self).phase() is ShuttingDown,
            final (self).submitted() == old(self).submitted(),
            final (self).delivered() == old(self).delivered(),
            final (self).completed() == old(self).completed(),
            final (self).pending() == old(self).pending(),
            final (self).workers() == old(self).workers(),
    {
        self.queue.close();
        self.phase = PoolPhase::ShuttingDown;
    }

    /// One receive attempt by an idle worker: the model of one turn of the
    /// worker's loop while it is not executing anything. The worker claims
    /// the oldest queued task if there is one; observes the closed signal
    /// and terminates if the queue is closed and drained; otherwise keeps
    /// waiting, changing nothing.
    pub fn worker_poll(&mut self, wid: usize) -> (e: PollOutcome)
        requires
            old(self).wf(),
            wid < old(self).worker_count(),
            old(self).worker_status(wid as int) is Idle,
        ensures
            final (self).wf(),
            final (self).phase() == old(self).phase(),
            final (self).worker_count() == old(self).worker_count(),
            final (self).submitted() == old(self).submitted(),
            final (self).completed() == old(self).completed(),
            forall|i: int|
                0 <= i < old(self).worker_count() && i != wid ==> final (self).worker_status(i)
                    == old(self).worker_status(i),
            old(self).pending().len() > 0 ==> {
                &&& e == PollOutcome::Claimed(old(self).pending()[0])
                &&& final (self).worker_status(wid as int) == WorkerStatus::Busy(
                    old(self).pending()[0],
                )
                &&& final (self).pending() == old(self).pending().drop_first()
                &&& final (self).delivered() == old(self).delivered().push(old(self).pending()[0])
            },
            old(self).pending().len() == 0 && !(old(self).phase() is Active) ==> {
                &&& e is Stopped
                &&& final (self).worker_status(wid as int) is Terminated
                &&& final (self).pending() == old(self).pending()
                &&& final (self).delivered() == old(self).delivered()
            },
            old(self).pending().len() == 0 && old(self).phase() is Active ==> {
                &&& e is Waiting
                &&& *final (self) == *old(self)
            },
    {
        let ghost ws0 = self.workers@;
        let ghost del0 = self.delivered@;
        let outcome = self.queue.receive();
        match outcome {
            ReceiveOutcome::Task(t) => {
                proof {
                    lemma_busy_of_update(ws0, wid as int, WorkerStatus::Busy(t));
                }
                self.workers.set(wid, WorkerStatus::Busy(t));
                self.delivered = Ghost(self.delivered@.push(t));
                proof {
                    assert(self.delivered@ + self.queue.tasks() =~= self.submitted@);
                    assert(status_load(ws0[wid as int]) == Multiset::<u64>::empty());
                    assert forall|v: u64|
                        busy_of(self.workers@).count(v) == busy_of(ws0).insert(t).count(v) by {
                        assert(busy_of(self.workers@).add(status_load(ws0[wid as int])).count(v)
                            == busy_of(ws0).add(status_load(WorkerStatus::Busy(t))).count(v));
                    }
                    assert(busy_of(self.workers@) =~= busy_of(ws0).insert(t));
                    assert(self.delivered@.to_multiset() =~= del0.to_multiset().insert(t));
                    assert(self.delivered@.to_multiset() =~= self.completed@.to_multiset().add(
                        busy_of(self.workers@),
                    ));
                }
                PollOutcome::Claimed(t)
            },
            ReceiveOutcome::Closed => {
                proof {
                    lemma_busy_of_update(ws0, wid as int, WorkerStatus::Terminated);
                }
                self.workers.set(wid, WorkerStatus::Terminated);
                proof {
                    assert forall|v: u64| busy_of(self.workers@).count(v) == busy_of(ws0).count(
                        v,
                    ) by {
                        assert(busy_of(self.workers@).add(status_load(ws0[wid as int])).count(v)
                            == busy_of(ws0).add(status_load(WorkerStatus::Terminated)).count(v));
                    }
                    assert(busy_of(self.workers@) =~= busy_of(ws0));
                    assert(self.delivered@.to_multiset() =~= self.completed@.to_multiset().add(
                        busy_of(self.workers@),
                    ));
                }
                PollOutcome::Stopped
            },
            ReceiveOutcome::Pending => PollOutcome::Waiting,
        }
    }

    /// The busy worker `wid` finishes the task it holds and becomes idle
    /// again. `task_succeeded` reports whether the task's own work ended
    /// normally; the pool's behaviour does not depend on it — a failing
    /// task is caught at the invocation boundary, counts as that task's one
    /// execution, and never costs the pool a worker.
    pub fn worker_finish(&mut self, wid: usize, task_succeeded: bool)
        requires
            old(self).wf(),
            wid < old(self).worker_count(),
            old(self).worker_status(wid as int) is Busy,
        ensures
            final (self).wf(),
            final (self).phase() == old(self).phase(),
            final (self).worker_count() == old(self).worker_count(),
            final (self).submitted() == old(self).submitted(),
            final (self).delivered() == old(self).delivered(),
            final (self).pending() == old(self).pending(),
            final (self).worker_status(wid as int) is Idle,
            forall|i: int|
                0 <= i < old(self).worker_count() && i != wid ==> final (self).worker_status(i)
                    == old(self).worker_status(i),
            final (self).completed() == old(self).completed().push(
                task_of(old(self).worker_status(wid as int)),
            ),
    {
        let ghost ws0 = self.workers@;
        let ghost comp0 = self.completed@;
        let status = self.workers[wid];
        match status {
            WorkerStatus::Busy(t) => {
                proof {
                    lemma_busy_of_update(ws0, wid as int, WorkerStatus::Idle);
                }
                self.workers.set(wid, WorkerStatus::Idle);
                self.completed.push(t);
                proof {
                    assert(status_load(ws0[wid as int]) == Multiset::<u64>::empty().insert(t));
                    assert forall|v: u64|
                        busy_of(self.workers@).insert(t).count(v) == busy_of(ws0).count(v) by {
                        assert(busy_of(self.workers@).add(status_load(ws0[wid as int])).count(v)
                            == busy_of(ws0).add(status_load(WorkerStatus::Idle)).count(v));
                    }
                    assert(busy_of(self.workers@).insert(t) =~= busy_of(ws0));
                    assert(self.completed@.to_multiset() =~= comp0.to_multiset().insert(t));
                    assert(self.delivered@.to_multiset() =~= self.completed@.to_multiset().add(
                        busy_of(self.workers@),
                    ));
                }
                let _ = task_succeeded;
            },
            _ => {
                proof {
                    assert(false);
                }
            },
        }
    }

    /// Waits for every worker, in worker-id order, to drain the queue and
    /// observe the closed signal; then the pool is `Terminated`. On return
    /// the multiset of completed task ids equals the multiset of submitted
    /// ids: every task submitted before shutdown has been executed exactly
    /// once, and the record of earlier completions is undisturbed.
    pub fn join_workers(&mut self)
        requires
            old(self).wf(),
            old(self).phase() is ShuttingDown,
        ensures
            final (self).wf(),
            final (self).phase() is Terminated,
            final (self).worker_count() == old(self).worker_count(),
            final (self).submitted() == old(self).submitted(),
            final (self).delivered() == old(self).submitted(),
            final (self).pending().len() == 0,
            forall|i: int|
                0 <= i < final (self).worker_count() ==> (#[trigger] final (self).worker_status(
                    i,
                )) is Terminated,
            final (self).completed().to_multiset() == old(self).submitted().to_multiset(),
            final (self).completed().len() == old(self).submitted().len(),
            old(self).completed().is_prefix_of(final (self).completed()),
    {
        let n = self.workers.len();
        let mut wid: usize = 0;
        while wid < n
            invariant
                self.wf(),
                self.phase() is ShuttingDown,
                n == self.worker_count(),
                wid <= n,
                self.submitted() == old(self).submitted(),
                old(self).completed().is_prefix_of(self.completed()),
                forall|j: int|
                    0 <= j < wid ==> (#[trigger] self.worker_status(j)) is Terminated,
            decreases n - wid,
        {
            loop
                invariant
                    self.wf(),
                    self.phase() is ShuttingDown,
                    n == self.worker_count(),
                    wid < n,
                    self.submitted() == old(self).submitted(),
                    old(self).completed().is_prefix_of(self.completed()),
                    forall|j: int|
                        0 <= j < wid ==> (#[trigger] self.worker_status(j)) is Terminated,
                ensures
                    self.wf(),
                    self.phase() is ShuttingDown,
                    n == self.worker_count(),
                    self.submitted() == old(self).submitted(),
                    old(self).completed().is_prefix_of(self.completed()),
                    forall|j: int|
                        0 <= j < wid ==> (#[trigger] self.worker_status(j)) is Terminated,
                    self.worker_status(wid as int) is Terminated,
                decreases 2 * self.pending().len() + (if self.worker_status(
                    wid as int,
                ) is Busy {
                    1int
                } else {
                    0int
                }) + (if self.worker_status(wid as int) is Terminated {
                    0int
                } else {
                    1int
                }),
            {
                let ghost prev_completed = self.completed();
                let status = self.workers[wid];
                match status {
                    WorkerStatus::Busy(_) => {
                        self.worker_finish(wid, true);
                        proof {
                            assert(old(self).completed().is_prefix_of(self.completed())) by {
                                assert(self.completed().take(prev_completed.len() as int)
                                    =~= prev_completed);
                            }
                        }
                    },
                    WorkerStatus::Idle => {
                        let _outcome = self.worker_poll(wid);
                    },
                    WorkerStatus::Terminated => {
                        break;
                    },
                }
            }
            wid = wid + 1;
        }
        proof {
            assert forall|i: int| 0 <= i < self.workers@.len() implies (
            #[trigger] self.workers@[i]) is Terminated by {
                assert(self.worker_status(i) is Terminated);
            }
            assert(self.queue.tasks().len() == 0);
            lemma_busy_of_none_busy(self.workers@);
            assert(self.delivered@ + self.queue.tasks() =~= self.delivered@);
            assert(self.delivered() == self.submitted());
            assert(self.delivered@.to_multiset() =~= self.completed@.to_multiset().add(
                Multiset::<u64>::empty(),
            ));
            assert(self.completed@.to_multiset() =~= self.completed@.to_multiset().add(
                Multiset::<u64>::empty(),
            ));
            assert(self.completed@.to_multiset().len() == self.completed@.len());
            assert(self.submitted@.to_multiset().len() == self.submitted@.len());
        }
        self.phase = PoolPhase::Terminated;
    }

    /// Full teardown: close the queue, then wait for every worker to drain
    /// it and stop. Synchronous: when it returns, every task that was ever
    /// accepted has been executed exactly once and no worker is left.
    pub fn teardown(&mut self)
        requires
            old(self).wf(),
            old(self).phase() is Active,
        ensures
            final (self).wf(),
            final (self).phase() is Terminated,
            final (self).worker_count() == old(self).worker_count(),
            final (self).submitted() == old(self).submitted(),
            final (self).delivered() == old(self).submitted(),
            final (self).pending().len() == 0,
            forall|i: int|
                0 <= i < final (self).worker_count() ==> (#[trigger] final (self).worker_status(
                    i,
                )) is Terminated,
            final (self).completed().to_multiset() == old(self).submitted().to_multiset(),
            final (self).completed().len() == old(self).submitted().len(),
            old(self).completed().is_prefix_of(final (self).completed()),
    {
        self.shutdown();
        self.join_workers();
    }

    /// The current lifecycle phase.
    pub fn current_phase(&self) -> (p: PoolPhase)
        ensures
            p == self.phase(),
    {
        self.phase
    }

    /// The number of workers, fixed at construction.
    pub fn num_workers(&self) -> (n: usize)
        ensures
            n == self.worker_count(),
    {
        self.workers.len()
    }

    /// The status of the worker with the given id.
    pub fn status_of(&self, wid: usize) -> (s: WorkerStatus)
        requires
            wid < self.worker_count(),
        ensures
            s == self.worker_status(wid as int),
    {
        self.workers[wid]
    }

    /// The ids of the tasks executed so far, in completion order.
    pub fn completed_tasks(&self) -> (r: &Vec<u64>)
        ensures
            r@ == self.completed(),
    {
        &self.completed
    }

    /// How many accepted tasks no worker has claimed yet.
    pub fn pending_count(&self) -> (n: usize)
        ensures
            n == self.pending().len(),
    {
        self.queue.len()
    }
}

/// If the submitted ids are pairwise distinct, then any completion record
/// that matches them as a multiset — as the teardown contract guarantees —
/// records each id exactly once: same length, no duplicates, and an id was
/// completed if and only if it was submitted.
pub proof fn lemma_each_task_recorded_once(submitted: Seq<u64>, completed: Seq<u64>)
    requires
        completed.to_multiset() == submitted.to_multiset(),
        submitted.no_duplicates(),
    ensures
        completed.len() == submitted.len(),
        completed.no_duplicates(),
        forall|id: u64| completed.contains(id) <==> submitted.contains(id),
{
    submitted.lemma_multiset_has_no_duplicates();
    completed.lemma_multiset_has_no_duplicates_conv();
    assert(completed.len() == completed.to_multiset().len());
    assert(submitted.len() == submitted.to_multiset().len());
    assert forall|id: u64| completed.contains(id) <==> submitted.contains(id) by {
        assert(completed.contains(id) <==> completed.to_multiset().count(id) > 0);
        assert(submitted.contains(id) <==> submitted.to_multiset().count(id) > 0);
    }
}

} // verus!
