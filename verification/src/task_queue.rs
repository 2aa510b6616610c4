//! The task queue: a FIFO transport from submitters to workers with an
//! explicit "no more work will ever arrive" closure signal.
//!
//! The queue is the sequential model of the pool's transport: its contracts
//! state exactly what a send, a receive and a close do to the queue's
//! contents. A task enqueued while the queue is open is kept until it is
//! delivered to exactly one receive call, in FIFO order; closing the queue
//! keeps the tasks already enqueued (they are drained, not discarded) and
//! turns further receives on the emptied queue into a closed signal instead
//! of a wait.

use vstd::prelude::*;

verus! {

/// Why a send was refused: the queue can never deliver the task.
#[derive(Debug, Clone, Copy, PartialEq, Eq, Structural)]
pub enum QueueError {
    ChannelClosed,
}

/// What one receive attempt observed.
///
/// `Pending` stands for the blocked state of a real receiver: the queue is
/// empty but still open, so the caller must try again once something has
/// changed. It is never returned once the queue is closed.
#[derive(Debug, PartialEq, Eq)]
pub enum ReceiveOutcome<T> {
    /// A task was dequeued; the receiver now owns it.
    Task(T),
    /// The queue is closed and fully drained: no task will ever arrive.
    Closed,
    /// The queue is open but momentarily empty.
    Pending,
}

/// An ordered channel of tasks with a one-way closure flag.
pub struct TaskQueue<T> {
    items: Vec<T>,
    closed: bool,
}

impl<T> TaskQueue<T> {
    /// The tasks enqueued and not yet delivered, oldest first.
    pub closed spec fn tasks(self) -> Seq<T> {
        self.items@
    }

    /// Whether the closure signal has been raised.
    pub closed spec fn is_closed(self) -> bool {
        self.closed
    }

    /// A fresh queue: open and empty.
    pub fn new() -> (q: TaskQueue<T>)
        ensures
            q.tasks() == Seq::<T>::empty(),
            !q.is_closed(),
    {
        TaskQueue { items: Vec::new(), closed: false }
    }

    /// Enqueues a task at the back. Succeeds exactly when the queue is still
    /// open; a send on a closed queue fails with `ChannelClosed` and changes
    /// nothing (the task is lost to the queue, as the transport can never
    /// deliver it).
    pub fn send(&mut self, task: T) -> (r: Result<(), QueueError>)
        ensures
            !old(self).is_closed() ==> {
                &&& r is Ok
                &&& final (self).tasks() == old(self).tasks().push(task)
                &&& !final (self).is_closed()
            },
            old(self).is_closed() ==> {
                &&& r == Err::<(), QueueError>(QueueError::ChannelClosed)
                &&& *final (self) == *old(self)
            },
    {
        if self.closed {
            Err(QueueError::ChannelClosed)
        } else {
            self.items.push(task);
            Ok(())
        }
    }

    /// One receive attempt. If a task is available, the oldest one is
    /// delivered and leaves the queue; if the queue is drained and closed,
    /// the closed signal is observed; otherwise the receiver must keep
    /// waiting (`Pending`), and the queue is unchanged.
    pub fn receive(&mut self) -> (r: ReceiveOutcome<T>)
        ensures
            old(self).tasks().len() > 0 ==> {
                &&& (r matches ReceiveOutcome::Task(t) && t == old(self).tasks()[0])
                &&& final (self).tasks() == old(self).tasks().drop_first()
            },
            old(self).tasks().len() == 0 && old(self).is_closed() ==> {
                &&& r is Closed
                &&& *final (self) == *old(self)
            },
            old(self).tasks().len() == 0 && !old(self).is_closed() ==> {
                &&& r is Pending
                &&& *final (self) == *old(self)
            },
            final (self).is_closed() == old(self).is_closed(),
    {
        if self.items.len() > 0 {
            let task = self.items.remove(0);
            assert(self.items@ =~= old(self).tasks().drop_first());
            ReceiveOutcome::Task(task)
        } else if self.closed {
            ReceiveOutcome::Closed
        } else {
            ReceiveOutcome::Pending
        }
    }

    /// Raises the closure signal: no task will ever be accepted again.
    /// Tasks already enqueued are kept for delivery.
    pub fn close(&mut self)
        ensures
            final (self).is_closed(),
            final (self).tasks() == old(self).tasks(),
    {
        self.closed = true;
    }

    /// How many tasks are enqueued and undelivered.
    pub fn len(&self) -> (n: usize)
        ensures
            n == self.tasks().len(),
    {
        self.items.len()
    }
}

} // verus!
