//! What a single, non-waiting attempt at an enqueue or a dequeue gives back.
//!
//! The buffers of this crate never wait themselves: where an operation
//! would wait for room or for an item, the attempt reports it, and the
//! caller waits (for a notification of its shard) and tries again.
use crate::notify::NotifyTarget;
use vstd::prelude::*;

verus! {

/// The result of one attempt to enqueue a single item.
#[derive(Debug)]
pub enum EnqueueOutcome<T> {
    /// The item was stored.
    Enqueued,
    /// The buffer is poisoned; the item was dropped.
    Poisoned,
    /// The chosen shard is full; the item is handed back for a later attempt.
    Full(T),
}

/// The result of one attempt to enqueue a batch of items into one shard.
#[derive(Debug)]
pub enum BatchOutcome<T> {
    /// Every item was stored, in order.
    Enqueued,
    /// The buffer is poisoned; the items were dropped.
    Poisoned,
    /// The chosen shard has too few free slots; the items are handed back.
    NoRoom(Vec<T>),
}

/// The result of one attempt to dequeue a single item.
#[derive(Debug)]
pub enum DequeueOutcome<T> {
    /// The oldest item of the chosen shard.
    Item(T),
    /// The buffer is poisoned and the chosen shard is empty: there is
    /// nothing more to take from it.
    Poisoned,
    /// The chosen shard is empty but the buffer is not poisoned: an item may
    /// still come.
    Empty,
}

/// The result of one attempt to drain a shard.
#[derive(Debug)]
pub enum DrainOutcome<T> {
    /// Every item of the chosen shard, oldest first.
    Items(Vec<T>),
    /// The buffer is poisoned and the chosen shard is empty.
    Poisoned,
    /// The chosen shard is empty but the buffer is not poisoned.
    Empty,
}

/// What a task does after one attempt on a shard.
#[derive(Debug, Clone, Copy, PartialEq, Eq, Structural)]
pub enum Followup {
    /// The operation is over; the task sends this notification, if any.
    Done(Option<NotifyTarget>),
    /// The task sends `notify`, waits on `wait_on` and tries the same shard
    /// again.
    WaitAndRetry { notify: NotifyTarget, wait_on: NotifyTarget },
}

impl<T> EnqueueOutcome<T> {
    /// After an enqueue attempt on `shard`: a stored item is announced to
    /// the shard's dequeuers; a full shard wakes a dequeuer and waits for
    /// space; a poisoned buffer ends the operation quietly.
    pub fn followup(&self, shard: usize) -> (f: Followup)
        ensures
            f == (match *self {
                EnqueueOutcome::Enqueued => Followup::Done(Some(NotifyTarget::JobPost(shard))),
                EnqueueOutcome::Poisoned => Followup::Done(None),
                EnqueueOutcome::Full(_) => Followup::WaitAndRetry {
                    notify: NotifyTarget::JobPost(shard),
                    wait_on: NotifyTarget::JobSpace(shard),
                },
            }),
    {
        match self {
            EnqueueOutcome::Enqueued => Followup::Done(Some(NotifyTarget::JobPost(shard))),
            EnqueueOutcome::Poisoned => Followup::Done(None),
            EnqueueOutcome::Full(_) => Followup::WaitAndRetry {
                notify: NotifyTarget::JobPost(shard),
                wait_on: NotifyTarget::JobSpace(shard),
            },
        }
    }
}

impl<T> BatchOutcome<T> {
    /// After a batch enqueue attempt on `shard`: as for a single item, with
    /// a shard that lacks room treated as a full one.
    pub fn followup(&self, shard: usize) -> (f: Followup)
        ensures
            f == (match *self {
                BatchOutcome::Enqueued => Followup::Done(Some(NotifyTarget::JobPost(shard))),
                BatchOutcome::Poisoned => Followup::Done(None),
                BatchOutcome::NoRoom(_) => Followup::WaitAndRetry {
                    notify: NotifyTarget::JobPost(shard),
                    wait_on: NotifyTarget::JobSpace(shard),
                },
            }),
    {
        match self {
            BatchOutcome::Enqueued => Followup::Done(Some(NotifyTarget::JobPost(shard))),
            BatchOutcome::Poisoned => Followup::Done(None),
            BatchOutcome::NoRoom(_) => Followup::WaitAndRetry {
                notify: NotifyTarget::JobPost(shard),
                wait_on: NotifyTarget::JobSpace(shard),
            },
        }
    }
}

impl<T> DequeueOutcome<T> {
    /// After a dequeue attempt on `shard`: a taken item frees space, which is
    /// announced to the shard's enqueuers; an empty shard wakes an enqueuer
    /// and waits for an item; a poisoned, empty shard ends the operation.
    pub fn followup(&self, shard: usize) -> (f: Followup)
        ensures
            f == (match *self {
                DequeueOutcome::Item(_) => Followup::Done(Some(NotifyTarget::JobSpace(shard))),
                DequeueOutcome::Poisoned => Followup::Done(None),
                DequeueOutcome::Empty => Followup::WaitAndRetry {
                    notify: NotifyTarget::JobSpace(shard),
                    wait_on: NotifyTarget::JobPost(shard),
                },
            }),
    {
        match self {
            DequeueOutcome::Item(_) => Followup::Done(Some(NotifyTarget::JobSpace(shard))),
            DequeueOutcome::Poisoned => Followup::Done(None),
            DequeueOutcome::Empty => Followup::WaitAndRetry {
                notify: NotifyTarget::JobSpace(shard),
                wait_on: NotifyTarget::JobPost(shard),
            },
        }
    }
}

impl<T> DrainOutcome<T> {
    /// After a drain attempt on `shard`: as for a single dequeue.
    pub fn followup(&self, shard: usize) -> (f: Followup)
        ensures
            f == (match *self {
                DrainOutcome::Items(_) => Followup::Done(Some(NotifyTarget::JobSpace(shard))),
                DrainOutcome::Poisoned => Followup::Done(None),
                DrainOutcome::Empty => Followup::WaitAndRetry {
                    notify: NotifyTarget::JobSpace(shard),
                    wait_on: NotifyTarget::JobPost(shard),
                },
            }),
    {
        match self {
            DrainOutcome::Items(_) => Followup::Done(Some(NotifyTarget::JobSpace(shard))),
            DrainOutcome::Poisoned => Followup::Done(None),
            DrainOutcome::Empty => Followup::WaitAndRetry {
                notify: NotifyTarget::JobSpace(shard),
                wait_on: NotifyTarget::JobPost(shard),
            },
        }
    }
}

} // verus!
