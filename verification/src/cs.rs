//! `CSShardedRingBuf`: a sharded buffer whose shards are handed out as
//! guards, so that a cancelled task never leaves a shard half-written.
//!
//! A task asks whether the shard is closed to it, tries the shard's lock and
//! reports the attempt to `acquire_shard_guard`, which grants a guard or
//! says what to notify and what to wait for. Releasing a guard (in the
//! caller) unlocks the shard and sends the guard's notification.
use crate::acquire::Acquire;
use crate::layout::{shard_capacity_of, valid_layout};
use crate::notify::NotifyTarget;
use crate::shard_set::{slots_cloned, ShardSet};
use crate::inner::{dequeue_indices, enqueue_indices};
use vstd::prelude::*;

verus! {

/// The right to enqueue into, or dequeue from, one shard.
#[derive(Debug)]
pub struct ShardLockGuard {
    role: Acquire,
    shard: usize,
    notify: NotifyTarget,
}

impl ShardLockGuard {
    /// What the guard is for.
    pub closed spec fn role_spec(&self) -> Acquire {
        self.role
    }

    /// The shard the guard is for.
    pub closed spec fn shard_spec(&self) -> nat {
        self.shard as nat
    }

    /// The notification sent when the guard is released.
    pub closed spec fn notify_spec(&self) -> NotifyTarget {
        self.notify
    }

    /// A guard for `role` on `shard` that sends `notify` on release.
    pub fn acquire_shard_guard(role: Acquire, shard: usize, notify: NotifyTarget) -> (g: Self)
        ensures
            g.role_spec() == role,
            g.shard_spec() == shard,
            g.notify_spec() == notify,
    {
        ShardLockGuard { role, shard, notify }
    }

    /// What the guard is for.
    pub fn role(&self) -> (r: Acquire)
        ensures
            r == self.role_spec(),
    {
        self.role
    }

    /// The shard the guard is for.
    pub fn shard(&self) -> (s: usize)
        ensures
            s == self.shard_spec(),
    {
        self.shard
    }

    /// The notification to send when the guard is released.
    pub fn notify_on_release(&self) -> (t: NotifyTarget)
        ensures
            t == self.notify_spec(),
    {
        self.notify
    }
}

/// What a task does after trying the lock of a shard.
#[derive(Debug)]
pub enum GuardStep {
    /// The task holds the shard through this guard.
    Granted(ShardLockGuard),
    /// The lock was taken by another task: try again.
    Retry,
    /// The shard cannot serve the task: release the lock, send `notify`,
    /// wait for `wait_on`, and try again.
    Wait { notify: NotifyTarget, wait_on: NotifyTarget },
    /// The shard is closed to the task (see `is_closed_for`): it releases
    /// the lock if `release_lock` and gives up.
    Closed { release_lock: bool },
}

/// A sharded ring buffer that hands out shard guards.
pub struct CSShardedRingBuf<T> {
    shards: ShardSet<T>,
    poisoned: bool,
    shard_enq: usize,
    shard_deq: usize,
    enq_task_count: Option<usize>,
}

impl<T> View for CSShardedRingBuf<T> {
    type V = Seq<Seq<T>>;

    /// The live items of every shard, oldest first.
    closed spec fn view(&self) -> Seq<Seq<T>> {
        self.shards@
    }
}

/// The notification slot that enqueuers of `shard` wait on: with a known
/// number of enqueuer tasks, shards share them round-robin.
pub open spec fn space_slot(enq_task_count: Option<usize>, shard: nat) -> nat {
    match enq_task_count {
        Some(k) => shard % (k as nat),
        None => shard,
    }
}

impl<T> CSShardedRingBuf<T> {
    /// The shards.
    pub closed spec fn store(&self) -> ShardSet<T> {
        self.shards
    }

    /// Whether the buffer is poisoned.
    pub closed spec fn poisoned_flag(&self) -> bool {
        self.poisoned
    }

    /// The round-robin counter of enqueue operations.
    pub closed spec fn enq_counter(&self) -> nat {
        self.shard_enq as nat
    }

    /// The round-robin counter of dequeue operations.
    pub closed spec fn deq_counter(&self) -> nat {
        self.shard_deq as nat
    }

    /// The number of enqueuer tasks the buffer was created for, if given.
    pub closed spec fn enq_tasks(&self) -> Option<usize> {
        self.enq_task_count
    }

    /// The buffer's invariant.
    pub open spec fn wf(&self) -> bool {
        &&& self.store().wf()
        &&& match self.enq_tasks() {
            Some(k) => k > 0,
            None => true,
        }
    }

    /// The next value of a round-robin counter.
    pub open spec fn counter_next(c: nat) -> nat {
        if c == usize::MAX {
            0
        } else {
            c + 1
        }
    }

    /// Only shard `s`'s contents may differ between `self` and `other`.
    pub open spec fn only_shard_changed(&self, other: &Self, s: int) -> bool {
        &&& self.store().same_except(&other.store(), s)
        &&& other.store().shard(s).cap() == self.store().shard(s).cap()
        &&& other.poisoned_flag() == self.poisoned_flag()
        &&& other.enq_counter() == self.enq_counter()
        &&& other.deq_counter() == self.deq_counter()
        &&& other.enq_tasks() == self.enq_tasks()
    }

    /// Creates an empty buffer of `capacity` slots spread over `shards` shards.
    pub fn new(capacity: usize, shards: usize) -> (rb: Self)
        requires
            valid_layout(capacity as nat, shards as nat),
        ensures
            rb.wf(),
            rb.store().num_shards() == shards,
            rb.store().total_capacity() == capacity,
            rb.store().all_empty(),
            forall|i: int|
                0 <= i < shards ==> (#[trigger] rb.store().shard(i)).enq() == 0
                    && rb.store().shard(i).deq() == 0 && rb.store().shard(i).cap()
                    == shard_capacity_of(capacity as nat, shards as nat, i as nat),
            !rb.poisoned_flag(),
            rb.enq_counter() == 0,
            rb.deq_counter() == 0,
            rb.enq_tasks() is None,
    {
        let shards = ShardSet::new(capacity, shards);
        proof {
            shards.lemma_wf_facts();
        }
        CSShardedRingBuf {
            shards,
            poisoned: false,
            shard_enq: 0,
            shard_deq: 0,
            enq_task_count: None,
        }
    }

    /// Creates an empty buffer for at most `enq_num` enqueuer tasks at a
    /// time: the shards share that many space notifications round-robin.
    pub fn new_with_enq_num(capacity: usize, shards: usize, enq_num: usize) -> (rb: Self)
        requires
            valid_layout(capacity as nat, shards as nat),
            enq_num > 0,
        ensures
            rb.wf(),
            rb.store().num_shards() == shards,
            rb.store().total_capacity() == capacity,
            rb.store().all_empty(),
            forall|i: int|
                0 <= i < shards ==> (#[trigger] rb.store().shard(i)).enq() == 0
                    && rb.store().shard(i).deq() == 0 && rb.store().shard(i).cap()
                    == shard_capacity_of(capacity as nat, shards as nat, i as nat),
            !rb.poisoned_flag(),
            rb.enq_counter() == 0,
            rb.deq_counter() == 0,
            rb.enq_tasks() == Some(enq_num),
    {
        let shards = ShardSet::new(capacity, shards);
        proof {
            shards.lemma_wf_facts();
        }
        CSShardedRingBuf {
            shards,
            poisoned: false,
            shard_enq: 0,
            shard_deq: 0,
            enq_task_count: Some(enq_num),
        }
    }

    /// The number of shards.
    pub fn get_num_of_shards(&self) -> (n: usize)
        requires
            self.wf(),
        ensures
            n == self.store().num_shards(),
    {
        self.shards.get_num_of_shards()
    }

    /// The number of space notifications the buffer keeps.
    pub fn get_num_of_space_notifs(&self) -> (n: usize)
        requires
            self.wf(),
        ensures
            n == match self.enq_tasks() {
                Some(k) => k as nat,
                None => self.store().num_shards(),
            },
    {
        match self.enq_task_count {
            Some(k) => k,
            None => self.shards.get_num_of_shards(),
        }
    }

    /// The capacity of shard `shard_ind`, or `None` for an invalid index.
    pub fn get_shard_capacity(&self, shard_ind: usize) -> (c: Option<usize>)
        requires
            self.wf(),
        ensures
            shard_ind < self.store().num_shards() ==> c == Some(
                self.store().shard(shard_ind as int).cap() as usize,
            ),
            shard_ind >= self.store().num_shards() ==> c is None,
    {
        self.shards.get_shard_capacity(shard_ind)
    }

    /// The total capacity of the buffer.
    pub fn get_total_capacity(&self) -> (c: usize)
        requires
            self.wf(),
        ensures
            c == self.store().total_capacity(),
    {
        self.shards.get_total_capacity()
    }

    /// Whether shard `shard_ind` is closed to `acquire`: enqueuers are turned
    /// away by a poisoned buffer, dequeuers only once the shard is also empty.
    pub fn is_closed_for(&self, acquire: Acquire, shard_ind: usize) -> (b: bool)
        requires
            self.wf(),
            shard_ind < self.store().num_shards(),
        ensures
            b == match acquire {
                Acquire::Enqueue => self.poisoned_flag(),
                Acquire::Dequeue => self.poisoned_flag() && self.store().shard(
                    shard_ind as int,
                )@.len() == 0,
            },
    {
        match acquire {
            Acquire::Enqueue => self.poisoned,
            Acquire::Dequeue => self.poisoned && self.shards.is_shard_empty(shard_ind),
        }
    }

    /// Decides what a task does after trying the lock of shard `shard_ind`:
    /// a shard closed to it ends its attempt; with the lock of a shard that
    /// can serve it, it gets a guard; without
    /// the lock it retries; with the lock of a full (enqueuer) or empty
    /// (dequeuer) shard it releases the lock, notifies the other side and
    /// waits.
    pub fn acquire_shard_guard(&self, acquire: Acquire, shard_ind: usize, lock_acquired: bool) -> (step: GuardStep)
        requires
            self.wf(),
            shard_ind < self.store().num_shards(),
        ensures
            ({
                let len = self.store().shard(shard_ind as int)@.len();
                let cap = self.store().shard(shard_ind as int).cap();
                let space = NotifyTarget::JobSpace(
                    space_slot(self.enq_tasks(), shard_ind as nat) as usize,
                );
                let post = NotifyTarget::JobPost(shard_ind);
                let closed = match acquire {
                    Acquire::Enqueue => self.poisoned_flag(),
                    Acquire::Dequeue => self.poisoned_flag() && len == 0,
                };
                if closed {
                    step == GuardStep::Closed { release_lock: lock_acquired }
                } else if !lock_acquired {
                    step is Retry
                } else {
                    match acquire {
                        Acquire::Enqueue => if len < cap {
                            step is Granted && step->0.role_spec() == Acquire::Enqueue
                                && step->0.shard_spec() == shard_ind && step->0.notify_spec()
                                == post
                        } else {
                            step == GuardStep::Wait { notify: post, wait_on: space }
                        },
                        Acquire::Dequeue => if len > 0 {
                            step is Granted && step->0.role_spec() == Acquire::Dequeue
                                && step->0.shard_spec() == shard_ind && step->0.notify_spec()
                                == space
                        } else {
                            step == GuardStep::Wait { notify: space, wait_on: post }
                        },
                    }
                }
            }),
    {
        proof {
            self.shards.lemma_wf_facts();
        }
        let enq_shard_ind = match self.enq_task_count {
            Some(enq_num) => shard_ind % enq_num,
            None => shard_ind,
        };
        if self.is_closed_for(acquire, shard_ind) {
            return GuardStep::Closed { release_lock: lock_acquired };
        }
        if !lock_acquired {
            return GuardStep::Retry;
        }
        let space = NotifyTarget::JobSpace(enq_shard_ind);
        let post = NotifyTarget::JobPost(shard_ind);
        match acquire {
            Acquire::Enqueue => {
                if !self.shards.is_shard_full(shard_ind) {
                    GuardStep::Granted(
                        ShardLockGuard::acquire_shard_guard(Acquire::Enqueue, shard_ind, post),
                    )
                } else {
                    GuardStep::Wait { notify: post, wait_on: space }
                }
            },
            Acquire::Dequeue => {
                if !self.shards.is_shard_empty(shard_ind) {
                    GuardStep::Granted(
                        ShardLockGuard::acquire_shard_guard(Acquire::Dequeue, shard_ind, space),
                    )
                } else {
                    GuardStep::Wait { notify: space, wait_on: post }
                }
            },
        }
    }

    /// Writes `item` into the shard of an enqueue guard.
    pub fn enqueue(&mut self, item: T, shard_guard: ShardLockGuard)
        requires
            old(self).wf(),
            shard_guard.role_spec() == Acquire::Enqueue,
            shard_guard.shard_spec() < old(self).store().num_shards(),
            old(self).store().shard(shard_guard.shard_spec() as int)@.len() < old(self).store().shard(shard_guard.shard_spec() as int).cap(),
        ensures
            final(self).wf(),
            old(self).only_shard_changed(&*final(self), shard_guard.shard_spec() as int),
            final(self).store().shard(shard_guard.shard_spec() as int)@ == old(self).store().shard(
                shard_guard.shard_spec() as int,
            )@.push(item),
            enqueue_indices(
                old(self).store().shard(shard_guard.shard_spec() as int),
                final(self).store().shard(shard_guard.shard_spec() as int),
                true,
            ),
    {
        self.shards.push(shard_guard.shard, item);
    }

    /// The guard step for an enqueue into shard `shard_ind`.
    pub fn enqueue_guard_in_shard(&self, shard_ind: usize, lock_acquired: bool) -> (step: GuardStep)
        requires
            self.wf(),
            shard_ind < self.store().num_shards(),
        ensures
            ({
                let len = self.store().shard(shard_ind as int)@.len();
                let cap = self.store().shard(shard_ind as int).cap();
                let space = NotifyTarget::JobSpace(
                    space_slot(self.enq_tasks(), shard_ind as nat) as usize,
                );
                let post = NotifyTarget::JobPost(shard_ind);
                if self.poisoned_flag() {
                    step == GuardStep::Closed { release_lock: lock_acquired }
                } else if !lock_acquired {
                    step is Retry
                } else if len < cap {
                    step is Granted && step->0.role_spec() == Acquire::Enqueue
                        && step->0.shard_spec() == shard_ind && step->0.notify_spec() == post
                } else {
                    step == GuardStep::Wait { notify: post, wait_on: space }
                }
            }),
    {
        self.acquire_shard_guard(Acquire::Enqueue, shard_ind, lock_acquired)
    }

    /// Picks the shard of the next round-robin enqueue.
    pub fn enqueue_guard(&mut self) -> (shard: usize)
        requires
            old(self).wf(),
        ensures
            final(self).wf(),
            shard == old(self).enq_counter() % old(self).store().num_shards(),
            final(self).enq_counter() == Self::counter_next(old(self).enq_counter()),
            final(self).deq_counter() == old(self).deq_counter(),
            final(self).store() == old(self).store(),
            final(self).poisoned_flag() == old(self).poisoned_flag(),
            final(self).enq_tasks() == old(self).enq_tasks(),
    {
        proof {
            self.shards.lemma_wf_facts();
        }
        let s = self.shard_enq % self.shards.get_num_of_shards();
        self.shard_enq = self.shard_enq.wrapping_add(1);
        s
    }

    /// Takes the oldest item of the shard of a dequeue guard.
    pub fn dequeue_item(&mut self, shard_guard: ShardLockGuard) -> (item: T)
        requires
            old(self).wf(),
            shard_guard.role_spec() == Acquire::Dequeue,
            shard_guard.shard_spec() < old(self).store().num_shards(),
            old(self).store().shard(shard_guard.shard_spec() as int)@.len() > 0,
        ensures
            final(self).wf(),
            old(self).only_shard_changed(&*final(self), shard_guard.shard_spec() as int),
            item == old(self).store().shard(shard_guard.shard_spec() as int)@[0],
            final(self).store().shard(shard_guard.shard_spec() as int)@ == old(self).store().shard(
                shard_guard.shard_spec() as int,
            )@.subrange(1, old(self).store().shard(shard_guard.shard_spec() as int)@.len() as int),
            dequeue_indices(
                old(self).store().shard(shard_guard.shard_spec() as int),
                final(self).store().shard(shard_guard.shard_spec() as int),
                true,
            ),
    {
        self.shards.pop(shard_guard.shard)
    }

    /// Dequeues from shard `shard_ind` after trying its lock: the item with
    /// the notification to send, or the guard step that was not granted.
    pub fn dequeue_in_shard(&mut self, shard_ind: usize, lock_acquired: bool) -> (r: Result<
        (T, NotifyTarget),
        GuardStep,
    >)
        requires
            old(self).wf(),
            shard_ind < old(self).store().num_shards(),
        ensures
            final(self).wf(),
            old(self).only_shard_changed(&*final(self), shard_ind as int),
            dequeue_indices(
                old(self).store().shard(shard_ind as int),
                final(self).store().shard(shard_ind as int),
                r is Ok,
            ),
            ({
                let before = old(self).store().shard(shard_ind as int)@;
                let space = NotifyTarget::JobSpace(
                    space_slot(old(self).enq_tasks(), shard_ind as nat) as usize,
                );
                let post = NotifyTarget::JobPost(shard_ind);
                if old(self).poisoned_flag() && before.len() == 0 {
                    r == Err::<(T, NotifyTarget), GuardStep>(
                        GuardStep::Closed { release_lock: lock_acquired },
                    ) && final(self).store() == old(self).store()
                } else if !lock_acquired {
                    r == Err::<(T, NotifyTarget), GuardStep>(GuardStep::Retry)
                        && final(self).store() == old(self).store()
                } else if before.len() > 0 {
                    r == Ok::<(T, NotifyTarget), GuardStep>((before[0], space)) && final(self).store().shard(shard_ind as int)@ == before.subrange(1, before.len() as int)
                } else {
                    r == Err::<(T, NotifyTarget), GuardStep>(
                        GuardStep::Wait { notify: space, wait_on: post },
                    ) && final(self).store() == old(self).store()
                }
            }),
    {
        match self.acquire_shard_guard(Acquire::Dequeue, shard_ind, lock_acquired) {
            GuardStep::Granted(guard) => {
                let notify = guard.notify_on_release();
                let item = self.dequeue_item(guard);
                Ok((item, notify))
            },
            other => Err(other),
        }
    }

    /// Picks the shard of the next round-robin dequeue.
    pub fn dequeue(&mut self) -> (shard: usize)
        requires
            old(self).wf(),
        ensures
            final(self).wf(),
            shard == old(self).deq_counter() % old(self).store().num_shards(),
            final(self).deq_counter() == Self::counter_next(old(self).deq_counter()),
            final(self).enq_counter() == old(self).enq_counter(),
            final(self).store() == old(self).store(),
            final(self).poisoned_flag() == old(self).poisoned_flag(),
            final(self).enq_tasks() == old(self).enq_tasks(),
    {
        proof {
            self.shards.lemma_wf_facts();
        }
        let s = self.shard_deq % self.shards.get_num_of_shards();
        self.shard_deq = self.shard_deq.wrapping_add(1);
        s
    }

    /// Sets the poison flag.
    pub fn poison(&mut self)
        requires
            old(self).wf(),
        ensures
            final(self).wf(),
            final(self).poisoned_flag(),
            final(self).store() == old(self).store(),
            final(self).enq_counter() == old(self).enq_counter(),
            final(self).deq_counter() == old(self).deq_counter(),
            final(self).enq_tasks() == old(self).enq_tasks(),
    {
        self.poisoned = true;
    }

    /// Clears the poison flag.
    pub fn clear_poison(&mut self)
        requires
            old(self).wf(),
        ensures
            final(self).wf(),
            !final(self).poisoned_flag(),
            final(self).store() == old(self).store(),
            final(self).enq_counter() == old(self).enq_counter(),
            final(self).deq_counter() == old(self).deq_counter(),
            final(self).enq_tasks() == old(self).enq_tasks(),
    {
        self.poisoned = false;
    }

    /// Whether the buffer is poisoned.
    pub fn is_poisoned(&self) -> (b: bool)
        ensures
            b == self.poisoned_flag(),
    {
        self.poisoned
    }

    /// The notification that wakes a dequeuer of shard `shard_ind`.
    pub fn notify_dequeuer_in_shard(&self, shard_ind: usize) -> (t: NotifyTarget)
        requires
            self.wf(),
            shard_ind < self.store().num_shards(),
        ensures
            t == NotifyTarget::JobPost(shard_ind),
    {
        NotifyTarget::JobPost(shard_ind)
    }

    /// Empties every shard and moves every index back to slot 0.
    pub fn clear(&mut self)
        requires
            old(self).wf(),
        ensures
            final(self).wf(),
            final(self).store().all_empty(),
            final(self).store().num_shards() == old(self).store().num_shards(),
            final(self).store().total_capacity() == old(self).store().total_capacity(),
            forall|i: int|
                0 <= i < final(self).store().num_shards() ==> (#[trigger] final(self).store().shard(
                    i,
                )).cap() == old(self).store().shard(i).cap() && final(self).store().shard(i).enq()
                    == 0 && final(self).store().shard(i).deq() == 0,
            final(self).poisoned_flag() == old(self).poisoned_flag(),
            final(self).enq_counter() == old(self).enq_counter(),
            final(self).deq_counter() == old(self).deq_counter(),
            final(self).enq_tasks() == old(self).enq_tasks(),
    {
        self.shards.clear();
    }

    /// Whether every shard is empty.
    pub fn is_empty(&self) -> (b: bool)
        requires
            self.wf(),
        ensures
            b == self.store().all_empty(),
    {
        self.shards.is_empty()
    }

    /// Whether shard `shard_ind` is empty.
    pub fn is_shard_empty(&self, shard_ind: usize) -> (b: bool)
        requires
            self.wf(),
            shard_ind < self.store().num_shards(),
        ensures
            b == (self.store().shard(shard_ind as int)@.len() == 0),
    {
        self.shards.is_shard_empty(shard_ind)
    }

    /// Whether every shard is full.
    pub fn is_full(&self) -> (b: bool)
        requires
            self.wf(),
        ensures
            b == self.store().all_full(),
    {
        self.shards.is_full()
    }

    /// Whether shard `shard_ind` is full.
    pub fn is_shard_full(&self, shard_ind: usize) -> (b: bool)
        requires
            self.wf(),
            shard_ind < self.store().num_shards(),
        ensures
            b == (self.store().shard(shard_ind as int)@.len() == self.store().shard(
                shard_ind as int,
            ).cap()),
    {
        self.shards.is_shard_full(shard_ind)
    }

    /// The enqueue index of shard `shard_ind`, or `None` for an invalid index.
    pub fn get_enq_ind_at_shard(&self, shard_ind: usize) -> (r: Option<usize>)
        requires
            self.wf(),
        ensures
            shard_ind < self.store().num_shards() ==> r == Some(
                self.store().shard(shard_ind as int).enq() as usize,
            ),
            shard_ind >= self.store().num_shards() ==> r is None,
    {
        self.shards.get_enq_ind_at_shard(shard_ind)
    }

    /// The dequeue index of shard `shard_ind`, or `None` for an invalid index.
    pub fn get_deq_ind_at_shard(&self, shard_ind: usize) -> (r: Option<usize>)
        requires
            self.wf(),
        ensures
            shard_ind < self.store().num_shards() ==> r == Some(
                self.store().shard(shard_ind as int).deq() as usize,
            ),
            shard_ind >= self.store().num_shards() ==> r is None,
    {
        self.shards.get_deq_ind_at_shard(shard_ind)
    }

    /// The number of items in shard `shard_ind`, or `None` for an invalid index.
    pub fn get_job_count_at_shard(&self, shard_ind: usize) -> (r: Option<usize>)
        requires
            self.wf(),
        ensures
            shard_ind < self.store().num_shards() ==> r == Some(
                self.store().shard(shard_ind as int)@.len() as usize,
            ),
            shard_ind >= self.store().num_shards() ==> r is None,
    {
        self.shards.get_job_count_at_shard(shard_ind)
    }

    /// The number of items in every shard, in shard order.
    pub fn get_job_count_total(&self) -> (r: Vec<usize>)
        requires
            self.wf(),
        ensures
            r@.len() == self.store().num_shards(),
            forall|i: int|
                0 <= i < self.store().num_shards() ==> #[trigger] r@[i] == self.store().shard(
                    i,
                )@.len(),
    {
        self.shards.get_job_count_total()
    }

    /// A reference to the item in slot `item_ind` of shard `shard_ind`, if
    /// both indices are valid and that slot is live.
    pub fn peek_item_at_shard(&self, item_ind: usize, shard_ind: usize) -> (r: Option<&T>)
        requires
            self.wf(),
        ensures
            shard_ind < self.store().num_shards() && self.store().shard(shard_ind as int).slot_live(
                item_ind as int,
            ) ==> r == Some(&self.store().shard(shard_ind as int).slot_item(item_ind as int)),
            !(shard_ind < self.store().num_shards() && self.store().shard(
                shard_ind as int,
            ).slot_live(item_ind as int)) ==> r is None,
    {
        self.shards.peek_item_at_shard(item_ind, shard_ind)
    }

    /// A clone of the item in slot `item_ind` of shard `shard_ind`, if both
    /// indices are valid and that slot is live.
    pub fn clone_item_at_shard(&self, item_ind: usize, shard_ind: usize) -> (r: Option<T>) where
        T: Clone,

        requires
            self.wf(),
        ensures
            shard_ind < self.store().num_shards() && self.store().shard(shard_ind as int).slot_live(
                item_ind as int,
            ) ==> r is Some && cloned(
                self.store().shard(shard_ind as int).slot_item(item_ind as int),
                r->0,
            ),
            !(shard_ind < self.store().num_shards() && self.store().shard(
                shard_ind as int,
            ).slot_live(item_ind as int)) ==> r is None,
    {
        self.shards.clone_item_at_shard(item_ind, shard_ind)
    }

    /// A slot-by-slot clone of shard `shard_ind`, or `None` for an invalid index.
    pub fn clone_items_at_shard(&self, shard_ind: usize) -> (r: Option<Vec<Option<T>>>) where
        T: Clone,

        requires
            self.wf(),
        ensures
            shard_ind >= self.store().num_shards() ==> r is None,
            shard_ind < self.store().num_shards() ==> r is Some && slots_cloned(
                self.store().shard(shard_ind as int),
                r->0@,
            ),
    {
        self.shards.clone_items_at_shard(shard_ind)
    }

    /// A slot-by-slot clone of every shard.
    pub fn clone_items(&self) -> (r: Vec<Vec<Option<T>>>) where T: Clone
        requires
            self.wf(),
        ensures
            r@.len() == self.store().num_shards(),
            forall|i: int|
                0 <= i < self.store().num_shards() ==> slots_cloned(
                    self.store().shard(i),
                    (#[trigger] r@[i])@,
                ),
    {
        self.shards.clone_items()
    }
}

} // verus!
