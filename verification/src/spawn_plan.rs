//! The decisions of the spawned enqueuer and dequeuer tasks that do not
//! depend on the runtime: how items are cut into batches, and which
//! notification a pinned task sends when it is done.
use crate::notify::NotifyTarget;
use crate::shard_policies::ShardPolicy;
use crate::task_node::TaskRole;
use vstd::prelude::*;

verus! {

/// Cuts a stream of items into batches of `batch_size`: every batch that
/// `push` hands out is full, and `finish` hands out the rest.
pub struct BatchPlanner<T> {
    batch: Vec<T>,
    batch_size: usize,
    counter: usize,
}

impl<T> BatchPlanner<T> {
    /// The batch being filled.
    pub closed spec fn pending(&self) -> Seq<T> {
        self.batch@
    }

    /// The size of a full batch.
    pub closed spec fn size(&self) -> nat {
        self.batch_size as nat
    }

    /// How many items were pushed so far.
    pub closed spec fn count(&self) -> nat {
        self.counter as nat
    }

    /// The planner's invariant: the pending batch holds the items pushed
    /// since the last full batch, and at least one once anything was pushed.
    pub closed spec fn wf(&self) -> bool {
        &&& self.batch_size > 0
        &&& self.counter == 0 ==> self.batch@.len() == 0
        &&& self.counter > 0 ==> self.batch@.len() == (self.counter - 1) as nat % (
        self.batch_size as nat) + 1
    }

    /// A planner for batches of `batch_size` items.
    pub fn new(batch_size: usize) -> (p: Self)
        requires
            batch_size > 0,
        ensures
            p.wf(),
            p.size() == batch_size,
            p.count() == 0,
            p.pending() == Seq::<T>::empty(),
    {
        BatchPlanner { batch: Vec::new(), batch_size, counter: 0 }
    }

    /// Takes the next item. When the pending batch is full it is handed out
    /// and the item starts a new one; otherwise the item joins it.
    pub fn push(&mut self, item: T) -> (full: Option<Vec<T>>)
        requires
            old(self).wf(),
            old(self).count() < usize::MAX,
        ensures
            final(self).wf(),
            final(self).size() == old(self).size(),
            final(self).count() == old(self).count() + 1,
            old(self).count() != 0 && old(self).count() % old(self).size() == 0 ==> full is Some
                && full->0@ == old(self).pending() && full->0@.len() == old(self).size()
                && final(self).pending() == seq![item],
            !(old(self).count() != 0 && old(self).count() % old(self).size() == 0) ==> full is None
                && final(self).pending() == old(self).pending().push(item),
    {
        if self.counter != 0 && self.counter % self.batch_size == 0 {
            let mut fresh: Vec<T> = Vec::with_capacity(self.batch_size);
            fresh.push(item);
            let mut full = fresh;
            std::mem::swap(&mut self.batch, &mut full);
            self.counter = self.counter + 1;
            proof {
                let c = (self.counter - 1) as nat;
                let b = self.batch_size as nat;
                assert((c - 1) as nat % b + 1 == b) by (nonlinear_arith)
                    requires
                        c > 0,
                        c % b == 0,
                        b > 0,
                ;
                assert(c % b == 0 ==> (c as nat) % b + 1 == 1);
            }
            Some(full)
        } else {
            self.batch.push(item);
            self.counter = self.counter + 1;
            proof {
                let c = (self.counter - 1) as nat;
                let b = self.batch_size as nat;
                if c > 0 {
                    assert(c % b == (c - 1) as nat % b + 1) by (nonlinear_arith)
                        requires
                            c > 0,
                            c % b != 0,
                            b > 0,
                    ;
                }
            }
            None
        }
    }

    /// Hands out the last, possibly short, batch (if any item is pending)
    /// and the number of items pushed.
    pub fn finish(self) -> (r: (Option<Vec<T>>, usize))
        requires
            self.wf(),
        ensures
            r.1 == self.count(),
            self.pending().len() == 0 ==> r.0 is None,
            self.pending().len() > 0 ==> r.0 is Some && r.0->0@ == self.pending(),
            self.pending().len() <= self.size(),
    {
        proof {
            if self.counter > 0 {
                assert((self.counter - 1) as nat % (self.batch_size as nat) < self.batch_size) by (nonlinear_arith)
                    requires
                        self.batch_size > 0,
                ;
            }
        }
        let counter = self.counter;
        if self.batch.len() != 0 {
            (Some(self.batch), counter)
        } else {
            (None, counter)
        }
    }
}

/// The notification that a task spawned under `policy` sends when its work
/// is done: a pinned enqueuer wakes the dequeuers of its shard, a pinned
/// dequeuer the enqueuers of its shard; other tasks send none.
pub fn finish_notification(role: TaskRole, policy: &ShardPolicy, num_shards: usize) -> (t: Option<NotifyTarget>)
    requires
        num_shards > 0,
    ensures
        match *policy {
            ShardPolicy::Pin { initial_index } => match role {
                TaskRole::Enqueue => t == Some(NotifyTarget::JobPost((initial_index % num_shards) as usize)),
                TaskRole::Dequeue => t == Some(NotifyTarget::JobSpace((initial_index % num_shards) as usize)),
            },
            _ => t is None,
        },
{
    match policy {
        ShardPolicy::Pin { initial_index } => match role {
            TaskRole::Enqueue => Some(NotifyTarget::JobPost(*initial_index % num_shards)),
            TaskRole::Dequeue => Some(NotifyTarget::JobSpace(*initial_index % num_shards)),
        },
        _ => None,
    }
}

/// What a spawned task counts: its attempts, of which how many succeeded,
/// and the most attempts it may make (`None` for no bound).
pub struct OpCounter {
    attempts: usize,
    succeeded: usize,
    limit: Option<usize>,
}

impl OpCounter {
    /// The attempts made so far.
    pub closed spec fn attempts_spec(&self) -> nat {
        self.attempts as nat
    }

    /// The attempts that succeeded so far.
    pub closed spec fn succeeded_spec(&self) -> nat {
        self.succeeded as nat
    }

    /// The bound on the attempts.
    pub closed spec fn limit_spec(&self) -> Option<usize> {
        self.limit
    }

    /// The counter's invariant: no more successes than attempts.
    pub closed spec fn wf(&self) -> bool {
        self.succeeded <= self.attempts
    }

    /// A fresh counter with the given bound.
    pub fn new(limit: Option<usize>) -> (c: Self)
        ensures
            c.wf(),
            c.attempts_spec() == 0,
            c.succeeded_spec() == 0,
            c.limit_spec() == limit,
    {
        OpCounter { attempts: 0, succeeded: 0, limit }
    }

    /// Whether the task may make another attempt: it has no bound or has
    /// not reached it.
    pub fn may_start(&self) -> (b: bool)
        ensures
            b == match self.limit_spec() {
                None => true,
                Some(l) => self.attempts_spec() < l,
            },
    {
        match self.limit {
            None => true,
            Some(l) => self.attempts < l,
        }
    }

    /// Records one attempt and whether it succeeded; returns whether the
    /// task goes on: only after a success, and only while its bound allows.
    /// The counts stop at `usize::MAX`.
    pub fn record(&mut self, ok: bool) -> (go_on: bool)
        requires
            old(self).wf(),
        ensures
            final(self).wf(),
            final(self).limit_spec() == old(self).limit_spec(),
            final(self).attempts_spec() == if old(self).attempts_spec() < usize::MAX {
                old(self).attempts_spec() + 1
            } else {
                old(self).attempts_spec()
            },
            final(self).succeeded_spec() == if ok && old(self).attempts_spec() < usize::MAX {
                old(self).succeeded_spec() + 1
            } else {
                old(self).succeeded_spec()
            },
            go_on == (ok && match final(self).limit_spec() {
                None => true,
                Some(l) => final(self).attempts_spec() < l,
            }),
    {
        if self.attempts < usize::MAX {
            self.attempts = self.attempts + 1;
            if ok {
                self.succeeded = self.succeeded + 1;
            }
        }
        ok && self.may_start()
    }

    /// Records `n` attempts made at once (the items of one batch) and
    /// whether they succeeded; returns whether the task goes on, as
    /// `record` does. The counts stop at `usize::MAX`.
    pub fn record_items(&mut self, ok: bool, n: usize) -> (go_on: bool)
        requires
            old(self).wf(),
        ensures
            final(self).wf(),
            final(self).limit_spec() == old(self).limit_spec(),
            final(self).attempts_spec() == if old(self).attempts_spec() + n <= usize::MAX {
                old(self).attempts_spec() + n
            } else {
                usize::MAX as int
            },
            final(self).succeeded_spec() == if !ok {
                old(self).succeeded_spec() as int
            } else if old(self).succeeded_spec() + n <= usize::MAX {
                old(self).succeeded_spec() + n
            } else {
                usize::MAX as int
            },
            go_on == (ok && match final(self).limit_spec() {
                None => true,
                Some(l) => final(self).attempts_spec() < l,
            }),
    {
        self.attempts = if self.attempts <= usize::MAX - n {
            self.attempts + n
        } else {
            usize::MAX
        };
        if ok {
            self.succeeded = if self.succeeded <= usize::MAX - n {
                self.succeeded + n
            } else {
                usize::MAX
            };
        }
        ok && self.may_start()
    }

    /// The attempts that succeeded.
    pub fn succeeded(&self) -> (n: usize)
        ensures
            n == self.succeeded_spec(),
    {
        self.succeeded
    }
}

} // verus!
