//! `LFShardedRingBuf`: a sharded buffer whose tasks look for a usable shard
//! under their shard acquisition policy.
//!
//! A task starts a search (`crate::acquire::ShardAcquirer`), tries the lock
//! of the shard it stands at, and reports the attempt to
//! `try_acquire_shard`, which tells it whether it got a usable shard or
//! where to go next.
use crate::acquire::{Acquire, ShardAcquirer};
use crate::layout::{shard_capacity_of, valid_layout};
use crate::shard_set::{slots_cloned, ShardSet};
use crate::task_locals::TaskLocals;
use crate::inner::{dequeue_indices, drain_indices, enqueue_indices};
use vstd::prelude::*;

verus! {

/// What a task does after an attempt to acquire a shard.
#[derive(Debug, Clone, Copy, PartialEq, Eq, Structural)]
pub enum AcquireStep {
    /// The task holds this shard and can use it.
    Acquired(usize),
    /// The task tries again at its new current shard; it first releases the
    /// lock it took if `release_lock`, and yields if `yield_first`.
    Retry { release_lock: bool, yield_first: bool },
    /// The buffer is poisoned and empty: the task stops looking, after
    /// releasing the lock it took if `release_lock`.
    Stop { release_lock: bool },
}

/// A sharded ring buffer searched under shard acquisition policies.
pub struct LFShardedRingBuf<T> {
    shards: ShardSet<T>,
    poisoned: bool,
}

impl<T> View for LFShardedRingBuf<T> {
    type V = Seq<Seq<T>>;

    /// The live items of every shard, oldest first.
    closed spec fn view(&self) -> Seq<Seq<T>> {
        self.shards@
    }
}

/// Whether a shard with `len` items out of `cap` slots can serve `acquire`:
/// an enqueuer needs a free slot, a dequeuer an item.
pub open spec fn usable(acquire: Acquire, len: nat, cap: nat) -> bool {
    match acquire {
        Acquire::Enqueue => len < cap,
        Acquire::Dequeue => len > 0,
    }
}

impl<T> LFShardedRingBuf<T> {
    /// The shards.
    pub closed spec fn store(&self) -> ShardSet<T> {
        self.shards
    }

    /// Whether the buffer is poisoned.
    pub closed spec fn poisoned_flag(&self) -> bool {
        self.poisoned
    }

    /// The buffer's invariant.
    pub open spec fn wf(&self) -> bool {
        self.store().wf()
    }

    /// Only shard `s`'s contents may differ between `self` and `other`.
    pub open spec fn only_shard_changed(&self, other: &Self, s: int) -> bool {
        &&& self.store().same_except(&other.store(), s)
        &&& other.store().shard(s).cap() == self.store().shard(s).cap()
        &&& other.poisoned_flag() == self.poisoned_flag()
    }

    /// Creates an empty buffer of `capacity` slots spread over `shards` shards.
    pub fn new(capacity: usize, shards: usize) -> (rb: Self)
        requires
            valid_layout(capacity as nat, shards as nat),
        ensures
            rb.wf(),
            rb.store().num_shards() == shards,
            rb.store().total_capacity() == capacity,
            rb.store().all_empty(),
            forall|i: int|
                0 <= i < shards ==> (#[trigger] rb.store().shard(i)).enq() == 0
                    && rb.store().shard(i).deq() == 0 && rb.store().shard(i).cap()
                    == shard_capacity_of(capacity as nat, shards as nat, i as nat),
            !rb.poisoned_flag(),
    {
        let shards = ShardSet::new(capacity, shards);
        proof {
            shards.lemma_wf_facts();
        }
        LFShardedRingBuf { shards, poisoned: false }
    }

    /// The number of shards.
    pub fn get_num_of_shards(&self) -> (n: usize)
        requires
            self.wf(),
        ensures
            n == self.store().num_shards(),
    {
        self.shards.get_num_of_shards()
    }

    /// The capacity of shard `shard_ind`, or `None` for an invalid index.
    pub fn get_shard_capacity(&self, shard_ind: usize) -> (c: Option<usize>)
        requires
            self.wf(),
        ensures
            shard_ind < self.store().num_shards() ==> c == Some(
                self.store().shard(shard_ind as int).cap() as usize,
            ),
            shard_ind >= self.store().num_shards() ==> c is None,
    {
        self.shards.get_shard_capacity(shard_ind)
    }

    /// The total capacity of the buffer.
    pub fn get_total_capacity(&self) -> (c: usize)
        requires
            self.wf(),
        ensures
            c == self.store().total_capacity(),
    {
        self.shards.get_total_capacity()
    }

    /// Whether a task should stop looking for a shard: the buffer is poisoned
    /// and holds nothing any more.
    pub fn should_stop_acquiring(&self) -> (b: bool)
        requires
            self.wf(),
        ensures
            b == (self.poisoned_flag() && self.store().all_empty()),
    {
        self.poisoned && self.shards.is_empty()
    }

    /// Decides what a task does after trying the lock of the shard it stands
    /// at: on a poisoned, empty buffer it stops; with the lock of a usable
    /// shard it has found its shard (and remembers where to start next
    /// time); otherwise it releases the lock if it took it and moves on under
    /// its policy.
    pub fn try_acquire_shard(
        &self,
        acquirer: &mut ShardAcquirer,
        locals: &mut TaskLocals,
        acquire: Acquire,
        lock_acquired: bool,
    ) -> (step: AcquireStep)
        requires
            self.wf(),
            old(acquirer).wf(),
            old(acquirer).shard_count_spec() == self.store().num_shards(),
            ShardAcquirer::locals_fit(*old(locals), self.store().num_shards()),
        ensures
            final(acquirer).wf(),
            final(acquirer).shard_count_spec() == old(acquirer).shard_count_spec(),
            final(locals).shift == old(locals).shift,
            final(locals).shard_policy == old(locals).shard_policy,
            final(locals).task_node == old(locals).task_node,
            ({
                let c = old(acquirer).current_spec() as int;
                let n = self.store().num_shards();
                if self.poisoned_flag() && self.store().all_empty() {
                    &&& step == AcquireStep::Stop { release_lock: lock_acquired }
                    &&& *final(acquirer) == *old(acquirer)
                    &&& *final(locals) == *old(locals)
                } else if lock_acquired && usable(
                    acquire,
                    self.store().shard(c)@.len(),
                    self.store().shard(c).cap(),
                ) {
                    &&& step == AcquireStep::Acquired(c as usize)
                    &&& *final(acquirer) == *old(acquirer)
                    &&& final(locals).shard_index == Some(
                        ((c + old(locals).shift) % (n as int)) as usize,
                    )
                } else {
                    &&& step is Retry
                    &&& step->Retry_release_lock == lock_acquired
                    &&& (final(acquirer).current_spec(), final(acquirer).spins_spec(), step->Retry_yield_first)
                        == crate::acquire::advance(
                        old(acquirer).current_spec(),
                        old(acquirer).spins_spec(),
                        old(locals).shift as nat,
                        n,
                        old(locals).shard_policy,
                    )
                    &&& *final(locals) == *old(locals)
                }
            }),
            ({
                let c = old(acquirer).current_spec() as int;
                let len = self.store().shard(c)@.len();
                let cap = self.store().shard(c).cap();
                let stop = self.poisoned_flag() && self.store().all_empty();
                &&& lock_acquired && !stop && acquire == Acquire::Enqueue && len < cap ==> step
                    == AcquireStep::Acquired(c as usize)
                &&& lock_acquired && !stop && acquire == Acquire::Dequeue && len > 0 ==> step
                    == AcquireStep::Acquired(c as usize)
                &&& !stop && acquire == Acquire::Enqueue && len == cap ==> step is Retry
                &&& !stop && acquire == Acquire::Dequeue && len == 0 ==> step is Retry
                &&& !stop && !lock_acquired ==> step is Retry
            }),
    {
        if self.should_stop_acquiring() {
            return AcquireStep::Stop { release_lock: lock_acquired };
        }
        let current = acquirer.current();
        if lock_acquired {
            let ok = match acquire {
                Acquire::Enqueue => !self.shards.is_shard_full(current),
                Acquire::Dequeue => !self.shards.is_shard_empty(current),
            };
            proof {
                self.shards.lemma_wf_facts();
            }
            if ok {
                let shard = acquirer.on_acquired(locals);
                return AcquireStep::Acquired(shard);
            }
        }
        let yield_first = acquirer.on_failed(locals);
        AcquireStep::Retry { release_lock: lock_acquired, yield_first }
    }

    /// Writes `item` into shard `shard_ind`, which must have a free slot.
    pub fn enqueue_in_shard(&mut self, shard_ind: usize, item: T)
        requires
            old(self).wf(),
            shard_ind < old(self).store().num_shards(),
            old(self).store().shard(shard_ind as int)@.len() < old(self).store().shard(
                shard_ind as int,
            ).cap(),
        ensures
            final(self).wf(),
            old(self).only_shard_changed(&*final(self), shard_ind as int),
            final(self).store().shard(shard_ind as int)@ == old(self).store().shard(
                shard_ind as int,
            )@.push(item),
            enqueue_indices(
                old(self).store().shard(shard_ind as int),
                final(self).store().shard(shard_ind as int),
                true,
            ),
    {
        self.shards.push(shard_ind, item);
    }

    /// Enqueues `item` into the shard the task acquired, unless the buffer is
    /// poisoned, in which case the item is dropped; returns whether it was
    /// stored.
    pub fn enqueue_item(&mut self, item: T, shard_ind: usize) -> (stored: bool)
        requires
            old(self).wf(),
            shard_ind < old(self).store().num_shards(),
            old(self).poisoned_flag() || old(self).store().shard(shard_ind as int)@.len()
                < old(self).store().shard(shard_ind as int).cap(),
        ensures
            final(self).wf(),
            stored == !old(self).poisoned_flag(),
            old(self).only_shard_changed(&*final(self), shard_ind as int),
            stored ==> final(self).store().shard(shard_ind as int)@ == old(self).store().shard(
                shard_ind as int,
            )@.push(item),
            !stored ==> final(self).store() == old(self).store(),
            enqueue_indices(
                old(self).store().shard(shard_ind as int),
                final(self).store().shard(shard_ind as int),
                stored,
            ),
    {
        if self.poisoned {
            return false;
        }
        self.shards.push(shard_ind, item);
        true
    }

    /// Takes the oldest item of shard `shard_ind`, which must hold one.
    pub fn dequeue_in_shard(&mut self, shard_ind: usize) -> (item: T)
        requires
            old(self).wf(),
            shard_ind < old(self).store().num_shards(),
            old(self).store().shard(shard_ind as int)@.len() > 0,
        ensures
            final(self).wf(),
            old(self).only_shard_changed(&*final(self), shard_ind as int),
            item == old(self).store().shard(shard_ind as int)@[0],
            final(self).store().shard(shard_ind as int)@ == old(self).store().shard(
                shard_ind as int,
            )@.subrange(1, old(self).store().shard(shard_ind as int)@.len() as int),
            dequeue_indices(
                old(self).store().shard(shard_ind as int),
                final(self).store().shard(shard_ind as int),
                true,
            ),
    {
        self.shards.pop(shard_ind)
    }

    /// Dequeues from the shard the task acquired: `None` when the buffer is
    /// poisoned and empty, otherwise the shard's oldest item.
    pub fn dequeue(&mut self, shard_ind: usize) -> (r: Option<T>)
        requires
            old(self).wf(),
            shard_ind < old(self).store().num_shards(),
            (old(self).poisoned_flag() && old(self).store().all_empty()) || old(self).store().shard(
                shard_ind as int,
            )@.len() > 0,
        ensures
            final(self).wf(),
            old(self).only_shard_changed(&*final(self), shard_ind as int),
            old(self).poisoned_flag() && old(self).store().all_empty() ==> r is None
                && final(self).store() == old(self).store(),
            !(old(self).poisoned_flag() && old(self).store().all_empty()) ==> r == Some(
                old(self).store().shard(shard_ind as int)@[0],
            ) && final(self).store().shard(shard_ind as int)@ == old(self).store().shard(
                shard_ind as int,
            )@.subrange(1, old(self).store().shard(shard_ind as int)@.len() as int),
            dequeue_indices(
                old(self).store().shard(shard_ind as int),
                final(self).store().shard(shard_ind as int),
                r is Some,
            ),
    {
        if self.poisoned && self.shards.is_empty() {
            return None;
        }
        Some(self.shards.pop(shard_ind))
    }

    /// Takes every item of the shard the task acquired: `None` when the
    /// buffer is poisoned and empty, otherwise the shard's items, oldest
    /// first.
    pub fn dequeue_full(&mut self, shard_ind: usize) -> (r: Option<Vec<T>>)
        requires
            old(self).wf(),
            shard_ind < old(self).store().num_shards(),
            (old(self).poisoned_flag() && old(self).store().all_empty()) || old(self).store().shard(
                shard_ind as int,
            )@.len() > 0,
        ensures
            final(self).wf(),
            old(self).only_shard_changed(&*final(self), shard_ind as int),
            old(self).poisoned_flag() && old(self).store().all_empty() ==> r is None
                && final(self).store() == old(self).store(),
            !(old(self).poisoned_flag() && old(self).store().all_empty()) ==> r is Some && r->0@
                == old(self).store().shard(shard_ind as int)@ && final(self).store().shard(
                shard_ind as int,
            )@.len() == 0,
            drain_indices(
                old(self).store().shard(shard_ind as int),
                final(self).store().shard(shard_ind as int),
                r is Some,
            ),
    {
        if self.poisoned && self.shards.is_empty() {
            return None;
        }
        Some(self.shards.pop_all(shard_ind))
    }

    /// Which shards are empty, in shard order.
    pub fn shard_empty_flags(&self) -> (flags: Vec<bool>)
        requires
            self.wf(),
        ensures
            flags@.len() == self.store().num_shards(),
            forall|i: int|
                0 <= i < self.store().num_shards() ==> #[trigger] flags@[i] == (self.store().shard(
                    i,
                )@.len() == 0),
    {
        let n = self.shards.get_num_of_shards();
        let mut flags: Vec<bool> = Vec::with_capacity(n);
        let mut i: usize = 0;
        while i < n
            invariant
                self.wf(),
                n == self.store().num_shards(),
                i <= n,
                flags@.len() == i,
                forall|k: int|
                    0 <= k < i ==> #[trigger] flags@[k] == (self.store().shard(k)@.len() == 0),
            decreases n - i,
        {
            flags.push(self.shards.is_shard_empty(i));
            i = i + 1;
        }
        flags
    }

    /// Sets the poison flag.
    pub fn poison(&mut self)
        requires
            old(self).wf(),
        ensures
            final(self).wf(),
            final(self).poisoned_flag(),
            final(self).store() == old(self).store(),
    {
        self.poisoned = true;
    }

    /// Clears the poison flag.
    pub fn clear_poison(&mut self)
        requires
            old(self).wf(),
        ensures
            final(self).wf(),
            !final(self).poisoned_flag(),
            final(self).store() == old(self).store(),
    {
        self.poisoned = false;
    }

    /// Whether the buffer is poisoned.
    pub fn is_poisoned(&self) -> (b: bool)
        ensures
            b == self.poisoned_flag(),
    {
        self.poisoned
    }

    /// Empties every shard and moves every index back to slot 0.
    pub fn clear(&mut self)
        requires
            old(self).wf(),
        ensures
            final(self).wf(),
            final(self).store().all_empty(),
            final(self).store().num_shards() == old(self).store().num_shards(),
            final(self).store().total_capacity() == old(self).store().total_capacity(),
            forall|i: int|
                0 <= i < final(self).store().num_shards() ==> (#[trigger] final(self).store().shard(
                    i,
                )).cap() == old(self).store().shard(i).cap() && final(self).store().shard(i).enq()
                    == 0 && final(self).store().shard(i).deq() == 0,
            final(self).poisoned_flag() == old(self).poisoned_flag(),
    {
        self.shards.clear();
    }

    /// Whether every shard is empty.
    pub fn is_empty(&self) -> (b: bool)
        requires
            self.wf(),
        ensures
            b == self.store().all_empty(),
    {
        self.shards.is_empty()
    }

    /// Whether shard `shard_ind` is empty.
    pub fn is_shard_empty(&self, shard_ind: usize) -> (b: bool)
        requires
            self.wf(),
            shard_ind < self.store().num_shards(),
        ensures
            b == (self.store().shard(shard_ind as int)@.len() == 0),
    {
        self.shards.is_shard_empty(shard_ind)
    }

    /// Whether every shard is full.
    pub fn is_full(&self) -> (b: bool)
        requires
            self.wf(),
        ensures
            b == self.store().all_full(),
    {
        self.shards.is_full()
    }

    /// Whether shard `shard_ind` is full.
    pub fn is_shard_full(&self, shard_ind: usize) -> (b: bool)
        requires
            self.wf(),
            shard_ind < self.store().num_shards(),
        ensures
            b == (self.store().shard(shard_ind as int)@.len() == self.store().shard(
                shard_ind as int,
            ).cap()),
    {
        self.shards.is_shard_full(shard_ind)
    }

    /// The enqueue index of shard `shard_ind`, or `None` for an invalid index.
    pub fn get_enq_ind_at_shard(&self, shard_ind: usize) -> (r: Option<usize>)
        requires
            self.wf(),
        ensures
            shard_ind < self.store().num_shards() ==> r == Some(
                self.store().shard(shard_ind as int).enq() as usize,
            ),
            shard_ind >= self.store().num_shards() ==> r is None,
    {
        self.shards.get_enq_ind_at_shard(shard_ind)
    }

    /// The dequeue index of shard `shard_ind`, or `None` for an invalid index.
    pub fn get_deq_ind_at_shard(&self, shard_ind: usize) -> (r: Option<usize>)
        requires
            self.wf(),
        ensures
            shard_ind < self.store().num_shards() ==> r == Some(
                self.store().shard(shard_ind as int).deq() as usize,
            ),
            shard_ind >= self.store().num_shards() ==> r is None,
    {
        self.shards.get_deq_ind_at_shard(shard_ind)
    }

    /// The number of items in shard `shard_ind`, or `None` for an invalid index.
    pub fn get_job_count_at_shard(&self, shard_ind: usize) -> (r: Option<usize>)
        requires
            self.wf(),
        ensures
            shard_ind < self.store().num_shards() ==> r == Some(
                self.store().shard(shard_ind as int)@.len() as usize,
            ),
            shard_ind >= self.store().num_shards() ==> r is None,
    {
        self.shards.get_job_count_at_shard(shard_ind)
    }

    /// The number of items in every shard, in shard order.
    pub fn get_job_count_total(&self) -> (r: Vec<usize>)
        requires
            self.wf(),
        ensures
            r@.len() == self.store().num_shards(),
            forall|i: int|
                0 <= i < self.store().num_shards() ==> #[trigger] r@[i] == self.store().shard(
                    i,
                )@.len(),
    {
        self.shards.get_job_count_total()
    }

    /// Whether slot `item_ind` of shard `shard_ind` holds a live item.
    pub fn is_item_in_shard(&self, item_ind: usize, shard_ind: usize) -> (b: bool)
        requires
            self.wf(),
            shard_ind < self.store().num_shards(),
        ensures
            b == self.store().shard(shard_ind as int).slot_live(item_ind as int),
    {
        self.shards.peek_item_at_shard(item_ind, shard_ind).is_some()
    }

    /// A reference to the item in slot `item_ind` of shard `shard_ind`, if
    /// both indices are valid and that slot is live.
    pub fn peek_item_at_shard(&self, item_ind: usize, shard_ind: usize) -> (r: Option<&T>)
        requires
            self.wf(),
        ensures
            shard_ind < self.store().num_shards() && self.store().shard(shard_ind as int).slot_live(
                item_ind as int,
            ) ==> r == Some(&self.store().shard(shard_ind as int).slot_item(item_ind as int)),
            !(shard_ind < self.store().num_shards() && self.store().shard(
                shard_ind as int,
            ).slot_live(item_ind as int)) ==> r is None,
    {
        self.shards.peek_item_at_shard(item_ind, shard_ind)
    }

    /// A clone of the item in slot `item_ind` of shard `shard_ind`, if both
    /// indices are valid and that slot is live.
    pub fn clone_item_at_shard(&self, item_ind: usize, shard_ind: usize) -> (r: Option<T>) where
        T: Clone,

        requires
            self.wf(),
        ensures
            shard_ind < self.store().num_shards() && self.store().shard(shard_ind as int).slot_live(
                item_ind as int,
            ) ==> r is Some && cloned(
                self.store().shard(shard_ind as int).slot_item(item_ind as int),
                r->0,
            ),
            !(shard_ind < self.store().num_shards() && self.store().shard(
                shard_ind as int,
            ).slot_live(item_ind as int)) ==> r is None,
    {
        self.shards.clone_item_at_shard(item_ind, shard_ind)
    }

    /// A slot-by-slot clone of shard `shard_ind`, or `None` for an invalid index.
    pub fn clone_items_at_shard(&self, shard_ind: usize) -> (r: Option<Vec<Option<T>>>) where
        T: Clone,

        requires
            self.wf(),
        ensures
            shard_ind >= self.store().num_shards() ==> r is None,
            shard_ind < self.store().num_shards() ==> r is Some && slots_cloned(
                self.store().shard(shard_ind as int),
                r->0@,
            ),
    {
        self.shards.clone_items_at_shard(shard_ind)
    }

    /// A slot-by-slot clone of every shard.
    pub fn clone_items(&self) -> (r: Vec<Vec<Option<T>>>) where T: Clone
        requires
            self.wf(),
        ensures
            r@.len() == self.store().num_shards(),
            forall|i: int|
                0 <= i < self.store().num_shards() ==> slots_cloned(
                    self.store().shard(i),
                    (#[trigger] r@[i])@,
                ),
    {
        self.shards.clone_items()
    }
}

/// A shard serves an enqueuer exactly when it has a free slot, and a
/// dequeuer exactly when it holds an item.
pub proof fn law_usable_when_room_or_item(len: nat, cap: nat)
    ensures
        usable(Acquire::Enqueue, len, cap) <==> len < cap,
        usable(Acquire::Dequeue, len, cap) <==> len > 0,
        len <= cap ==> (usable(Acquire::Enqueue, len, cap) <==> len != cap),
{
}

} // verus!
