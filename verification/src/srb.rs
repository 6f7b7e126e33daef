//! `ShardedRingBuf`: a sharded buffer whose callers name the shard, or let
//! the buffer pick shards round-robin.
//!
//! Every operation here is one non-waiting attempt; where the buffer would
//! wait for room or for an item, it reports so (see `crate::outcome`).
use crate::inner::{batch_indices, dequeue_indices, drain_indices, enqueue_indices};
use crate::layout::{shard_capacity_of, valid_layout};
use crate::notify::NotifyTarget;
use crate::outcome::{BatchOutcome, DequeueOutcome, DrainOutcome, EnqueueOutcome};
use crate::shard_set::{slots_cloned, ShardSet};
use vstd::prelude::*;

verus! {

/// A sharded ring buffer with a poison flag and round-robin shard counters.
pub struct ShardedRingBuf<T> {
    shards: ShardSet<T>,
    poisoned: bool,
    shard_enq: usize,
    shard_deq: usize,
}

impl<T> View for ShardedRingBuf<T> {
    type V = Seq<Seq<T>>;

    /// The live items of every shard, oldest first.
    closed spec fn view(&self) -> Seq<Seq<T>> {
        self.shards@
    }
}

impl<T> ShardedRingBuf<T> {
    /// The shards.
    pub closed spec fn store(&self) -> ShardSet<T> {
        self.shards
    }

    /// Whether the buffer is poisoned.
    pub closed spec fn poisoned_flag(&self) -> bool {
        self.poisoned
    }

    /// The round-robin counter of enqueue operations.
    pub closed spec fn enq_counter(&self) -> nat {
        self.shard_enq as nat
    }

    /// The round-robin counter of dequeue operations.
    pub closed spec fn deq_counter(&self) -> nat {
        self.shard_deq as nat
    }

    /// The buffer's invariant: that of its shards, whose contents are the
    /// buffer's view.
    pub open spec fn wf(&self) -> bool {
        &&& self.store().wf()
        &&& self@ == self.store()@
    }

    /// The shard that a caller-given index stands for: indices wrap around
    /// the number of shards.
    pub open spec fn shard_of(&self, shard_ind: nat) -> int {
        (shard_ind % self.store().num_shards()) as int
    }

    /// The next value of a round-robin counter.
    pub open spec fn counter_next(c: nat) -> nat {
        if c == usize::MAX {
            0
        } else {
            c + 1
        }
    }

    /// Nothing but the shards' contents at index `s` may have changed.
    pub open spec fn only_shard_changed(&self, other: &Self, s: int) -> bool {
        &&& self.store().same_except(&other.store(), s)
        &&& other.store().shard(s).cap() == self.store().shard(s).cap()
        &&& other.poisoned_flag() == self.poisoned_flag()
    }

    /// Creates an empty buffer of `capacity` slots spread over `shards`
    /// shards (see `crate::layout`).
    pub fn new(capacity: usize, shards: usize) -> (rb: Self)
        requires
            valid_layout(capacity as nat, shards as nat),
        ensures
            rb.wf(),
            rb.store().num_shards() == shards,
            rb.store().total_capacity() == capacity,
            rb.store().all_empty(),
            forall|i: int|
                0 <= i < shards ==> (#[trigger] rb.store().shard(i)).enq() == 0
                    && rb.store().shard(i).deq() == 0 && rb.store().shard(i).cap()
                    == shard_capacity_of(capacity as nat, shards as nat, i as nat),
            !rb.poisoned_flag(),
            rb.enq_counter() == 0,
            rb.deq_counter() == 0,
    {
        let shards = ShardSet::new(capacity, shards);
        proof {
            shards.lemma_wf_facts();
        }
        ShardedRingBuf { shards, poisoned: false, shard_enq: 0, shard_deq: 0 }
    }

    /// The number of shards.
    pub fn get_num_of_shards(&self) -> (n: usize)
        requires
            self.wf(),
        ensures
            n == self.store().num_shards(),
    {
        self.shards.get_num_of_shards()
    }

    /// The capacity of shard `shard_ind`, or `None` for an invalid index.
    pub fn get_shard_capacity(&self, shard_ind: usize) -> (c: Option<usize>)
        requires
            self.wf(),
        ensures
            shard_ind < self.store().num_shards() ==> c == Some(
                self.store().shard(shard_ind as int).cap() as usize,
            ),
            shard_ind >= self.store().num_shards() ==> c is None,
    {
        self.shards.get_shard_capacity(shard_ind)
    }

    /// The total capacity of the buffer.
    pub fn get_total_capacity(&self) -> (c: usize)
        requires
            self.wf(),
        ensures
            c == self.store().total_capacity(),
    {
        self.shards.get_total_capacity()
    }

    /// The shard that the next round-robin enqueue will use.
    pub fn get_enqueue_shard(&self) -> (s: usize)
        requires
            self.wf(),
        ensures
            s == self.shard_of(self.enq_counter()),
    {
        proof {
            self.shards.lemma_wf_facts();
        }
        self.shard_enq % self.shards.get_num_of_shards()
    }

    /// Stores `item` in shard `s` unless the buffer is poisoned or the shard
    /// is full.
    fn enqueue_item(&mut self, item: T, s: usize) -> (r: EnqueueOutcome<T>)
        requires
            old(self).wf(),
            s < old(self).store().num_shards(),
        ensures
            final(self).wf(),
            final(self).enq_counter() == old(self).enq_counter(),
            final(self).deq_counter() == old(self).deq_counter(),
            old(self).only_shard_changed(&*final(self), s as int),
            enqueue_spec(
                old(self).poisoned_flag(),
                old(self).store().shard(s as int)@,
                old(self).store().shard(s as int).cap(),
                item,
                r,
                final(self).store().shard(s as int)@,
            ),
            enqueue_indices(
                old(self).store().shard(s as int),
                final(self).store().shard(s as int),
                r is Enqueued,
            ),
    {
        proof {
            self.shards.lemma_wf_facts();
        }
        if self.poisoned {
            return EnqueueOutcome::Poisoned;
        }
        if self.shards.is_shard_full(s) {
            return EnqueueOutcome::Full(item);
        }
        self.shards.push(s, item);
        EnqueueOutcome::Enqueued
    }

    /// Attempts to enqueue `item` into shard `shard_ind % shards`.
    ///
    /// A poisoned buffer drops the item; a full shard hands it back.
    pub fn enqueue_in_shard(&mut self, item: T, shard_ind: usize) -> (r: EnqueueOutcome<T>)
        requires
            old(self).wf(),
        ensures
            final(self).wf(),
            final(self).enq_counter() == old(self).enq_counter(),
            final(self).deq_counter() == old(self).deq_counter(),
            old(self).only_shard_changed(&*final(self), old(self).shard_of(shard_ind as nat)),
            enqueue_spec(
                old(self).poisoned_flag(),
                old(self).store().shard(old(self).shard_of(shard_ind as nat))@,
                old(self).store().shard(old(self).shard_of(shard_ind as nat)).cap(),
                item,
                r,
                final(self).store().shard(old(self).shard_of(shard_ind as nat))@,
            ),
            enqueue_indices(
                old(self).store().shard(old(self).shard_of(shard_ind as nat)),
                final(self).store().shard(old(self).shard_of(shard_ind as nat)),
                r is Enqueued,
            ),
    {
        proof {
            self.shards.lemma_wf_facts();
        }
        let s = shard_ind % self.shards.get_num_of_shards();
        self.enqueue_item(item, s)
    }

    /// Attempts to enqueue `item` into the next shard in round-robin order,
    /// and returns that shard with the outcome.
    pub fn enqueue(&mut self, item: T) -> (r: (usize, EnqueueOutcome<T>))
        requires
            old(self).wf(),
        ensures
            final(self).wf(),
            r.0 == old(self).shard_of(old(self).enq_counter()),
            final(self).enq_counter() == Self::counter_next(old(self).enq_counter()),
            final(self).deq_counter() == old(self).deq_counter(),
            old(self).only_shard_changed(&*final(self), r.0 as int),
            enqueue_spec(
                old(self).poisoned_flag(),
                old(self).store().shard(r.0 as int)@,
                old(self).store().shard(r.0 as int).cap(),
                item,
                r.1,
                final(self).store().shard(r.0 as int)@,
            ),
            enqueue_indices(
                old(self).store().shard(r.0 as int),
                final(self).store().shard(r.0 as int),
                r.1 is Enqueued,
            ),
    {
        proof {
            self.shards.lemma_wf_facts();
        }
        let s = self.shard_enq % self.shards.get_num_of_shards();
        self.shard_enq = self.shard_enq.wrapping_add(1);
        let out = self.enqueue_item(item, s);
        (s, out)
    }

    /// Stores every item of `items`, in order, in shard `s`, unless the
    /// buffer is poisoned or the shard lacks room for all of them.
    fn enqueue_batch(&mut self, items: Vec<T>, s: usize) -> (r: BatchOutcome<T>)
        requires
            old(self).wf(),
            s < old(self).store().num_shards(),
            items@.len() <= old(self).store().shard(s as int).cap(),
        ensures
            final(self).wf(),
            final(self).enq_counter() == old(self).enq_counter(),
            final(self).deq_counter() == old(self).deq_counter(),
            old(self).only_shard_changed(&*final(self), s as int),
            batch_spec(
                old(self).poisoned_flag(),
                old(self).store().shard(s as int)@,
                old(self).store().shard(s as int).cap(),
                items@,
                r,
                final(self).store().shard(s as int)@,
            ),
            batch_indices(
                old(self).store().shard(s as int),
                final(self).store().shard(s as int),
            ),
    {
        proof {
            self.shards.lemma_wf_facts();
        }
        proof {
            self.shards.shard(s as int).lemma_wf_facts();
        }
        if self.poisoned {
            return BatchOutcome::Poisoned;
        }
        if self.shards.is_shard_full_batch(s, items.len()) {
            return BatchOutcome::NoRoom(items);
        }
        self.shards.push_all(s, items);
        proof {
            self.shards.lemma_wf_facts();
            self.shards.shard(s as int).lemma_wf_facts();
        }
        BatchOutcome::Enqueued
    }

    /// Attempts to enqueue the whole batch `items` into shard
    /// `shard_ind % shards`; the batch may not exceed that shard's capacity.
    pub fn enqueue_full_in_shard(&mut self, items: Vec<T>, shard_ind: usize) -> (r: BatchOutcome<
        T,
    >)
        requires
            old(self).wf(),
            items@.len() <= old(self).store().shard(old(self).shard_of(shard_ind as nat)).cap(),
        ensures
            final(self).wf(),
            final(self).enq_counter() == old(self).enq_counter(),
            final(self).deq_counter() == old(self).deq_counter(),
            old(self).only_shard_changed(&*final(self), old(self).shard_of(shard_ind as nat)),
            batch_spec(
                old(self).poisoned_flag(),
                old(self).store().shard(old(self).shard_of(shard_ind as nat))@,
                old(self).store().shard(old(self).shard_of(shard_ind as nat)).cap(),
                items@,
                r,
                final(self).store().shard(old(self).shard_of(shard_ind as nat))@,
            ),
            batch_indices(
                old(self).store().shard(old(self).shard_of(shard_ind as nat)),
                final(self).store().shard(old(self).shard_of(shard_ind as nat)),
            ),
    {
        proof {
            self.shards.lemma_wf_facts();
        }
        let s = shard_ind % self.shards.get_num_of_shards();
        self.enqueue_batch(items, s)
    }

    /// Attempts to enqueue the whole batch `items` into the next shard in
    /// round-robin order; the batch may not exceed that shard's capacity.
    pub fn enqueue_full(&mut self, items: Vec<T>) -> (r: (usize, BatchOutcome<T>))
        requires
            old(self).wf(),
            items@.len() <= old(self).store().shard(old(self).shard_of(old(self).enq_counter())).cap(),
        ensures
            final(self).wf(),
            r.0 == old(self).shard_of(old(self).enq_counter()),
            final(self).enq_counter() == Self::counter_next(old(self).enq_counter()),
            final(self).deq_counter() == old(self).deq_counter(),
            old(self).only_shard_changed(&*final(self), r.0 as int),
            batch_spec(
                old(self).poisoned_flag(),
                old(self).store().shard(r.0 as int)@,
                old(self).store().shard(r.0 as int).cap(),
                items@,
                r.1,
                final(self).store().shard(r.0 as int)@,
            ),
            batch_indices(
                old(self).store().shard(r.0 as int),
                final(self).store().shard(r.0 as int),
            ),
    {
        proof {
            self.shards.lemma_wf_facts();
        }
        let s = self.shard_enq % self.shards.get_num_of_shards();
        self.shard_enq = self.shard_enq.wrapping_add(1);
        let out = self.enqueue_batch(items, s);
        (s, out)
    }

    /// Takes the oldest item of shard `s` if there is one.
    fn dequeue_item(&mut self, s: usize) -> (r: DequeueOutcome<T>)
        requires
            old(self).wf(),
            s < old(self).store().num_shards(),
        ensures
            final(self).wf(),
            final(self).enq_counter() == old(self).enq_counter(),
            final(self).deq_counter() == old(self).deq_counter(),
            old(self).only_shard_changed(&*final(self), s as int),
            dequeue_spec(
                old(self).poisoned_flag(),
                old(self).store().shard(s as int)@,
                r,
                final(self).store().shard(s as int)@,
            ),
            dequeue_indices(
                old(self).store().shard(s as int),
                final(self).store().shard(s as int),
                r is Item,
            ),
    {
        proof {
            self.shards.lemma_wf_facts();
        }
        if self.shards.is_shard_empty(s) {
            if self.poisoned {
                return DequeueOutcome::Poisoned;
            } else {
                return DequeueOutcome::Empty;
            }
        }
        let item = self.shards.pop(s);
        DequeueOutcome::Item(item)
    }

    /// Attempts to dequeue the oldest item of shard `shard_ind % shards`.
    pub fn dequeue_in_shard(&mut self, shard_ind: usize) -> (r: DequeueOutcome<T>)
        requires
            old(self).wf(),
        ensures
            final(self).wf(),
            final(self).enq_counter() == old(self).enq_counter(),
            final(self).deq_counter() == old(self).deq_counter(),
            old(self).only_shard_changed(&*final(self), old(self).shard_of(shard_ind as nat)),
            dequeue_spec(
                old(self).poisoned_flag(),
                old(self).store().shard(old(self).shard_of(shard_ind as nat))@,
                r,
                final(self).store().shard(old(self).shard_of(shard_ind as nat))@,
            ),
            dequeue_indices(
                old(self).store().shard(old(self).shard_of(shard_ind as nat)),
                final(self).store().shard(old(self).shard_of(shard_ind as nat)),
                r is Item,
            ),
    {
        proof {
            self.shards.lemma_wf_facts();
        }
        let s = shard_ind % self.shards.get_num_of_shards();
        self.dequeue_item(s)
    }

    /// Attempts to dequeue from the next shard in round-robin order, and
    /// returns that shard with the outcome.
    pub fn dequeue(&mut self) -> (r: (usize, DequeueOutcome<T>))
        requires
            old(self).wf(),
        ensures
            final(self).wf(),
            r.0 == old(self).shard_of(old(self).deq_counter()),
            final(self).deq_counter() == Self::counter_next(old(self).deq_counter()),
            final(self).enq_counter() == old(self).enq_counter(),
            old(self).only_shard_changed(&*final(self), r.0 as int),
            dequeue_spec(
                old(self).poisoned_flag(),
                old(self).store().shard(r.0 as int)@,
                r.1,
                final(self).store().shard(r.0 as int)@,
            ),
            dequeue_indices(
                old(self).store().shard(r.0 as int),
                final(self).store().shard(r.0 as int),
                r.1 is Item,
            ),
    {
        proof {
            self.shards.lemma_wf_facts();
        }
        let s = self.shard_deq % self.shards.get_num_of_shards();
        self.shard_deq = self.shard_deq.wrapping_add(1);
        let out = self.dequeue_item(s);
        (s, out)
    }

    /// Takes every item of shard `s` if there is one.
    fn drain_shard(&mut self, s: usize) -> (r: DrainOutcome<T>)
        requires
            old(self).wf(),
            s < old(self).store().num_shards(),
        ensures
            final(self).wf(),
            final(self).enq_counter() == old(self).enq_counter(),
            final(self).deq_counter() == old(self).deq_counter(),
            old(self).only_shard_changed(&*final(self), s as int),
            drain_spec(
                old(self).poisoned_flag(),
                old(self).store().shard(s as int)@,
                r,
                final(self).store().shard(s as int)@,
            ),
            drain_indices(
                old(self).store().shard(s as int),
                final(self).store().shard(s as int),
                r is Items,
            ),
    {
        proof {
            self.shards.lemma_wf_facts();
        }
        if self.shards.is_shard_empty(s) {
            if self.poisoned {
                return DrainOutcome::Poisoned;
            } else {
                return DrainOutcome::Empty;
            }
        }
        let items = self.shards.pop_all(s);
        DrainOutcome::Items(items)
    }

    /// Attempts to take every item of shard `shard_ind % shards`.
    pub fn dequeue_full_in_shard(&mut self, shard_ind: usize) -> (r: DrainOutcome<T>)
        requires
            old(self).wf(),
        ensures
            final(self).wf(),
            final(self).enq_counter() == old(self).enq_counter(),
            final(self).deq_counter() == old(self).deq_counter(),
            old(self).only_shard_changed(&*final(self), old(self).shard_of(shard_ind as nat)),
            drain_spec(
                old(self).poisoned_flag(),
                old(self).store().shard(old(self).shard_of(shard_ind as nat))@,
                r,
                final(self).store().shard(old(self).shard_of(shard_ind as nat))@,
            ),
            drain_indices(
                old(self).store().shard(old(self).shard_of(shard_ind as nat)),
                final(self).store().shard(old(self).shard_of(shard_ind as nat)),
                r is Items,
            ),
    {
        proof {
            self.shards.lemma_wf_facts();
        }
        let s = shard_ind % self.shards.get_num_of_shards();
        self.drain_shard(s)
    }

    /// Attempts to take every item of the next shard in round-robin order,
    /// and returns that shard with the outcome.
    pub fn dequeue_full(&mut self) -> (r: (usize, DrainOutcome<T>))
        requires
            old(self).wf(),
        ensures
            final(self).wf(),
            r.0 == old(self).shard_of(old(self).deq_counter()),
            final(self).deq_counter() == Self::counter_next(old(self).deq_counter()),
            final(self).enq_counter() == old(self).enq_counter(),
            old(self).only_shard_changed(&*final(self), r.0 as int),
            drain_spec(
                old(self).poisoned_flag(),
                old(self).store().shard(r.0 as int)@,
                r.1,
                final(self).store().shard(r.0 as int)@,
            ),
            drain_indices(
                old(self).store().shard(r.0 as int),
                final(self).store().shard(r.0 as int),
                r.1 is Items,
            ),
    {
        proof {
            self.shards.lemma_wf_facts();
        }
        let s = self.shard_deq % self.shards.get_num_of_shards();
        self.shard_deq = self.shard_deq.wrapping_add(1);
        let out = self.drain_shard(s);
        (s, out)
    }

    /// Sets the poison flag: later enqueues are refused, and dequeues end
    /// once the shard they look at is empty.
    pub fn poison(&mut self)
        requires
            old(self).wf(),
        ensures
            final(self).wf(),
            final(self).poisoned_flag(),
            final(self).store() == old(self).store(),
            final(self).enq_counter() == old(self).enq_counter(),
            final(self).deq_counter() == old(self).deq_counter(),
    {
        self.poisoned = true;
    }

    /// Clears the poison flag.
    pub fn clear_poison(&mut self)
        requires
            old(self).wf(),
        ensures
            final(self).wf(),
            !final(self).poisoned_flag(),
            final(self).store() == old(self).store(),
            final(self).enq_counter() == old(self).enq_counter(),
            final(self).deq_counter() == old(self).deq_counter(),
    {
        self.poisoned = false;
    }

    /// Whether the buffer is poisoned.
    pub fn is_poisoned(&self) -> (b: bool)
        requires
            self.wf(),
        ensures
            b == self.poisoned_flag(),
    {
        self.poisoned
    }

    /// The notification that wakes one dequeuer waiting on shard `shard_ind`.
    pub fn notify_dequeuer_in_shard(&self, shard_ind: usize) -> (t: NotifyTarget)
        requires
            self.wf(),
            shard_ind < self.store().num_shards(),
        ensures
            t == NotifyTarget::JobPost(shard_ind),
    {
        NotifyTarget::JobPost(shard_ind)
    }

    /// Empties every shard and moves every index back to slot 0.
    pub fn clear(&mut self)
        requires
            old(self).wf(),
        ensures
            final(self).wf(),
            final(self).store().all_empty(),
            final(self).store().num_shards() == old(self).store().num_shards(),
            final(self).store().total_capacity() == old(self).store().total_capacity(),
            forall|i: int|
                0 <= i < final(self).store().num_shards() ==> (#[trigger] final(self).store().shard(
                    i,
                )).cap() == old(self).store().shard(i).cap() && final(self).store().shard(i).enq()
                    == 0 && final(self).store().shard(i).deq() == 0,
            final(self).poisoned_flag() == old(self).poisoned_flag(),
            final(self).enq_counter() == old(self).enq_counter(),
            final(self).deq_counter() == old(self).deq_counter(),
    {
        self.shards.clear();
    }

    /// Whether every shard is empty.
    pub fn is_empty(&self) -> (b: bool)
        requires
            self.wf(),
        ensures
            b == self.store().all_empty(),
    {
        self.shards.is_empty()
    }

    /// Whether shard `shard_ind` is empty.
    pub fn is_shard_empty(&self, shard_ind: usize) -> (b: bool)
        requires
            self.wf(),
            shard_ind < self.store().num_shards(),
        ensures
            b == (self.store().shard(shard_ind as int)@.len() == 0),
    {
        self.shards.is_shard_empty(shard_ind)
    }

    /// Whether every shard is full.
    pub fn is_full(&self) -> (b: bool)
        requires
            self.wf(),
        ensures
            b == self.store().all_full(),
    {
        self.shards.is_full()
    }

    /// Whether shard `shard_ind` is full.
    pub fn is_shard_full(&self, shard_ind: usize) -> (b: bool)
        requires
            self.wf(),
            shard_ind < self.store().num_shards(),
        ensures
            b == (self.store().shard(shard_ind as int)@.len() == self.store().shard(
                shard_ind as int,
            ).cap()),
    {
        self.shards.is_shard_full(shard_ind)
    }

    /// Whether shard `shard_ind` has fewer than `batch_count` free slots.
    pub fn is_shard_full_batch(&self, shard_ind: usize, batch_count: usize) -> (b: bool)
        requires
            self.wf(),
            shard_ind < self.store().num_shards(),
        ensures
            b == (self.store().shard(shard_ind as int).cap() - self.store().shard(
                shard_ind as int,
            )@.len() < batch_count),
    {
        self.shards.is_shard_full_batch(shard_ind, batch_count)
    }

    /// The enqueue index of shard `shard_ind`, or `None` for an invalid index.
    pub fn get_enq_ind_at_shard(&self, shard_ind: usize) -> (r: Option<usize>)
        requires
            self.wf(),
        ensures
            shard_ind < self.store().num_shards() ==> r == Some(
                self.store().shard(shard_ind as int).enq() as usize,
            ),
            shard_ind >= self.store().num_shards() ==> r is None,
    {
        self.shards.get_enq_ind_at_shard(shard_ind)
    }

    /// The dequeue index of shard `shard_ind`, or `None` for an invalid index.
    pub fn get_deq_ind_at_shard(&self, shard_ind: usize) -> (r: Option<usize>)
        requires
            self.wf(),
        ensures
            shard_ind < self.store().num_shards() ==> r == Some(
                self.store().shard(shard_ind as int).deq() as usize,
            ),
            shard_ind >= self.store().num_shards() ==> r is None,
    {
        self.shards.get_deq_ind_at_shard(shard_ind)
    }

    /// The number of items in shard `shard_ind`, or `None` for an invalid index.
    pub fn get_job_count_at_shard(&self, shard_ind: usize) -> (r: Option<usize>)
        requires
            self.wf(),
        ensures
            shard_ind < self.store().num_shards() ==> r == Some(
                self.store().shard(shard_ind as int)@.len() as usize,
            ),
            shard_ind >= self.store().num_shards() ==> r is None,
    {
        self.shards.get_job_count_at_shard(shard_ind)
    }

    /// The number of items in every shard, in shard order.
    pub fn get_job_count_total(&self) -> (r: Vec<usize>)
        requires
            self.wf(),
        ensures
            r@.len() == self.store().num_shards(),
            forall|i: int|
                0 <= i < self.store().num_shards() ==> #[trigger] r@[i] == self.store().shard(
                    i,
                )@.len(),
    {
        self.shards.get_job_count_total()
    }

    /// A reference to the item in slot `item_ind` of shard `shard_ind`, if
    /// both indices are valid and that slot is live.
    pub fn peek_item_at_shard(&self, item_ind: usize, shard_ind: usize) -> (r: Option<&T>)
        requires
            self.wf(),
        ensures
            shard_ind < self.store().num_shards() && self.store().shard(shard_ind as int).slot_live(
                item_ind as int,
            ) ==> r == Some(&self.store().shard(shard_ind as int).slot_item(item_ind as int)),
            !(shard_ind < self.store().num_shards() && self.store().shard(
                shard_ind as int,
            ).slot_live(item_ind as int)) ==> r is None,
    {
        self.shards.peek_item_at_shard(item_ind, shard_ind)
    }

    /// A clone of the item in slot `item_ind` of shard `shard_ind`, if both
    /// indices are valid and that slot is live.
    pub fn clone_item_at_shard(&self, item_ind: usize, shard_ind: usize) -> (r: Option<T>) where
        T: Clone,

        requires
            self.wf(),
        ensures
            shard_ind < self.store().num_shards() && self.store().shard(shard_ind as int).slot_live(
                item_ind as int,
            ) ==> r is Some && cloned(
                self.store().shard(shard_ind as int).slot_item(item_ind as int),
                r->0,
            ),
            !(shard_ind < self.store().num_shards() && self.store().shard(
                shard_ind as int,
            ).slot_live(item_ind as int)) ==> r is None,
    {
        self.shards.clone_item_at_shard(item_ind, shard_ind)
    }

    /// A slot-by-slot clone of shard `shard_ind`, or `None` for an invalid index.
    pub fn clone_items_at_shard(&self, shard_ind: usize) -> (r: Option<Vec<Option<T>>>) where
        T: Clone,

        requires
            self.wf(),
        ensures
            shard_ind >= self.store().num_shards() ==> r is None,
            shard_ind < self.store().num_shards() ==> r is Some && slots_cloned(
                self.store().shard(shard_ind as int),
                r->0@,
            ),
    {
        self.shards.clone_items_at_shard(shard_ind)
    }

    /// A slot-by-slot clone of every shard.
    pub fn clone_items(&self) -> (r: Vec<Vec<Option<T>>>) where T: Clone
        requires
            self.wf(),
        ensures
            r@.len() == self.store().num_shards(),
            forall|i: int|
                0 <= i < self.store().num_shards() ==> slots_cloned(
                    self.store().shard(i),
                    (#[trigger] r@[i])@,
                ),
    {
        self.shards.clone_items()
    }
}

/// The buffer is empty exactly when every shard's job count (as
/// `get_job_count_at_shard` gives it) is zero, and no shard holds more
/// jobs than its capacity.
pub proof fn law_empty_iff_no_jobs<T>(rb: &ShardedRingBuf<T>)
    requires
        rb.wf(),
    ensures
        rb.store().all_empty() <==> forall|i: int|
            0 <= i < rb.store().num_shards() ==> (#[trigger] rb.store().shard(i))@.len() as usize == 0,
        forall|i: int|
            0 <= i < rb.store().num_shards() ==> (#[trigger] rb.store().shard(i))@.len() <= rb.store().shard(
                i,
            ).cap(),
{
    rb.store().lemma_wf_facts();
    assert forall|i: int|
        0 <= i < rb.store().num_shards() implies ((#[trigger] rb.store().shard(i))@.len() as usize == 0)
        == (rb.store().shard(i)@.len() == 0) by {
        assert(rb.store().shard(i)@.len() <= usize::MAX);
    }
}

/// One attempt on a shard as the buffer reports it: the item or batch
/// offered with the outcome, or the outcome of a dequeue or a drain.
pub enum ShardStep<T> {
    Enqueue(T, EnqueueOutcome<T>),
    Batch(Vec<T>, BatchOutcome<T>),
    Dequeue(DequeueOutcome<T>),
    Drain(DrainOutcome<T>),
}

/// `step` took the shard from `before` to `after`, as the contract of the
/// operation that made it says.
pub open spec fn step_holds<T>(poisoned: bool, cap: nat, before: Seq<T>, step: ShardStep<T>, after: Seq<T>) -> bool {
    match step {
        ShardStep::Enqueue(x, r) => enqueue_spec(poisoned, before, cap, x, r, after),
        ShardStep::Batch(items, r) => batch_spec(poisoned, before, cap, items@, r, after),
        ShardStep::Dequeue(r) => dequeue_spec(poisoned, before, r, after),
        ShardStep::Drain(r) => drain_spec(poisoned, before, r, after),
    }
}

/// The number of items that `step` stored.
pub open spec fn stored_by<T>(step: ShardStep<T>) -> nat {
    match step {
        ShardStep::Enqueue(_, r) => if r is Enqueued {
            1
        } else {
            0
        },
        ShardStep::Batch(items, r) => if r is Enqueued {
            items@.len()
        } else {
            0
        },
        _ => 0,
    }
}

/// The number of items that `step` took out.
pub open spec fn taken_by<T>(step: ShardStep<T>) -> nat {
    match step {
        ShardStep::Dequeue(r) => if r is Item {
            1
        } else {
            0
        },
        ShardStep::Drain(r) => if r is Items {
            r->0@.len()
        } else {
            0
        },
        _ => 0,
    }
}

/// The items stored by `steps`.
pub open spec fn total_stored<T>(steps: Seq<ShardStep<T>>) -> nat
    decreases steps.len(),
{
    if steps.len() == 0 {
        0
    } else {
        total_stored(steps.drop_last()) + stored_by(steps.last())
    }
}

/// The items taken out by `steps`.
pub open spec fn total_taken<T>(steps: Seq<ShardStep<T>>) -> nat
    decreases steps.len(),
{
    if steps.len() == 0 {
        0
    } else {
        total_taken(steps.drop_last()) + taken_by(steps.last())
    }
}

/// A shard's job count is the number of items enqueued into it minus the
/// number dequeued from it since it was empty (after `new` or `clear`):
/// over any run of attempts on the shard, `states[i]` being its items
/// before attempt `i` and `poisoned[i]` the poison flag then, the items it
/// holds at the end and the items taken out add up to the items stored.
pub proof fn law_job_count_is_stored_minus_taken<T>(
    poisoned: Seq<bool>,
    cap: nat,
    states: Seq<Seq<T>>,
    steps: Seq<ShardStep<T>>,
)
    requires
        states.len() == steps.len() + 1,
        poisoned.len() == steps.len(),
        states[0].len() == 0,
        forall|i: int|
            #![trigger steps[i]]
            0 <= i < steps.len() ==> step_holds(poisoned[i], cap, states[i], steps[i], states[i + 1]),
    ensures
        states.last().len() + total_taken(steps) == total_stored(steps),
    decreases steps.len(),
{
    if steps.len() > 0 {
        let k = steps.len() - 1;
        let p2 = poisoned.drop_last();
        let s2 = states.drop_last();
        let t2 = steps.drop_last();
        assert forall|i: int|
            #![trigger t2[i]]
            0 <= i < t2.len() implies step_holds(p2[i], cap, s2[i], t2[i], s2[i + 1]) by {
            assert(t2[i] == steps[i]);
        }
        law_job_count_is_stored_minus_taken(p2, cap, s2, t2);
        assert(step_holds(poisoned[k], cap, states[k], steps[k], states[k + 1]));
        assert(s2.last() == states[k]);
    }
}

/// Round-robin operations visit every shard: from any counter value, one of
/// the next `n` values of the counter picks shard `s`, for every shard `s`.
pub proof fn law_round_robin_reaches_every_shard(counter: nat, n: nat, s: nat)
    requires
        n > 0,
        s < n,
    ensures
        exists|k: nat| k < n && #[trigger] ((counter + k) % n) == s,
{
    let c = counter % n;
    vstd::arithmetic::div_mod::lemma_mod_bound(counter as int, n as int);
    let k: nat = if s >= c {
        (s - c) as nat
    } else {
        (s + n - c) as nat
    };
    vstd::arithmetic::div_mod::lemma_add_mod_noop(counter as int, k as int, n as int);
    vstd::arithmetic::div_mod::lemma_small_mod(k, n);
    if s >= c {
        vstd::arithmetic::div_mod::lemma_small_mod(s, n);
    } else {
        vstd::arithmetic::div_mod::lemma_mod_add_multiples_vanish(s as int, n as int);
        vstd::arithmetic::div_mod::lemma_small_mod(s, n);
    }
    assert((counter + k) % n == s);
}

/// An item enqueued into a shard comes out of that shard after every item
/// that was there before it, and nothing else changes on the way: the
/// shards are first-in first-out.
pub proof fn law_shard_is_fifo<T>(before: Seq<T>, cap: nat, x: T, r1: EnqueueOutcome<T>, mid: Seq<T>)
    requires
        before.len() < cap,
        enqueue_spec(false, before, cap, x, r1, mid),
    ensures
        r1 is Enqueued,
        mid.len() == before.len() + 1,
        mid.subrange(0, before.len() as int) == before,
        mid[before.len() as int] == x,
{
    assert(mid.subrange(0, before.len() as int) =~= before);
}

/// A dequeue never invents an item: what it gives is the oldest item of
/// the shard, and the shard keeps the rest in order.
pub proof fn law_dequeue_takes_oldest<T>(poisoned: bool, before: Seq<T>, r: DequeueOutcome<T>, after: Seq<T>)
    requires
        dequeue_spec(poisoned, before, r, after),
    ensures
        r is Item ==> before.len() > 0 && r->0 == before[0] && before == seq![r->0] + after,
        !(r is Item) ==> after == before && before.len() == 0,
        r is Poisoned ==> poisoned,
        r is Empty ==> !poisoned,
{
    if r is Item {
        assert(before =~= seq![before[0]] + before.subrange(1, before.len() as int));
    }
}

/// What a dequeue gives back of an enqueue: on a shard that was empty and
/// had room, an enqueued item is what the next dequeue of that shard
/// returns, poisoned buffer or not, and the shard is empty again.
pub proof fn law_dequeue_returns_enqueued<T>(
    cap: nat,
    x: T,
    r1: EnqueueOutcome<T>,
    mid: Seq<T>,
    poisoned_later: bool,
    r2: DequeueOutcome<T>,
    after: Seq<T>,
)
    requires
        cap > 0,
        enqueue_spec(false, Seq::<T>::empty(), cap, x, r1, mid),
        dequeue_spec(poisoned_later, mid, r2, after),
    ensures
        r1 is Enqueued,
        r2 == DequeueOutcome::Item(x),
        after.len() == 0,
{
}

/// What one enqueue attempt does to the chosen shard: a poisoned buffer
/// drops the item, a full shard hands it back, otherwise the item becomes
/// the shard's newest.
pub open spec fn enqueue_spec<T>(
    poisoned: bool,
    before: Seq<T>,
    cap: nat,
    item: T,
    r: EnqueueOutcome<T>,
    after: Seq<T>,
) -> bool {
    if poisoned {
        r is Poisoned && after == before
    } else if before.len() == cap {
        r == EnqueueOutcome::Full(item) && after == before
    } else {
        r is Enqueued && after == before.push(item)
    }
}

/// What one batch enqueue does to the chosen shard: a poisoned buffer drops
/// the batch, a shard with too few free slots hands it back, otherwise the
/// batch is appended in order.
pub open spec fn batch_spec<T>(
    poisoned: bool,
    before: Seq<T>,
    cap: nat,
    items: Seq<T>,
    r: BatchOutcome<T>,
    after: Seq<T>,
) -> bool {
    if poisoned {
        r is Poisoned && after == before
    } else if cap - before.len() < items.len() {
        r is NoRoom && r->0@ == items && after == before
    } else {
        r is Enqueued && after == before + items
    }
}

/// What one dequeue attempt does to the chosen shard: it takes the oldest
/// item if there is one; otherwise it reports a poisoned buffer, or else an
/// empty shard.
pub open spec fn dequeue_spec<T>(
    poisoned: bool,
    before: Seq<T>,
    r: DequeueOutcome<T>,
    after: Seq<T>,
) -> bool {
    if before.len() > 0 {
        r == DequeueOutcome::Item(before[0]) && after == before.subrange(1, before.len() as int)
    } else if poisoned {
        r is Poisoned && after == before
    } else {
        r is Empty && after == before
    }
}

/// What one drain attempt does to the chosen shard: it takes every item if
/// there is one; otherwise it reports a poisoned buffer, or else an empty
/// shard.
pub open spec fn drain_spec<T>(
    poisoned: bool,
    before: Seq<T>,
    r: DrainOutcome<T>,
    after: Seq<T>,
) -> bool {
    if before.len() > 0 {
        r is Items && r->0@ == before && after.len() == 0
    } else if poisoned {
        r is Poisoned && after == before
    } else {
        r is Empty && after == before
    }
}

} // verus!
