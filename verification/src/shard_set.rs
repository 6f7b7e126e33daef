//! The shards of a sharded buffer, together with their capacity layout.
//!
//! Every buffer type of this crate that keeps its items in plain ring
//! buffers stores them in a `ShardSet`; the buffer types add their own
//! policy (poisoning, shard selection) on top.
use crate::inner::{ring_next, ring_slot, InnerRingBuffer};
use crate::layout::{
    capacity_prefix_sum, lemma_shard_capacities_sum, shard_capacities, shard_capacity_of,
    valid_layout,
};
use vstd::prelude::*;

verus! {

/// The sum of the lengths of a sequence of sequences.
pub open spec fn total_len<T>(s: Seq<Seq<T>>) -> nat
    decreases s.len(),
{
    if s.len() == 0 {
        0
    } else {
        total_len(s.drop_last()) + s.last().len()
    }
}

/// Replacing one element of `s` changes the total length by the difference
/// in length of that element.
pub proof fn lemma_total_len_update<T>(s: Seq<Seq<T>>, i: int, x: Seq<T>)
    requires
        0 <= i < s.len(),
    ensures
        total_len(s.update(i, x)) + s[i].len() == total_len(s) + x.len(),
    decreases s.len(),
{
    let t = s.update(i, x);
    if i == s.len() - 1 {
        assert(t.drop_last() =~= s.drop_last());
    } else {
        lemma_total_len_update(s.drop_last(), i, x);
        assert(t.drop_last() =~= s.drop_last().update(i, x));
    }
}

/// A sequence of empty sequences has total length zero.
pub proof fn lemma_total_len_all_empty<T>(s: Seq<Seq<T>>)
    requires
        forall|i: int| 0 <= i < s.len() ==> (#[trigger] s[i]).len() == 0,
    ensures
        total_len(s) == 0,
    decreases s.len(),
{
    if s.len() > 0 {
        lemma_total_len_all_empty(s.drop_last());
    }
}

/// The total length is zero only when every element is empty.
pub proof fn lemma_total_len_zero<T>(s: Seq<Seq<T>>, i: int)
    requires
        total_len(s) == 0,
        0 <= i < s.len(),
    ensures
        s[i].len() == 0,
    decreases s.len(),
{
    if i < s.len() - 1 {
        lemma_total_len_zero(s.drop_last(), i);
    }
}

/// The shards of a buffer.
pub struct ShardSet<T> {
    capacity: usize,
    inner_rb: Vec<InnerRingBuffer<T>>,
}

impl<T> View for ShardSet<T> {
    type V = Seq<Seq<T>>;

    /// The live items of every shard, oldest first.
    closed spec fn view(&self) -> Seq<Seq<T>> {
        Seq::new(self.inner_rb@.len(), |i: int| self.inner_rb@[i]@)
    }
}

impl<T> ShardSet<T> {
    /// The number of shards.
    pub closed spec fn num_shards(&self) -> nat {
        self.inner_rb@.len()
    }

    /// Shard `i`.
    pub closed spec fn shard(&self, i: int) -> InnerRingBuffer<T> {
        self.inner_rb@[i]
    }

    /// The total capacity that the set was created with.
    pub closed spec fn total_capacity(&self) -> nat {
        self.capacity as nat
    }

    /// The set's invariant: a valid layout and well-formed shards whose
    /// capacities follow it.
    pub closed spec fn wf(&self) -> bool {
        &&& valid_layout(self.capacity as nat, self.inner_rb@.len())
        &&& forall|i: int|
            0 <= i < self.inner_rb@.len() ==> (#[trigger] self.inner_rb@[i]).wf()
                && self.inner_rb@[i].cap() == shard_capacity_of(
                self.capacity as nat,
                self.inner_rb@.len(),
                i as nat,
            )
    }

    /// Every shard is empty.
    pub open spec fn all_empty(&self) -> bool {
        forall|i: int| 0 <= i < self.num_shards() ==> (#[trigger] self.shard(i))@.len() == 0
    }

    /// Every shard is full.
    pub open spec fn all_full(&self) -> bool {
        forall|i: int|
            0 <= i < self.num_shards() ==> (#[trigger] self.shard(i))@.len() == self.shard(i).cap()
    }

    /// The number of items held over all shards.
    pub open spec fn item_count(&self) -> nat {
        total_len(self@)
    }

    /// Only shard `i` may differ between `self` and `other`, and both have
    /// the same layout.
    pub open spec fn same_except(&self, other: &Self, i: int) -> bool {
        &&& self.num_shards() == other.num_shards()
        &&& self.total_capacity() == other.total_capacity()
        &&& forall|j: int|
            0 <= j < self.num_shards() && j != i ==> #[trigger] other.shard(j) == self.shard(j)
    }

    /// Facts about the set's layout and shards that callers use.
    pub proof fn lemma_wf_facts(&self)
        requires
            self.wf(),
        ensures
            valid_layout(self.total_capacity(), self.num_shards()),
            self@.len() == self.num_shards(),
            forall|i: int| 0 <= i < self.num_shards() ==> #[trigger] self@[i] == self.shard(i)@,
            forall|i: int|
                0 <= i < self.num_shards() ==> (#[trigger] self.shard(i)).wf() && self.shard(
                    i,
                ).cap() == shard_capacity_of(
                    self.total_capacity(),
                    self.num_shards(),
                    i as nat,
                ) && self.shard(i).cap() > 0 && self.shard(i)@.len() <= self.shard(i).cap()
                    && self.shard(i)@.len() <= usize::MAX && self.shard(i).deq() < self.shard(i).cap()
                    && self.shard(i).enq() as int == ring_slot(
                    self.shard(i).deq() as int,
                    self.shard(i)@.len() as int,
                    self.shard(i).cap() as int,
                ),
            capacity_prefix_sum(self.total_capacity(), self.num_shards(), self.num_shards())
                == self.total_capacity(),
    {
        lemma_shard_capacities_sum(self.total_capacity(), self.num_shards());
        assert forall|i: int| 0 <= i < self.num_shards() implies (#[trigger] self.shard(i)).wf()
            && self.shard(i).cap() > 0 && self.shard(i)@.len() <= self.shard(i).cap()
            && self.shard(i)@.len() <= usize::MAX && self.shard(i).deq() < self.shard(i).cap()
            && self.shard(i).enq() as int == ring_slot(
            self.shard(i).deq() as int,
            self.shard(i)@.len() as int,
            self.shard(i).cap() as int,
        ) by {
            self.shard(i).lemma_wf_facts();
        }
    }

    /// Creates `shards` empty shards that share `capacity` slots.
    pub fn new(capacity: usize, shards: usize) -> (s: Self)
        requires
            valid_layout(capacity as nat, shards as nat),
        ensures
            s.wf(),
            s.num_shards() == shards,
            s.total_capacity() == capacity,
            s.all_empty(),
            forall|i: int|
                0 <= i < shards ==> (#[trigger] s.shard(i)).enq() == 0 && s.shard(i).deq() == 0,
    {
        let caps = shard_capacities(capacity, shards);
        let mut inner_rb: Vec<InnerRingBuffer<T>> = Vec::with_capacity(shards);
        let mut i: usize = 0;
        while i < shards
            invariant
                i <= shards,
                caps@.len() == shards,
                valid_layout(capacity as nat, shards as nat),
                forall|k: int|
                    0 <= k < shards ==> #[trigger] caps@[k] == shard_capacity_of(
                        capacity as nat,
                        shards as nat,
                        k as nat,
                    ),
                inner_rb@.len() == i,
                forall|k: int|
                    0 <= k < i ==> (#[trigger] inner_rb@[k]).wf() && inner_rb@[k].cap()
                        == shard_capacity_of(capacity as nat, shards as nat, k as nat)
                        && inner_rb@[k]@.len() == 0 && inner_rb@[k].enq() == 0
                        && inner_rb@[k].deq() == 0,
            decreases shards - i,
        {
            proof {
                crate::layout::lemma_shard_capacities_balanced(
                    capacity as nat,
                    shards as nat,
                    i as nat,
                    i as nat,
                );
            }
            inner_rb.push(InnerRingBuffer::new(caps[i]));
            i = i + 1;
        }
        ShardSet { capacity, inner_rb }
    }

    /// The number of shards.
    pub fn get_num_of_shards(&self) -> (n: usize)
        requires
            self.wf(),
        ensures
            n == self.num_shards(),
    {
        self.inner_rb.len()
    }

    /// The total capacity.
    pub fn get_total_capacity(&self) -> (c: usize)
        requires
            self.wf(),
        ensures
            c == self.total_capacity(),
    {
        self.capacity
    }

    /// The capacity of shard `shard_ind`, or `None` for an invalid index.
    pub fn get_shard_capacity(&self, shard_ind: usize) -> (c: Option<usize>)
        requires
            self.wf(),
        ensures
            shard_ind < self.num_shards() ==> c == Some(self.shard(shard_ind as int).cap() as usize),
            shard_ind >= self.num_shards() ==> c is None,
    {
        if shard_ind >= self.inner_rb.len() {
            return None;
        }
        Some(self.inner_rb[shard_ind].capacity())
    }

    /// Whether shard `shard_ind` holds no item.
    pub fn is_shard_empty(&self, shard_ind: usize) -> (b: bool)
        requires
            self.wf(),
            shard_ind < self.num_shards(),
        ensures
            b == (self.shard(shard_ind as int)@.len() == 0),
    {
        self.inner_rb[shard_ind].is_empty()
    }

    /// Whether every slot of shard `shard_ind` holds an item.
    pub fn is_shard_full(&self, shard_ind: usize) -> (b: bool)
        requires
            self.wf(),
            shard_ind < self.num_shards(),
        ensures
            b == (self.shard(shard_ind as int)@.len() == self.shard(shard_ind as int).cap()),
    {
        self.inner_rb[shard_ind].is_full()
    }

    /// Whether shard `shard_ind` has fewer free slots than `batch_count`.
    pub fn is_shard_full_batch(&self, shard_ind: usize, batch_count: usize) -> (b: bool)
        requires
            self.wf(),
            shard_ind < self.num_shards(),
        ensures
            b == (self.shard(shard_ind as int).cap() - self.shard(shard_ind as int)@.len()
                < batch_count),
    {
        proof {
            self.lemma_wf_facts();
        }
        assert(self.shard(shard_ind as int)@.len() <= self.shard(shard_ind as int).cap());
        let shard = &self.inner_rb[shard_ind];
        shard.capacity() - shard.len() < batch_count
    }

    /// Whether every shard is empty.
    pub fn is_empty(&self) -> (b: bool)
        requires
            self.wf(),
        ensures
            b == self.all_empty(),
    {
        let n = self.inner_rb.len();
        let mut i: usize = 0;
        while i < n
            invariant
                self.wf(),
                n == self.num_shards(),
                i <= n,
                forall|k: int| 0 <= k < i ==> (#[trigger] self.shard(k))@.len() == 0,
            decreases n - i,
        {
            if !self.inner_rb[i].is_empty() {
                assert(self.shard(i as int)@.len() != 0);
                return false;
            }
            i = i + 1;
        }
        true
    }

    /// Whether every shard is full.
    pub fn is_full(&self) -> (b: bool)
        requires
            self.wf(),
        ensures
            b == self.all_full(),
    {
        let n = self.inner_rb.len();
        let mut i: usize = 0;
        while i < n
            invariant
                self.wf(),
                n == self.num_shards(),
                i <= n,
                forall|k: int|
                    0 <= k < i ==> (#[trigger] self.shard(k))@.len() == self.shard(k).cap(),
            decreases n - i,
        {
            if !self.inner_rb[i].is_full() {
                assert(self.shard(i as int)@.len() != self.shard(i as int).cap());
                return false;
            }
            i = i + 1;
        }
        true
    }

    /// The enqueue index of shard `shard_ind`, or `None` for an invalid index.
    pub fn get_enq_ind_at_shard(&self, shard_ind: usize) -> (r: Option<usize>)
        requires
            self.wf(),
        ensures
            shard_ind < self.num_shards() ==> r == Some(self.shard(shard_ind as int).enq() as usize),
            shard_ind >= self.num_shards() ==> r is None,
    {
        if shard_ind >= self.inner_rb.len() {
            return None;
        }
        Some(self.inner_rb[shard_ind].enqueue_index())
    }

    /// The dequeue index of shard `shard_ind`, or `None` for an invalid index.
    pub fn get_deq_ind_at_shard(&self, shard_ind: usize) -> (r: Option<usize>)
        requires
            self.wf(),
        ensures
            shard_ind < self.num_shards() ==> r == Some(self.shard(shard_ind as int).deq() as usize),
            shard_ind >= self.num_shards() ==> r is None,
    {
        if shard_ind >= self.inner_rb.len() {
            return None;
        }
        Some(self.inner_rb[shard_ind].dequeue_index())
    }

    /// The number of items in shard `shard_ind`, or `None` for an invalid index.
    pub fn get_job_count_at_shard(&self, shard_ind: usize) -> (r: Option<usize>)
        requires
            self.wf(),
        ensures
            shard_ind < self.num_shards() ==> r == Some(
                self.shard(shard_ind as int)@.len() as usize,
            ),
            shard_ind >= self.num_shards() ==> r is None,
    {
        if shard_ind >= self.inner_rb.len() {
            return None;
        }
        Some(self.inner_rb[shard_ind].len())
    }

    /// The number of items in every shard, in shard order.
    pub fn get_job_count_total(&self) -> (r: Vec<usize>)
        requires
            self.wf(),
        ensures
            r@.len() == self.num_shards(),
            forall|i: int| 0 <= i < self.num_shards() ==> #[trigger] r@[i] == self.shard(i)@.len(),
    {
        let n = self.inner_rb.len();
        let mut count: Vec<usize> = Vec::new();
        let mut i: usize = 0;
        while i < n
            invariant
                self.wf(),
                n == self.num_shards(),
                i <= n,
                count@.len() == i,
                forall|k: int| 0 <= k < i ==> #[trigger] count@[k] == self.shard(k)@.len(),
            decreases n - i,
        {
            count.push(self.inner_rb[i].len());
            i = i + 1;
        }
        count
    }

    /// Appends `item` to shard `shard_ind`.
    pub fn push(&mut self, shard_ind: usize, item: T)
        requires
            old(self).wf(),
            shard_ind < old(self).num_shards(),
            old(self).shard(shard_ind as int)@.len() < old(self).shard(shard_ind as int).cap(),
        ensures
            final(self).wf(),
            old(self).same_except(&*final(self), shard_ind as int),
            final(self).shard(shard_ind as int)@ == old(self).shard(shard_ind as int)@.push(item),
            final(self).shard(shard_ind as int).cap() == old(self).shard(shard_ind as int).cap(),
            final(self).shard(shard_ind as int).deq() == old(self).shard(shard_ind as int).deq(),
            final(self).shard(shard_ind as int).enq() as int == ring_next(
                old(self).shard(shard_ind as int).enq() as int,
                old(self).shard(shard_ind as int).cap() as int,
            ),
            final(self).item_count() == old(self).item_count() + 1,
    {
        let ghost old_view = self@;
        self.inner_rb[shard_ind].push(item);
        proof {
            assert(self@ =~= old_view.update(shard_ind as int, self.inner_rb@[shard_ind as int]@));
            lemma_total_len_update(old_view, shard_ind as int, self.inner_rb@[shard_ind as int]@);
        }
    }

    /// Removes and returns the oldest item of shard `shard_ind`.
    pub fn pop(&mut self, shard_ind: usize) -> (item: T)
        requires
            old(self).wf(),
            shard_ind < old(self).num_shards(),
            old(self).shard(shard_ind as int)@.len() > 0,
        ensures
            final(self).wf(),
            old(self).same_except(&*final(self), shard_ind as int),
            item == old(self).shard(shard_ind as int)@[0],
            final(self).shard(shard_ind as int)@ == old(self).shard(shard_ind as int)@.subrange(
                1,
                old(self).shard(shard_ind as int)@.len() as int,
            ),
            final(self).shard(shard_ind as int).cap() == old(self).shard(shard_ind as int).cap(),
            final(self).shard(shard_ind as int).enq() == old(self).shard(shard_ind as int).enq(),
            final(self).shard(shard_ind as int).deq() as int == ring_next(
                old(self).shard(shard_ind as int).deq() as int,
                old(self).shard(shard_ind as int).cap() as int,
            ),
            final(self).item_count() + 1 == old(self).item_count(),
    {
        let ghost old_view = self@;
        let item = self.inner_rb[shard_ind].pop();
        proof {
            assert(self@ =~= old_view.update(shard_ind as int, self.inner_rb@[shard_ind as int]@));
            lemma_total_len_update(old_view, shard_ind as int, self.inner_rb@[shard_ind as int]@);
        }
        item
    }

    /// Appends every item of `items` to shard `shard_ind`, in order.
    pub fn push_all(&mut self, shard_ind: usize, items: Vec<T>)
        requires
            old(self).wf(),
            shard_ind < old(self).num_shards(),
            old(self).shard(shard_ind as int)@.len() + items@.len() <= old(self).shard(
                shard_ind as int,
            ).cap(),
        ensures
            final(self).wf(),
            old(self).same_except(&*final(self), shard_ind as int),
            final(self).shard(shard_ind as int)@ == old(self).shard(shard_ind as int)@ + items@,
            final(self).shard(shard_ind as int).cap() == old(self).shard(shard_ind as int).cap(),
            final(self).shard(shard_ind as int).deq() == old(self).shard(shard_ind as int).deq(),
            final(self).item_count() == old(self).item_count() + items@.len(),
    {
        let ghost all = items@;
        let mut rest = items;
        let total = rest.len();
        let mut i: usize = 0;
        while i < total
            invariant
                self.wf(),
                shard_ind < self.num_shards(),
                old(self).same_except(&*self, shard_ind as int),
                total == all.len(),
                i <= total,
                rest@ == all.subrange(i as int, total as int),
                self.shard(shard_ind as int)@ == old(self).shard(shard_ind as int)@ + all.subrange(
                    0,
                    i as int,
                ),
                self.shard(shard_ind as int).cap() == old(self).shard(shard_ind as int).cap(),
                self.shard(shard_ind as int).deq() == old(self).shard(shard_ind as int).deq(),
                old(self).shard(shard_ind as int)@.len() + all.len() <= old(self).shard(
                    shard_ind as int,
                ).cap(),
                self.item_count() == old(self).item_count() + i,
            decreases total - i,
        {
            let item = rest.remove(0);
            let ghost before = *self;
            self.push(shard_ind, item);
            proof {
                assert(all.subrange(0, i as int + 1) =~= all.subrange(0, i as int).push(item));
                assert(rest@ =~= all.subrange(i as int + 1, total as int));
                assert forall|j: int|
                    0 <= j < self.num_shards() && j != shard_ind as int implies #[trigger] self.shard(j)
                    == old(self).shard(j) by {
                    assert(before.shard(j) == old(self).shard(j));
                }
            }
            i = i + 1;
        }
        assert(all.subrange(0, total as int) =~= all);
    }

    /// Removes every item of shard `shard_ind` and returns them, oldest first.
    pub fn pop_all(&mut self, shard_ind: usize) -> (items: Vec<T>)
        requires
            old(self).wf(),
            shard_ind < old(self).num_shards(),
        ensures
            final(self).wf(),
            old(self).same_except(&*final(self), shard_ind as int),
            items@ == old(self).shard(shard_ind as int)@,
            final(self).shard(shard_ind as int)@.len() == 0,
            final(self).shard(shard_ind as int).cap() == old(self).shard(shard_ind as int).cap(),
            final(self).shard(shard_ind as int).enq() == old(self).shard(shard_ind as int).enq(),
            final(self).shard(shard_ind as int).deq() == old(self).shard(shard_ind as int).enq(),
            final(self).item_count() + items@.len() == old(self).item_count(),
    {
        let ghost all = self.shard(shard_ind as int)@;
        let mut out: Vec<T> = Vec::new();
        while !self.inner_rb[shard_ind].is_empty()
            invariant
                self.wf(),
                shard_ind < self.num_shards(),
                old(self).same_except(&*self, shard_ind as int),
                out@ + self.shard(shard_ind as int)@ == all,
                self.shard(shard_ind as int).cap() == old(self).shard(shard_ind as int).cap(),
                self.shard(shard_ind as int).enq() == old(self).shard(shard_ind as int).enq(),
                self.item_count() + out@.len() == old(self).item_count(),
            decreases self.shard(shard_ind as int)@.len(),
        {
            let ghost before = *self;
            let item = self.pop(shard_ind);
            out.push(item);
            proof {
                let b = before.shard(shard_ind as int)@;
                assert(b =~= seq![item] + b.subrange(1, b.len() as int));
                assert(out@ + self.shard(shard_ind as int)@ =~= all);
                assert forall|j: int|
                    0 <= j < self.num_shards() && j != shard_ind as int implies #[trigger] self.shard(j)
                    == old(self).shard(j) by {
                    assert(before.shard(j) == old(self).shard(j));
                }
            }
        }
        assert(out@ =~= all);
        proof {
            self.lemma_wf_facts();
            self.shard(shard_ind as int).lemma_wf_facts();
        }
        out
    }

    /// Empties every shard and moves every index back to slot 0.
    pub fn clear(&mut self)
        requires
            old(self).wf(),
        ensures
            final(self).wf(),
            final(self).num_shards() == old(self).num_shards(),
            final(self).total_capacity() == old(self).total_capacity(),
            final(self).all_empty(),
            final(self).item_count() == 0,
            forall|i: int|
                0 <= i < final(self).num_shards() ==> (#[trigger] final(self).shard(i)).cap()
                    == old(self).shard(i).cap() && final(self).shard(i).enq() == 0
                    && final(self).shard(i).deq() == 0,
    {
        let n = self.inner_rb.len();
        let mut i: usize = 0;
        while i < n
            invariant
                self.wf(),
                n == self.num_shards(),
                self.num_shards() == old(self).num_shards(),
                self.total_capacity() == old(self).total_capacity(),
                i <= n,
                forall|k: int|
                    0 <= k < n ==> (#[trigger] self.shard(k)).cap() == old(self).shard(k).cap(),
                forall|k: int|
                    0 <= k < i ==> (#[trigger] self.shard(k))@.len() == 0 && self.shard(k).enq()
                        == 0 && self.shard(k).deq() == 0,
            decreases n - i,
        {
            let ghost prev = *self;
            self.inner_rb[i].clear();
            proof {
                assert(self.inner_rb@ == prev.inner_rb@.update(i as int, self.inner_rb@[i as int]));
                assert forall|k: int| 0 <= k < n implies (#[trigger] self.shard(k)).cap() == old(
                    self,
                ).shard(k).cap() by {
                    assert(prev.shard(k).cap() == old(self).shard(k).cap());
                }
                assert forall|k: int| 0 <= k <= i implies (#[trigger] self.shard(k))@.len() == 0
                    && self.shard(k).enq() == 0 && self.shard(k).deq() == 0 by {
                    if k < i {
                        assert(prev.shard(k)@.len() == 0);
                    }
                }
            }
            i = i + 1;
        }
        proof {
            assert forall|k: int| 0 <= k < self@.len() implies (#[trigger] self@[k]).len() == 0 by {
                assert(self@[k] == self.shard(k)@);
            }
            lemma_total_len_all_empty(self@);
        }
    }

    /// A reference to the item in slot `item_ind` of shard `shard_ind`, if
    /// both indices are valid and that slot is live.
    pub fn peek_item_at_shard(&self, item_ind: usize, shard_ind: usize) -> (r: Option<&T>)
        requires
            self.wf(),
        ensures
            shard_ind < self.num_shards() && self.shard(shard_ind as int).slot_live(item_ind as int)
                ==> r == Some(&self.shard(shard_ind as int).slot_item(item_ind as int)),
            !(shard_ind < self.num_shards() && self.shard(shard_ind as int).slot_live(
                item_ind as int,
            )) ==> r is None,
    {
        if shard_ind >= self.inner_rb.len() {
            return None;
        }
        self.inner_rb[shard_ind].peek_slot(item_ind)
    }

    /// A clone of the item in slot `item_ind` of shard `shard_ind`, if both
    /// indices are valid and that slot is live.
    pub fn clone_item_at_shard(&self, item_ind: usize, shard_ind: usize) -> (r: Option<T>) where
        T: Clone,

        requires
            self.wf(),
        ensures
            shard_ind < self.num_shards() && self.shard(shard_ind as int).slot_live(item_ind as int)
                ==> r is Some && cloned(
                self.shard(shard_ind as int).slot_item(item_ind as int),
                r->0,
            ),
            !(shard_ind < self.num_shards() && self.shard(shard_ind as int).slot_live(
                item_ind as int,
            )) ==> r is None,
    {
        if shard_ind >= self.inner_rb.len() {
            return None;
        }
        self.inner_rb[shard_ind].clone_slot(item_ind)
    }

    /// A clone of every slot of shard `shard_ind`, or `None` for an invalid index.
    pub fn clone_items_at_shard(&self, shard_ind: usize) -> (r: Option<Vec<Option<T>>>) where
        T: Clone,

        requires
            self.wf(),
        ensures
            shard_ind >= self.num_shards() ==> r is None,
            shard_ind < self.num_shards() ==> r is Some && slots_cloned(
                self.shard(shard_ind as int),
                r->0@,
            ),
    {
        if shard_ind >= self.inner_rb.len() {
            return None;
        }
        Some(self.inner_rb[shard_ind].clone_slots())
    }

    /// A clone of every slot of every shard.
    pub fn clone_items(&self) -> (r: Vec<Vec<Option<T>>>) where T: Clone
        requires
            self.wf(),
        ensures
            r@.len() == self.num_shards(),
            forall|i: int|
                0 <= i < self.num_shards() ==> slots_cloned(self.shard(i), (#[trigger] r@[i])@),
    {
        let n = self.inner_rb.len();
        let mut out: Vec<Vec<Option<T>>> = Vec::with_capacity(n);
        let mut i: usize = 0;
        while i < n
            invariant
                self.wf(),
                n == self.num_shards(),
                i <= n,
                out@.len() == i,
                forall|k: int| 0 <= k < i ==> slots_cloned(self.shard(k), (#[trigger] out@[k])@),
            decreases n - i,
        {
            out.push(self.inner_rb[i].clone_slots());
            i = i + 1;
        }
        out
    }
}

/// Changing one shard changes the number of items in the set by exactly
/// the change in that shard: items are neither lost nor duplicated in the
/// other shards.
pub proof fn law_item_count_follows_shard_change<T>(before: ShardSet<T>, after: ShardSet<T>, s: int)
    requires
        before.wf(),
        after.wf(),
        0 <= s < before.num_shards(),
        before.same_except(&after, s),
    ensures
        after.item_count() + before.shard(s)@.len() == before.item_count() + after.shard(s)@.len(),
{
    before.lemma_wf_facts();
    after.lemma_wf_facts();
    assert(after@ =~= before@.update(s, after.shard(s)@));
    lemma_total_len_update(before@, s, after.shard(s)@);
}

proof fn lemma_total_len_prefix<T>(s: Seq<Seq<T>>, k: int)
    requires
        0 <= k < s.len(),
    ensures
        total_len(s.subrange(0, k + 1)) == total_len(s.subrange(0, k)) + s[k].len(),
{
    assert(s.subrange(0, k + 1).drop_last() =~= s.subrange(0, k));
}

/// A set whose every shard is full holds exactly its total capacity.
pub proof fn law_full_set_holds_capacity<T>(set: ShardSet<T>)
    requires
        set.wf(),
        set.all_full(),
    ensures
        set.item_count() == set.total_capacity(),
{
    set.lemma_wf_facts();
    lemma_full_prefix(set, set.num_shards() as int);
    assert(set@.subrange(0, set.num_shards() as int) =~= set@);
}

proof fn lemma_full_prefix<T>(set: ShardSet<T>, k: int)
    requires
        set.wf(),
        set.all_full(),
        0 <= k <= set.num_shards(),
    ensures
        total_len(set@.subrange(0, k)) == crate::layout::capacity_prefix_sum(
            set.total_capacity(),
            set.num_shards(),
            k as nat,
        ),
    decreases k,
{
    set.lemma_wf_facts();
    if k == 0 {
        assert(set@.subrange(0, 0) =~= Seq::<Seq<T>>::empty());
    } else {
        lemma_full_prefix(set, k - 1);
        lemma_total_len_prefix(set@, k - 1);
        assert(set@[k - 1].len() == set.shard(k - 1).cap());
    }
}

/// In a full shard the enqueue index has come round to the dequeue index.
pub proof fn law_full_shard_indices_meet<T>(set: ShardSet<T>, i: int)
    requires
        set.wf(),
        0 <= i < set.num_shards(),
        set.shard(i)@.len() == set.shard(i).cap(),
    ensures
        set.shard(i).enq() == set.shard(i).deq(),
{
    set.lemma_wf_facts();
    set.shard(i).lemma_wf_facts();
}

/// Every shard's enqueue index lies as many slots after its dequeue index
/// as the shard holds items, counting round the ring.
pub proof fn law_enqueue_index_follows_items<T>(set: ShardSet<T>, i: int)
    requires
        set.wf(),
        0 <= i < set.num_shards(),
    ensures
        set.shard(i).enq() == (set.shard(i).deq() + set.shard(i)@.len()) % set.shard(i).cap(),
{
    set.lemma_wf_facts();
    let sh = set.shard(i);
    sh.lemma_wf_facts();
    let d = sh.deq() as int;
    let l = sh@.len() as int;
    let c = sh.cap() as int;
    if d + l < c {
        vstd::arithmetic::div_mod::lemma_small_mod((d + l) as nat, c as nat);
    } else {
        vstd::arithmetic::div_mod::lemma_mod_add_multiples_vanish(d + l - c, c);
        vstd::arithmetic::div_mod::lemma_small_mod((d + l - c) as nat, c as nat);
    }
}

/// `slots` is a slot-by-slot clone of `shard`: one entry per slot, `Some`
/// with a clone of the item for the live slots and `None` for the others.
pub open spec fn slots_cloned<T: Clone>(shard: InnerRingBuffer<T>, slots: Seq<Option<T>>) -> bool {
    &&& slots.len() == shard.cap()
    &&& forall|j: int|
        0 <= j < shard.cap() ==> ((#[trigger] slots[j]) is Some) == shard.slot_live(j) && (
        shard.slot_live(j) ==> cloned(shard.slot_item(j), slots[j]->0))
}

} // verus!
