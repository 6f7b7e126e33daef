//! One shard: a bounded FIFO ring buffer over a fixed number of slots.
//!
//! The live items occupy the slots from the dequeue index onwards, wrapping
//! around at the end of the slot array; the enqueue index is the first slot
//! after them.
use vstd::prelude::*;

verus! {

/// The slot that holds the `k`-th live item of a ring whose oldest item
/// sits in slot `deq` and which has `cap` slots.
pub open spec fn ring_slot(deq: int, k: int, cap: int) -> int {
    if deq + k < cap {
        deq + k
    } else {
        deq + k - cap
    }
}

/// How far slot `j` lies after slot `deq`, going round a ring of `cap` slots.
pub open spec fn ring_offset(deq: int, j: int, cap: int) -> int {
    if j >= deq {
        j - deq
    } else {
        j + cap - deq
    }
}

/// The index that follows `i` in a ring of `cap` slots, that is `(i + 1) % cap`.
pub open spec fn ring_next(i: int, cap: int) -> int {
    if i + 1 == cap {
        0
    } else {
        i + 1
    }
}

/// A shard of the sharded buffer: a ring buffer with a fixed capacity.
pub struct InnerRingBuffer<T> {
    items: Vec<Option<T>>,
    enqueue_index: usize,
    dequeue_index: usize,
    job_count: usize,
}

impl<T> View for InnerRingBuffer<T> {
    type V = Seq<T>;

    /// The live items, oldest first.
    closed spec fn view(&self) -> Seq<T> {
        Seq::new(
            self.job_count as nat,
            |k: int|
                self.items@[ring_slot(
                    self.dequeue_index as int,
                    k,
                    self.items@.len() as int,
                )].unwrap(),
        )
    }
}

impl<T> InnerRingBuffer<T> {
    /// The number of slots of this shard.
    pub closed spec fn cap(&self) -> nat {
        self.items@.len()
    }

    /// The slot that the next enqueue writes.
    pub closed spec fn enq(&self) -> nat {
        self.enqueue_index as nat
    }

    /// The slot that the next dequeue reads.
    pub closed spec fn deq(&self) -> nat {
        self.dequeue_index as nat
    }

    /// The ring's internal invariant.
    pub closed spec fn wf(&self) -> bool {
        let cap = self.items@.len() as int;
        &&& cap > 0
        &&& self.dequeue_index < cap
        &&& self.job_count <= cap
        &&& self.enqueue_index as int == ring_slot(
            self.dequeue_index as int,
            self.job_count as int,
            cap,
        )
        &&& forall|j: int|
            0 <= j < cap ==> (#[trigger] self.items@[j]).is_some() == (ring_offset(
                self.dequeue_index as int,
                j,
                cap,
            ) < self.job_count)
    }

    /// Slot `j` holds a live item.
    pub open spec fn slot_live(&self, j: int) -> bool {
        0 <= j < self.cap() && ring_offset(self.deq() as int, j, self.cap() as int) < self@.len()
    }

    /// The item that a live slot `j` holds.
    pub open spec fn slot_item(&self, j: int) -> T {
        self@[ring_offset(self.deq() as int, j, self.cap() as int)]
    }

    /// Facts that follow from the invariant and that callers use.
    pub proof fn lemma_wf_facts(&self)
        requires
            self.wf(),
        ensures
            self.cap() > 0,
            self.deq() < self.cap(),
            self.enq() < self.cap(),
            self@.len() <= self.cap(),
            self.enq() as int == ring_slot(self.deq() as int, self@.len() as int, self.cap() as int),
            self@.len() == self.cap() ==> self.enq() == self.deq(),
            self@.len() <= usize::MAX,
    {
    }

    proof fn lemma_slot_offset_inverse(&self)
        requires
            self.wf(),
        ensures
            forall|j: int|
                0 <= j < self.cap() ==> ring_slot(
                    self.deq() as int,
                    #[trigger] ring_offset(self.deq() as int, j, self.cap() as int),
                    self.cap() as int,
                ) == j && 0 <= ring_offset(self.deq() as int, j, self.cap() as int) < self.cap(),
    {
    }

    /// Creates an empty shard with `capacity` slots.
    pub fn new(capacity: usize) -> (rb: Self)
        requires
            capacity > 0,
        ensures
            rb.wf(),
            rb@ == Seq::<T>::empty(),
            rb.cap() == capacity,
            rb.enq() == 0,
            rb.deq() == 0,
    {
        let mut items: Vec<Option<T>> = Vec::with_capacity(capacity);
        let mut i: usize = 0;
        while i < capacity
            invariant
                i <= capacity,
                items@.len() == i,
                forall|j: int| 0 <= j < i ==> (#[trigger] items@[j]).is_none(),
            decreases capacity - i,
        {
            items.push(None);
            i = i + 1;
        }
        let rb = InnerRingBuffer { items, enqueue_index: 0, dequeue_index: 0, job_count: 0 };
        assert(rb@ =~= Seq::<T>::empty());
        rb
    }

    /// The number of slots of this shard.
    pub fn capacity(&self) -> (c: usize)
        requires
            self.wf(),
        ensures
            c == self.cap(),
    {
        self.items.len()
    }

    /// The number of live items.
    pub fn len(&self) -> (n: usize)
        requires
            self.wf(),
        ensures
            n == self@.len(),
    {
        self.job_count
    }

    /// Whether the shard holds no item.
    pub fn is_empty(&self) -> (b: bool)
        requires
            self.wf(),
        ensures
            b == (self@.len() == 0),
    {
        self.job_count == 0
    }

    /// Whether every slot of the shard holds an item.
    pub fn is_full(&self) -> (b: bool)
        requires
            self.wf(),
        ensures
            b == (self@.len() == self.cap()),
    {
        self.job_count == self.items.len()
    }

    /// The slot that the next enqueue writes.
    pub fn enqueue_index(&self) -> (i: usize)
        requires
            self.wf(),
        ensures
            i == self.enq(),
    {
        self.enqueue_index
    }

    /// The slot that the next dequeue reads.
    pub fn dequeue_index(&self) -> (i: usize)
        requires
            self.wf(),
        ensures
            i == self.deq(),
    {
        self.dequeue_index
    }

    /// Appends `item` after the newest item.
    pub fn push(&mut self, item: T)
        requires
            old(self).wf(),
            old(self)@.len() < old(self).cap(),
        ensures
            final(self).wf(),
            final(self)@ == old(self)@.push(item),
            final(self).cap() == old(self).cap(),
            final(self).deq() == old(self).deq(),
            final(self).enq() as int == ring_next(old(self).enq() as int, old(self).cap() as int),
    {
        let ghost old_view = self@;
        proof {
            self.lemma_slot_offset_inverse();
        }
        let slot = self.enqueue_index;
        let cap = self.items.len();
        assert(slot < cap);
        self.items.set(slot, Some(item));
        self.enqueue_index = if slot + 1 == cap {
            0
        } else {
            slot + 1
        };
        self.job_count = self.job_count + 1;
        proof {
            let cap = self.items@.len() as int;
            let deq = self.dequeue_index as int;
            assert forall|j: int| 0 <= j < cap implies (#[trigger] self.items@[j]).is_some() == (
            ring_offset(deq, j, cap) < self.job_count) by {
                if j != slot as int {
                    assert(ring_slot(deq, ring_offset(deq, j, cap), cap) == j);
                }
            }
            assert(self@ =~= old_view.push(item));
        }
    }

    /// Removes and returns the oldest item.
    pub fn pop(&mut self) -> (item: T)
        requires
            old(self).wf(),
            old(self)@.len() > 0,
        ensures
            final(self).wf(),
            item == old(self)@[0],
            final(self)@ == old(self)@.subrange(1, old(self)@.len() as int),
            final(self).cap() == old(self).cap(),
            final(self).enq() == old(self).enq(),
            final(self).deq() as int == ring_next(old(self).deq() as int, old(self).cap() as int),
    {
        let ghost old_view = self@;
        let ghost old_deq = self.dequeue_index as int;
        proof {
            self.lemma_slot_offset_inverse();
        }
        let slot = self.dequeue_index;
        let cap = self.items.len();
        assert(slot < cap);
        let mut taken: Option<T> = None;
        self.items.set_and_swap(slot, &mut taken);
        self.dequeue_index = if slot + 1 == cap {
            0
        } else {
            slot + 1
        };
        self.job_count = self.job_count - 1;
        proof {
            let cap = self.items@.len() as int;
            let deq = self.dequeue_index as int;
            assert forall|j: int| 0 <= j < cap implies (#[trigger] self.items@[j]).is_some() == (
            ring_offset(deq, j, cap) < self.job_count) by {
                if j != slot as int {
                    assert(ring_slot(old_deq, ring_offset(old_deq, j, cap), cap) == j);
                }
            }
            assert(self@ =~= old_view.subrange(1, old_view.len() as int));
        }
        taken.unwrap()
    }

    /// Whether slot `item_ind` holds a live item.
    pub fn is_item_in_shard(&self, item_ind: usize) -> (b: bool)
        requires
            self.wf(),
        ensures
            b == self.slot_live(item_ind as int),
    {
        if item_ind >= self.items.len() {
            return false;
        }
        let offset = if item_ind >= self.dequeue_index {
            item_ind - self.dequeue_index
        } else {
            (self.items.len() - self.dequeue_index) + item_ind
        };
        offset < self.job_count
    }

    /// A reference to the item in slot `item_ind`, if that slot is live.
    pub fn peek_slot(&self, item_ind: usize) -> (r: Option<&T>)
        requires
            self.wf(),
        ensures
            self.slot_live(item_ind as int) ==> r == Some(&self.slot_item(item_ind as int)),
            !self.slot_live(item_ind as int) ==> r is None,
    {
        proof {
            self.lemma_slot_offset_inverse();
        }
        if self.is_item_in_shard(item_ind) {
            self.items[item_ind].as_ref()
        } else {
            None
        }
    }

    /// A clone of the item in slot `item_ind`, if that slot is live.
    pub fn clone_slot(&self, item_ind: usize) -> (r: Option<T>) where T: Clone
        requires
            self.wf(),
        ensures
            self.slot_live(item_ind as int) ==> r is Some && cloned(
                self.slot_item(item_ind as int),
                r->0,
            ),
            !self.slot_live(item_ind as int) ==> r is None,
    {
        match self.peek_slot(item_ind) {
            Some(item) => Some(item.clone()),
            None => None,
        }
    }

    /// A clone of every slot, in slot order: `Some` for the live slots and
    /// `None` for the free ones.
    pub fn clone_slots(&self) -> (r: Vec<Option<T>>) where T: Clone
        requires
            self.wf(),
        ensures
            r@.len() == self.cap(),
            forall|j: int|
                0 <= j < self.cap() ==> ((#[trigger] r@[j]) is Some) == self.slot_live(j) && (
                self.slot_live(j) ==> cloned(self.slot_item(j), r@[j]->0)),
    {
        let capacity = self.items.len();
        let mut out: Vec<Option<T>> = Vec::with_capacity(capacity);
        let mut i: usize = 0;
        while i < capacity
            invariant
                self.wf(),
                capacity == self.cap(),
                i <= capacity,
                out@.len() == i,
                forall|j: int|
                    0 <= j < i ==> ((#[trigger] out@[j]) is Some) == self.slot_live(j) && (
                    self.slot_live(j) ==> cloned(self.slot_item(j), out@[j]->0)),
            decreases capacity - i,
        {
            let c = self.clone_slot(i);
            out.push(c);
            i = i + 1;
        }
        out
    }

    /// Empties the shard and moves both indices back to slot 0.
    pub fn clear(&mut self)
        requires
            old(self).wf(),
        ensures
            final(self).wf(),
            final(self)@ == Seq::<T>::empty(),
            final(self).cap() == old(self).cap(),
            final(self).enq() == 0,
            final(self).deq() == 0,
    {
        let capacity = self.items.len();
        let mut fresh: Vec<Option<T>> = Vec::with_capacity(capacity);
        let mut i: usize = 0;
        while i < capacity
            invariant
                i <= capacity,
                fresh@.len() == i,
                forall|j: int| 0 <= j < i ==> (#[trigger] fresh@[j]).is_none(),
            decreases capacity - i,
        {
            fresh.push(None);
            i = i + 1;
        }
        self.items = fresh;
        self.enqueue_index = 0;
        self.dequeue_index = 0;
        self.job_count = 0;
        assert(self@ =~= Seq::<T>::empty());
    }
}

/// The indices of a shard after an enqueue attempt: the dequeue index stays,
/// and the enqueue index moves on by one slot if the item was stored.
pub open spec fn enqueue_indices<T>(before: InnerRingBuffer<T>, after: InnerRingBuffer<T>, stored: bool) -> bool {
    &&& after.deq() == before.deq()
    &&& after.enq() as int == if stored {
        ring_next(before.enq() as int, before.cap() as int)
    } else {
        before.enq() as int
    }
}

/// The indices of a shard after a batch enqueue attempt: the dequeue index
/// stays, and the enqueue index is the slot after the shard's items.
pub open spec fn batch_indices<T>(before: InnerRingBuffer<T>, after: InnerRingBuffer<T>) -> bool {
    &&& after.deq() == before.deq()
    &&& after.enq() as int == ring_slot(before.deq() as int, after@.len() as int, before.cap() as int)
}

/// The indices of a shard after a dequeue attempt: the enqueue index stays,
/// and the dequeue index moves on by one slot if an item was taken.
pub open spec fn dequeue_indices<T>(before: InnerRingBuffer<T>, after: InnerRingBuffer<T>, taken: bool) -> bool {
    &&& after.enq() == before.enq()
    &&& after.deq() as int == if taken {
        ring_next(before.deq() as int, before.cap() as int)
    } else {
        before.deq() as int
    }
}

/// The indices of a shard after a drain attempt: the enqueue index stays,
/// and the dequeue index meets it if the items were taken.
pub open spec fn drain_indices<T>(before: InnerRingBuffer<T>, after: InnerRingBuffer<T>, taken: bool) -> bool {
    &&& after.enq() == before.enq()
    &&& after.deq() == if taken {
        before.enq()
    } else {
        before.deq()
    }
}

} // verus!
