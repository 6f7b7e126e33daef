//! `MLFShardedRingBuf`: a sharded buffer whose slots each carry their own
//! state, so that an enqueuer and a dequeuer of one shard never need a lock
//! on the whole shard.
//!
//! An operation reserves the next slot of its shard (`reserve_slot`),
//! claims it (`try_claim_slot`, waiting and retrying as told), moves its
//! item in or out, and releases the slot (`release_slot`), which names the
//! notification to send. A `None` item is a poison pill.
use crate::acquire::Acquire;
use crate::layout::{shard_capacities, shard_capacity_of, valid_layout};
use crate::inner::ring_offset;
use crate::notify::NotifyTarget;
use vstd::prelude::*;

verus! {

/// The state of a slot that holds nothing.
pub const SLOT_EMPTY: u8 = 0;

/// The state of a slot that holds an item.
pub const SLOT_FULL: u8 = 1;

/// The state of a slot whose item a dequeuer is taking.
pub const SLOT_DEQUEUING: u8 = 2;

/// The state of a slot that an enqueuer is filling.
pub const SLOT_ENQUEUING: u8 = 3;

/// One slot of a shard: an item (`Some(None)` being a poison pill) and the
/// slot's state.
pub struct Slot<T> {
    item: Option<Option<T>>,
    state: u8,
}

impl<T> Slot<T> {
    /// The slot's state.
    pub closed spec fn state_spec(&self) -> u8 {
        self.state
    }

    /// What the slot holds.
    pub closed spec fn item_spec(&self) -> Option<Option<T>> {
        self.item
    }

    /// A slot's invariant: a known state, nothing in an empty slot and
    /// something in a full one.
    pub open spec fn wf(&self) -> bool {
        &&& self.state_spec() <= SLOT_ENQUEUING
        &&& self.state_spec() == SLOT_EMPTY ==> self.item_spec() is None
        &&& self.state_spec() == SLOT_FULL ==> self.item_spec() is Some
    }

    /// An empty slot.
    pub fn new() -> (s: Self)
        ensures
            s.state_spec() == SLOT_EMPTY,
            s.item_spec() is None,
            s.wf(),
    {
        Slot { item: None, state: SLOT_EMPTY }
    }
}

/// What a task does after trying to claim its reserved slot.
#[derive(Debug, Clone, Copy, PartialEq, Eq, Structural)]
pub enum ClaimStep {
    /// The slot is the task's.
    Claimed,
    /// The slot is in the middle of the other side's operation: wait for
    /// `wait_on`, then try again.
    Wait { wait_on: NotifyTarget },
    /// The slot is not ready: send `notify`, wait for `wait_on`, then try again.
    NotifyAndWait { notify: NotifyTarget, wait_on: NotifyTarget },
}

/// `cap` empty slots.
fn empty_slots<T>(cap: usize) -> (items: Vec<Slot<T>>)
    ensures
        items@.len() == cap,
        forall|k: int|
            0 <= k < cap ==> (#[trigger] items@[k]).state == SLOT_EMPTY && items@[k].item is None,
{
    let mut items: Vec<Slot<T>> = Vec::with_capacity(cap);
    let mut j: usize = 0;
    while j < cap
        invariant
            j <= cap,
            items@.len() == j,
            forall|k: int|
                0 <= k < j ==> (#[trigger] items@[k]).state == SLOT_EMPTY && items@[k].item is None,
        decreases cap - j,
    {
        items.push(Slot::new());
        j = j + 1;
    }
    items
}

struct MlfShard<T> {
    items: Vec<Slot<T>>,
    enqueue_index: usize,
    dequeue_index: usize,
}

/// A sharded ring buffer with a state per slot.
pub struct MLFShardedRingBuf<T> {
    capacity: usize,
    inner_rb: Vec<MlfShard<T>>,
}

impl<T> MLFShardedRingBuf<T> {
    /// The number of shards.
    pub closed spec fn num_shards(&self) -> nat {
        self.inner_rb@.len()
    }

    /// The total capacity.
    pub closed spec fn total_capacity(&self) -> nat {
        self.capacity as nat
    }

    /// The number of slots of shard `s`.
    pub closed spec fn shard_cap(&self, s: int) -> nat {
        self.inner_rb@[s].items@.len()
    }

    /// Slot `j` of shard `s`.
    pub closed spec fn slot(&self, s: int, j: int) -> Slot<T> {
        self.inner_rb@[s].items@[j]
    }

    /// The enqueue counter of shard `s`: the number of enqueue reservations,
    /// wrapping round.
    pub closed spec fn enq_count(&self, s: int) -> usize {
        self.inner_rb@[s].enqueue_index
    }

    /// The dequeue counter of shard `s`.
    pub closed spec fn deq_count(&self, s: int) -> usize {
        self.inner_rb@[s].dequeue_index
    }

    /// The number of jobs of shard `s`: enqueue reservations not matched by
    /// a dequeue reservation.
    pub open spec fn jobs(&self, s: int) -> usize {
        self.enq_count(s).wrapping_sub(self.deq_count(s))
    }

    /// The buffer's invariant.
    pub closed spec fn wf(&self) -> bool {
        &&& valid_layout(self.capacity as nat, self.inner_rb@.len())
        &&& forall|s: int|
            0 <= s < self.inner_rb@.len() ==> (#[trigger] self.inner_rb@[s]).items@.len()
                == shard_capacity_of(self.capacity as nat, self.inner_rb@.len(), s as nat)
        &&& forall|s: int, j: int|
            0 <= s < self.inner_rb@.len() && 0 <= j < self.inner_rb@[s].items@.len() ==> (
            #[trigger] self.inner_rb@[s].items@[j]).wf()
    }

    /// Nothing but slot `j` of shard `s` differs between `self` and `other`.
    pub open spec fn only_slot_changed(&self, other: &Self, s: int, j: int) -> bool {
        &&& other.num_shards() == self.num_shards()
        &&& other.total_capacity() == self.total_capacity()
        &&& forall|t: int| 0 <= t < self.num_shards() ==> #[trigger] other.shard_cap(t) == self.shard_cap(t)
        &&& forall|t: int| 0 <= t < self.num_shards() ==> #[trigger] other.enq_count(t) == self.enq_count(t)
        &&& forall|t: int| 0 <= t < self.num_shards() ==> #[trigger] other.deq_count(t) == self.deq_count(t)
        &&& forall|t: int, k: int|
            0 <= t < self.num_shards() && 0 <= k < self.shard_cap(t) && !(t == s && k == j)
                ==> #[trigger] other.slot(t, k) == self.slot(t, k)
    }

    /// Facts that follow from the invariant.
    pub proof fn lemma_wf_facts(&self)
        requires
            self.wf(),
        ensures
            self.num_shards() > 0,
            forall|s: int| 0 <= s < self.num_shards() ==> #[trigger] self.shard_cap(s) > 0,
            forall|s: int, j: int|
                0 <= s < self.num_shards() && 0 <= j < self.shard_cap(s) ==> (#[trigger] self.slot(
                    s,
                    j,
                )).wf(),
    {
        assert forall|s: int| 0 <= s < self.num_shards() implies #[trigger] self.shard_cap(s) > 0 by {
            crate::layout::lemma_shard_capacities_balanced(
                self.capacity as nat,
                self.inner_rb@.len(),
                s as nat,
                s as nat,
            );
        }
    }

    /// Creates an empty buffer of `capacity` slots spread over `shards` shards.
    pub fn new(capacity: usize, shards: usize) -> (rb: Self)
        requires
            valid_layout(capacity as nat, shards as nat),
        ensures
            rb.wf(),
            rb.num_shards() == shards,
            rb.total_capacity() == capacity,
            forall|s: int|
                0 <= s < shards ==> #[trigger] rb.shard_cap(s) == shard_capacity_of(
                    capacity as nat,
                    shards as nat,
                    s as nat,
                ) && rb.enq_count(s) == 0 && rb.deq_count(s) == 0,
            forall|s: int, j: int|
                0 <= s < shards && 0 <= j < rb.shard_cap(s) ==> (#[trigger] rb.slot(s, j)).state_spec()
                    == SLOT_EMPTY,
    {
        let caps = shard_capacities(capacity, shards);
        let mut inner_rb: Vec<MlfShard<T>> = Vec::with_capacity(shards);
        let mut i: usize = 0;
        while i < shards
            invariant
                i <= shards,
                caps@.len() == shards,
                valid_layout(capacity as nat, shards as nat),
                forall|k: int|
                    0 <= k < shards ==> #[trigger] caps@[k] == shard_capacity_of(
                        capacity as nat,
                        shards as nat,
                        k as nat,
                    ),
                inner_rb@.len() == i,
                forall|k: int|
                    0 <= k < i ==> (#[trigger] inner_rb@[k]).items@.len() == shard_capacity_of(
                        capacity as nat,
                        shards as nat,
                        k as nat,
                    ) && inner_rb@[k].enqueue_index == 0 && inner_rb@[k].dequeue_index == 0,
                forall|k: int, j: int|
                    0 <= k < i && 0 <= j < inner_rb@[k].items@.len() ==> (
                    #[trigger] inner_rb@[k].items@[j]).state == SLOT_EMPTY && inner_rb@[k].items@[j].item is None,
            decreases shards - i,
        {
            let cap = caps[i];
            let items = empty_slots(cap);
            inner_rb.push(MlfShard { items, enqueue_index: 0, dequeue_index: 0 });
            i = i + 1;
        }
        MLFShardedRingBuf { capacity, inner_rb }
    }

    /// The number of shards.
    pub fn get_num_of_shards(&self) -> (n: usize)
        requires
            self.wf(),
        ensures
            n == self.num_shards(),
    {
        self.inner_rb.len()
    }

    /// The capacity of shard `shard_ind`, or `None` for an invalid index.
    pub fn get_shard_capacity(&self, shard_ind: usize) -> (c: Option<usize>)
        requires
            self.wf(),
        ensures
            shard_ind < self.num_shards() ==> c == Some(self.shard_cap(shard_ind as int) as usize),
            shard_ind >= self.num_shards() ==> c is None,
    {
        if shard_ind >= self.inner_rb.len() {
            return None;
        }
        Some(self.inner_rb[shard_ind].items.len())
    }

    /// The total capacity of the buffer.
    pub fn get_total_capacity(&self) -> (c: usize)
        requires
            self.wf(),
        ensures
            c == self.total_capacity(),
    {
        self.capacity
    }

    /// Reserves the next slot of shard `shard_ind` for `acquire` and returns
    /// it: the operation's counter, wrapped round the shard's capacity.
    pub fn reserve_slot(&mut self, acquire: Acquire, shard_ind: usize) -> (slot: usize)
        requires
            old(self).wf(),
            shard_ind < old(self).num_shards(),
        ensures
            final(self).wf(),
            final(self).num_shards() == old(self).num_shards(),
            final(self).total_capacity() == old(self).total_capacity(),
            forall|t: int| 0 <= t < old(self).num_shards() ==> #[trigger] final(self).shard_cap(t) == old(self).shard_cap(t),
            forall|t: int, k: int|
                0 <= t < old(self).num_shards() && 0 <= k < old(self).shard_cap(t) ==> #[trigger] final(self).slot(t, k) == old(self).slot(t, k),
            forall|t: int| 0 <= t < old(self).num_shards() && t != shard_ind ==> #[trigger] final(self).enq_count(t) == old(self).enq_count(t) && final(self).deq_count(t) == old(self).deq_count(t),
            acquire == Acquire::Enqueue ==> slot == old(self).enq_count(shard_ind as int) as nat % old(self).shard_cap(shard_ind as int)
                && final(self).enq_count(shard_ind as int) == old(self).enq_count(shard_ind as int).wrapping_add(1)
                && final(self).deq_count(shard_ind as int) == old(self).deq_count(shard_ind as int),
            acquire == Acquire::Dequeue ==> slot == old(self).deq_count(shard_ind as int) as nat % old(self).shard_cap(shard_ind as int)
                && final(self).deq_count(shard_ind as int) == old(self).deq_count(shard_ind as int).wrapping_add(1)
                && final(self).enq_count(shard_ind as int) == old(self).enq_count(shard_ind as int),
            slot < old(self).shard_cap(shard_ind as int),
    {
        proof {
            self.lemma_wf_facts();
        }
        assert(self.shard_cap(shard_ind as int) > 0);
        let len = self.inner_rb[shard_ind].items.len();
        match acquire {
            Acquire::Enqueue => {
                let c = self.inner_rb[shard_ind].enqueue_index;
                self.inner_rb[shard_ind].enqueue_index = c.wrapping_add(1);
                c % len
            },
            Acquire::Dequeue => {
                let c = self.inner_rb[shard_ind].dequeue_index;
                self.inner_rb[shard_ind].dequeue_index = c.wrapping_add(1);
                c % len
            },
        }
    }

    /// Tries to claim reserved slot `slot_ind` of shard `shard_ind`: an
    /// enqueuer claims an empty slot, a dequeuer a full one.
    pub fn try_claim_slot(&mut self, acquire: Acquire, shard_ind: usize, slot_ind: usize) -> (step: ClaimStep)
        requires
            old(self).wf(),
            shard_ind < old(self).num_shards(),
            slot_ind < old(self).shard_cap(shard_ind as int),
        ensures
            final(self).wf(),
            old(self).only_slot_changed(&*final(self), shard_ind as int, slot_ind as int),
            final(self).slot(shard_ind as int, slot_ind as int).item_spec() == old(self).slot(shard_ind as int, slot_ind as int).item_spec(),
            ({
                let st = old(self).slot(shard_ind as int, slot_ind as int).state_spec();
                let space = NotifyTarget::JobSpace(shard_ind);
                let post = NotifyTarget::JobPost(shard_ind);
                let new_st = final(self).slot(shard_ind as int, slot_ind as int).state_spec();
                match acquire {
                    Acquire::Enqueue => if st == SLOT_EMPTY {
                        step == ClaimStep::Claimed && new_st == SLOT_ENQUEUING
                    } else if st == SLOT_DEQUEUING {
                        step == ClaimStep::Wait { wait_on: space } && new_st == st
                    } else {
                        step == ClaimStep::NotifyAndWait { notify: post, wait_on: space } && new_st == st
                    },
                    Acquire::Dequeue => if st == SLOT_FULL {
                        step == ClaimStep::Claimed && new_st == SLOT_DEQUEUING
                    } else if st == SLOT_ENQUEUING {
                        step == ClaimStep::Wait { wait_on: post } && new_st == st
                    } else {
                        step == ClaimStep::NotifyAndWait { notify: space, wait_on: post } && new_st == st
                    },
                }
            }),
    {
        let st = self.inner_rb[shard_ind].items[slot_ind].state;
        let space = NotifyTarget::JobSpace(shard_ind);
        let post = NotifyTarget::JobPost(shard_ind);
        match acquire {
            Acquire::Enqueue => {
                if st == SLOT_EMPTY {
                    self.inner_rb[shard_ind].items[slot_ind].state = SLOT_ENQUEUING;
                    ClaimStep::Claimed
                } else if st == SLOT_DEQUEUING {
                    ClaimStep::Wait { wait_on: space }
                } else {
                    ClaimStep::NotifyAndWait { notify: post, wait_on: space }
                }
            },
            Acquire::Dequeue => {
                if st == SLOT_FULL {
                    self.inner_rb[shard_ind].items[slot_ind].state = SLOT_DEQUEUING;
                    ClaimStep::Claimed
                } else if st == SLOT_ENQUEUING {
                    ClaimStep::Wait { wait_on: post }
                } else {
                    ClaimStep::NotifyAndWait { notify: space, wait_on: post }
                }
            },
        }
    }

    /// Fills claimed slot `slot_ind` of shard `shard_ind` with `item`.
    pub fn enqueue_in_slot(&mut self, shard_ind: usize, slot_ind: usize, item: Option<T>)
        requires
            old(self).wf(),
            shard_ind < old(self).num_shards(),
            slot_ind < old(self).shard_cap(shard_ind as int),
            old(self).slot(shard_ind as int, slot_ind as int).state_spec() == SLOT_ENQUEUING,
        ensures
            final(self).wf(),
            old(self).only_slot_changed(&*final(self), shard_ind as int, slot_ind as int),
            final(self).slot(shard_ind as int, slot_ind as int).state_spec() == SLOT_ENQUEUING,
            final(self).slot(shard_ind as int, slot_ind as int).item_spec() == Some(item),
    {
        self.inner_rb[shard_ind].items[slot_ind].item = Some(item);
    }

    /// Takes the item out of claimed slot `slot_ind` of shard `shard_ind`.
    pub fn dequeue_in_slot(&mut self, shard_ind: usize, slot_ind: usize) -> (item: Option<T>)
        requires
            old(self).wf(),
            shard_ind < old(self).num_shards(),
            slot_ind < old(self).shard_cap(shard_ind as int),
            old(self).slot(shard_ind as int, slot_ind as int).state_spec() == SLOT_DEQUEUING,
            old(self).slot(shard_ind as int, slot_ind as int).item_spec() is Some,
        ensures
            final(self).wf(),
            old(self).only_slot_changed(&*final(self), shard_ind as int, slot_ind as int),
            final(self).slot(shard_ind as int, slot_ind as int).state_spec() == SLOT_DEQUEUING,
            final(self).slot(shard_ind as int, slot_ind as int).item_spec() is None,
            Some(item) == old(self).slot(shard_ind as int, slot_ind as int).item_spec(),
    {
        let taken = self.inner_rb[shard_ind].items[slot_ind].item.take();
        taken.unwrap()
    }

    /// Releases claimed slot `slot_ind` of shard `shard_ind`: a filled slot
    /// becomes full and announces a new job, an emptied one becomes empty and
    /// announces new space. Returns the notification to send.
    pub fn release_slot(&mut self, shard_ind: usize, slot_ind: usize, acquire: Acquire) -> (t: NotifyTarget)
        requires
            old(self).wf(),
            shard_ind < old(self).num_shards(),
            slot_ind < old(self).shard_cap(shard_ind as int),
            acquire == Acquire::Enqueue ==> old(self).slot(shard_ind as int, slot_ind as int).state_spec() == SLOT_ENQUEUING
                && old(self).slot(shard_ind as int, slot_ind as int).item_spec() is Some,
            acquire == Acquire::Dequeue ==> old(self).slot(shard_ind as int, slot_ind as int).state_spec() == SLOT_DEQUEUING
                && old(self).slot(shard_ind as int, slot_ind as int).item_spec() is None,
        ensures
            final(self).wf(),
            old(self).only_slot_changed(&*final(self), shard_ind as int, slot_ind as int),
            final(self).slot(shard_ind as int, slot_ind as int).item_spec() == old(self).slot(shard_ind as int, slot_ind as int).item_spec(),
            acquire == Acquire::Enqueue ==> final(self).slot(shard_ind as int, slot_ind as int).state_spec() == SLOT_FULL
                && t == NotifyTarget::JobPost(shard_ind),
            acquire == Acquire::Dequeue ==> final(self).slot(shard_ind as int, slot_ind as int).state_spec() == SLOT_EMPTY
                && t == NotifyTarget::JobSpace(shard_ind),
    {
        match acquire {
            Acquire::Dequeue => {
                self.inner_rb[shard_ind].items[slot_ind].state = SLOT_EMPTY;
                NotifyTarget::JobSpace(shard_ind)
            },
            Acquire::Enqueue => {
                self.inner_rb[shard_ind].items[slot_ind].state = SLOT_FULL;
                NotifyTarget::JobPost(shard_ind)
            },
        }
    }

    /// The notification that wakes a dequeuer pinned to shard `shard_ind`.
    pub fn notify_pin_shard(&self, shard_ind: usize) -> (t: NotifyTarget)
        requires
            self.wf(),
            shard_ind < self.num_shards(),
        ensures
            t == NotifyTarget::JobPost(shard_ind),
    {
        NotifyTarget::JobPost(shard_ind)
    }

    /// Empties every slot and sets every counter back to zero.
    pub fn clear(&mut self)
        requires
            old(self).wf(),
        ensures
            final(self).wf(),
            final(self).num_shards() == old(self).num_shards(),
            final(self).total_capacity() == old(self).total_capacity(),
            forall|s: int|
                0 <= s < final(self).num_shards() ==> #[trigger] final(self).shard_cap(s) == old(self).shard_cap(s)
                    && final(self).enq_count(s) == 0 && final(self).deq_count(s) == 0,
            forall|s: int, j: int|
                0 <= s < final(self).num_shards() && 0 <= j < final(self).shard_cap(s)
                    ==> (#[trigger] final(self).slot(s, j)).state_spec() == SLOT_EMPTY && final(self).slot(s, j).item_spec() is None,
    {
        let n = self.inner_rb.len();
        let mut s: usize = 0;
        while s < n
            invariant
                self.wf(),
                n == self.num_shards(),
                self.num_shards() == old(self).num_shards(),
                self.total_capacity() == old(self).total_capacity(),
                s <= n,
                forall|t: int| 0 <= t < n ==> #[trigger] self.shard_cap(t) == old(self).shard_cap(t),
                forall|t: int| 0 <= t < s ==> #[trigger] self.enq_count(t) == 0,
                forall|t: int| 0 <= t < s ==> #[trigger] self.deq_count(t) == 0,
                forall|t: int, j: int|
                    0 <= t < s && 0 <= j < self.shard_cap(t) ==> (#[trigger] self.slot(t, j)).state_spec()
                        == SLOT_EMPTY && self.slot(t, j).item_spec() is None,
            decreases n - s,
        {
            let cap = self.inner_rb[s].items.len();
            let fresh = empty_slots(cap);
            let ghost fresh_view = fresh@;
            let ghost prev = self.inner_rb@;
            let ghost before = *self;
            self.inner_rb.set(s, MlfShard { items: fresh, enqueue_index: 0, dequeue_index: 0 });
            proof {
                assert forall|t: int, k: int|
                    0 <= t < self.inner_rb@.len() && 0 <= k < self.inner_rb@[t].items@.len() implies (
                    #[trigger] self.inner_rb@[t].items@[k]).wf() by {
                    if t != s as int {
                        assert(self.inner_rb@[t] == prev[t]);
                    }
                }
                assert forall|t: int| 0 <= t < n implies #[trigger] self.shard_cap(t) == old(self).shard_cap(t) by {
                    assert(before.shard_cap(t) == old(self).shard_cap(t));
                    if t != s as int {
                        assert(self.inner_rb@[t] == prev[t]);
                    }
                }
                assert forall|t: int| 0 <= t <= s implies #[trigger] self.enq_count(t) == 0 by {
                    if t != s as int {
                        assert(self.inner_rb@[t] == prev[t]);
                        assert(before.enq_count(t) == 0);
                    }
                }
                assert forall|t: int| 0 <= t <= s implies #[trigger] self.deq_count(t) == 0 by {
                    if t != s as int {
                        assert(self.inner_rb@[t] == prev[t]);
                        assert(before.deq_count(t) == 0);
                    }
                }
                assert forall|t: int, j: int|
                    0 <= t <= s && 0 <= j < self.shard_cap(t) implies (#[trigger] self.slot(t, j)).state_spec()
                        == SLOT_EMPTY && self.slot(t, j).item_spec() is None by {
                    if t != s as int {
                        assert(self.inner_rb@[t] == prev[t]);
                        assert(before.slot(t, j).state_spec() == SLOT_EMPTY);
                        assert(before.slot(t, j).item_spec() is None);
                    } else {
                        assert(self.slot(t, j) == fresh_view[j]);
                    }
                }
            }
            s = s + 1;
        }
    }

    /// Whether shard `shard_ind` has no jobs.
    pub fn is_shard_empty(&self, shard_ind: usize) -> (b: bool)
        requires
            self.wf(),
            shard_ind < self.num_shards(),
        ensures
            b == (self.jobs(shard_ind as int) == 0),
    {
        let inner = &self.inner_rb[shard_ind];
        inner.enqueue_index.wrapping_sub(inner.dequeue_index) == 0
    }

    /// Whether shard `shard_ind` has as many jobs as slots.
    pub fn is_shard_full(&self, shard_ind: usize) -> (b: bool)
        requires
            self.wf(),
            shard_ind < self.num_shards(),
        ensures
            b == (self.jobs(shard_ind as int) == self.shard_cap(shard_ind as int)),
    {
        let inner = &self.inner_rb[shard_ind];
        inner.enqueue_index.wrapping_sub(inner.dequeue_index) == inner.items.len()
    }

    /// Whether no shard has jobs.
    pub fn is_empty(&self) -> (b: bool)
        requires
            self.wf(),
        ensures
            b == forall|s: int| 0 <= s < self.num_shards() ==> #[trigger] self.jobs(s) == 0,
    {
        let n = self.inner_rb.len();
        let mut i: usize = 0;
        while i < n
            invariant
                self.wf(),
                n == self.num_shards(),
                i <= n,
                forall|s: int| 0 <= s < i ==> #[trigger] self.jobs(s) == 0,
            decreases n - i,
        {
            if !self.is_shard_empty(i) {
                assert(self.jobs(i as int) != 0);
                return false;
            }
            i = i + 1;
        }
        true
    }

    /// Whether every shard has as many jobs as slots.
    pub fn is_full(&self) -> (b: bool)
        requires
            self.wf(),
        ensures
            b == forall|s: int| 0 <= s < self.num_shards() ==> #[trigger] self.jobs(s) == self.shard_cap(s),
    {
        let n = self.inner_rb.len();
        let mut i: usize = 0;
        while i < n
            invariant
                self.wf(),
                n == self.num_shards(),
                i <= n,
                forall|s: int| 0 <= s < i ==> #[trigger] self.jobs(s) == self.shard_cap(s),
            decreases n - i,
        {
            if !self.is_shard_full(i) {
                assert(self.jobs(i as int) != self.shard_cap(i as int));
                return false;
            }
            i = i + 1;
        }
        true
    }

    /// The slot of shard `shard_ind` that the next enqueue reserves, or
    /// `None` for an invalid index.
    pub fn get_enq_ind_at_shard(&self, shard_ind: usize) -> (r: Option<usize>)
        requires
            self.wf(),
        ensures
            shard_ind < self.num_shards() ==> r == Some(
                (self.enq_count(shard_ind as int) as nat % self.shard_cap(shard_ind as int)) as usize,
            ),
            shard_ind >= self.num_shards() ==> r is None,
    {
        if shard_ind >= self.inner_rb.len() {
            return None;
        }
        proof {
            self.lemma_wf_facts();
            assert(self.shard_cap(shard_ind as int) > 0);
        }
        let inner = &self.inner_rb[shard_ind];
        Some(inner.enqueue_index % inner.items.len())
    }

    /// The slot of shard `shard_ind` that the next dequeue reserves, or
    /// `None` for an invalid index.
    pub fn get_deq_ind_at_shard(&self, shard_ind: usize) -> (r: Option<usize>)
        requires
            self.wf(),
        ensures
            shard_ind < self.num_shards() ==> r == Some(
                (self.deq_count(shard_ind as int) as nat % self.shard_cap(shard_ind as int)) as usize,
            ),
            shard_ind >= self.num_shards() ==> r is None,
    {
        if shard_ind >= self.inner_rb.len() {
            return None;
        }
        proof {
            self.lemma_wf_facts();
            assert(self.shard_cap(shard_ind as int) > 0);
        }
        let inner = &self.inner_rb[shard_ind];
        Some(inner.dequeue_index % inner.items.len())
    }

    /// The number of jobs of shard `shard_ind`, or `None` for an invalid index.
    pub fn get_job_count_at_shard(&self, shard_ind: usize) -> (r: Option<usize>)
        requires
            self.wf(),
        ensures
            shard_ind < self.num_shards() ==> r == Some(self.jobs(shard_ind as int)),
            shard_ind >= self.num_shards() ==> r is None,
    {
        if shard_ind >= self.inner_rb.len() {
            return None;
        }
        let inner = &self.inner_rb[shard_ind];
        Some(inner.enqueue_index.wrapping_sub(inner.dequeue_index))
    }

    /// The number of jobs of every shard, in shard order.
    pub fn get_job_count_total(&self) -> (r: Vec<usize>)
        requires
            self.wf(),
        ensures
            r@.len() == self.num_shards(),
            forall|s: int| 0 <= s < self.num_shards() ==> #[trigger] r@[s] == self.jobs(s),
    {
        let n = self.inner_rb.len();
        let mut count: Vec<usize> = Vec::new();
        let mut i: usize = 0;
        while i < n
            invariant
                self.wf(),
                n == self.num_shards(),
                i <= n,
                count@.len() == i,
                forall|s: int| 0 <= s < i ==> #[trigger] count@[s] == self.jobs(s),
            decreases n - i,
        {
            let inner = &self.inner_rb[i];
            count.push(inner.enqueue_index.wrapping_sub(inner.dequeue_index));
            i = i + 1;
        }
        count
    }

    /// Slot `j` of shard `s` lies in the shard's window of jobs: among the
    /// `jobs(s)` slots that follow the dequeue slot, going round the ring.
    pub open spec fn in_window(&self, s: int, j: int) -> bool {
        &&& 0 <= j < self.shard_cap(s)
        &&& ring_offset(
            (self.deq_count(s) as nat % self.shard_cap(s)) as int,
            j,
            self.shard_cap(s) as int,
        ) < self.jobs(s)
    }

    /// Whether slot `item_ind` of shard `shard_ind` lies between the dequeue
    /// and the enqueue index, going round the ring.
    pub fn is_item_in_shard(&self, item_ind: usize, shard_ind: usize) -> (b: bool)
        requires
            self.wf(),
            shard_ind < self.num_shards(),
        ensures
            b == self.in_window(shard_ind as int, item_ind as int),
    {
        proof {
            self.lemma_wf_facts();
        }
        let inner = &self.inner_rb[shard_ind];
        let cap = inner.items.len();
        if item_ind >= cap {
            return false;
        }
        let d = inner.dequeue_index % cap;
        let offset = if item_ind >= d {
            item_ind - d
        } else {
            (cap - d) + item_ind
        };
        offset < inner.enqueue_index.wrapping_sub(inner.dequeue_index)
    }

    /// A clone of the item in slot `item_ind` of shard `shard_ind`: `None`
    /// for invalid indices, for a slot outside the window of jobs, for a slot
    /// not filled yet and for a poison pill.
    pub fn clone_item_at_shard(&self, item_ind: usize, shard_ind: usize) -> (r: Option<T>) where
        T: Clone,

        requires
            self.wf(),
        ensures
            r is Some <==> (shard_ind < self.num_shards() && self.in_window(shard_ind as int, item_ind as int)
                && self.slot(shard_ind as int, item_ind as int).item_spec() is Some
                && self.slot(shard_ind as int, item_ind as int).item_spec()->0 is Some),
            r is Some ==> cloned(self.slot(shard_ind as int, item_ind as int).item_spec()->0->0, r->0),
    {
        if shard_ind >= self.inner_rb.len() {
            return None;
        }
        if !self.is_item_in_shard(item_ind, shard_ind) {
            return None;
        }
        proof {
            self.lemma_wf_facts();
        }
        assert(item_ind < self.shard_cap(shard_ind as int));
        match &self.inner_rb[shard_ind].items[item_ind].item {
            Some(Some(v)) => Some(v.clone()),
            _ => None,
        }
    }

    /// A clone of every slot of shard `shard_ind`, as `clone_item_at_shard`
    /// gives them, or `None` for an invalid index.
    pub fn clone_items_at_shard(&self, shard_ind: usize) -> (r: Option<Vec<Option<T>>>) where
        T: Clone,

        requires
            self.wf(),
        ensures
            shard_ind >= self.num_shards() ==> r is None,
            shard_ind < self.num_shards() ==> r is Some && self.slots_cloned(shard_ind as int, r->0@),
    {
        if shard_ind >= self.inner_rb.len() {
            return None;
        }
        let cap = self.inner_rb[shard_ind].items.len();
        let mut out: Vec<Option<T>> = Vec::with_capacity(cap);
        let mut j: usize = 0;
        while j < cap
            invariant
                self.wf(),
                shard_ind < self.num_shards(),
                cap == self.shard_cap(shard_ind as int),
                j <= cap,
                out@.len() == j,
                forall|k: int| 0 <= k < j ==> self.slot_cloned(shard_ind as int, k, #[trigger] out@[k]),
            decreases cap - j,
        {
            let c = self.clone_item_at_shard(j, shard_ind);
            out.push(c);
            j = j + 1;
        }
        Some(out)
    }

    /// A clone of every slot of every shard.
    pub fn clone_items(&self) -> (r: Vec<Vec<Option<T>>>) where T: Clone
        requires
            self.wf(),
        ensures
            r@.len() == self.num_shards(),
            forall|s: int| 0 <= s < self.num_shards() ==> self.slots_cloned(s, (#[trigger] r@[s])@),
    {
        let n = self.inner_rb.len();
        let mut out: Vec<Vec<Option<T>>> = Vec::with_capacity(n);
        let mut i: usize = 0;
        while i < n
            invariant
                self.wf(),
                n == self.num_shards(),
                i <= n,
                out@.len() == i,
                forall|s: int| 0 <= s < i ==> self.slots_cloned(s, (#[trigger] out@[s])@),
            decreases n - i,
        {
            let shard = self.clone_items_at_shard(i).unwrap();
            out.push(shard);
            i = i + 1;
        }
        out
    }

    /// `c` is what `clone_item_at_shard` gives for slot `j` of shard `s`.
    pub open spec fn slot_cloned(&self, s: int, j: int, c: Option<T>) -> bool where T: Clone {
        &&& c is Some <==> (self.in_window(s, j) && self.slot(s, j).item_spec() is Some && self.slot(s, j).item_spec()->0 is Some)
        &&& c is Some ==> cloned(self.slot(s, j).item_spec()->0->0, c->0)
    }

    /// `slots` is a slot-by-slot clone of shard `s`.
    pub open spec fn slots_cloned(&self, s: int, slots: Seq<Option<T>>) -> bool where T: Clone {
        &&& slots.len() == self.shard_cap(s)
        &&& forall|j: int| 0 <= j < self.shard_cap(s) ==> self.slot_cloned(s, j, #[trigger] slots[j])
    }
}

} // verus!
