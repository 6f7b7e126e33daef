//! How the total capacity of a sharded buffer is spread over its shards.
//!
//! Every shard receives `capacity / shards` slots; the first
//! `capacity % shards` shards receive one slot more, so that uneven
//! capacities are balanced and nothing is lost.
use vstd::arithmetic::div_mod::lemma_fundamental_div_mod;
use vstd::prelude::*;

verus! {

/// The number of slots that shard `i` receives when `capacity` slots are
/// spread over `shards` shards.
pub open spec fn shard_capacity_of(capacity: nat, shards: nat, i: nat) -> nat
    recommends
        shards > 0,
{
    capacity / shards + (if i < capacity % shards {
        1nat
    } else {
        0nat
    })
}

/// The number of slots held by the first `k` shards.
pub open spec fn capacity_prefix_sum(capacity: nat, shards: nat, k: nat) -> nat
    decreases k,
{
    if k == 0 {
        0
    } else {
        capacity_prefix_sum(capacity, shards, (k - 1) as nat) + shard_capacity_of(
            capacity,
            shards,
            (k - 1) as nat,
        )
    }
}

/// The parameters that a sharded buffer accepts: a positive capacity, a
/// positive shard count and at least one slot per shard.
pub open spec fn valid_layout(capacity: nat, shards: nat) -> bool {
    &&& capacity > 0
    &&& shards > 0
    &&& capacity >= shards
}

proof fn lemma_prefix_sum_closed_form(capacity: nat, shards: nat, k: nat)
    requires
        shards > 0,
    ensures
        capacity_prefix_sum(capacity, shards, k) == k * (capacity / shards) + (if k < capacity
            % shards {
            k
        } else {
            capacity % shards
        }),
    decreases k,
{
    if k > 0 {
        lemma_prefix_sum_closed_form(capacity, shards, (k - 1) as nat);
        let q: int = (capacity / shards) as int;
        let km1: int = k - 1;
        assert(km1 * q + q == (km1 + 1) * q) by (nonlinear_arith);
        assert(km1 + 1 == k);
        assert(((k - 1) as nat) * (capacity / shards) == km1 * q);
        assert(k * (capacity / shards) == (km1 + 1) * q);
        assert(capacity_prefix_sum(capacity, shards, k) == capacity_prefix_sum(
            capacity,
            shards,
            (k - 1) as nat,
        ) + shard_capacity_of(capacity, shards, (k - 1) as nat));
    } else {
        let q: int = (capacity / shards) as int;
        assert(0 * q == 0) by (nonlinear_arith);
    }
}

/// The shards together hold exactly the requested capacity: no slot is lost
/// and none is added when the capacity is spread over the shards.
pub proof fn lemma_shard_capacities_sum(capacity: nat, shards: nat)
    requires
        shards > 0,
    ensures
        capacity_prefix_sum(capacity, shards, shards) == capacity,
{
    lemma_prefix_sum_closed_form(capacity, shards, shards);
    lemma_fundamental_div_mod(capacity as int, shards as int);
    assert(shards * (capacity / shards) == (capacity / shards) * shards) by (nonlinear_arith);
}

/// The spread is balanced: any two shards differ by at most one slot, and
/// when the layout is valid every shard holds at least one slot.
pub proof fn lemma_shard_capacities_balanced(capacity: nat, shards: nat, i: nat, j: nat)
    requires
        shards > 0,
        i < shards,
        j < shards,
    ensures
        shard_capacity_of(capacity, shards, i) <= shard_capacity_of(capacity, shards, j) + 1,
        capacity >= shards ==> shard_capacity_of(capacity, shards, i) >= 1,
{
    if capacity >= shards {
        assert(capacity / shards >= 1) by (nonlinear_arith)
            requires
                capacity >= shards,
                shards > 0,
        ;
    }
}

/// The last shard is a smallest one: a batch that fits into the last shard
/// fits into every shard.
pub proof fn lemma_last_shard_smallest(capacity: nat, shards: nat, i: nat)
    requires
        shards > 0,
        i < shards,
    ensures
        shard_capacity_of(capacity, shards, (shards - 1) as nat) <= shard_capacity_of(
            capacity,
            shards,
            i,
        ),
{
    assert(capacity % shards < shards) by (nonlinear_arith)
        requires
            shards > 0,
    ;
}

/// Computes the capacity of every shard, in shard order.
pub fn shard_capacities(capacity: usize, shards: usize) -> (caps: Vec<usize>)
    requires
        valid_layout(capacity as nat, shards as nat),
    ensures
        caps@.len() == shards,
        forall|i: int|
            0 <= i < shards ==> #[trigger] caps@[i] == shard_capacity_of(
                capacity as nat,
                shards as nat,
                i as nat,
            ),
{
    let capacity_per_shard = capacity / shards;
    let remainder = capacity % shards;
    let mut caps: Vec<usize> = Vec::with_capacity(shards);
    let mut i: usize = 0;
    while i < shards
        invariant
            i <= shards,
            shards > 0,
            capacity_per_shard == capacity / shards,
            remainder == capacity % shards,
            caps@.len() == i,
            forall|k: int|
                0 <= k < i ==> #[trigger] caps@[k] == shard_capacity_of(
                    capacity as nat,
                    shards as nat,
                    k as nat,
                ),
        decreases shards - i,
    {
        proof {
            assert(capacity_per_shard <= capacity) by (nonlinear_arith)
                requires
                    capacity_per_shard == capacity / shards,
                    shards > 0,
            ;
            assert(capacity_per_shard < capacity || remainder == 0) by (nonlinear_arith)
                requires
                    capacity_per_shard == capacity / shards,
                    remainder == capacity % shards,
                    shards > 0,
            ;
        }
        if i < remainder {
            caps.push(capacity_per_shard + 1);
        } else {
            caps.push(capacity_per_shard);
        }
        i = i + 1;
    }
    caps
}

} // verus!
