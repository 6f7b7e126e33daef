//! The decisions a task makes while it looks for a shard to enqueue into or
//! dequeue from: where it starts, where it moves after a failed attempt and
//! when it yields to other tasks.
//!
//! The waiting itself (yielding, trying a lock) belongs to the caller: it
//! reports each attempt and follows the decision it gets back.
use crate::shard_policies::ShardPolicyKind;
use crate::task_locals::{set_shard_ind, TaskLocals};
use vstd::arithmetic::div_mod::{
    lemma_add_mod_noop, lemma_mod_add_multiples_vanish, lemma_mod_self_0, lemma_small_mod,
};
use vstd::prelude::*;

verus! {

/// Whether a task wants to enqueue or to dequeue.
#[derive(Debug, Clone, Copy, PartialEq, Eq, Structural)]
pub enum Acquire {
    Enqueue,
    Dequeue,
}

/// A uniformly random shard index below `shard_count`.
///
/// Calls `fastrand::usize(0..shard_count)`, which panics on an empty range
/// and otherwise returns a value of the range; nothing else is stated of
/// the value, which depends on the generator's state.
#[verifier::external_body]
fn random_shard(shard_count: usize) -> (r: usize)
    requires
        shard_count > 0,
    ensures
        r < shard_count,
{
    fastrand::usize(0..shard_count)
}

/// Whether starting under `locals` draws a random shard.
pub open spec fn needs_random(locals: TaskLocals) -> bool {
    match locals.shard_policy {
        ShardPolicyKind::RandomAndSweep => true,
        ShardPolicyKind::Cft => false,
        _ => locals.shard_index is None,
    }
}

/// The shard a task starts at: a random one under `RandomAndSweep`, the one
/// its node was given under CFT, and otherwise its own index (wrapped round
/// the shard count) or, if it has none yet, a random one.
pub open spec fn start_index(locals: TaskLocals, shard_count: nat, cft_shard: nat, random: nat) -> nat {
    match locals.shard_policy {
        ShardPolicyKind::RandomAndSweep => random,
        ShardPolicyKind::Cft => cft_shard,
        _ => match locals.shard_index {
            Some(v) => (v as nat) % shard_count,
            None => random,
        },
    }
}

/// The task's state after it started: a randomly chosen start is remembered
/// as its index, except under `RandomAndSweep` and CFT.
pub open spec fn start_locals(locals: TaskLocals, random: nat) -> TaskLocals {
    match locals.shard_policy {
        ShardPolicyKind::RandomAndSweep => locals,
        ShardPolicyKind::Cft => locals,
        _ => match locals.shard_index {
            Some(v) => locals,
            None => TaskLocals { shard_index: Some(random as usize), ..locals },
        },
    }
}

/// Where a task stands after one more failed attempt, from `current` with
/// `spins` shards already passed in this round, and whether it yields.
///
/// Under CFT the task stays and yields. Otherwise it moves on by `shift`;
/// once a round of `shard_count` shards is complete it yields, starts a new
/// round, and under `ShiftBy` also moves on by one more shard.
pub open spec fn advance(
    current: nat,
    spins: nat,
    shift: nat,
    shard_count: nat,
    kind: ShardPolicyKind,
) -> (nat, nat, bool) {
    if kind == ShardPolicyKind::Cft {
        (current, spins, true)
    } else {
        let c1 = (current + shift) % shard_count;
        let s1 = spins + shift;
        if s1 >= shard_count {
            if kind == ShardPolicyKind::ShiftBy {
                ((c1 + 1) % shard_count, 0, true)
            } else {
                (c1, 0, true)
            }
        } else {
            (c1, s1, false)
        }
    }
}

/// Where a task stands after `k` failed attempts.
pub open spec fn advance_n(
    current: nat,
    spins: nat,
    shift: nat,
    shard_count: nat,
    kind: ShardPolicyKind,
    k: nat,
) -> (nat, nat, bool)
    decreases k,
{
    if k == 0 {
        (current, spins, false)
    } else {
        let prev = advance_n(current, spins, shift, shard_count, kind, (k - 1) as nat);
        advance(prev.0, prev.1, shift, shard_count, kind)
    }
}

/// The search of one task for a shard.
pub struct ShardAcquirer {
    current: usize,
    spins: usize,
    shard_count: usize,
}

impl ShardAcquirer {
    /// The shard the task tries next.
    pub closed spec fn current_spec(&self) -> nat {
        self.current as nat
    }

    /// How many shards the task passed in this round.
    pub closed spec fn spins_spec(&self) -> nat {
        self.spins as nat
    }

    /// The number of shards of the buffer.
    pub closed spec fn shard_count_spec(&self) -> nat {
        self.shard_count as nat
    }

    /// The search's invariant.
    pub closed spec fn wf(&self) -> bool {
        &&& self.shard_count > 0
        &&& self.current < self.shard_count
        &&& self.spins < self.shard_count
    }

    /// A task with these locals can search a buffer of `shard_count` shards
    /// without its index arithmetic overflowing: a shard index plus the
    /// shift stays within `usize`.
    pub open spec fn locals_fit(locals: TaskLocals, shard_count: nat) -> bool {
        locals.shift + shard_count <= usize::MAX + 1
    }

    /// Starts a search, with `random` standing for the random shard that the
    /// policy may call for and `cft_shard` for the shard that the task's node
    /// was given under CFT.
    pub fn start_with(locals: &mut TaskLocals, shard_count: usize, cft_shard: usize, random: usize) -> (a: Self)
        requires
            shard_count > 0,
            random < shard_count,
            old(locals).shard_policy == ShardPolicyKind::Cft ==> cft_shard < shard_count,
        ensures
            a.wf(),
            a.shard_count_spec() == shard_count,
            a.spins_spec() == 0,
            a.current_spec() == start_index(*old(locals), shard_count as nat, cft_shard as nat, random as nat),
            *final(locals) == start_locals(*old(locals), random as nat),
            old(locals).shard_policy == ShardPolicyKind::RandomAndSweep ==> a.current_spec() == random
                && *final(locals) == *old(locals),
            old(locals).shard_policy == ShardPolicyKind::Cft ==> a.current_spec() == cft_shard
                && *final(locals) == *old(locals),
            old(locals).shard_policy != ShardPolicyKind::RandomAndSweep && old(locals).shard_policy
                != ShardPolicyKind::Cft && old(locals).shard_index is Some ==> a.current_spec() == (old(
                locals,
            ).shard_index->0 as nat) % (shard_count as nat) && *final(locals) == *old(locals),
            old(locals).shard_policy != ShardPolicyKind::RandomAndSweep && old(locals).shard_policy
                != ShardPolicyKind::Cft && old(locals).shard_index is None ==> a.current_spec() == random
                && final(locals).shard_index == Some(random) && final(locals).shift == old(locals).shift
                && final(locals).shard_policy == old(locals).shard_policy && final(locals).task_node
                == old(locals).task_node,
    {
        let current = match locals.shard_policy {
            ShardPolicyKind::RandomAndSweep => random,
            ShardPolicyKind::Cft => cft_shard,
            _ => match locals.shard_index {
                Some(v) => v % shard_count,
                None => {
                    set_shard_ind(locals, random);
                    random
                },
            },
        };
        ShardAcquirer { current, spins: 0, shard_count }
    }

    /// Starts a search, drawing a random shard where the policy calls for one.
    pub fn start(locals: &mut TaskLocals, shard_count: usize, cft_shard: usize) -> (a: Self)
        requires
            shard_count > 0,
            old(locals).shard_policy == ShardPolicyKind::Cft ==> cft_shard < shard_count,
        ensures
            a.wf(),
            a.shard_count_spec() == shard_count,
            a.spins_spec() == 0,
            exists|random: nat|
                random < shard_count && a.current_spec() == start_index(
                    *old(locals),
                    shard_count as nat,
                    cft_shard as nat,
                    random,
                ) && *final(locals) == #[trigger] start_locals(*old(locals), random),
            !needs_random(*old(locals)) ==> a.current_spec() == start_index(
                *old(locals),
                shard_count as nat,
                cft_shard as nat,
                0,
            ) && *final(locals) == *old(locals),
    {
        let random = match locals.shard_policy {
            ShardPolicyKind::RandomAndSweep => random_shard(shard_count),
            ShardPolicyKind::Cft => 0,
            _ => match locals.shard_index {
                Some(_) => 0,
                None => random_shard(shard_count),
            },
        };
        let a = Self::start_with(locals, shard_count, cft_shard, random);
        assert(start_locals(*old(locals), random as nat) == *locals);
        a
    }

    /// The shard the task tries next.
    pub fn current(&self) -> (c: usize)
        requires
            self.wf(),
        ensures
            c == self.current_spec(),
            c < self.shard_count_spec(),
    {
        self.current
    }

    /// The task got the current shard: it remembers the shard after it
    /// (by its shift) as where to start next time, and gets the current one.
    pub fn on_acquired(&self, locals: &mut TaskLocals) -> (shard: usize)
        requires
            self.wf(),
            Self::locals_fit(*old(locals), self.shard_count_spec()),
        ensures
            shard == self.current_spec(),
            final(locals).shard_index == Some(
                ((self.current_spec() + old(locals).shift) as int % self.shard_count_spec() as int) as usize,
            ),
            final(locals).shift == old(locals).shift,
            final(locals).shard_policy == old(locals).shard_policy,
            final(locals).task_node == old(locals).task_node,
    {
        set_shard_ind(locals, (self.current + locals.shift) % self.shard_count);
        self.current
    }

    /// The current shard could not be used: moves on as `advance` says and
    /// returns whether the task yields before its next attempt.
    pub fn on_failed(&mut self, locals: &TaskLocals) -> (yield_now: bool)
        requires
            old(self).wf(),
            Self::locals_fit(*locals, old(self).shard_count_spec()),
        ensures
            final(self).wf(),
            final(self).shard_count_spec() == old(self).shard_count_spec(),
            (final(self).current_spec(), final(self).spins_spec(), yield_now) == advance(
                old(self).current_spec(),
                old(self).spins_spec(),
                locals.shift as nat,
                old(self).shard_count_spec(),
                locals.shard_policy,
            ),
            locals.shard_policy == ShardPolicyKind::Cft ==> yield_now && *final(self) == *old(self),
            locals.shard_policy != ShardPolicyKind::Cft && old(self).spins_spec() + locals.shift
                < old(self).shard_count_spec() ==> !yield_now && final(self).current_spec() == (old(
                self,
            ).current_spec() + locals.shift) % (old(self).shard_count_spec() as int) && final(self).spins_spec()
                == old(self).spins_spec() + locals.shift,
            locals.shard_policy != ShardPolicyKind::Cft && old(self).spins_spec() + locals.shift
                >= old(self).shard_count_spec() ==> yield_now && final(self).spins_spec() == 0,
            locals.shard_policy != ShardPolicyKind::Cft && locals.shard_policy != ShardPolicyKind::ShiftBy
                ==> final(self).current_spec() == (old(self).current_spec() + locals.shift) % (old(
                self,
            ).shard_count_spec() as int),
    {
        if locals.shard_policy == ShardPolicyKind::Cft {
            return true;
        }
        self.current = (self.current + locals.shift) % self.shard_count;
        self.spins = self.spins + locals.shift;
        if self.spins >= self.shard_count {
            if locals.shard_policy == ShardPolicyKind::ShiftBy {
                self.current = (self.current + 1) % self.shard_count;
            }
            self.spins = 0;
            true
        } else {
            false
        }
    }

    /// Under CFT a dequeuer whose node was given another shard moves there.
    pub fn reassign(&mut self, shard: usize)
        requires
            old(self).wf(),
            shard < old(self).shard_count_spec(),
        ensures
            final(self).wf(),
            final(self).current_spec() == shard,
            final(self).spins_spec() == old(self).spins_spec(),
            final(self).shard_count_spec() == old(self).shard_count_spec(),
    {
        self.current = shard;
    }
}

/// A sweeping task (shift one) that fails on every shard visits the shards
/// one after another: after `k` failures within its first round it stands
/// at `(start + k) % shard_count` and has not yielded.
pub proof fn lemma_sweep_positions(start: nat, shard_count: nat, k: nat)
    requires
        start < shard_count,
        k < shard_count,
    ensures
        advance_n(start, 0, 1, shard_count, ShardPolicyKind::Sweep, k) == (
            (start + k) % shard_count,
            k,
            false,
        ),
    decreases k,
{
    if k == 0 {
        lemma_small_mod(start, shard_count);
    } else {
        lemma_sweep_positions(start, shard_count, (k - 1) as nat);
        lemma_add_mod_noop((start + k - 1) as int, 1, shard_count as int);
        lemma_small_mod(1, shard_count);
    }
}

/// A sweeping task visits every shard in its first round: for every shard
/// `s` there is a number of failures `k` below the shard count after which
/// the task stands at `s`.
pub proof fn lemma_sweep_covers_every_shard(start: nat, shard_count: nat, s: nat)
    requires
        start < shard_count,
        s < shard_count,
    ensures
        exists|k: nat|
            k < shard_count && (#[trigger] advance_n(
                start,
                0,
                1,
                shard_count,
                ShardPolicyKind::Sweep,
                k,
            )).0 == s,
{
    let k: nat = if s >= start {
        (s - start) as nat
    } else {
        (s + shard_count - start) as nat
    };
    lemma_sweep_positions(start, shard_count, k);
    if s >= start {
        lemma_small_mod(s, shard_count);
    } else {
        lemma_mod_add_multiples_vanish(s as int, shard_count as int);
        lemma_small_mod(s, shard_count);
    }
    assert(advance_n(start, 0, 1, shard_count, ShardPolicyKind::Sweep, k).0 == s);
}

/// A sweeping task yields exactly when it completes a round: its
/// `shard_count`-th failure brings it back to its start, with a new round.
pub proof fn lemma_sweep_yields_after_full_round(start: nat, shard_count: nat)
    requires
        start < shard_count,
    ensures
        advance_n(start, 0, 1, shard_count, ShardPolicyKind::Sweep, shard_count) == (
            start,
            0nat,
            true,
        ),
{
    lemma_sweep_positions(start, shard_count, (shard_count - 1) as nat);
    lemma_add_mod_noop((start + shard_count - 1) as int, 1, shard_count as int);
    if shard_count > 1 {
        lemma_small_mod(1, shard_count);
    } else {
        lemma_mod_self_0(1);
    }
    lemma_mod_add_multiples_vanish(start as int, shard_count as int);
    lemma_small_mod(start, shard_count);
}

/// A task that has an index of its own starts at that index, wrapped round
/// the shard count, under every policy but `RandomAndSweep` and CFT: the
/// random draw plays no part.
pub proof fn law_start_uses_own_index(locals: TaskLocals, shard_count: nat, cft_shard: nat, r1: nat, r2: nat)
    requires
        locals.shard_policy != ShardPolicyKind::RandomAndSweep,
        locals.shard_policy != ShardPolicyKind::Cft,
        locals.shard_index is Some,
    ensures
        start_index(locals, shard_count, cft_shard, r1) == (locals.shard_index->0 as nat) % shard_count,
        start_index(locals, shard_count, cft_shard, r1) == start_index(locals, shard_count, cft_shard, r2),
        start_locals(locals, r1) == locals,
{
}

/// Under every policy but CFT a task that fails `k` times in its first
/// round, moving one shard at a time, stands at `(start + k) % shard_count`
/// and has not yielded.
pub proof fn law_sweep_positions_any_policy(start: nat, shard_count: nat, k: nat, kind: ShardPolicyKind)
    requires
        kind != ShardPolicyKind::Cft,
        start < shard_count,
        k < shard_count,
    ensures
        advance_n(start, 0, 1, shard_count, kind, k) == ((start + k) % shard_count, k, false),
    decreases k,
{
    if k == 0 {
        lemma_small_mod(start, shard_count);
    } else {
        law_sweep_positions_any_policy(start, shard_count, (k - 1) as nat, kind);
        lemma_add_mod_noop((start + k - 1) as int, 1, shard_count as int);
        lemma_small_mod(1, shard_count);
    }
}

/// Under every policy but CFT and `ShiftBy`, a task moving one shard at a
/// time that fails on every shard yields exactly when it completes a round,
/// back at its start.
pub proof fn law_sweep_round_any_policy(start: nat, shard_count: nat, kind: ShardPolicyKind)
    requires
        kind != ShardPolicyKind::Cft,
        kind != ShardPolicyKind::ShiftBy,
        start < shard_count,
    ensures
        advance_n(start, 0, 1, shard_count, kind, shard_count) == (start, 0nat, true),
{
    law_sweep_positions_any_policy(start, shard_count, (shard_count - 1) as nat, kind);
    lemma_add_mod_noop((start + shard_count - 1) as int, 1, shard_count as int);
    if shard_count > 1 {
        lemma_small_mod(1, shard_count);
    } else {
        lemma_mod_self_0(1);
    }
    lemma_mod_add_multiples_vanish(start as int, shard_count as int);
    lemma_small_mod(start, shard_count);
}

} // verus!
