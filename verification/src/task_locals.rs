//! The per-task state that steers how a task acquires shards: its current
//! shard index, its shift, its policy and, under the CFT policy, its node.
use crate::shard_policies::{ShardPolicy, ShardPolicyKind};
use crate::task_node::TaskNodePtr;
use vstd::prelude::*;

verus! {

/// The state that each enqueuer or dequeuer task carries.
#[derive(Debug, Clone, Copy)]
pub struct TaskLocals {
    /// The shard index the task looks at next (`None` until one is chosen).
    pub shard_index: Option<usize>,
    /// How far the task moves on after a failed attempt.
    pub shift: usize,
    /// The policy the task follows.
    pub shard_policy: ShardPolicyKind,
    /// The task's node under the CFT policy (`None` before it registers).
    pub task_node: Option<TaskNodePtr>,
}

/// The task's shard index.
pub fn get_shard_ind(locals: &TaskLocals) -> (r: Option<usize>)
    ensures
        r == locals.shard_index,
{
    locals.shard_index
}

/// Sets the task's shard index to `val`.
pub fn set_shard_ind(locals: &mut TaskLocals, val: usize)
    ensures
        final(locals).shard_index == Some(val),
        final(locals).shift == old(locals).shift,
        final(locals).shard_policy == old(locals).shard_policy,
        final(locals).task_node == old(locals).task_node,
{
    locals.shard_index = Some(val);
}

/// The task's policy.
pub fn get_shard_policy(locals: &TaskLocals) -> (r: ShardPolicyKind)
    ensures
        r == locals.shard_policy,
{
    locals.shard_policy
}

/// The task's shift.
pub fn get_shift(locals: &TaskLocals) -> (r: usize)
    ensures
        r == locals.shift,
{
    locals.shift
}

/// The task's node.
pub fn get_task_node(locals: &TaskLocals) -> (r: Option<TaskNodePtr>)
    ensures
        r == locals.task_node,
{
    locals.task_node
}

/// Records the task's node.
pub fn set_task_node(locals: &mut TaskLocals, task_ptr: TaskNodePtr)
    ensures
        final(locals).task_node == Some(task_ptr),
        final(locals).shard_index == old(locals).shard_index,
        final(locals).shift == old(locals).shift,
        final(locals).shard_policy == old(locals).shard_policy,
{
    locals.task_node = Some(task_ptr);
}

/// The state that a task spawned under `policy` starts with.
pub open spec fn policy_locals(policy: ShardPolicy) -> TaskLocals {
    match policy {
        ShardPolicy::Sweep { initial_index } => TaskLocals {
            shard_index: initial_index,
            shift: 1,
            shard_policy: ShardPolicyKind::Sweep,
            task_node: None,
        },
        ShardPolicy::RandomAndSweep => TaskLocals {
            shard_index: None,
            shift: 1,
            shard_policy: ShardPolicyKind::RandomAndSweep,
            task_node: None,
        },
        ShardPolicy::ShiftBy { initial_index, shift } => TaskLocals {
            shard_index: initial_index,
            shift: shift,
            shard_policy: ShardPolicyKind::ShiftBy,
            task_node: None,
        },
        ShardPolicy::Pin { initial_index } => TaskLocals {
            shard_index: Some(initial_index),
            shift: 0,
            shard_policy: ShardPolicyKind::Pin,
            task_node: None,
        },
    }
}

/// The state that a task spawned under `policy` starts with: sweeping
/// policies move on by one shard, `ShiftBy` by its shift and `Pin` not at
/// all; `RandomAndSweep` starts without an index.
pub fn task_locals_for_policy(policy: &ShardPolicy) -> (locals: TaskLocals)
    ensures
        locals == policy_locals(*policy),
{
    match policy {
        ShardPolicy::Sweep { initial_index } => TaskLocals {
            shard_index: *initial_index,
            shift: 1,
            shard_policy: ShardPolicyKind::Sweep,
            task_node: None,
        },
        ShardPolicy::RandomAndSweep => TaskLocals {
            shard_index: None,
            shift: 1,
            shard_policy: ShardPolicyKind::RandomAndSweep,
            task_node: None,
        },
        ShardPolicy::ShiftBy { initial_index, shift } => TaskLocals {
            shard_index: *initial_index,
            shift: *shift,
            shard_policy: ShardPolicyKind::ShiftBy,
            task_node: None,
        },
        ShardPolicy::Pin { initial_index } => TaskLocals {
            shard_index: Some(*initial_index),
            shift: 0,
            shard_policy: ShardPolicyKind::Pin,
            task_node: None,
        },
    }
}

/// The state that a task spawned under the CFT policy starts with: no
/// index, no shift and no node until it registers.
pub fn cft_task_locals() -> (locals: TaskLocals)
    ensures
        locals.shard_index is None,
        locals.shift == 0,
        locals.shard_policy == ShardPolicyKind::Cft,
        locals.task_node is None,
{
    TaskLocals {
        shard_index: None,
        shift: 0,
        shard_policy: ShardPolicyKind::Cft,
        task_node: None,
    }
}

} // verus!
