//! The shard acquisition policies that a task can follow.
use vstd::prelude::*;

verus! {

/// How a task chooses the shards it tries when it enqueues or dequeues.
#[derive(Debug, Clone, PartialEq, Eq, Structural)]
pub enum ShardPolicy {
    /// Start at the given index (or a random one when `None`) and try the
    /// shards one after another, going round the buffer.
    Sweep { initial_index: Option<usize> },
    /// Start at a random index and try the shards one after another.
    RandomAndSweep,
    /// Start at the given index (or a random one when `None`) and move on by
    /// `shift` shards after each failed attempt; after every full round of
    /// failures the index moves on by one more shard.
    ShiftBy { initial_index: Option<usize>, shift: usize },
    /// Stay at the given index.
    Pin { initial_index: usize },
}

/// The kind of a policy, as a task remembers it.
#[derive(Debug, Clone, Copy, PartialEq, Eq, Structural)]
pub enum ShardPolicyKind {
    Sweep,
    RandomAndSweep,
    ShiftBy,
    Cft,
    Pin,
}

} // verus!
