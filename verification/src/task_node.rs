//! Task roles, task handles and the list node of a task of the completely
//! fair tasks (CFT) policy.
use vstd::prelude::*;

verus! {

/// Whether a task enqueues or dequeues.
#[derive(Debug, PartialEq, Eq, Clone, Copy, Structural)]
pub enum TaskRole {
    Enqueue,
    Dequeue,
}

/// A handle on a task of the CFT policy: its id in the assigner's task
/// table (`crate::assigner::AssignerState`).
#[derive(Debug, Clone, Copy, PartialEq, Eq, Structural)]
pub struct TaskNodePtr(pub usize);

/// The record of one task: its role, the shard it works on and its links
/// to its pair and to its neighbours in the task list. A shard index of
/// `usize::MAX` means that no shard was given to the task yet.
#[derive(Debug)]
pub struct TaskNode {
    pub role: TaskRole,
    pub shard_ind: usize,
    pub myself: Option<TaskNodePtr>,
    pub my_pair: Option<TaskNodePtr>,
    pub prev: Option<TaskNodePtr>,
    pub next: Option<TaskNodePtr>,
}

impl TaskNode {
    /// A fresh node for a task of the given role: no shard yet and no links.
    pub fn new(role: TaskRole) -> (node: Self)
        ensures
            node.role == role,
            node.shard_ind == usize::MAX,
            node.myself is None,
            node.my_pair is None,
            node.prev is None,
            node.next is None,
    {
        TaskNode {
            role,
            shard_ind: usize::MAX,
            myself: None,
            my_pair: None,
            prev: None,
            next: None,
        }
    }
}

} // verus!
