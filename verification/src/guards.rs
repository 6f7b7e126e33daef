//! Try-locks on a single flag, as the shard locks and the done flags of
//! task nodes use them.
use vstd::prelude::*;

verus! {

/// The lock of a shard.
pub struct ShardLockGuard;

impl ShardLockGuard {
    /// Takes the lock if it is free: succeeds exactly when the flag was
    /// clear, and leaves it set.
    pub fn try_acquire_lock(lock: &mut bool) -> (acquired: bool)
        ensures
            acquired == !*old(lock),
            *final(lock),
    {
        if *lock {
            false
        } else {
            *lock = true;
            true
        }
    }

    /// Gives the lock back.
    pub fn release(lock: &mut bool)
        ensures
            !*final(lock),
    {
        *lock = false;
    }
}

/// The done flag of a task node under the CFT policy.
pub struct TaskDoneGuard;

impl TaskDoneGuard {
    /// Marks the task as done if it was not yet: succeeds exactly when the
    /// flag was clear, and leaves it set.
    pub fn try_acquire_done(lock: &mut bool) -> (acquired: bool)
        ensures
            acquired == !*old(lock),
            *final(lock),
    {
        if *lock {
            false
        } else {
            *lock = true;
            true
        }
    }

    /// Clears the flag again.
    pub fn release(lock: &mut bool)
        ensures
            !*final(lock),
    {
        *lock = false;
    }
}

} // verus!
