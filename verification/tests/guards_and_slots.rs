use sharded_ringbuf::acquire::Acquire;
use sharded_ringbuf::cs::{CSShardedRingBuf, GuardStep};
use sharded_ringbuf::guards::{ShardLockGuard, TaskDoneGuard};
use sharded_ringbuf::mlf::{ClaimStep, MLFShardedRingBuf, Slot};
use sharded_ringbuf::notify::NotifyTarget;
use sharded_ringbuf::task_node::{TaskNode, TaskRole};

#[test]
fn flags_are_taken_once() {
    let mut lock = false;
    assert!(ShardLockGuard::try_acquire_lock(&mut lock));
    assert!(!ShardLockGuard::try_acquire_lock(&mut lock));
    ShardLockGuard::release(&mut lock);
    assert!(!lock);
    let mut done = false;
    assert!(TaskDoneGuard::try_acquire_done(&mut done));
    assert!(!TaskDoneGuard::try_acquire_done(&mut done));
    TaskDoneGuard::release(&mut done);
    assert!(TaskDoneGuard::try_acquire_done(&mut done));
}

#[test]
fn fresh_task_node_has_no_shard() {
    let n = TaskNode::new(TaskRole::Dequeue);
    assert_eq!(n.role, TaskRole::Dequeue);
    assert_eq!(n.shard_ind, usize::MAX);
    assert!(n.my_pair.is_none() && n.next.is_none() && n.prev.is_none() && n.myself.is_none());
}

#[test]
fn cs_guards_grant_and_wait() {
    let mut rb: CSShardedRingBuf<u32> = CSShardedRingBuf::new_with_enq_num(4, 2, 1);
    assert_eq!(rb.get_num_of_space_notifs(), 1);
    assert!(!rb.is_closed_for(Acquire::Enqueue, 1));
    assert!(matches!(rb.enqueue_guard_in_shard(1, false), GuardStep::Retry));
    let shard = rb.enqueue_guard();
    assert_eq!(shard, 0);
    assert_eq!(rb.enqueue_guard(), 1);
    match rb.enqueue_guard_in_shard(1, true) {
        GuardStep::Granted(g) => {
            assert_eq!(g.shard(), 1);
            assert_eq!(g.notify_on_release(), NotifyTarget::JobPost(1));
            rb.enqueue(42, g);
        }
        other => panic!("unexpected {:?}", other),
    }
    match rb.dequeue_in_shard(0, true) {
        Err(GuardStep::Wait { notify, wait_on }) => {
            assert_eq!(notify, NotifyTarget::JobSpace(0));
            assert_eq!(wait_on, NotifyTarget::JobPost(0));
        }
        other => panic!("unexpected {:?}", other),
    }
    match rb.dequeue_in_shard(1, true) {
        Ok((item, notify)) => {
            assert_eq!(item, 42);
            assert_eq!(notify, NotifyTarget::JobSpace(0));
        }
        other => panic!("unexpected {:?}", other),
    }
    rb.poison();
    assert!(rb.is_closed_for(Acquire::Enqueue, 0));
    assert!(rb.is_closed_for(Acquire::Dequeue, 0));
    assert_eq!(rb.notify_dequeuer_in_shard(1), NotifyTarget::JobPost(1));
}

#[test]
fn cs_full_shard_makes_enqueuer_wait() {
    let mut rb: CSShardedRingBuf<u32> = CSShardedRingBuf::new(2, 2);
    if let GuardStep::Granted(g) = rb.acquire_shard_guard(Acquire::Enqueue, 0, true) {
        rb.enqueue(1, g);
    } else {
        panic!("expected a guard");
    }
    assert!(rb.is_shard_full(0));
    match rb.acquire_shard_guard(Acquire::Enqueue, 0, true) {
        GuardStep::Wait { notify, wait_on } => {
            assert_eq!(notify, NotifyTarget::JobPost(0));
            assert_eq!(wait_on, NotifyTarget::JobSpace(0));
        }
        other => panic!("unexpected {:?}", other),
    }
    assert_eq!(rb.clone_items(), vec![vec![Some(1)], vec![None]]);
}

#[test]
fn mlf_slot_round_trip() {
    let mut rb: MLFShardedRingBuf<&str> = MLFShardedRingBuf::new(5, 2);
    assert_eq!(rb.get_shard_capacity(0), Some(3));
    assert_eq!(rb.get_shard_capacity(1), Some(2));
    let slot = rb.reserve_slot(Acquire::Enqueue, 1);
    assert_eq!(slot, 0);
    assert_eq!(rb.try_claim_slot(Acquire::Enqueue, 1, slot), ClaimStep::Claimed);
    rb.enqueue_in_slot(1, slot, Some("job"));
    assert_eq!(rb.release_slot(1, slot, Acquire::Enqueue), NotifyTarget::JobPost(1));
    assert_eq!(rb.get_job_count_at_shard(1), Some(1));
    assert!(rb.is_item_in_shard(0, 1));
    assert_eq!(rb.clone_item_at_shard(0, 1), Some("job"));
    let d = rb.reserve_slot(Acquire::Dequeue, 1);
    assert_eq!(rb.try_claim_slot(Acquire::Dequeue, 1, d), ClaimStep::Claimed);
    assert_eq!(rb.dequeue_in_slot(1, d), Some("job"));
    assert_eq!(rb.release_slot(1, d, Acquire::Dequeue), NotifyTarget::JobSpace(1));
    assert!(rb.is_shard_empty(1));
    assert_eq!(rb.get_enq_ind_at_shard(1), Some(1));
    assert_eq!(rb.get_deq_ind_at_shard(1), Some(1));
}

#[test]
fn mlf_claims_wait_for_the_other_side() {
    let mut rb: MLFShardedRingBuf<u8> = MLFShardedRingBuf::new(2, 1);
    let d = rb.reserve_slot(Acquire::Dequeue, 0);
    assert_eq!(
        rb.try_claim_slot(Acquire::Dequeue, 0, d),
        ClaimStep::NotifyAndWait { notify: NotifyTarget::JobSpace(0), wait_on: NotifyTarget::JobPost(0) }
    );
    let e = rb.reserve_slot(Acquire::Enqueue, 0);
    assert_eq!(rb.try_claim_slot(Acquire::Enqueue, 0, e), ClaimStep::Claimed);
    assert_eq!(
        rb.try_claim_slot(Acquire::Dequeue, 0, d),
        ClaimStep::Wait { wait_on: NotifyTarget::JobPost(0) }
    );
    rb.enqueue_in_slot(0, e, None);
    rb.release_slot(0, e, Acquire::Enqueue);
    assert_eq!(rb.clone_item_at_shard(0, 0), None);
    // the slot is full, but the dequeuer's reservation already took it out
    // of the window of jobs
    assert!(!rb.is_item_in_shard(0, 0));
    assert_eq!(rb.try_claim_slot(Acquire::Dequeue, 0, d), ClaimStep::Claimed);
    assert_eq!(rb.dequeue_in_slot(0, d), None);
    rb.release_slot(0, d, Acquire::Dequeue);
    rb.clear();
    assert!(rb.is_empty());
    assert_eq!(rb.get_job_count_total(), vec![0]);
    assert_eq!(rb.notify_pin_shard(0), NotifyTarget::JobPost(0));
    let s: Slot<u8> = Slot::new();
    let _ = s;
}
