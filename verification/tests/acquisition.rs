use sharded_ringbuf::acquire::{Acquire, ShardAcquirer};
use sharded_ringbuf::lf::{AcquireStep, LFShardedRingBuf};
use sharded_ringbuf::shard_policies::{ShardPolicy, ShardPolicyKind};
use sharded_ringbuf::task_locals::{
    cft_task_locals, get_shard_ind, get_shard_policy, get_shift, get_task_node, set_shard_ind,
    set_task_node, task_locals_for_policy,
};
use sharded_ringbuf::task_node::TaskNodePtr;

#[test]
fn policies_set_up_the_task() {
    let l = task_locals_for_policy(&ShardPolicy::Sweep { initial_index: Some(3) });
    assert_eq!(get_shard_ind(&l), Some(3));
    assert_eq!(get_shift(&l), 1);
    assert_eq!(get_shard_policy(&l), ShardPolicyKind::Sweep);
    let l = task_locals_for_policy(&ShardPolicy::RandomAndSweep);
    assert_eq!(get_shard_ind(&l), None);
    assert_eq!(get_shift(&l), 1);
    let l = task_locals_for_policy(&ShardPolicy::ShiftBy { initial_index: None, shift: 5 });
    assert_eq!(get_shift(&l), 5);
    assert_eq!(get_shard_policy(&l), ShardPolicyKind::ShiftBy);
    let mut l = task_locals_for_policy(&ShardPolicy::Pin { initial_index: 2 });
    assert_eq!(get_shard_ind(&l), Some(2));
    assert_eq!(get_shift(&l), 0);
    set_shard_ind(&mut l, 9);
    assert_eq!(get_shard_ind(&l), Some(9));
    let mut c = cft_task_locals();
    assert_eq!(get_task_node(&c), None);
    set_task_node(&mut c, TaskNodePtr(4));
    assert_eq!(get_task_node(&c), Some(TaskNodePtr(4)));
    assert_eq!(get_shard_policy(&c), ShardPolicyKind::Cft);
}

#[test]
fn sweep_visits_every_shard_then_yields() {
    let mut l = task_locals_for_policy(&ShardPolicy::Sweep { initial_index: Some(6) });
    let mut a = ShardAcquirer::start(&mut l, 4, 0);
    assert_eq!(a.current(), 2);
    let mut seen = vec![a.current()];
    let mut yields = vec![];
    for _ in 0..4 {
        yields.push(a.on_failed(&l));
        seen.push(a.current());
    }
    assert_eq!(seen, vec![2, 3, 0, 1, 2]);
    assert_eq!(yields, vec![false, false, false, true]);
}

#[test]
fn shift_by_moves_one_more_after_a_round() {
    let mut l = task_locals_for_policy(&ShardPolicy::ShiftBy { initial_index: Some(0), shift: 2 });
    let mut a = ShardAcquirer::start(&mut l, 4, 0);
    assert!(!a.on_failed(&l));
    assert_eq!(a.current(), 2);
    assert!(a.on_failed(&l));
    assert_eq!(a.current(), 1);
    let shard = a.on_acquired(&mut l);
    assert_eq!(shard, 1);
    assert_eq!(get_shard_ind(&l), Some(3));
}

#[test]
fn random_start_stays_in_range() {
    for _ in 0..200 {
        let mut l = task_locals_for_policy(&ShardPolicy::RandomAndSweep);
        let a = ShardAcquirer::start(&mut l, 5, 0);
        assert!(a.current() < 5);
        assert_eq!(get_shard_ind(&l), None);
        let mut l = task_locals_for_policy(&ShardPolicy::Sweep { initial_index: None });
        let a = ShardAcquirer::start(&mut l, 3, 0);
        assert!(a.current() < 3);
        assert_eq!(get_shard_ind(&l), Some(a.current()));
    }
    let mut l = task_locals_for_policy(&ShardPolicy::RandomAndSweep);
    let a = ShardAcquirer::start_with(&mut l, 5, 0, 4);
    assert_eq!(a.current(), 4);
}

#[test]
fn cft_stays_and_yields() {
    let mut l = cft_task_locals();
    let mut a = ShardAcquirer::start(&mut l, 3, 2);
    assert_eq!(a.current(), 2);
    assert!(a.on_failed(&l));
    assert_eq!(a.current(), 2);
    a.reassign(0);
    assert_eq!(a.current(), 0);
}

#[test]
fn lf_buffer_serves_acquired_shards() {
    let mut rb: LFShardedRingBuf<u32> = LFShardedRingBuf::new(4, 2);
    let mut l = task_locals_for_policy(&ShardPolicy::Sweep { initial_index: Some(0) });
    let mut a = ShardAcquirer::start(&mut l, 2, 0);
    // a dequeuer finds nothing usable: it moves on and yields after a round
    let step = rb.try_acquire_shard(&mut a, &mut l, Acquire::Dequeue, true);
    assert_eq!(step, AcquireStep::Retry { release_lock: true, yield_first: false });
    let step = rb.try_acquire_shard(&mut a, &mut l, Acquire::Dequeue, false);
    assert_eq!(step, AcquireStep::Retry { release_lock: false, yield_first: true });
    // an enqueuer gets shard 0 and remembers shard 1 for next time
    let step = rb.try_acquire_shard(&mut a, &mut l, Acquire::Enqueue, true);
    assert_eq!(step, AcquireStep::Acquired(0));
    assert_eq!(get_shard_ind(&l), Some(1));
    assert!(rb.enqueue_item(5, 0));
    assert_eq!(rb.get_job_count_at_shard(0), Some(1));
    assert!(rb.is_item_in_shard(0, 0));
    assert_eq!(rb.dequeue(0), Some(5));
    rb.poison();
    assert!(rb.should_stop_acquiring());
    assert!(!rb.enqueue_item(6, 1));
    assert_eq!(rb.dequeue(1), None);
    rb.clear_poison();
    rb.enqueue_in_shard(1, 8);
    rb.enqueue_in_shard(1, 9);
    assert!(rb.is_shard_full(1));
    assert_eq!(rb.dequeue_in_shard(1), 8);
    assert_eq!(rb.get_deq_ind_at_shard(1), Some(1));
    rb.clear();
    assert!(rb.is_empty());
}

#[test]
fn lf_poisoned_empty_buffer_stops_the_search() {
    let rb: LFShardedRingBuf<u32> = LFShardedRingBuf::new(4, 2);
    let mut rb = rb;
    rb.poison();
    let mut l = task_locals_for_policy(&ShardPolicy::Sweep { initial_index: Some(1) });
    let mut a = ShardAcquirer::start(&mut l, 2, 0);
    let step = rb.try_acquire_shard(&mut a, &mut l, Acquire::Enqueue, true);
    assert_eq!(step, AcquireStep::Stop { release_lock: true });
    assert_eq!(a.current(), 1);
    assert_eq!(rb.dequeue_full(0), None);
    rb.clear_poison();
    rb.enqueue_in_shard(0, 3);
    rb.enqueue_in_shard(0, 4);
    assert_eq!(rb.shard_empty_flags(), vec![false, true]);
    assert_eq!(rb.dequeue_full(0), Some(vec![3, 4]));
    assert_eq!(rb.get_enq_ind_at_shard(0), Some(0));
    assert_eq!(rb.get_deq_ind_at_shard(0), Some(0));
}
