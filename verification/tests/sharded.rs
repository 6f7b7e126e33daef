use sharded_ringbuf::notify::NotifyTarget;
use sharded_ringbuf::outcome::{BatchOutcome, DequeueOutcome, DrainOutcome, EnqueueOutcome, Followup};
use sharded_ringbuf::srb::ShardedRingBuf;

#[test]
fn new_buffer_is_empty_with_indices_at_zero() {
    let rb: ShardedRingBuf<usize> = ShardedRingBuf::new(100, 10);
    assert!(rb.is_empty());
    assert!(!rb.is_full());
    assert_eq!(rb.get_num_of_shards(), 10);
    assert_eq!(rb.get_total_capacity(), 100);
    for i in 0..10 {
        assert_eq!(rb.get_deq_ind_at_shard(i), Some(0));
        assert_eq!(rb.get_enq_ind_at_shard(i), Some(0));
        assert_eq!(rb.get_shard_capacity(i), Some(10));
    }
    assert_eq!(rb.get_shard_capacity(10), None);
    assert_eq!(rb.get_enq_ind_at_shard(10), None);
    assert_eq!(rb.get_job_count_at_shard(10), None);
}

#[test]
fn uneven_shards_get_the_remainder_first() {
    let rb: ShardedRingBuf<u8> = ShardedRingBuf::new(11, 4);
    let caps: Vec<Option<usize>> = (0..4).map(|i| rb.get_shard_capacity(i)).collect();
    assert_eq!(caps, vec![Some(3), Some(3), Some(3), Some(2)]);
}

#[test]
fn full_clear_empty() {
    let mut rb: ShardedRingBuf<usize> = ShardedRingBuf::new(100, 10);
    for item in 0..100 {
        let (_, out) = rb.enqueue(item);
        assert!(matches!(out, EnqueueOutcome::Enqueued));
    }
    assert!(rb.is_full());
    for i in 0..10 {
        assert_eq!(rb.get_deq_ind_at_shard(i), Some(0));
        assert_eq!(rb.get_enq_ind_at_shard(i), Some(0));
        assert_eq!(rb.get_job_count_at_shard(i), Some(10));
    }
    let (shard, out) = rb.enqueue(100);
    assert_eq!(shard, 0);
    assert!(matches!(out, EnqueueOutcome::Full(100)));
    rb.clear();
    assert!(rb.is_empty());
    assert_eq!(rb.get_job_count_total(), vec![0; 10]);
}

#[test]
fn round_robin_sweeps_the_shards() {
    let mut rb: ShardedRingBuf<u32> = ShardedRingBuf::new(6, 3);
    let shards: Vec<usize> = (0..6).map(|x| rb.enqueue(x).0).collect();
    assert_eq!(shards, vec![0, 1, 2, 0, 1, 2]);
    assert_eq!(rb.clone_items_at_shard(0), Some(vec![Some(0), Some(3)]));
    assert_eq!(rb.clone_items_at_shard(2), Some(vec![Some(2), Some(5)]));
    let (s, out) = rb.dequeue();
    assert_eq!(s, 0);
    assert!(matches!(out, DequeueOutcome::Item(0)));
    let (s, out) = rb.dequeue();
    assert_eq!(s, 1);
    assert!(matches!(out, DequeueOutcome::Item(1)));
}

#[test]
fn every_item_comes_out_once() {
    let mut rb: ShardedRingBuf<usize> = ShardedRingBuf::new(100, 10);
    let mut taken = 0;
    for item in 0..200 {
        let (_, out) = rb.enqueue(item);
        assert!(matches!(out, EnqueueOutcome::Enqueued));
        if item % 2 == 1 {
            for _ in 0..2 {
                if let (_, DequeueOutcome::Item(_)) = rb.dequeue() {
                    taken += 1;
                }
            }
        }
    }
    rb.poison();
    loop {
        let mut any = false;
        for s in 0..10 {
            if let DrainOutcome::Items(items) = rb.dequeue_full_in_shard(s) {
                taken += items.len();
                any = true;
            }
        }
        if !any {
            break;
        }
    }
    assert!(rb.is_empty());
    assert_eq!(taken, 200);
}

#[test]
fn shard_index_wraps_around() {
    let mut rb: ShardedRingBuf<&str> = ShardedRingBuf::new(4, 2);
    assert!(matches!(rb.enqueue_in_shard("x", 3), EnqueueOutcome::Enqueued));
    assert_eq!(rb.get_job_count_at_shard(1), Some(1));
    assert!(matches!(rb.dequeue_in_shard(5), DequeueOutcome::Item("x")));
    assert!(matches!(rb.dequeue_in_shard(1), DequeueOutcome::Empty));
}

#[test]
fn poisoned_buffer_refuses_enqueues_and_drains() {
    let mut rb: ShardedRingBuf<i32> = ShardedRingBuf::new(4, 2);
    assert!(matches!(rb.enqueue_in_shard(7, 0), EnqueueOutcome::Enqueued));
    rb.poison();
    assert!(rb.is_poisoned());
    assert!(matches!(rb.enqueue_in_shard(8, 0), EnqueueOutcome::Poisoned));
    assert!(matches!(rb.enqueue_full_in_shard(vec![1, 2], 1), BatchOutcome::Poisoned));
    assert!(matches!(rb.dequeue_in_shard(0), DequeueOutcome::Item(7)));
    assert!(matches!(rb.dequeue_in_shard(0), DequeueOutcome::Poisoned));
    assert!(matches!(rb.dequeue_full_in_shard(1), DrainOutcome::Poisoned));
    rb.clear_poison();
    assert!(!rb.is_poisoned());
    assert!(matches!(rb.dequeue_in_shard(0), DequeueOutcome::Empty));
    assert!(matches!(rb.dequeue_full_in_shard(1), DrainOutcome::Empty));
}

#[test]
fn batches_need_room() {
    let mut rb: ShardedRingBuf<u8> = ShardedRingBuf::new(8, 2);
    assert!(matches!(rb.enqueue_full_in_shard(vec![1, 2, 3], 0), BatchOutcome::Enqueued));
    assert!(rb.is_shard_full_batch(0, 2));
    assert!(!rb.is_shard_full_batch(0, 1));
    match rb.enqueue_full_in_shard(vec![4, 5], 0) {
        BatchOutcome::NoRoom(items) => assert_eq!(items, vec![4, 5]),
        other => panic!("unexpected {:?}", other),
    }
    assert_eq!(rb.get_enqueue_shard(), 0);
    let (s, out) = rb.enqueue_full(vec![9, 9, 9, 9]);
    assert_eq!(s, 0);
    assert!(matches!(out, BatchOutcome::NoRoom(_)));
    let (s, out) = rb.enqueue_full(vec![6, 6, 6, 6]);
    assert_eq!(s, 1);
    assert!(matches!(out, BatchOutcome::Enqueued));
    assert!(rb.is_shard_full(1));
    match rb.dequeue_full_in_shard(0) {
        DrainOutcome::Items(items) => assert_eq!(items, vec![1, 2, 3]),
        other => panic!("unexpected {:?}", other),
    }
    assert!(rb.is_shard_empty(0));
    assert_eq!(rb.get_deq_ind_at_shard(0), Some(3));
    assert_eq!(rb.get_enq_ind_at_shard(0), Some(3));
}

#[test]
fn clones_show_live_slots() {
    let mut rb: ShardedRingBuf<String> = ShardedRingBuf::new(4, 2);
    rb.enqueue_in_shard("a".into(), 0);
    rb.enqueue_in_shard("b".into(), 0);
    rb.dequeue_in_shard(0);
    assert_eq!(rb.clone_item_at_shard(0, 0), None);
    assert_eq!(rb.clone_item_at_shard(1, 0), Some("b".to_string()));
    assert_eq!(rb.clone_item_at_shard(1, 2), None);
    assert_eq!(rb.peek_item_at_shard(1, 0), Some(&"b".to_string()));
    assert_eq!(
        rb.clone_items(),
        vec![vec![None, Some("b".to_string())], vec![None, None]]
    );
}

#[test]
fn attempts_say_what_to_notify_next() {
    let mut rb: ShardedRingBuf<u8> = ShardedRingBuf::new(2, 2);
    let out = rb.enqueue_in_shard(1, 1);
    assert_eq!(out.followup(1), Followup::Done(Some(NotifyTarget::JobPost(1))));
    let out = rb.enqueue_in_shard(2, 1);
    assert_eq!(
        out.followup(1),
        Followup::WaitAndRetry { notify: NotifyTarget::JobPost(1), wait_on: NotifyTarget::JobSpace(1) }
    );
    let out = rb.dequeue_in_shard(0);
    assert_eq!(
        out.followup(0),
        Followup::WaitAndRetry { notify: NotifyTarget::JobSpace(0), wait_on: NotifyTarget::JobPost(0) }
    );
    let out = rb.dequeue_in_shard(1);
    assert_eq!(out.followup(1), Followup::Done(Some(NotifyTarget::JobSpace(1))));
    let out = rb.enqueue_full_in_shard(vec![7], 0);
    assert_eq!(out.followup(0), Followup::Done(Some(NotifyTarget::JobPost(0))));
    let out = rb.enqueue_full_in_shard(vec![8], 0);
    assert_eq!(
        out.followup(0),
        Followup::WaitAndRetry { notify: NotifyTarget::JobPost(0), wait_on: NotifyTarget::JobSpace(0) }
    );
    let out = rb.dequeue_full_in_shard(0);
    assert_eq!(out.followup(0), Followup::Done(Some(NotifyTarget::JobSpace(0))));
    let out = rb.dequeue_full_in_shard(0);
    assert_eq!(
        out.followup(0),
        Followup::WaitAndRetry { notify: NotifyTarget::JobSpace(0), wait_on: NotifyTarget::JobPost(0) }
    );
    rb.poison();
    assert_eq!(rb.enqueue(3).1.followup(0), Followup::Done(None));
    assert_eq!(rb.dequeue_in_shard(0).followup(0), Followup::Done(None));
    assert_eq!(rb.dequeue_full_in_shard(0).followup(0), Followup::Done(None));
    assert_eq!(rb.enqueue_full_in_shard(vec![4], 0).followup(0), Followup::Done(None));
    assert_eq!(rb.notify_dequeuer_in_shard(1), NotifyTarget::JobPost(1));
}

#[test]
fn a_dequeue_returns_what_was_enqueued() {
    let mut rb: ShardedRingBuf<u32> = ShardedRingBuf::new(3, 1);
    assert!(matches!(rb.enqueue_in_shard(42, 0), EnqueueOutcome::Enqueued));
    rb.poison();
    assert!(matches!(rb.dequeue_in_shard(0), DequeueOutcome::Item(42)));
    assert!(rb.is_shard_empty(0));
}

#[test]
fn indices_and_slots_follow_the_operations() {
    let mut rb: ShardedRingBuf<u32> = ShardedRingBuf::new(6, 2);
    for x in [10, 20, 30] {
        let (_, out) = rb.enqueue(x);
        assert!(matches!(out, EnqueueOutcome::Enqueued));
    }
    assert_eq!(rb.get_job_count_total(), vec![2, 1]);
    assert_eq!(rb.clone_item_at_shard(0, 0), Some(10));
    assert_eq!(rb.clone_item_at_shard(1, 0), Some(30));
    assert_eq!(rb.clone_item_at_shard(0, 1), Some(20));
    assert_eq!(rb.clone_item_at_shard(2, 0), None);
    assert_eq!(rb.clone_item_at_shard(0, 2), None);
    assert_eq!(rb.get_enq_ind_at_shard(0), Some(2));
    assert_eq!(rb.get_deq_ind_at_shard(0), Some(0));

    let mut full: ShardedRingBuf<usize> = ShardedRingBuf::new(4, 2);
    for i in 0..4 {
        full.enqueue(i);
    }
    assert!(full.is_full());
    for i in 0..2 {
        assert_eq!(full.get_enq_ind_at_shard(i), Some(0));
        assert_eq!(full.get_deq_ind_at_shard(i), Some(0));
    }
    assert_eq!(full.get_enq_ind_at_shard(2), None);
    let (s, out) = full.dequeue_full();
    assert_eq!(s, 0);
    assert!(matches!(out, DrainOutcome::Items(ref v) if v == &vec![0, 2]));
    assert_eq!(full.get_deq_ind_at_shard(0), Some(0));
}

#[test]
fn job_count_is_stored_minus_taken() {
    let mut rb: ShardedRingBuf<u32> = ShardedRingBuf::new(3, 1);
    let mut stored = 0;
    let mut taken = 0;
    for x in 0..5 {
        if matches!(rb.enqueue_in_shard(x, 0), EnqueueOutcome::Enqueued) {
            stored += 1;
        }
    }
    if let DequeueOutcome::Item(_) = rb.dequeue_in_shard(0) {
        taken += 1;
    }
    if let BatchOutcome::Enqueued = rb.enqueue_full_in_shard(vec![7], 0) {
        stored += 1;
    }
    assert_eq!(rb.get_job_count_at_shard(0), Some(stored - taken));
    if let DrainOutcome::Items(v) = rb.dequeue_full_in_shard(0) {
        taken += v.len();
    }
    assert_eq!((stored, taken), (4, 4));
    assert_eq!(rb.get_job_count_at_shard(0), Some(0));
}
