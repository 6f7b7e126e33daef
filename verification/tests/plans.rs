use sharded_ringbuf::notify::NotifyTarget;
use sharded_ringbuf::shard_policies::ShardPolicy;
use sharded_ringbuf::spawn_plan::{finish_notification, BatchPlanner, OpCounter};
use sharded_ringbuf::task_node::TaskRole;

#[test]
fn batches_are_full_but_the_last() {
    let mut p = BatchPlanner::new(3);
    let mut out: Vec<Vec<u32>> = Vec::new();
    for x in 0..8 {
        if let Some(b) = p.push(x) {
            out.push(b);
        }
    }
    let (last, count) = p.finish();
    out.push(last.unwrap());
    assert_eq!(count, 8);
    assert_eq!(out, vec![vec![0, 1, 2], vec![3, 4, 5], vec![6, 7]]);
}

#[test]
fn no_items_no_batch() {
    let p: BatchPlanner<u8> = BatchPlanner::new(4);
    let (last, count) = p.finish();
    assert!(last.is_none());
    assert_eq!(count, 0);
}

#[test]
fn pinned_tasks_notify_their_shard() {
    let pin = ShardPolicy::Pin { initial_index: 7 };
    assert_eq!(finish_notification(TaskRole::Enqueue, &pin, 5), Some(NotifyTarget::JobPost(2)));
    assert_eq!(finish_notification(TaskRole::Dequeue, &pin, 5), Some(NotifyTarget::JobSpace(2)));
    assert_eq!(finish_notification(TaskRole::Enqueue, &ShardPolicy::RandomAndSweep, 5), None);
}

#[test]
fn counters_count_successes_and_stop_at_their_bound() {
    let mut c = OpCounter::new(Some(3));
    assert!(c.may_start());
    assert!(c.record(true));
    assert!(c.record(true));
    assert!(!c.record(true));
    assert!(!c.may_start());
    assert_eq!(c.succeeded(), 3);
    let mut u = OpCounter::new(None);
    assert!(!u.record(false));
    assert!(u.record_items(true, 4));
    assert!(!u.record_items(false, 2));
    assert_eq!(u.succeeded(), 4);
}
