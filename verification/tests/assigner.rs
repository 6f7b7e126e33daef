use sharded_ringbuf::assigner::{terminate_assigner, AssignerState, TaskRecord};
use sharded_ringbuf::task_node::TaskRole;

fn record(state: &AssignerState, id: usize) -> TaskRecord {
    state.task(id).unwrap()
}

#[test]
fn assigner_pairs_tasks_on_shards() {
    let mut a = AssignerState::new(2);
    assert!(a.start());
    assert!(!a.start());
    assert_eq!(a.register(TaskRole::Enqueue), 0);
    assert_eq!(a.register(TaskRole::Dequeue), 1);
    assert_eq!(a.register(TaskRole::Enqueue), 2);
    assert!(!record(&a, 0).assigned);
    assert_eq!(record(&a, 1).shard_ind, usize::MAX);

    // newest enqueuer first: task 2 gets shard 0, task 0 shard 1; the
    // dequeuer joins the newest enqueuer and takes its shard
    let freed = a.assign_pass(&vec![true, true]);
    assert!(freed.is_empty());
    let e2 = record(&a, 2);
    assert_eq!((e2.shard_ind, e2.assigned, e2.paired, e2.pair), (0, true, true, Some(1)));
    let d1 = record(&a, 1);
    assert_eq!((d1.shard_ind, d1.assigned, d1.paired, d1.pair), (0, true, true, Some(2)));
    let e0 = record(&a, 0);
    assert_eq!((e0.shard_ind, e0.assigned, e0.paired), (1, true, false));

    // the paired enqueuer finishes on an empty shard: it is freed and its
    // dequeuer moves to the enqueuer left over
    a.mark_done(2);
    assert!(record(&a, 2).done);
    let freed = a.assign_pass(&vec![true, true]);
    assert_eq!(freed, vec![2]);
    assert_eq!(a.task(2), None);
    let d1 = record(&a, 1);
    assert_eq!((d1.shard_ind, d1.paired, d1.pair), (1, true, Some(0)));
    assert_eq!(record(&a, 0).pair, Some(1));
    assert_eq!(a.get_head(), Some(1));

    // a finished dequeuer is freed, its enqueuer keeps its shard
    a.mark_done(1);
    let freed = a.assign_pass(&vec![true, true]);
    assert_eq!(freed, vec![1]);
    let e0 = record(&a, 0);
    assert_eq!((e0.shard_ind, e0.assigned, e0.paired, e0.pair), (1, true, false, None));
    assert_eq!(a.get_head(), Some(0));

    terminate_assigner(&mut a);
    assert!(a.termination_requested());
    let freed = a.terminate();
    assert_eq!(freed, vec![0]);
    assert_eq!(a.get_head(), None);
    assert!(!a.is_running());
    assert!(a.start());
}

#[test]
fn enqueuer_done_on_a_busy_shard_stays() {
    let mut a = AssignerState::new(3);
    assert!(a.start());
    let e = a.register(TaskRole::Enqueue);
    let d = a.register(TaskRole::Dequeue);
    a.assign_pass(&vec![true, true, true]);
    assert_eq!(record(&a, d).shard_ind, 0);
    a.mark_done(e);
    // shard 0 still holds items: the enqueuer's record stays, still paired
    let freed = a.assign_pass(&vec![false, true, true]);
    assert!(freed.is_empty());
    assert!(record(&a, e).paired);
    // once its shard is empty it is freed and the dequeuer released
    let freed = a.assign_pass(&vec![true, true, true]);
    assert_eq!(freed, vec![e]);
    let r = record(&a, d);
    assert!(!r.paired && !r.assigned);
    // a new enqueuer gets the next shard round-robin and the dequeuer joins it
    let e2 = a.register(TaskRole::Enqueue);
    a.assign_pass(&vec![true, true, true]);
    assert_eq!(record(&a, e2).shard_ind, 1);
    assert_eq!(record(&a, d).shard_ind, 1);
    assert_eq!(record(&a, d).pair, Some(e2));
}

#[test]
fn dequeuer_of_a_finished_enqueuer_is_released_then_repaired() {
    let mut a = AssignerState::new(1);
    assert!(a.start());
    let e0 = a.register(TaskRole::Enqueue);
    let e1 = a.register(TaskRole::Enqueue);
    let d = a.register(TaskRole::Dequeue);
    a.assign_pass(&vec![true]);
    assert_eq!(record(&a, d).pair, Some(e1));
    assert!(!record(&a, e0).paired);
    a.mark_done(e1);
    let freed = a.assign_pass(&vec![true]);
    assert_eq!(freed, vec![e1]);
    // released by the freeing, the dequeuer joins the enqueuer left over
    assert_eq!(record(&a, d).pair, Some(e0));
    assert_eq!(record(&a, e0).pair, Some(d));
}
