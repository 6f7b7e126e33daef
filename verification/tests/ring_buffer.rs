use sharded_ringbuf::inner::InnerRingBuffer;
use sharded_ringbuf::layout::shard_capacities;

#[test]
fn shard_is_fifo_across_wrap_around() {
    let mut rb: InnerRingBuffer<u32> = InnerRingBuffer::new(3);
    assert_eq!(rb.capacity(), 3);
    assert!(rb.is_empty());
    rb.push(1);
    rb.push(2);
    assert_eq!(rb.pop(), 1);
    rb.push(3);
    rb.push(4);
    assert!(rb.is_full());
    assert_eq!(rb.enqueue_index(), 1);
    assert_eq!(rb.dequeue_index(), 1);
    assert_eq!(rb.pop(), 2);
    assert_eq!(rb.pop(), 3);
    assert_eq!(rb.pop(), 4);
    assert!(rb.is_empty());
    assert_eq!(rb.len(), 0);
}

#[test]
fn live_slots_follow_the_window() {
    let mut rb: InnerRingBuffer<u32> = InnerRingBuffer::new(4);
    rb.push(10);
    rb.push(11);
    rb.push(12);
    rb.pop();
    rb.push(13);
    rb.push(14);
    // slots: [14, 11, 12, 13], dequeue index 1, enqueue index 1 (full)
    assert!(rb.is_full());
    for i in 0..4 {
        assert!(rb.is_item_in_shard(i));
    }
    assert!(!rb.is_item_in_shard(4));
    assert_eq!(rb.clone_slots(), vec![Some(14), Some(11), Some(12), Some(13)]);
    rb.pop();
    rb.pop();
    assert!(!rb.is_item_in_shard(1));
    assert!(!rb.is_item_in_shard(2));
    assert_eq!(rb.clone_slot(3), Some(13));
    assert_eq!(rb.clone_slot(1), None);
    assert_eq!(rb.peek_slot(0), Some(&14));
}

#[test]
fn clear_resets_indices() {
    let mut rb: InnerRingBuffer<String> = InnerRingBuffer::new(2);
    rb.push("a".to_string());
    rb.pop();
    rb.push("b".to_string());
    rb.clear();
    assert!(rb.is_empty());
    assert_eq!(rb.enqueue_index(), 0);
    assert_eq!(rb.dequeue_index(), 0);
    assert_eq!(rb.capacity(), 2);
    assert_eq!(rb.clone_slots(), vec![None, None]);
}

#[test]
fn capacities_are_spread_evenly() {
    assert_eq!(shard_capacities(100, 10), vec![10; 10]);
    assert_eq!(shard_capacities(10, 3), vec![4, 3, 3]);
    assert_eq!(shard_capacities(7, 7), vec![1; 7]);
    assert_eq!(shard_capacities(1024, 100).iter().sum::<usize>(), 1024);
    let caps = shard_capacities(1024, 100);
    assert_eq!(caps[0], 11);
    assert_eq!(caps[23], 11);
    assert_eq!(caps[24], 10);
    assert_eq!(caps[99], 10);
}
