use typefree::queue::ChunkQueue;

#[test]
fn queue_preserves_arrival_order() {
    let mut q = ChunkQueue::new(8);
    assert_eq!(q.push(vec![1]), None);
    assert_eq!(q.push(vec![2]), None);
    assert_eq!(q.push(vec![3]), None);
    assert_eq!(q.pop(), Some(vec![1]));
    assert_eq!(q.pop(), Some(vec![2]));
    assert_eq!(q.pop(), Some(vec![3]));
    assert_eq!(q.pop(), None);
}

#[test]
fn full_queue_hands_the_chunk_back() {
    let mut q = ChunkQueue::new(2);
    assert_eq!(q.push(vec![1]), None);
    assert_eq!(q.push(vec![2]), None);
    assert_eq!(q.push(vec![3]), Some(vec![3]));
    assert_eq!(q.len(), 2);
    assert_eq!(q.pop(), Some(vec![1]));
    assert_eq!(q.push(vec![3]), None);
    assert_eq!(q.pop(), Some(vec![2]));
    assert_eq!(q.pop(), Some(vec![3]));
}
