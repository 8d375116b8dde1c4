use containers::array_queue::ArrayQueue;
use containers::queue::Queue;

#[test]
fn test_enqueue_and_dequeue() {
    let mut queue = ArrayQueue::new();
    assert!(queue.is_empty());

    queue.enqueue(1);
    queue.enqueue(2);
    queue.enqueue(3);

    assert_eq!(queue.size(), 3);
    assert_eq!(queue.front(), Some(&1));

    assert_eq!(queue.dequeue(), Some(1));
    assert_eq!(queue.dequeue(), Some(2));
    assert_eq!(queue.dequeue(), Some(3));

    assert!(queue.is_empty());
    assert_eq!(queue.dequeue(), None);
}

#[test]
fn test_circular_behavior() {
    let mut queue = ArrayQueue::with_capacity(3);

    queue.enqueue(1);
    queue.enqueue(2);
    queue.enqueue(3);

    assert_eq!(queue.dequeue(), Some(1));
    queue.enqueue(4);

    assert_eq!(queue.front(), Some(&2));
    assert_eq!(queue.dequeue(), Some(2));
    assert_eq!(queue.dequeue(), Some(3));
    assert_eq!(queue.dequeue(), Some(4));
    assert!(queue.is_empty());
}

#[test]
fn test_growing_behavior() {
    let mut queue = ArrayQueue::with_capacity(3);

    queue.enqueue(1);
    queue.enqueue(2);
    queue.enqueue(3);

    assert_eq!(queue.size(), 3);
    assert_eq!(queue.capacity(), 3);

    queue.enqueue(4);
    queue.enqueue(5);
    queue.enqueue(6);

    assert!(queue.capacity() > 3);
    assert_eq!(queue.dequeue(), Some(1));
    assert_eq!(queue.dequeue(), Some(2));
    assert_eq!(queue.dequeue(), Some(3));
    assert_eq!(queue.dequeue(), Some(4));
    assert_eq!(queue.dequeue(), Some(5));
    assert_eq!(queue.dequeue(), Some(6));

    assert!(queue.is_empty());
}

#[test]
fn array_queue_growth_keeps_order() {
    // Exceed the default initial capacity of 2048: the ring doubles and the
    // elements must come out in the order they went in.
    let mut queue = ArrayQueue::new();
    for i in 0..2049u32 {
        queue.enqueue(i);
    }
    assert_eq!(queue.size(), 2049);
    for i in 0..2049u32 {
        assert_eq!(queue.dequeue(), Some(i));
    }
    assert!(queue.is_empty());
    assert_eq!(queue.dequeue(), None);
}

#[test]
fn array_queue_growth_after_wraparound_keeps_order() {
    // Wrap the ring first, then force growth while head is in the middle:
    // the copy must preserve FIFO order across the wrap point.
    let mut queue = ArrayQueue::with_capacity(4);
    queue.enqueue(1);
    queue.enqueue(2);
    queue.enqueue(3);
    assert_eq!(queue.dequeue(), Some(1));
    assert_eq!(queue.dequeue(), Some(2));
    queue.enqueue(4);
    queue.enqueue(5);
    queue.enqueue(6);
    // Filling freed slots wrapped the tail without any growth.
    assert_eq!(queue.capacity(), 4);
    // Ring is now full with head in the middle; the next enqueue grows it.
    queue.enqueue(7);
    assert!(queue.capacity() > 4);
    for i in 3..8 {
        assert_eq!(queue.dequeue(), Some(i));
    }
    assert_eq!(queue.dequeue(), None);
}

#[test]
fn array_queue_dequeue_empty_keeps_size() {
    let mut queue: ArrayQueue<u8> = ArrayQueue::default();
    assert_eq!(queue.dequeue(), None);
    assert_eq!(queue.size(), 0);
    assert_eq!(queue.front(), None);
    queue.enqueue(9);
    queue.dequeue();
    assert_eq!(queue.dequeue(), None);
    assert_eq!(queue.size(), 0);
}
