use containers::linked_queue::LinkedQueue;
use containers::queue::Queue;

#[test]
fn test_enqueue_and_size() {
    let mut queue = LinkedQueue::new();
    assert_eq!(queue.size(), 0);
    assert!(queue.is_empty());

    queue.enqueue(10);
    queue.enqueue(20);
    queue.enqueue(30);

    assert_eq!(queue.size(), 3);
    assert!(!queue.is_empty());
}

#[test]
fn test_dequeue() {
    let mut queue = LinkedQueue::new();
    queue.enqueue(10);
    queue.enqueue(20);
    queue.enqueue(30);

    assert_eq!(queue.dequeue(), Some(10));
    assert_eq!(queue.size(), 2);

    assert_eq!(queue.dequeue(), Some(20));
    assert_eq!(queue.size(), 1);

    assert_eq!(queue.dequeue(), Some(30));
    assert_eq!(queue.size(), 0);
    assert!(queue.is_empty());

    // Dequeue on an empty queue
    assert_eq!(queue.dequeue(), None);
}

#[test]
fn test_front() {
    let mut queue = LinkedQueue::new();
    assert_eq!(queue.front(), None);

    queue.enqueue(10);
    queue.enqueue(20);
    queue.enqueue(30);

    assert_eq!(queue.front(), Some(&10));
    assert_eq!(queue.size(), 3);

    // Front should remain the same after dequeue until the front element is removed
    queue.dequeue();
    assert_eq!(queue.front(), Some(&20));
}

#[test]
fn test_mixed_operations() {
    let mut queue = LinkedQueue::new();
    queue.enqueue(10);
    queue.enqueue(20);
    assert_eq!(queue.front(), Some(&10));

    queue.dequeue();
    queue.enqueue(30);
    queue.enqueue(40);
    assert_eq!(queue.front(), Some(&20));

    queue.dequeue();
    assert_eq!(queue.front(), Some(&30));
    assert_eq!(queue.size(), 2);
}

#[test]
fn linked_queue_reuses_freed_slots() {
    // Interleave enqueues and dequeues long past the high-water mark of two
    // live elements: the pool reuses freed slots and order stays FIFO.
    let mut queue = LinkedQueue::new();
    queue.enqueue(0);
    for i in 1..100u32 {
        queue.enqueue(i);
        assert_eq!(queue.dequeue(), Some(i - 1));
    }
    assert_eq!(queue.dequeue(), Some(99));
    assert_eq!(queue.dequeue(), None);
    assert_eq!(queue.size(), 0);
}

#[test]
fn linked_queue_dequeue_empty_keeps_size() {
    let mut queue: LinkedQueue<String> = LinkedQueue::new();
    assert_eq!(queue.dequeue(), None);
    assert_eq!(queue.size(), 0);
    assert_eq!(queue.front(), None);
    queue.enqueue(String::from("only"));
    queue.dequeue();
    assert_eq!(queue.dequeue(), None);
    assert_eq!(queue.size(), 0);
}
