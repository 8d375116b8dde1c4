use containers::array_stack::ArrayStack;
use containers::stack::Stack;

#[test]
fn array_stack_test_push_pop() {
    let mut stack = ArrayStack::new();
    stack.push(1);
    stack.push(2);
    assert_eq!(stack.pop(), Some(2));
    assert_eq!(stack.pop(), Some(1));
    assert_eq!(stack.pop(), None);
}

#[test]
fn array_stack_test_peek() {
    let mut stack = ArrayStack::new();
    stack.push(1);
    assert_eq!(stack.peek(), Some(&1));
    stack.push(2);
    assert_eq!(stack.peek(), Some(&2));
}

#[test]
fn array_stack_test_is_empty() {
    let mut stack = ArrayStack::new();
    assert!(stack.is_empty());
    stack.push(1);
    assert!(!stack.is_empty());
}

#[test]
fn array_stack_test_size() {
    let mut stack = ArrayStack::new();
    assert_eq!(stack.size(), 0);
    stack.push(1);
    assert_eq!(stack.size(), 1);
    stack.push(2);
    assert_eq!(stack.size(), 2);
    stack.pop();
    assert_eq!(stack.size(), 1);
}

#[test]
fn array_stack_growth_keeps_order() {
    // Exceed the initial capacity of 2048: the buffer doubles and every
    // previously pushed element must remain retrievable in LIFO order.
    let mut stack = ArrayStack::new();
    for i in 0..2049u32 {
        stack.push(i);
    }
    assert_eq!(stack.size(), 2049);
    for i in (0..2049u32).rev() {
        assert_eq!(stack.pop(), Some(i));
    }
    assert!(stack.is_empty());
    assert_eq!(stack.pop(), None);
}

#[test]
fn array_stack_pop_empty_keeps_size() {
    let mut stack: ArrayStack<u8> = ArrayStack::new();
    assert_eq!(stack.pop(), None);
    assert_eq!(stack.size(), 0);
    stack.push(7);
    stack.pop();
    assert_eq!(stack.pop(), None);
    assert_eq!(stack.size(), 0);
    assert_eq!(stack.peek(), None);
}
