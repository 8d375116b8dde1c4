use containers::linked_stack::LinkedStack;
use containers::stack::Stack;

#[test]
fn linked_stack_test_push_pop() {
    let mut stack = LinkedStack::new();
    stack.push(1);
    stack.push(2);
    assert_eq!(stack.pop(), Some(2));
    assert_eq!(stack.pop(), Some(1));
    assert_eq!(stack.pop(), None);
}

#[test]
fn linked_stack_test_peek() {
    let mut stack = LinkedStack::new();
    stack.push(1);
    assert_eq!(stack.peek(), Some(&1));
    stack.push(2);
    assert_eq!(stack.peek(), Some(&2));
}

#[test]
fn linked_stack_test_is_empty() {
    let mut stack = LinkedStack::new();
    assert!(stack.is_empty());
    stack.push(1);
    assert!(!stack.is_empty());
}

#[test]
fn linked_stack_test_size() {
    let mut stack = LinkedStack::new();
    assert_eq!(stack.size(), 0);
    stack.push(1);
    assert_eq!(stack.size(), 1);
    stack.push(2);
    assert_eq!(stack.size(), 2);
    stack.pop();
    assert_eq!(stack.size(), 1);
}

#[test]
fn linked_stack_pop_empty_keeps_size() {
    let mut stack: LinkedStack<String> = LinkedStack::new();
    assert_eq!(stack.pop(), None);
    assert_eq!(stack.size(), 0);
    assert_eq!(stack.peek(), None);
    stack.push(String::from("only"));
    stack.pop();
    assert_eq!(stack.pop(), None);
    assert_eq!(stack.size(), 0);
}
