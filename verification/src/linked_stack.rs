use vstd::prelude::*;
use crate::stack::Stack;

verus! {

/// One node of the chain: a value and the exclusively owned rest of the
/// chain below it.
struct Node<T> {
    value: T,
    next: Option<Box<Node<T>>>,
}

/// The elements reachable from `link`, deepest node first, so the head of
/// the chain is the last element of the sequence.
spec fn link_elems<T>(link: &Option<Box<Node<T>>>) -> Seq<T>
    decreases link,
{
    match link {
        None => Seq::empty(),
        Some(node) => link_elems(&node.next).push(node.value),
    }
}

/// A stack as a singly-linked chain rooted at `top`: push and pop work at
/// the head, O(1) each, and memory scales exactly with the element count.
pub struct LinkedStack<T> {
    top: Option<Box<Node<T>>>,
    size: usize,
}

impl<T> LinkedStack<T> {
    pub fn new() -> (s: Self)
        ensures
            s.inv(),
            s.elems() == Seq::<T>::empty(),
    {
        Self { top: None, size: 0 }
    }
}

impl<T> Stack<T> for LinkedStack<T> {
    closed spec fn elems(&self) -> Seq<T> {
        link_elems(&self.top)
    }

    closed spec fn inv(&self) -> bool {
        self.size == self.elems().len()
    }

    fn push(&mut self, value: T) {
        let new_node = Node { value, next: self.top.take() };
        self.top = Some(Box::new(new_node));
        self.size = self.size + 1;
    }

    fn pop(&mut self) -> (r: Option<T>) {
        match self.top.take() {
            None => None,
            Some(node) => {
                let node = *node;
                self.top = node.next;
                self.size = self.size - 1;
                proof {
                    assert(old(self).elems().drop_last() =~= final(self).elems());
                }
                Some(node.value)
            },
        }
    }

    fn peek(&self) -> (r: Option<&T>) {
        match &self.top {
            None => None,
            Some(node) => Some(&node.value),
        }
    }

    fn size(&self) -> (n: usize) {
        self.size
    }

    fn is_empty(&self) -> (b: bool) {
        self.size == 0
    }
}

} // verus!
