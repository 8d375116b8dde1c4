use vstd::prelude::*;
use crate::queue::Queue;

verus! {

/// One node of the chain: a value and the pool index of its successor, or
/// `None` at the rear of the queue.
struct Node<T> {
    value: T,
    next: Option<usize>,
}

impl<T> Node<T> {
    fn new(value: T) -> (n: Node<T>)
        ensures
            n.value == value,
            n.next is None,
    {
        Node { value, next: None }
    }
}

/// One pool slot: either a live node of the chain, or a freed slot threaded
/// onto the free list (holding the index of the next free slot) so that a
/// later enqueue can reuse it.
enum Slot<T> {
    Used(Node<T>),
    Free(Option<usize>),
}

/// The value stored in a slot; meaningful only for a `Used` slot.
spec fn slot_value<T>(s: Slot<T>) -> T {
    match s {
        Slot::Used(node) => node.value,
        Slot::Free(_) => arbitrary(),
    }
}

/// The successor index recorded in a slot: the chain link of a `Used` slot,
/// the free-list link of a `Free` one.
spec fn slot_next<T>(s: Slot<T>) -> Option<usize> {
    match s {
        Slot::Used(node) => node.next,
        Slot::Free(next_free) => next_free,
    }
}

/// A queue as a singly-linked chain of nodes stored by index in a pool.
/// `front` and `rear` are the indices of the two ends: enqueue appends at
/// `rear` (the back-reference that makes the append O(1)), dequeue removes at
/// `front`, and a dequeued slot goes onto the free list headed at `free` so
/// its memory is reused. The ghost sequences record the pool indices of the
/// chain and of the free list, in link order; they are the skeleton the
/// invariant hangs on.
pub struct LinkedQueue<T> {
    slots: Vec<Slot<T>>,
    front: Option<usize>,
    rear: Option<usize>,
    free: Option<usize>,
    size: usize,
    chain: Ghost<Seq<usize>>,
    free_chain: Ghost<Seq<usize>>,
}

impl<T> LinkedQueue<T> {
    pub fn new() -> (q: Self)
        ensures
            q.inv(),
            q.elems() == Seq::<T>::empty(),
    {
        Self {
            slots: Vec::new(),
            front: None,
            rear: None,
            free: None,
            size: 0,
            chain: Ghost(Seq::empty()),
            free_chain: Ghost(Seq::empty()),
        }
    }
}

impl<T> Queue<T> for LinkedQueue<T> {
    closed spec fn elems(&self) -> Seq<T> {
        Seq::new(self.chain@.len(), |i: int| slot_value(self.slots@[self.chain@[i] as int]))
    }

    closed spec fn inv(&self) -> bool {
        let n = self.slots@.len();
        let c = self.chain@;
        let f = self.free_chain@;
        &&& c.len() == self.size
        &&& forall|i: int| 0 <= i < c.len() ==> (#[trigger] c[i]) < n && self.slots@[c[i] as int] is Used
        &&& forall|i: int| 0 <= i < f.len() ==> (#[trigger] f[i]) < n && self.slots@[f[i] as int] is Free
        &&& forall|i: int, k: int| 0 <= i < k < c.len() ==> c[i] != c[k]
        &&& forall|i: int, k: int| 0 <= i < k < f.len() ==> f[i] != f[k]
        &&& forall|i: int, k: int| 0 <= i < c.len() && 0 <= k < f.len() ==> c[i] != f[k]
        &&& forall|i: int| 0 <= i < c.len() - 1
                ==> slot_next(#[trigger] self.slots@[c[i] as int]) == Some(c[i + 1])
        &&& c.len() > 0 ==> slot_next(self.slots@[c[c.len() - 1] as int]) is None
        &&& forall|i: int| 0 <= i < f.len() - 1
                ==> slot_next(#[trigger] self.slots@[f[i] as int]) == Some(f[i + 1])
        &&& f.len() > 0 ==> slot_next(self.slots@[f[f.len() - 1] as int]) is None
        &&& self.front == if c.len() == 0 { None::<usize> } else { Some(c[0]) }
        &&& self.rear == if c.len() == 0 { None::<usize> } else { Some(c[c.len() - 1]) }
        &&& self.free == if f.len() == 0 { None::<usize> } else { Some(f[0]) }
    }

    fn enqueue(&mut self, value: T) {
        let idx: usize;
        match self.free {
            Some(free_head) => {
                let next_free = match &self.slots[free_head] {
                    Slot::Free(next_free) => *next_free,
                    Slot::Used(_) => {
                        proof {
                            assert(false);
                        }
                        None
                    },
                };
                idx = free_head;
                self.slots[free_head] = Slot::Used(Node::new(value));
                self.free = next_free;
                self.free_chain = Ghost(self.free_chain@.drop_first());
            },
            None => {
                idx = self.slots.len();
                self.slots.push(Slot::Used(Node::new(value)));
            },
        }
        proof {
            assert(forall|i: int| 0 <= i < old(self).chain@.len()
                ==> (#[trigger] old(self).chain@[i]) != idx);
            assert(forall|i: int| 0 <= i < self.free_chain@.len()
                ==> (#[trigger] self.free_chain@[i]) != idx);
        }
        match self.rear {
            Some(rear_idx) => {
                match &mut self.slots[rear_idx] {
                    Slot::Used(node) => {
                        node.next = Some(idx);
                    },
                    Slot::Free(_) => {
                        proof {
                            assert(false);
                        }
                    },
                }
            },
            None => {
                self.front = Some(idx);
            },
        }
        self.rear = Some(idx);
        self.size = self.size + 1;
        self.chain = Ghost(self.chain@.push(idx));
        proof {
            assert(forall|i: int| 0 <= i < old(self).chain@.len() - 1
                ==> self.slots@[#[trigger] old(self).chain@[i] as int]
                    == old(self).slots@[old(self).chain@[i] as int]);
            assert(self.elems() =~= old(self).elems().push(value));
        }
    }

    fn dequeue(&mut self) -> (r: Option<T>) {
        match self.front {
            None => None,
            Some(front_idx) => {
                let mut taken = Slot::Free(self.free);
                let slot_ref = &mut self.slots[front_idx];
                core::mem::swap(slot_ref, &mut taken);
                match taken {
                    Slot::Used(node) => {
                        self.front = node.next;
                        self.free = Some(front_idx);
                        self.size = self.size - 1;
                        if self.size == 0 {
                            self.rear = None;
                        }
                        self.chain = Ghost(self.chain@.drop_first());
                        self.free_chain = Ghost(seq![front_idx] + self.free_chain@);
                        proof {
                            assert(forall|i: int| 0 <= i < self.chain@.len()
                                ==> (#[trigger] self.chain@[i]) == old(self).chain@[i + 1]
                                    && self.chain@[i] != front_idx);
                            assert(forall|i: int| 0 <= i < self.chain@.len()
                                ==> self.slots@[#[trigger] self.chain@[i] as int]
                                    == old(self).slots@[self.chain@[i] as int]);
                            assert(self.elems() =~= old(self).elems().drop_first());
                        }
                        Some(node.value)
                    },
                    Slot::Free(_) => {
                        proof {
                            assert(false);
                        }
                        None
                    },
                }
            },
        }
    }

    fn front(&self) -> (r: Option<&T>) {
        match self.front {
            None => None,
            Some(front_idx) => match &self.slots[front_idx] {
                Slot::Used(node) => Some(&node.value),
                Slot::Free(_) => {
                    proof {
                        assert(false);
                    }
                    None
                },
            },
        }
    }

    fn size(&self) -> (n: usize) {
        self.size
    }
}

} // verus!
