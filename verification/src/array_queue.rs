use vstd::prelude::*;
use crate::queue::Queue;

verus! {

/// Capacity a freshly created buffer-backed container starts with.
pub const INITIAL_CAPACITY: usize = 2048;

/// A queue backed by a contiguous buffer treated as a ring. `head` is the
/// index of the front element, `tail` the next write position; both wrap
/// modulo the capacity. `size` is explicit because `head == tail` is
/// ambiguous between empty and full. When a slot collision shows the ring is
/// full, the buffer doubles and the elements are copied over in FIFO order
/// starting at index 0.
pub struct ArrayQueue<T> {
    buffer: Vec<Option<T>>,
    head: usize,
    tail: usize,
    size: usize,
}

impl<T> ArrayQueue<T> {
    pub closed spec fn spec_capacity(&self) -> nat {
        self.buffer@.len()
    }

    /// The physical index of the logical position `i` counted from the front.
    closed spec fn pos(&self, i: int) -> int {
        if self.head + i < self.buffer@.len() {
            self.head + i
        } else {
            self.head + i - self.buffer@.len()
        }
    }

    /// The logical position (offset from `head`) of the physical index `j`.
    closed spec fn offset_of(&self, j: int) -> int {
        if j >= self.head {
            j - self.head
        } else {
            j + self.buffer@.len() - self.head
        }
    }

    pub fn new() -> (q: Self)
        ensures
            q.inv(),
            q.elems() == Seq::<T>::empty(),
            q.spec_capacity() == INITIAL_CAPACITY,
    {
        Self::with_capacity(INITIAL_CAPACITY)
    }

    pub fn with_capacity(capacity: usize) -> (q: Self)
        requires
            capacity >= 1,
        ensures
            q.inv(),
            q.elems() == Seq::<T>::empty(),
            q.spec_capacity() == capacity,
    {
        let mut buffer: Vec<Option<T>> = Vec::new();
        let mut i: usize = 0;
        while i < capacity
            invariant
                i <= capacity,
                buffer@.len() == i,
                forall|j: int| 0 <= j < i ==> buffer@[j] is None,
            decreases capacity - i,
        {
            buffer.push(None);
            i = i + 1;
        }
        Self { buffer, head: 0, tail: 0, size: 0 }
    }

    pub fn capacity(&self) -> (n: usize)
        ensures
            n == self.spec_capacity(),
    {
        self.buffer.len()
    }

    /// Replaces the ring with a buffer of `new_capacity` slots, copying the
    /// elements in FIFO order to positions `0..size` and resetting `head` to
    /// 0 and `tail` to `size`, so the logical order is preserved exactly.
    fn resize_buffer(&mut self, new_capacity: usize)
        requires
            old(self).inv(),
            old(self).elems().len() < new_capacity,
        ensures
            final(self).inv(),
            final(self).elems() == old(self).elems(),
            final(self).spec_capacity() == new_capacity,
    {
        let sz = self.size;
        let cap = self.capacity();
        let mut new_buffer: Vec<Option<T>> = Vec::new();
        let mut i: usize = 0;
        let mut j = self.head;
        while i < sz
            invariant
                i <= sz,
                sz == self.size,
                self.head == old(self).head,
                self.buffer@.len() == cap,
                cap == old(self).buffer@.len(),
                old(self).inv(),
                self.tail == old(self).tail,
                self.size == old(self).size,
                sz <= cap,
                j == old(self).pos(i as int),
                j < cap,
                new_buffer@.len() == i,
                forall|k: int| 0 <= k < i ==> new_buffer@[k] == old(self).buffer@[old(self).pos(k)],
                forall|k: int| i <= k < sz ==> self.buffer@[old(self).pos(k)] == old(self).buffer@[old(self).pos(k)],
            decreases sz - i,
        {
            proof {
                assert(forall|k: int| 0 <= k < sz && k != i ==> old(self).pos(k) != old(self).pos(i as int));
            }
            let v = self.buffer[j].take();
            new_buffer.push(v);
            j = if j + 1 == cap { 0 } else { j + 1 };
            i = i + 1;
        }
        while new_buffer.len() < new_capacity
            invariant
                sz <= new_buffer@.len() <= new_capacity,
                forall|k: int| 0 <= k < sz ==> new_buffer@[k] == old(self).buffer@[old(self).pos(k)],
                forall|k: int| sz <= k < new_buffer@.len() ==> new_buffer@[k] is None,
            decreases new_capacity - new_buffer@.len(),
        {
            new_buffer.push(None);
        }
        self.buffer = new_buffer;
        self.head = 0;
        self.tail = sz;
        proof {
            assert(forall|k: int| 0 <= k < sz ==> old(self).buffer@[#[trigger] old(self).pos(k)] is Some);
            assert(final(self).elems() =~= old(self).elems());
        }
    }
}

/// Advancing an index that is in bounds for the ring wraps it to 0 exactly
/// when it passes the last slot.
proof fn lemma_wrap_advance(t: usize, cap: usize)
    requires
        t < cap,
    ensures
        (t + 1) % (cap as int) == if t + 1 == cap { 0int } else { (t + 1) as int },
{
    if t + 1 == cap {
        vstd::arithmetic::div_mod::lemma_mod_self_0(cap as int);
    } else {
        vstd::arithmetic::div_mod::lemma_small_mod((t + 1) as nat, cap as nat);
    }
}

impl<T> Queue<T> for ArrayQueue<T> {
    closed spec fn elems(&self) -> Seq<T> {
        Seq::new(self.size as nat, |i: int| self.buffer@[self.pos(i)].unwrap())
    }

    closed spec fn inv(&self) -> bool {
        &&& self.buffer@.len() >= 1
        &&& self.head < self.buffer@.len()
        &&& self.size <= self.buffer@.len()
        &&& self.tail == self.pos(self.size as int)
        &&& forall|j: int| 0 <= j < self.buffer@.len()
                ==> ((#[trigger] self.buffer@[j]) is Some <==> self.offset_of(j) < self.size)
    }

    /// The ring doubles exactly when the enqueue finds it full, and is
    /// otherwise left as it is; capacity never shrinks.
    fn enqueue(&mut self, value: T)
        ensures
            final(self).spec_capacity() == (if old(self).elems().len() == old(self).spec_capacity() {
                2 * old(self).spec_capacity()
            } else {
                old(self).spec_capacity()
            }),
    {
        if self.buffer[self.tail].is_some() {
            let doubled = self.capacity() * 2;
            self.resize_buffer(doubled);
        }
        let ghost mid = *self;
        proof {
            // The ring is not full here: the slot at `tail` is empty.
            assert(mid.offset_of(mid.tail as int) >= mid.size);
            assert(mid.size < mid.buffer@.len());
        }
        let t = self.tail;
        let cap = self.capacity();
        self.buffer[t] = Some(value);
        self.tail = (t + 1) % cap;
        self.size = self.size + 1;
        proof {
            lemma_wrap_advance(t, cap);
            assert(forall|j: int| 0 <= j < cap && j != t ==> mid.offset_of(j) != mid.size);
            assert(forall|i: int| 0 <= i < mid.size ==> self.pos(i) == mid.pos(i) && mid.pos(i) != t);
            assert(self.elems() =~= old(self).elems().push(value));
        }
    }

    /// A dequeue never touches the ring's capacity.
    fn dequeue(&mut self) -> (r: Option<T>)
        ensures
            final(self).spec_capacity() == old(self).spec_capacity(),
    {
        let h = self.head;
        let cap = self.capacity();
        match self.buffer[h].take() {
            None => {
                proof {
                    assert(self.elems() =~= old(self).elems());
                }
                None
            },
            Some(value) => {
                self.head = (h + 1) % cap;
                self.size = self.size - 1;
                proof {
                    lemma_wrap_advance(h, cap);
                    assert(forall|i: int| 0 <= i < self.size ==> self.pos(i) == old(self).pos(i + 1));
                    assert(forall|j: int| 0 <= j < cap && j != h
                        ==> self.offset_of(j) == old(self).offset_of(j) - 1);
                    assert(self.elems() =~= old(self).elems().drop_first());
                }
                Some(value)
            },
        }
    }

    fn front(&self) -> (r: Option<&T>) {
        self.buffer[self.head].as_ref()
    }

    fn size(&self) -> (n: usize) {
        self.size
    }
}

impl<T> Default for ArrayQueue<T> {
    /// A queue with the default initial capacity, same as `new`.
    fn default() -> (q: Self)
        ensures
            q.inv(),
            q.elems() == Seq::<T>::empty(),
            q.spec_capacity() == INITIAL_CAPACITY,
    {
        Self::new()
    }
}

} // verus!
