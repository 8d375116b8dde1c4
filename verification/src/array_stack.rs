use vstd::prelude::*;
use crate::stack::Stack;

verus! {

/// Capacity a freshly created buffer-backed container starts with.
pub const INITIAL_CAPACITY: usize = 2048;

/// A stack backed by a contiguous buffer of optional slots.
/// `stack_pointer` is the index one past the top element; the slots below it
/// hold the live elements, the slots at and above it are empty. The buffer
/// doubles when a push finds it full, so pushes never fail; capacity never
/// shrinks.
pub struct ArrayStack<T> {
    array: Vec<Option<T>>,
    stack_pointer: usize,
}

impl<T> ArrayStack<T> {
    pub closed spec fn spec_capacity(&self) -> nat {
        self.array@.len()
    }

    pub fn new() -> (s: Self)
        ensures
            s.inv(),
            s.elems() == Seq::<T>::empty(),
            s.spec_capacity() == INITIAL_CAPACITY,
    {
        let mut array: Vec<Option<T>> = Vec::new();
        let mut i: usize = 0;
        while i < INITIAL_CAPACITY
            invariant
                i <= INITIAL_CAPACITY,
                array@.len() == i,
                forall|j: int| 0 <= j < i ==> array@[j] is None,
            decreases INITIAL_CAPACITY - i,
        {
            array.push(None);
            i = i + 1;
        }
        Self { array, stack_pointer: 0 }
    }

    fn capacity(&self) -> (n: usize)
        ensures
            n == self.spec_capacity(),
    {
        self.array.len()
    }

    /// Replaces the buffer with one of `new_capacity` slots holding the same
    /// elements. Reducing capacity below the live size is an invalid request
    /// and is reported to the caller, leaving the stack untouched.
    fn resize(&mut self, new_capacity: usize) -> (r: Result<usize, &'static str>)
        requires
            old(self).inv(),
            new_capacity >= 1,
        ensures
            final(self).inv(),
            final(self).elems() == old(self).elems(),
            r is Err <==> new_capacity < old(self).elems().len(),
            r is Err ==> *final(self) == *old(self),
            r is Ok ==> final(self).spec_capacity() == new_capacity && r == Ok::<usize, &'static str>(new_capacity),
    {
        if new_capacity < self.stack_pointer {
            return Err("cannot reduce capacity of the stack below its live size");
        }

        let sp = self.stack_pointer;
        let mut new_array: Vec<Option<T>> = Vec::new();
        let mut i: usize = 0;
        while i < sp
            invariant
                i <= sp,
                sp == self.stack_pointer,
                sp <= self.array@.len(),
                self.array@.len() == old(self).array@.len(),
                sp <= new_capacity,
                new_array@.len() == i,
                forall|j: int| i <= j < sp ==> self.array@[j] == old(self).array@[j],
                forall|j: int| 0 <= j < i ==> new_array@[j] == old(self).array@[j],
                forall|j: int| 0 <= j < sp ==> old(self).array@[j] is Some,
            decreases sp - i,
        {
            let v = self.array[i].take();
            new_array.push(v);
            i = i + 1;
        }
        while new_array.len() < new_capacity
            invariant
                sp <= new_array@.len() <= new_capacity,
                sp <= old(self).array@.len(),
                forall|j: int| 0 <= j < sp ==> new_array@[j] == old(self).array@[j],
                forall|j: int| sp <= j < new_array@.len() ==> new_array@[j] is None,
            decreases new_capacity - new_array@.len(),
        {
            new_array.push(None);
        }
        self.array = new_array;
        proof {
            assert(final(self).elems() =~= old(self).elems());
        }
        Ok(new_capacity)
    }
}

impl<T> Stack<T> for ArrayStack<T> {
    closed spec fn elems(&self) -> Seq<T> {
        Seq::new(self.stack_pointer as nat, |i: int| self.array@[i].unwrap())
    }

    closed spec fn inv(&self) -> bool {
        &&& self.array@.len() >= 1
        &&& self.stack_pointer <= self.array@.len()
        &&& forall|i: int| 0 <= i < self.stack_pointer ==> self.array@[i] is Some
        &&& forall|i: int| self.stack_pointer <= i < self.array@.len() ==> self.array@[i] is None
    }

    /// The buffer doubles exactly when the push finds it full, and is
    /// otherwise left as it is; capacity never shrinks.
    fn push(&mut self, value: T)
        ensures
            final(self).spec_capacity() == (if old(self).elems().len() == old(self).spec_capacity() {
                2 * old(self).spec_capacity()
            } else {
                old(self).spec_capacity()
            }),
    {
        if self.stack_pointer < self.capacity() {
            let sp = self.stack_pointer;
            self.array[sp] = Some(value);
            self.stack_pointer = sp + 1;
        } else {
            let doubled = self.capacity() * 2;
            // Doubling always makes room, so the result cannot be an error.
            self.resize(doubled).ok();
            let sp = self.stack_pointer;
            self.array[sp] = Some(value);
            self.stack_pointer = sp + 1;
        }
        proof {
            assert(final(self).elems() =~= old(self).elems().push(value));
        }
    }

    /// A pop never touches the buffer's capacity.
    fn pop(&mut self) -> (r: Option<T>)
        ensures
            final(self).spec_capacity() == old(self).spec_capacity(),
    {
        if self.stack_pointer == 0 {
            return None;
        }
        let sp = self.stack_pointer - 1;
        self.stack_pointer = sp;
        let v = self.array[sp].take();
        proof {
            assert(final(self).elems() =~= old(self).elems().drop_last());
        }
        v
    }

    fn peek(&self) -> (r: Option<&T>) {
        if self.stack_pointer == 0 {
            None
        } else {
            self.array[self.stack_pointer - 1].as_ref()
        }
    }

    fn size(&self) -> (n: usize) {
        self.stack_pointer
    }
}

} // verus!
