use vstd::prelude::*;

verus! {

/// The queue contract: FIFO access to an ordered sequence of elements.
///
/// `elems` is the mathematical model: the sequence of live elements, earliest
/// enqueued first, so the front of the queue is the first element of the
/// sequence. `inv` is the representation invariant that every operation
/// requires and preserves; `new` establishes it in each concrete variant.
pub trait Queue<T>: Sized {
    /// The sequence of elements, front of the queue first.
    spec fn elems(&self) -> Seq<T>;

    /// Representation invariant of the concrete variant.
    spec fn inv(&self) -> bool;

    /// Appends `value` at the rear. Never fails; a buffer-backed variant
    /// reallocates when full, which is why room to double must remain.
    fn enqueue(&mut self, value: T)
        requires
            old(self).inv(),
            old(self).elems().len() < usize::MAX / 2,
        ensures
            final(self).inv(),
            final(self).elems() == old(self).elems().push(value),
    ;

    /// Removes and returns the front element, or `None` when the queue is
    /// empty, in which case the queue is unchanged.
    fn dequeue(&mut self) -> (r: Option<T>)
        requires
            old(self).inv(),
        ensures
            final(self).inv(),
            old(self).elems().len() == 0 ==> r is None && final(self).elems() == old(self).elems(),
            old(self).elems().len() > 0 ==> r == Some(old(self).elems().first())
                && final(self).elems() == old(self).elems().drop_first(),
    ;

    /// A read-only view of the front element, or `None` when empty.
    fn front(&self) -> (r: Option<&T>)
        requires
            self.inv(),
        ensures
            self.elems().len() == 0 ==> r is None,
            self.elems().len() > 0 ==> r is Some && *r.unwrap() == self.elems().first(),
    ;

    /// The current element count.
    fn size(&self) -> (n: usize)
        requires
            self.inv(),
        ensures
            n == self.elems().len(),
    ;

    /// Whether the queue holds no elements; always agrees with `size`.
    fn is_empty(&self) -> (b: bool)
        requires
            self.inv(),
        ensures
            b == (self.elems().len() == 0),
    {
        self.size() == 0
    }
}

} // verus!
