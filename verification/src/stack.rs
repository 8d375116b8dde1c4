use vstd::prelude::*;

verus! {

/// The stack contract: LIFO access to an ordered sequence of elements.
///
/// `elems` is the mathematical model: the sequence of live elements, oldest
/// first, so the top of the stack is the last element of the sequence.
/// `inv` is the representation invariant that every operation requires and
/// preserves; `new` establishes it in each concrete variant.
pub trait Stack<T>: Sized {
    /// The sequence of elements, bottom of the stack first.
    spec fn elems(&self) -> Seq<T>;

    /// Representation invariant of the concrete variant.
    spec fn inv(&self) -> bool;

    /// Appends `value` as the new top. Never fails; a buffer-backed variant
    /// reallocates when full, which is why room to double must remain.
    fn push(&mut self, value: T)
        requires
            old(self).inv(),
            old(self).elems().len() < usize::MAX / 2,
        ensures
            final(self).inv(),
            final(self).elems() == old(self).elems().push(value),
    ;

    /// Removes and returns the top element, or `None` when the stack is
    /// empty, in which case the stack is unchanged.
    fn pop(&mut self) -> (r: Option<T>)
        requires
            old(self).inv(),
        ensures
            final(self).inv(),
            old(self).elems().len() == 0 ==> r is None && final(self).elems() == old(self).elems(),
            old(self).elems().len() > 0 ==> r == Some(old(self).elems().last())
                && final(self).elems() == old(self).elems().drop_last(),
    ;

    /// A read-only view of the top element, or `None` when empty.
    fn peek(&self) -> (r: Option<&T>)
        requires
            self.inv(),
        ensures
            self.elems().len() == 0 ==> r is None,
            self.elems().len() > 0 ==> r is Some && *r.unwrap() == self.elems().last(),
    ;

    /// The current element count.
    fn size(&self) -> (n: usize)
        requires
            self.inv(),
        ensures
            n == self.elems().len(),
    ;

    /// Whether the stack holds no elements; always agrees with `size`.
    fn is_empty(&self) -> (b: bool)
        requires
            self.inv(),
        ensures
            b == (self.elems().len() == 0),
    {
        self.size() == 0
    }
}

} // verus!
