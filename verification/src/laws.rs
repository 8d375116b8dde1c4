use vstd::prelude::*;
use crate::queue::Queue;
use crate::stack::Stack;

verus! {

/// A stack operation, for reasoning about arbitrary operation sequences.
pub enum StackOp<T> {
    Push(T),
    Pop,
}

/// A queue operation, for reasoning about arbitrary operation sequences.
pub enum QueueOp<T> {
    Enqueue(T),
    Dequeue,
}

/// The stack contents after running `ops` from empty, stepping exactly as
/// the `Stack` contract prescribes: a push appends at the end, a pop removes
/// the last element, and a pop on an empty stack changes nothing.
pub open spec fn stack_run<T>(ops: Seq<StackOp<T>>) -> Seq<T>
    decreases ops.len(),
{
    if ops.len() == 0 {
        Seq::empty()
    } else {
        let prev = stack_run(ops.drop_last());
        match ops.last() {
            StackOp::Push(v) => prev.push(v),
            StackOp::Pop => if prev.len() > 0 {
                prev.drop_last()
            } else {
                prev
            },
        }
    }
}

/// The values the successful pops of `ops` return, in the order they are
/// popped, as the `Stack` contract prescribes: each successful pop returns
/// the last element of the contents at that point.
pub open spec fn stack_pops<T>(ops: Seq<StackOp<T>>) -> Seq<T>
    decreases ops.len(),
{
    if ops.len() == 0 {
        Seq::empty()
    } else {
        let prev = stack_pops(ops.drop_last());
        match ops.last() {
            StackOp::Push(_) => prev,
            StackOp::Pop => if stack_run(ops.drop_last()).len() > 0 {
                prev.push(stack_run(ops.drop_last()).last())
            } else {
                prev
            },
        }
    }
}

/// How many of `ops` are pushes.
pub open spec fn stack_push_count<T>(ops: Seq<StackOp<T>>) -> int
    decreases ops.len(),
{
    if ops.len() == 0 {
        0
    } else {
        stack_push_count(ops.drop_last()) + if ops.last() is Push {
            1int
        } else {
            0int
        }
    }
}

/// The queue contents after running `ops` from empty, stepping exactly as
/// the `Queue` contract prescribes: an enqueue appends at the end, a dequeue
/// removes the first element, and a dequeue on an empty queue changes
/// nothing.
pub open spec fn queue_run<T>(ops: Seq<QueueOp<T>>) -> Seq<T>
    decreases ops.len(),
{
    if ops.len() == 0 {
        Seq::empty()
    } else {
        let prev = queue_run(ops.drop_last());
        match ops.last() {
            QueueOp::Enqueue(v) => prev.push(v),
            QueueOp::Dequeue => if prev.len() > 0 {
                prev.drop_first()
            } else {
                prev
            },
        }
    }
}

/// The values the successful dequeues of `ops` return, in the order they
/// are dequeued: each successful dequeue returns the first element of the
/// contents at that point.
pub open spec fn queue_dequeues<T>(ops: Seq<QueueOp<T>>) -> Seq<T>
    decreases ops.len(),
{
    if ops.len() == 0 {
        Seq::empty()
    } else {
        let prev = queue_dequeues(ops.drop_last());
        match ops.last() {
            QueueOp::Enqueue(_) => prev,
            QueueOp::Dequeue => if queue_run(ops.drop_last()).len() > 0 {
                prev.push(queue_run(ops.drop_last()).first())
            } else {
                prev
            },
        }
    }
}

/// The values enqueued by `ops`, in operation order.
pub open spec fn queue_enqueued<T>(ops: Seq<QueueOp<T>>) -> Seq<T>
    decreases ops.len(),
{
    if ops.len() == 0 {
        Seq::empty()
    } else {
        let prev = queue_enqueued(ops.drop_last());
        match ops.last() {
            QueueOp::Enqueue(v) => prev.push(v),
            QueueOp::Dequeue => prev,
        }
    }
}

/// The values that successive pops return when a stack holding `s` is
/// drained to empty: the last element first, as each pop's contract gives.
pub open spec fn stack_drain<T>(s: Seq<T>) -> Seq<T>
    decreases s.len(),
{
    if s.len() == 0 {
        Seq::empty()
    } else {
        seq![s.last()] + stack_drain(s.drop_last())
    }
}

/// The values that successive dequeues return when a queue holding `s` is
/// drained to empty: the first element first, as each dequeue's contract
/// gives.
pub open spec fn queue_drain<T>(s: Seq<T>) -> Seq<T>
    decreases s.len(),
{
    if s.len() == 0 {
        Seq::empty()
    } else {
        seq![s.first()] + queue_drain(s.drop_first())
    }
}

/// A run of `k` pops.
pub open spec fn pop_seq<T>(k: int) -> Seq<StackOp<T>> {
    Seq::new(k as nat, |i: int| StackOp::Pop)
}

/// A run of `k` dequeues.
pub open spec fn dequeue_seq<T>(k: int) -> Seq<QueueOp<T>> {
    Seq::new(k as nat, |i: int| QueueOp::Dequeue)
}

/// Pushing the values `vs`, in order, onto an empty stack leaves exactly
/// `vs` as the contents, and pops nothing.
pub proof fn lemma_stack_push_all<T>(vs: Seq<T>)
    ensures
        stack_run(vs.map_values(|v: T| StackOp::Push(v))) == vs,
        stack_pops(vs.map_values(|v: T| StackOp::Push(v))) == Seq::<T>::empty(),
    decreases vs.len(),
{
    let ops = vs.map_values(|v: T| StackOp::Push(v));
    if vs.len() == 0 {
        assert(stack_run(ops) =~= vs);
    } else {
        lemma_stack_push_all(vs.drop_last());
        assert(ops.drop_last() =~= vs.drop_last().map_values(|v: T| StackOp::Push(v)));
        assert(stack_run(ops) =~= vs);
    }
}

/// Enqueuing the values `vs`, in order, into an empty queue leaves exactly
/// `vs` as the contents, and dequeues nothing.
pub proof fn lemma_queue_enqueue_all<T>(vs: Seq<T>)
    ensures
        queue_run(vs.map_values(|v: T| QueueOp::Enqueue(v))) == vs,
        queue_dequeues(vs.map_values(|v: T| QueueOp::Enqueue(v))) == Seq::<T>::empty(),
        queue_enqueued(vs.map_values(|v: T| QueueOp::Enqueue(v))) == vs,
    decreases vs.len(),
{
    let ops = vs.map_values(|v: T| QueueOp::Enqueue(v));
    if vs.len() == 0 {
        assert(queue_run(ops) =~= vs);
        assert(queue_enqueued(ops) =~= vs);
    } else {
        lemma_queue_enqueue_all(vs.drop_last());
        assert(ops.drop_last() =~= vs.drop_last().map_values(|v: T| QueueOp::Enqueue(v)));
        assert(queue_run(ops) =~= vs);
        assert(queue_enqueued(ops) =~= vs);
    }
}

/// Appending `k` pops to any run removes its last `k` elements and pops
/// them most-recent-first.
pub proof fn lemma_stack_append_pops<T>(ops: Seq<StackOp<T>>, k: int)
    requires
        0 <= k <= stack_run(ops).len(),
    ensures
        stack_run(ops + pop_seq(k)) == stack_run(ops).take(stack_run(ops).len() - k),
        stack_pops(ops + pop_seq(k)) == stack_pops(ops)
            + stack_run(ops).skip(stack_run(ops).len() - k).reverse(),
    decreases k,
{
    let s = stack_run(ops);
    if k == 0 {
        assert(ops + pop_seq(k) =~= ops);
        assert(s.take(s.len() as int) =~= s);
        assert(stack_pops(ops) + s.skip(s.len() as int).reverse() =~= stack_pops(ops));
    } else {
        lemma_stack_append_pops(ops, k - 1);
        assert((ops + pop_seq::<T>(k)).drop_last() =~= ops + pop_seq(k - 1));
        let prev = stack_run(ops + pop_seq(k - 1));
        assert(prev == s.take(s.len() - (k - 1)));
        assert(prev.len() == s.len() - k + 1);
        assert(prev.last() == s[s.len() - k]);
        assert(stack_run(ops + pop_seq(k)) =~= s.take(s.len() - k));
        assert(stack_pops(ops + pop_seq(k)) =~= stack_pops(ops) + s.skip(s.len() - k).reverse());
    }
}

/// Appending `k` dequeues to any run removes its first `k` elements and
/// dequeues them in order.
pub proof fn lemma_queue_append_dequeues<T>(ops: Seq<QueueOp<T>>, k: int)
    requires
        0 <= k <= queue_run(ops).len(),
    ensures
        queue_run(ops + dequeue_seq(k)) == queue_run(ops).skip(k),
        queue_dequeues(ops + dequeue_seq(k)) == queue_dequeues(ops) + queue_run(ops).take(k),
    decreases k,
{
    let s = queue_run(ops);
    if k == 0 {
        assert(ops + dequeue_seq(k) =~= ops);
        assert(s.skip(0) =~= s);
        assert(queue_dequeues(ops) + s.take(0) =~= queue_dequeues(ops));
    } else {
        lemma_queue_append_dequeues(ops, k - 1);
        assert((ops + dequeue_seq::<T>(k)).drop_last() =~= ops + dequeue_seq(k - 1));
        let prev = queue_run(ops + dequeue_seq(k - 1));
        assert(prev == s.skip(k - 1));
        assert(prev.len() == s.len() - k + 1);
        assert(prev.first() == s[k - 1]);
        assert(queue_run(ops + dequeue_seq(k)) =~= s.skip(k));
        assert(queue_dequeues(ops + dequeue_seq(k)) =~= queue_dequeues(ops) + s.take(k));
    }
}

/// The LIFO law over whole runs: pushing `v1..vn` on an empty stack and then
/// popping n times yields `vn, .., v1` — the pushed values in reverse — and
/// leaves the stack empty.
pub proof fn lemma_stack_push_all_pop_all<T>(vs: Seq<T>)
    ensures
        stack_pops(vs.map_values(|v: T| StackOp::Push(v)) + pop_seq(vs.len() as int))
            == vs.reverse(),
        stack_run(vs.map_values(|v: T| StackOp::Push(v)) + pop_seq(vs.len() as int))
            == Seq::<T>::empty(),
{
    let pushes = vs.map_values(|v: T| StackOp::Push(v));
    lemma_stack_push_all(vs);
    lemma_stack_append_pops(pushes, vs.len() as int);
    assert(vs.take(0) =~= Seq::<T>::empty());
    assert(vs.skip(0) =~= vs);
    assert(stack_pops(pushes) + vs.reverse() =~= vs.reverse());
}

/// The FIFO law over whole runs: enqueuing `v1..vn` into an empty queue and
/// then dequeuing n times yields `v1, .., vn` — the enqueued values in the
/// same order — and leaves the queue empty.
pub proof fn lemma_queue_enqueue_all_dequeue_all<T>(vs: Seq<T>)
    ensures
        queue_dequeues(vs.map_values(|v: T| QueueOp::Enqueue(v)) + dequeue_seq(vs.len() as int))
            == vs,
        queue_run(vs.map_values(|v: T| QueueOp::Enqueue(v)) + dequeue_seq(vs.len() as int))
            == Seq::<T>::empty(),
{
    let enqueues = vs.map_values(|v: T| QueueOp::Enqueue(v));
    lemma_queue_enqueue_all(vs);
    lemma_queue_append_dequeues(enqueues, vs.len() as int);
    assert(vs.take(vs.len() as int) =~= vs);
    assert(vs.skip(vs.len() as int) =~= Seq::<T>::empty());
    assert(queue_dequeues(enqueues) + vs =~= vs);
}

/// The LIFO law: draining a stack that holds `s` yields the values in
/// reverse order of their pushes. In particular, after pushing `v1..vn` onto
/// an empty stack, popping n times yields `vn, .., v1`.
pub proof fn lemma_stack_lifo<T>(s: Seq<T>)
    ensures
        stack_drain(s) == s.reverse(),
    decreases s.len(),
{
    if s.len() == 0 {
        assert(stack_drain(s) =~= s.reverse());
    } else {
        lemma_stack_lifo(s.drop_last());
        assert(stack_drain(s) =~= s.reverse());
    }
}

/// The FIFO law: draining a queue that holds `s` yields the values in the
/// order of their enqueues. In particular, after enqueuing `v1..vn` into an
/// empty queue, dequeuing n times yields `v1, .., vn`.
pub proof fn lemma_queue_fifo<T>(s: Seq<T>)
    ensures
        queue_drain(s) == s,
    decreases s.len(),
{
    if s.len() == 0 {
        assert(queue_drain(s) =~= s);
    } else {
        lemma_queue_fifo(s.drop_first());
        assert(queue_drain(s) =~= s);
    }
}

/// After any sequence of operations, the size equals the number of pushes
/// minus the number of successful pops.
pub proof fn lemma_stack_size_conservation<T>(ops: Seq<StackOp<T>>)
    ensures
        stack_run(ops).len() == stack_push_count(ops) - stack_pops(ops).len(),
    decreases ops.len(),
{
    if ops.len() > 0 {
        lemma_stack_size_conservation(ops.drop_last());
    }
}

/// After any sequence of operations, the size equals the number of enqueues
/// minus the number of successful dequeues.
pub proof fn lemma_queue_size_conservation<T>(ops: Seq<QueueOp<T>>)
    ensures
        queue_run(ops).len() == queue_enqueued(ops).len() - queue_dequeues(ops).len(),
    decreases ops.len(),
{
    if ops.len() > 0 {
        lemma_queue_size_conservation(ops.drop_last());
    }
}

/// FIFO order is kept under arbitrary interleaving: after any sequence of
/// operations, the values dequeued so far, followed by the values still in
/// the queue, are exactly the values enqueued so far, in enqueue order.
/// Applied to every prefix of an operation sequence, this is the ordering
/// law at every prefix, not just at the end.
pub proof fn lemma_queue_fifo_interleaved<T>(ops: Seq<QueueOp<T>>)
    ensures
        queue_dequeues(ops) + queue_run(ops) == queue_enqueued(ops),
    decreases ops.len(),
{
    if ops.len() == 0 {
        assert(queue_dequeues(ops) + queue_run(ops) =~= queue_enqueued(ops));
    } else {
        lemma_queue_fifo_interleaved(ops.drop_last());
        assert(queue_dequeues(ops) + queue_run(ops) =~= queue_enqueued(ops));
    }
}

/// Runs an arbitrary operation sequence on an empty stack of any variant.
/// The contract ties the concrete container to the abstract model: the
/// final contents are exactly `stack_run(ops)`, and the values the
/// successful pops returned, in order, are exactly `stack_pops(ops)`.
pub fn run_stack_ops<T, S: Stack<T>>(stack: &mut S, ops: Vec<StackOp<T>>) -> (outs: Vec<T>)
    requires
        old(stack).inv(),
        old(stack).elems() == Seq::<T>::empty(),
        ops@.len() < usize::MAX / 2,
    ensures
        final(stack).inv(),
        final(stack).elems() == stack_run(ops@),
        outs@ == stack_pops(ops@),
{
    let ghost all_ops = ops@;
    let mut ops = ops;
    let mut outs: Vec<T> = Vec::new();
    while ops.len() > 0
        invariant
            stack.inv(),
            ops@.len() <= all_ops.len() < usize::MAX / 2,
            ops@ == all_ops.skip(all_ops.len() - ops@.len()),
            stack.elems() == stack_run(all_ops.take(all_ops.len() - ops@.len())),
            stack.elems().len() <= all_ops.len() - ops@.len(),
            outs@ == stack_pops(all_ops.take(all_ops.len() - ops@.len())),
        decreases ops@.len(),
    {
        let ghost k = all_ops.len() - ops@.len();
        proof {
            assert(all_ops.take(k + 1).drop_last() =~= all_ops.take(k as int));
            assert(all_ops.take(k + 1).last() == ops@[0]);
        }
        let op = ops.remove(0);
        match op {
            StackOp::Push(v) => {
                stack.push(v);
            },
            StackOp::Pop => {
                match stack.pop() {
                    Some(v) => {
                        outs.push(v);
                    },
                    None => {},
                }
            },
        }
        proof {
            assert(ops@ =~= all_ops.skip(k + 1));
        }
    }
    proof {
        assert(all_ops.take(all_ops.len() as int) =~= all_ops);
    }
    outs
}

/// Runs an arbitrary operation sequence on an empty queue of any variant.
/// The contract ties the concrete container to the abstract model: the
/// final contents are exactly `queue_run(ops)`, and the values the
/// successful dequeues returned, in order, are exactly `queue_dequeues(ops)`.
pub fn run_queue_ops<T, Q: Queue<T>>(queue: &mut Q, ops: Vec<QueueOp<T>>) -> (outs: Vec<T>)
    requires
        old(queue).inv(),
        old(queue).elems() == Seq::<T>::empty(),
        ops@.len() < usize::MAX / 2,
    ensures
        final(queue).inv(),
        final(queue).elems() == queue_run(ops@),
        outs@ == queue_dequeues(ops@),
{
    let ghost all_ops = ops@;
    let mut ops = ops;
    let mut outs: Vec<T> = Vec::new();
    while ops.len() > 0
        invariant
            queue.inv(),
            ops@.len() <= all_ops.len() < usize::MAX / 2,
            ops@ == all_ops.skip(all_ops.len() - ops@.len()),
            queue.elems() == queue_run(all_ops.take(all_ops.len() - ops@.len())),
            queue.elems().len() <= all_ops.len() - ops@.len(),
            outs@ == queue_dequeues(all_ops.take(all_ops.len() - ops@.len())),
        decreases ops@.len(),
    {
        let ghost k = all_ops.len() - ops@.len();
        proof {
            assert(all_ops.take(k + 1).drop_last() =~= all_ops.take(k as int));
            assert(all_ops.take(k + 1).last() == ops@[0]);
        }
        let op = ops.remove(0);
        match op {
            QueueOp::Enqueue(v) => {
                queue.enqueue(v);
            },
            QueueOp::Dequeue => {
                match queue.dequeue() {
                    Some(v) => {
                        outs.push(v);
                    },
                    None => {},
                }
            },
        }
        proof {
            assert(ops@ =~= all_ops.skip(k + 1));
        }
    }
    proof {
        assert(all_ops.take(all_ops.len() as int) =~= all_ops);
    }
    outs
}

/// LIFO order is kept under arbitrary interleaving: at any point in an
/// operation sequence, a successful pop returns the last element of the
/// stack contents at that point — the most recently pushed value still
/// present — so the ordering law holds at every prefix, not just at the end.
pub proof fn lemma_stack_lifo_interleaved<T>(ops: Seq<StackOp<T>>, i: int)
    requires
        0 <= i < ops.len(),
        ops[i] is Pop,
        stack_run(ops.take(i)).len() > 0,
    ensures
        stack_pops(ops.take(i + 1)) == stack_pops(ops.take(i)).push(stack_run(ops.take(i)).last()),
{
    assert(ops.take(i + 1).drop_last() =~= ops.take(i));
    assert(ops.take(i + 1).last() == ops[i]);
}

} // verus!
