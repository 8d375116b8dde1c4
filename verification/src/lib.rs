//! Sequential container abstractions: stacks (LIFO) and queues (FIFO), each
//! with two backing strategies — a growable contiguous buffer and a
//! linked-node structure. The `Stack` and `Queue` traits state the shared
//! contracts; the four concrete types prove them.

pub mod stack;
pub mod linked_stack;
pub mod array_stack;
pub mod queue;
pub mod array_queue;
pub mod linked_queue;
pub mod laws;
