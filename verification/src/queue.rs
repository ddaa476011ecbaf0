//! Bounded lock-free queues shared between threads (crossbeam's
//! `ArrayQueue`). Other threads push and pop concurrently, so a queue's
//! contents are never stated: only what holds of each call's own outcome.

use vstd::prelude::*;
use crossbeam_queue::ArrayQueue;

verus! {

/// Declares crossbeam's `ArrayQueue` to the verifier, opaque: nothing is
/// claimed of its contents.
#[verifier::external_type_specification]
#[verifier::external_body]
#[verifier::reject_recursive_types(T)]
pub struct ExArrayQueue<T>(ArrayQueue<T>);

/// Calls `ArrayQueue::new`, which panics on a zero capacity and on a
/// capacity whose next power of two overflows; both are left out. Claims
/// nothing of the queue.
#[verifier::external_body]
pub(crate) fn queue_new<T>(cap: usize) -> (r: ArrayQueue<T>)
    requires
        0 < cap <= 0x4000_0000,
{
    ArrayQueue::new(cap)
}

/// Calls `ArrayQueue::push`. Claims: when the queue is full the value comes
/// back unchanged. Whether it is full depends on other threads, so which
/// outcome occurs is not stated.
#[verifier::external_body]
pub(crate) fn queue_push<T>(queue: &ArrayQueue<T>, value: T) -> (r: Result<(), T>)
    ensures
        r matches Err(back) ==> back == value,
{
    queue.push(value)
}

/// Calls `ArrayQueue::pop`. What comes out depends on other threads, so
/// nothing is stated of the result.
#[verifier::external_body]
pub(crate) fn queue_pop<T>(queue: &ArrayQueue<T>) -> (r: Option<T>) {
    queue.pop()
}

} // verus!
