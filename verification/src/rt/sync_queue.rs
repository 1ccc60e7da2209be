//! The queues by which tasks arrive from other threads.

use crossbeam_queue::SegQueue;
use swap_buffer_queue::buffer::ArrayBuffer;
use swap_buffer_queue::Queue;
use vstd::prelude::*;

verus! {

/// An unbounded queue.
#[verifier::external_type_specification]
#[verifier::external_body]
#[verifier::reject_recursive_types(T)]
pub struct ExSegQueue<T>(SegQueue<T>);

/// The tickets in a `SegQueue`, the oldest one first.
pub uninterp spec fn seg_items(queue: SegQueue<u64>) -> Seq<u64>;

/// `SegQueue::new` makes a queue with nothing in it.
#[verifier::external_body]
pub(crate) fn seg_new() -> (r: SegQueue<u64>)
    ensures
        seg_items(r) == Seq::<u64>::empty(),
{
    SegQueue::new()
}

/// `SegQueue::push` adds a ticket at the end. The exclusive borrow rules out other
/// users of the queue during the call.
#[verifier::external_body]
pub(crate) fn seg_push(queue: &mut SegQueue<u64>, ticket: u64)
    ensures
        seg_items(*final(queue)) == seg_items(*old(queue)).push(ticket),
{
    queue.push(ticket)
}

/// `SegQueue::pop` takes the oldest ticket, or nothing from an empty queue. The
/// exclusive borrow rules out other users of the queue during the call.
#[verifier::external_body]
pub(crate) fn seg_pop(queue: &mut SegQueue<u64>) -> (r: Option<u64>)
    ensures
        match r {
            Some(ticket) => {
                &&& seg_items(*old(queue)).len() > 0
                &&& ticket == seg_items(*old(queue))[0]
                &&& seg_items(*final(queue)) == seg_items(*old(queue)).drop_first()
            },
            None => {
                &&& seg_items(*old(queue)).len() == 0
                &&& seg_items(*final(queue)) == seg_items(*old(queue))
            },
        },
{
    queue.pop()
}

/// `SegQueue::is_empty` tells whether there is no ticket in the queue. The
/// exclusive borrow rules out other users of the queue during the call.
#[verifier::external_body]
pub(crate) fn seg_is_empty(queue: &mut SegQueue<u64>) -> (r: bool)
    ensures
        r == (seg_items(*old(queue)).len() == 0),
        *final(queue) == *old(queue),
{
    queue.is_empty()
}

/// A queue of fixed capacity.
#[verifier::external_body]
pub struct FixedQueue {
    queue: Queue<ArrayBuffer<u64, 128>>,
}

/// The tickets in the buffer that a fixed queue fills, the oldest one first.
pub uninterp spec fn fixed_items(queue: FixedQueue) -> Seq<u64>;

impl FixedQueue {
    /// `Queue::default` makes a queue with nothing in it.
    #[verifier::external_body]
    pub(crate) fn new() -> (r: FixedQueue)
        ensures
            fixed_items(r) == Seq::<u64>::empty(),
    {
        FixedQueue { queue: Queue::default() }
    }

    /// `Queue::is_empty` tells whether there is no ticket in the buffer that the
    /// queue fills.
    #[verifier::external_body]
    pub(crate) fn is_empty(&self) -> (r: bool)
        ensures
            r == (fixed_items(*self).len() == 0),
    {
        self.queue.is_empty()
    }
}

} // verus!
