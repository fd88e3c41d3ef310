//! The queue of chunks that wait for a rebuild of their mesh, first in,
//! first out.

use vstd::prelude::*;
use crossbeam::queue::SegQueue;
use crate::types::ChunkPos;

verus! {

#[verifier::external_type_specification]
#[verifier::external_body]
#[verifier::reject_recursive_types(T)]
pub struct ExSegQueue<T>(SegQueue<T>);

/// The positions that `queue` holds, the head first.
pub uninterp spec fn queue_items(queue: SegQueue<ChunkPos>) -> Seq<ChunkPos>;

/// `SegQueue::new` of crossbeam: creates a queue. Trusted: the queue that
/// it hands back holds nothing.
#[verifier::external_body]
fn queue_new() -> (queue: SegQueue<ChunkPos>)
    ensures
        queue_items(queue) == Seq::<ChunkPos>::empty(),
{
    SegQueue::new()
}

/// `SegQueue::push_mut` of crossbeam: pushes an element to the tail, with
/// exclusive access. Trusted: afterwards the queue holds what it held, and
/// `chunk_pos` behind it.
#[verifier::external_body]
fn queue_push(queue: &mut SegQueue<ChunkPos>, chunk_pos: ChunkPos)
    ensures
        queue_items(*final(queue)) == queue_items(*old(queue)).push(chunk_pos),
{
    queue.push_mut(chunk_pos)
}

/// `SegQueue::pop_mut` of crossbeam: pops the head element, with exclusive
/// access, and returns `None` if the queue is empty. Trusted: an empty
/// queue stays as it is and gives `None`; any other gives its first
/// element and keeps the rest in order.
#[verifier::external_body]
fn queue_pop(queue: &mut SegQueue<ChunkPos>) -> (r: Option<ChunkPos>)
    ensures
        queue_items(*old(queue)).len() == 0 ==> r.is_none() && queue_items(*final(queue))
            == queue_items(*old(queue)),
        queue_items(*old(queue)).len() > 0 ==> r == Some(queue_items(*old(queue))[0])
            && queue_items(*final(queue)) == queue_items(*old(queue)).drop_first(),
{
    queue.pop_mut()
}

/// `SegQueue::is_empty` of crossbeam. Trusted: it returns `true` exactly
/// if the queue holds nothing.
#[verifier::external_body]
fn queue_is_empty(queue: &SegQueue<ChunkPos>) -> (r: bool)
    ensures
        r == (queue_items(*queue).len() == 0),
{
    queue.is_empty()
}

/// The chunks that wait for a rebuild of their mesh, in the order in which
/// they were marked.
pub struct DirtyQueue {
    queue: SegQueue<ChunkPos>,
}

impl View for DirtyQueue {
    type V = Seq<ChunkPos>;

    /// The waiting positions, the next one to be taken first.
    closed spec fn view(&self) -> Seq<ChunkPos> {
        queue_items(self.queue)
    }
}

impl DirtyQueue {
    /// A queue in which nothing waits.
    pub fn new() -> (r: Self)
        ensures
            r@ == Seq::<ChunkPos>::empty(),
    {
        DirtyQueue { queue: queue_new() }
    }

    /// Puts `chunk_pos` behind everything that waits.
    pub fn push(&mut self, chunk_pos: ChunkPos)
        ensures
            final(self)@ == old(self)@.push(chunk_pos),
    {
        queue_push(&mut self.queue, chunk_pos);
    }

    /// Takes the position that has waited longest; `None` if nothing waits.
    pub fn pop(&mut self) -> (r: Option<ChunkPos>)
        ensures
            old(self)@.len() == 0 ==> r.is_none() && final(self)@ == old(self)@,
            old(self)@.len() > 0 ==> r == Some(old(self)@[0]) && final(self)@
                == old(self)@.drop_first(),
    {
        queue_pop(&mut self.queue)
    }

    /// True if nothing waits.
    pub fn is_empty(&self) -> (r: bool)
        ensures
            r == (self@.len() == 0),
    {
        queue_is_empty(&self.queue)
    }
}

} // verus!
