//! The bounded hand-off between the capture and render periods: a FIFO of
//! blocks that never blocks and drops the newest block when full.
use vstd::prelude::*;
use std::collections::VecDeque;

verus! {

/// Queue contents after offering `block` to a queue holding `q` with room
/// for `capacity` blocks: appended when there is room, dropped otherwise.
pub open spec fn after_send<T>(q: Seq<T>, capacity: nat, block: T) -> Seq<T> {
    if q.len() < capacity {
        q.push(block)
    } else {
        q
    }
}

/// Queue contents after offering every block of `blocks` in order.
pub open spec fn after_send_all<T>(q: Seq<T>, capacity: nat, blocks: Seq<T>) -> Seq<T>
    decreases blocks.len(),
{
    if blocks.len() == 0 {
        q
    } else {
        after_send(after_send_all(q, capacity, blocks.drop_last()), capacity, blocks.last())
    }
}

/// Bounded single-producer, single-consumer block queue with a drop-newest
/// overflow policy.
pub struct BridgeQueue<T> {
    items: VecDeque<T>,
    capacity: usize,
}

impl<T> View for BridgeQueue<T> {
    type V = Seq<T>;

    closed spec fn view(&self) -> Seq<T> {
        self.items@
    }
}

impl<T> BridgeQueue<T> {
    /// How many blocks the queue holds at most.
    pub closed spec fn cap(&self) -> nat {
        self.capacity as nat
    }

    pub closed spec fn wf(&self) -> bool {
        self.items@.len() <= self.capacity
    }

    /// An empty queue with room for `capacity` blocks.
    pub fn new(capacity: usize) -> (r: Self)
        ensures
            r.wf(),
            r@ == Seq::<T>::empty(),
            r.cap() == capacity,
    {
        BridgeQueue { items: VecDeque::with_capacity(capacity), capacity }
    }

    pub fn len(&self) -> (r: usize)
        requires
            self.wf(),
        ensures
            r == self@.len(),
            r <= self.cap(),
    {
        self.items.len()
    }

    /// Offers a block without waiting: appends it and returns `true` when
    /// there is room, drops it and returns `false` when the queue is full.
    pub fn try_send(&mut self, block: T) -> (r: bool)
        requires
            old(self).wf(),
        ensures
            final(self).wf(),
            final(self).cap() == old(self).cap(),
            final(self)@ == after_send(old(self)@, old(self).cap(), block),
            final(self)@.len() <= final(self).cap(),
            r == (old(self)@.len() < old(self).cap()),
    {
        if self.items.len() < self.capacity {
            self.items.push_back(block);
            true
        } else {
            false
        }
    }

    /// Takes the oldest block without waiting, or `None` when empty.
    pub fn try_recv(&mut self) -> (r: Option<T>)
        requires
            old(self).wf(),
        ensures
            final(self).wf(),
            final(self).cap() == old(self).cap(),
            final(self)@.len() <= final(self).cap(),
            old(self)@.len() > 0 ==> r == Some(old(self)@[0]) && final(self)@ == old(
                self,
            )@.drop_first(),
            old(self)@.len() == 0 ==> r.is_none() && final(self)@ == old(self)@,
    {
        self.items.pop_front()
    }
}

/// Offering more blocks than the queue has room for, before any is taken,
/// leaves exactly the oldest `capacity` blocks, in the order they came; the
/// newest extras are dropped.
pub proof fn lemma_overflow_keeps_oldest<T>(blocks: Seq<T>, capacity: nat)
    ensures
        after_send_all(Seq::<T>::empty(), capacity, blocks) == (if blocks.len() <= capacity {
            blocks
        } else {
            blocks.subrange(0, capacity as int)
        }),
    decreases blocks.len(),
{
    if blocks.len() > 0 {
        let p = blocks.drop_last();
        lemma_overflow_keeps_oldest(p, capacity);
        if blocks.len() <= capacity {
            assert(p.push(blocks.last()) =~= blocks);
        } else if p.len() < capacity {
            assert(p.push(blocks.last()) =~= blocks.subrange(0, capacity as int));
        } else {
            assert(p.subrange(0, capacity as int) =~= blocks.subrange(0, capacity as int));
        }
    }
}

} // verus!
