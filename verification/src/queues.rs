use std::collections::VecDeque;
use vstd::prelude::*;

verus! {

/// The link between two stages: an unbounded first-in, first-out queue. One stage
/// appends at the tail, the next removes at the head. Stages on different threads share
/// one by holding it behind a lock.
pub struct GenericSharedQueue<T> {
    queue: VecDeque<T>,
}

/// Which side of the conversion stage a queue of frames stands on.
#[derive(Clone, Copy, Debug, PartialEq, Eq, Structural)]
pub enum FrameType {
    Input,
    Output,
}

impl<T> View for GenericSharedQueue<T> {
    type V = Seq<T>;

    /// The queued items, head first.
    closed spec fn view(&self) -> Seq<T> {
        self.queue@
    }
}

impl<T> GenericSharedQueue<T> {
    pub fn new() -> (queue: Self)
        ensures
            queue@ == Seq::<T>::empty(),
    {
        Self { queue: VecDeque::new() }
    }

    /// Appends `item` at the tail.
    pub fn push(&mut self, item: T)
        ensures
            final(self)@ == old(self)@.push(item),
    {
        self.queue.push_back(item);
    }

    /// Removes the head and returns it, or returns nothing where the queue is empty.
    pub fn try_pop(&mut self) -> (head: Option<T>)
        ensures
            old(self)@.len() == 0 ==> head is None && final(self)@ == old(self)@,
            old(self)@.len() > 0 ==> head == Some(old(self)@[0]) && final(self)@ == old(
                self,
            )@.drop_first(),
    {
        let head = self.queue.pop_front();
        assert(old(self)@.len() > 0 ==> old(self)@.subrange(1, old(self)@.len() as int) == old(
            self,
        )@.drop_first());
        head
    }

    pub fn len(&self) -> (len: usize)
        ensures
            len == self@.len(),
    {
        self.queue.len()
    }

    pub fn is_empty(&self) -> (empty: bool)
        ensures
            empty == (self@.len() == 0),
    {
        self.queue.len() == 0
    }
}

/// Items leave a queue in the order in which they entered it: after `items` were pushed
/// one by one, popping gives the first of them that is still queued and leaves the rest
/// in order.
pub proof fn lemma_first_in_first_out<T>(queued: Seq<T>, items: Seq<T>)
    requires
        queued.len() + items.len() > 0,
    ensures
        (queued + items)[0] == if queued.len() > 0 {
            queued[0]
        } else {
            items[0]
        },
        (queued + items).drop_first() == if queued.len() > 0 {
            queued.drop_first() + items
        } else {
            items.drop_first()
        },
{
    if queued.len() == 0 {
        assert(queued + items == items);
    }
}

} // verus!
