//! Views of a queue that each allow one side's operations only: a
//! [`Producer`] can push, a [`Consumer`] can pop and drain, and both can
//! look at how full the queue is. Each borrows the queue it views and holds
//! no state of its own.
use vstd::prelude::*;
use crate::model::{pushed, popped, front};
use crate::queue::ShortQueue;

verus! {

/// The enqueueing side of a queue.
pub struct Producer<'a, const N: usize> {
    queue: &'a mut ShortQueue<N>,
}

/// The dequeueing side of a queue.
pub struct Consumer<'a, const N: usize> {
    queue: &'a mut ShortQueue<N>,
}

impl<const N: usize> ShortQueue<N> {
    /// A view of this queue that can only push; what it does is done to
    /// this queue.
    pub fn producer(&mut self) -> (p: Producer<'_, N>)
        requires
            old(self).wf(),
        ensures
            p.queue() == *old(self),
    {
        Producer { queue: self }
    }

    /// A view of this queue that can only pop and drain; what it does is
    /// done to this queue.
    pub fn consumer(&mut self) -> (c: Consumer<'_, N>)
        requires
            old(self).wf(),
        ensures
            c.queue() == *old(self),
    {
        Consumer { queue: self }
    }
}

impl<'a, const N: usize> Producer<'a, N> {
    /// The queue behind this view, as it is now.
    pub closed spec fn queue(&self) -> ShortQueue<N> {
        *self.queue
    }

    /// Pushes `b`; see [`ShortQueue::push`].
    pub fn push(&mut self, b: u8) -> (r: bool)
        requires
            old(self).queue().wf(),
        ensures
            final(self).queue().wf(),
            r == (old(self).queue()@.len() < ShortQueue::<N>::cap()),
            final(self).queue()@ == pushed(old(self).queue()@, ShortQueue::<N>::cap(), b),
            !r ==> final(self).queue() == old(self).queue(),
            r ==> final(self).queue().tail_index() as int == (old(self).queue().tail_index() as int
                + 1) % (N as int),
            r ==> final(self).queue().slots() == old(self).queue().slots().update(
                old(self).queue().tail_index() as int,
                b,
            ),
            final(self).queue().head_index() == old(self).queue().head_index(),
    {
        self.queue.push(b)
    }

    /// Whether the queue is empty; see [`ShortQueue::is_empty`].
    pub fn is_empty(&self) -> (r: bool)
        requires
            self.queue().wf(),
        ensures
            r == (self.queue()@.len() == 0),
    {
        self.queue.is_empty()
    }

    /// Whether the queue is full; see [`ShortQueue::is_full`].
    pub fn is_full(&self) -> (r: bool)
        requires
            self.queue().wf(),
        ensures
            r == (self.queue()@.len() == ShortQueue::<N>::cap()),
    {
        self.queue.is_full()
    }
}

impl<'a, const N: usize> Consumer<'a, N> {
    /// The queue behind this view, as it is now.
    pub closed spec fn queue(&self) -> ShortQueue<N> {
        *self.queue
    }

    /// Takes the oldest byte; see [`ShortQueue::pop`].
    pub fn pop(&mut self) -> (r: Option<u8>)
        requires
            old(self).queue().wf(),
        ensures
            final(self).queue().wf(),
            r == front(old(self).queue()@),
            final(self).queue()@ == popped(old(self).queue()@),
            r is None ==> final(self).queue() == old(self).queue(),
            r is Some ==> final(self).queue().head_index() as int == (
            old(self).queue().head_index() as int + 1) % (N as int),
            final(self).queue().tail_index() == old(self).queue().tail_index(),
            final(self).queue().slots() == old(self).queue().slots(),
    {
        self.queue.pop()
    }

    /// Discards every byte in the queue; see [`ShortQueue::drain`].
    pub fn drain(&mut self)
        requires
            old(self).queue().wf(),
        ensures
            final(self).queue().wf(),
            final(self).queue()@ == Seq::<u8>::empty(),
            final(self).queue().head_index() == old(self).queue().tail_index(),
            final(self).queue().tail_index() == old(self).queue().tail_index(),
            final(self).queue().slots() == old(self).queue().slots(),
            old(self).queue()@.len() == 0 ==> final(self).queue() == old(self).queue(),
    {
        self.queue.drain()
    }

    /// Whether the queue is empty; see [`ShortQueue::is_empty`].
    pub fn is_empty(&self) -> (r: bool)
        requires
            self.queue().wf(),
        ensures
            r == (self.queue()@.len() == 0),
    {
        self.queue.is_empty()
    }

    /// Whether the queue is full; see [`ShortQueue::is_full`].
    pub fn is_full(&self) -> (r: bool)
        requires
            self.queue().wf(),
        ensures
            r == (self.queue()@.len() == ShortQueue::<N>::cap()),
    {
        self.queue.is_full()
    }
}

} // verus!
