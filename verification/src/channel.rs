//! A first-in, first-out message path that can be closed.

use std::collections::VecDeque;
use vstd::prelude::*;

verus! {

/// What a [`Channel`] stands for: the messages in transit, oldest first, and
/// whether the path has been closed.
pub struct ChannelView<T> {
    pub queue: Seq<T>,
    pub closed: bool,
}

impl<T> ChannelView<T> {
    /// An open path with nothing in transit.
    pub open spec fn fresh() -> Self {
        ChannelView { queue: Seq::empty(), closed: false }
    }

    /// Whether a receive finds a message.
    pub open spec fn has_message(self) -> bool {
        self.queue.len() > 0
    }

    /// Whether the path is closed and nothing is left in transit: no message
    /// will ever come out of it again.
    pub open spec fn drained(self) -> bool {
        self.closed && self.queue.len() == 0
    }

    /// The path after an attempt to send `item`: a closed path takes nothing.
    pub open spec fn send(self, item: T) -> Self {
        if self.closed {
            self
        } else {
            ChannelView { queue: self.queue.push(item), closed: false }
        }
    }

    /// The path after an attempt to send each of `items` in order.
    pub open spec fn send_all(self, items: Seq<T>) -> Self {
        if self.closed {
            self
        } else {
            ChannelView { queue: self.queue + items, closed: false }
        }
    }

    /// The message that a receive takes out, if any.
    pub open spec fn front(self) -> Option<T> {
        if self.queue.len() > 0 {
            Some(self.queue[0])
        } else {
            None
        }
    }

    /// The path after a receive.
    pub open spec fn recv(self) -> Self {
        if self.queue.len() > 0 {
            ChannelView { queue: self.queue.skip(1), closed: self.closed }
        } else {
            self
        }
    }

    /// The path after it was closed: what is in transit stays receivable.
    pub open spec fn close(self) -> Self {
        ChannelView { queue: self.queue, closed: true }
    }

    /// The path after everything in transit was thrown away.
    pub open spec fn discard(self) -> Self {
        ChannelView { queue: Seq::empty(), closed: self.closed }
    }
}

/// A FIFO buffer of messages on their way from one unit to another.
///
/// A send on an open channel always succeeds and never blocks. Once the
/// channel is closed every send fails; messages sent before that can still be
/// received.
pub struct Channel<T> {
    buffer: VecDeque<T>,
    closed: bool,
}

impl<T> View for Channel<T> {
    type V = ChannelView<T>;

    closed spec fn view(&self) -> ChannelView<T> {
        ChannelView { queue: self.buffer@, closed: self.closed }
    }
}

impl<T> Channel<T> {
    /// An open channel with nothing in transit.
    pub fn new() -> (ch: Self)
        ensures
            ch@ == ChannelView::<T>::fresh(),
    {
        Channel { buffer: VecDeque::new(), closed: false }
    }

    /// Whether the channel has been closed.
    pub fn is_closed(&self) -> (closed: bool)
        ensures
            closed == self@.closed,
    {
        self.closed
    }

    /// The number of messages in transit.
    pub fn len(&self) -> (n: usize)
        ensures
            n == self@.queue.len(),
    {
        self.buffer.len()
    }

    /// Whether no message is in transit.
    pub fn is_empty(&self) -> (empty: bool)
        ensures
            empty == !self@.has_message(),
    {
        self.buffer.len() == 0
    }

    /// Appends `item` unless the channel is closed, in which case the item
    /// comes back to the sender.
    pub fn send(&mut self, item: T) -> (sent: Result<(), T>)
        ensures
            final(self)@ == old(self)@.send(item),
            sent == (if old(self)@.closed { Err::<(), T>(item) } else { Ok::<(), T>(()) }),
    {
        if self.closed {
            Err(item)
        } else {
            self.buffer.push_back(item);
            Ok(())
        }
    }

    /// Appends the items in order unless the channel is closed, in which
    /// case all of them are dropped.
    pub fn send_all(&mut self, items: Vec<T>)
        ensures
            final(self)@ == old(self)@.send_all(items@),
    {
        if self.closed {
            return;
        }
        let ghost before = self.buffer@;
        let ghost all = items@;
        for item in it: items
            invariant
                !self.closed,
                it.seq() == all,
                self.buffer@ == before + all.take(it.index()),
        {
            self.buffer.push_back(item);
        }
        assert(all.take(all.len() as int) == all);
    }

    /// Takes the oldest message out, if there is one. Never blocks.
    pub fn try_recv(&mut self) -> (item: Option<T>)
        ensures
            final(self)@ == old(self)@.recv(),
            item == old(self)@.front(),
    {
        let item = self.buffer.pop_front();
        proof {
            if old(self)@.queue.len() > 0 {
                assert(self.buffer@ =~= old(self)@.queue.skip(1));
            }
        }
        item
    }

    /// Closes the channel. Closing is permanent.
    pub fn close(&mut self)
        ensures
            final(self)@ == old(self)@.close(),
    {
        self.closed = true;
    }

    /// Throws away every message in transit.
    pub fn discard(&mut self)
        ensures
            final(self)@ == old(self)@.discard(),
    {
        self.buffer.clear();
    }
}

} // verus!
