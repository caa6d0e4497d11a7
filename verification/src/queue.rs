//! The work queue: pending items in the order of their submission, a flag that
//! says whether the sending half has been released, and the number of
//! receiving endpoints that are still attached.

use std::collections::VecDeque;
use vstd::prelude::*;

verus! {

/// A work queue as a mathematical value.
pub struct QueueView<T> {
    /// The items that were sent and not yet received, oldest first.
    pub pending: Seq<T>,
    /// Whether the sending half has been released.
    pub closed: bool,
    /// How many receiving endpoints are attached.
    pub receivers: nat,
}

impl<T> QueueView<T> {
    /// The queue that `receivers` endpoints share before anything was sent.
    pub open spec fn fresh(receivers: nat) -> Self {
        QueueView { pending: Seq::empty(), closed: false, receivers }
    }

    /// Whether an item sent now is taken: the queue is open and somebody is
    /// left to receive from it.
    pub open spec fn accepts(self) -> bool {
        !self.closed && self.receivers > 0
    }

    /// Whether a receiver that finds the queue as it is gets the end of the
    /// stream: nothing is pending and nothing more can come.
    pub open spec fn at_end(self) -> bool {
        self.closed && self.pending.len() == 0
    }

    /// The queue after `item` was sent to it.
    pub open spec fn send(self, item: T) -> Self {
        if self.accepts() {
            QueueView { pending: self.pending.push(item), ..self }
        } else {
            self
        }
    }

    /// The queue after one attempt to receive from it.
    pub open spec fn receive(self) -> Self {
        if self.pending.len() > 0 {
            QueueView { pending: self.pending.drop_first(), ..self }
        } else {
            self
        }
    }

    /// The queue after its sending half was released.
    pub open spec fn close(self) -> Self {
        QueueView { closed: true, ..self }
    }

    /// The queue after one receiving endpoint was released.
    pub open spec fn detach(self) -> Self {
        if self.receivers > 0 {
            QueueView { receivers: (self.receivers - 1) as nat, ..self }
        } else {
            self
        }
    }
}

/// An item that the queue did not take, handed back to its sender.
#[derive(Debug, PartialEq, Eq)]
pub struct DeliveryError<T>(pub T);

/// What one attempt to receive found.
#[derive(Debug, PartialEq, Eq)]
pub enum Received<T> {
    /// The oldest pending item, now removed from the queue.
    Item(T),
    /// Nothing is pending and the queue is open: a receiver would block.
    Empty,
    /// Nothing is pending and the queue is closed.
    EndOfStream,
}

/// An unbounded first-in first-out queue of work items.
pub struct WorkQueue<T> {
    items: VecDeque<T>,
    closed: bool,
    receivers: usize,
}

impl<T> View for WorkQueue<T> {
    type V = QueueView<T>;

    closed spec fn view(&self) -> QueueView<T> {
        QueueView { pending: self.items@, closed: self.closed, receivers: self.receivers as nat }
    }
}

impl<T> WorkQueue<T> {
    /// An open, empty queue with `receivers` receiving endpoints.
    pub fn new(receivers: usize) -> (queue: Self)
        ensures
            queue@ == QueueView::<T>::fresh(receivers as nat),
    {
        WorkQueue { items: VecDeque::new(), closed: false, receivers }
    }

    /// Appends `item` at the tail. The item is handed back, and the queue left
    /// as it was, when the queue is closed or nobody is left to receive.
    pub fn send(&mut self, item: T) -> (sent: Result<(), DeliveryError<T>>)
        ensures
            final(self)@ == old(self)@.send(item),
            old(self)@.accepts() ==> sent == Ok::<(), DeliveryError<T>>(()),
            !old(self)@.accepts() ==> sent == Err::<(), DeliveryError<T>>(DeliveryError(item)),
    {
        if self.closed || self.receivers == 0 {
            Err(DeliveryError(item))
        } else {
            self.items.push_back(item);
            Ok(())
        }
    }

    /// Removes and returns the oldest pending item. Without one, says whether
    /// more can come.
    pub fn receive(&mut self) -> (received: Received<T>)
        ensures
            final(self)@ == old(self)@.receive(),
            old(self)@.pending.len() > 0 ==> received == Received::Item(old(self)@.pending[0]),
            old(self)@.pending.len() == 0 && old(self)@.closed ==> received
                == Received::<T>::EndOfStream,
            old(self)@.pending.len() == 0 && !old(self)@.closed ==> received
                == Received::<T>::Empty,
    {
        match self.items.pop_front() {
            Some(item) => {
                assert(self.items@ =~= old(self).items@.drop_first());
                Received::Item(item)
            },
            None => {
                if self.closed {
                    Received::EndOfStream
                } else {
                    Received::Empty
                }
            },
        }
    }

    /// Releases the sending half: from now on nothing is taken. What is pending
    /// stays, to be received.
    pub fn close(&mut self)
        ensures
            final(self)@ == old(self)@.close(),
    {
        self.closed = true;
    }

    /// Releases one receiving endpoint.
    pub fn detach(&mut self)
        ensures
            final(self)@ == old(self)@.detach(),
    {
        if self.receivers > 0 {
            self.receivers = self.receivers - 1;
        }
    }

    /// The number of pending items.
    pub fn len(&self) -> (n: usize)
        ensures
            n == self@.pending.len(),
    {
        self.items.len()
    }

    /// Whether the sending half has been released.
    pub fn is_closed(&self) -> (closed: bool)
        ensures
            closed == self@.closed,
    {
        self.closed
    }

    /// The number of receiving endpoints that are attached.
    pub fn receivers(&self) -> (n: usize)
        ensures
            n == self@.receivers,
    {
        self.receivers
    }
}

} // verus!
