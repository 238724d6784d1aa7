//! The channel that carries tasks from the submitting side to the workers:
//! an unbounded queue, first in first out, that can be closed once and for
//! all.
//!
//! A channel is a plain value. Whoever shares it between threads guards it
//! with a lock and calls each operation under that lock, so every run of a
//! system is a sequence of the operations below.

use std::collections::VecDeque;
use vstd::prelude::*;

verus! {

/// What a channel is: the tasks that wait, oldest first, and whether the
/// producer side has been closed.
pub struct ChannelView<T> {
    pub pending: Seq<T>,
    pub closed: bool,
}

/// What a consumer gets when it asks a channel for a task.
#[derive(Debug, PartialEq, Eq)]
pub enum Dequeued<T> {
    /// The oldest waiting task, which now belongs to the consumer.
    Task(T),
    /// Nothing waits, and the channel is open: a task may still come.
    Empty,
    /// Nothing waits, and the channel is closed: no task will ever come.
    Closed,
}

impl<T> ChannelView<T> {
    /// The channel as it is made: open, nothing waiting.
    pub open spec fn new() -> Self {
        ChannelView { pending: Seq::empty(), closed: false }
    }

    /// The channel after `task` has been offered to it: an open channel
    /// takes it in behind all that wait, a closed one is unchanged.
    pub open spec fn send(self, task: T) -> Self {
        if self.closed {
            self
        } else {
            ChannelView { pending: self.pending.push(task), closed: false }
        }
    }

    /// What a consumer gets: the oldest waiting task while there is one,
    /// also after the close; else whether a task may still come.
    pub open spec fn head(self) -> Dequeued<T> {
        if self.pending.len() > 0 {
            Dequeued::Task(self.pending[0])
        } else if self.closed {
            Dequeued::Closed
        } else {
            Dequeued::Empty
        }
    }

    /// The channel after a consumer has asked: without its oldest task, if
    /// it had one.
    pub open spec fn recv(self) -> Self {
        if self.pending.len() > 0 {
            ChannelView { pending: self.pending.drop_first(), closed: self.closed }
        } else {
            self
        }
    }

    /// The channel after the close: what waits stays.
    pub open spec fn close(self) -> Self {
        ChannelView { pending: self.pending, closed: true }
    }
}

/// An unbounded first-in-first-out queue of tasks with a close signal.
#[derive(Debug)]
pub struct Channel<T> {
    pending: VecDeque<T>,
    closed: bool,
}

impl<T> View for Channel<T> {
    type V = ChannelView<T>;

    closed spec fn view(&self) -> ChannelView<T> {
        ChannelView { pending: self.pending@, closed: self.closed }
    }
}

impl<T> Channel<T> {
    /// An open channel in which nothing waits.
    pub fn new() -> (channel: Channel<T>)
        ensures
            channel@ == ChannelView::<T>::new(),
    {
        Channel { pending: VecDeque::new(), closed: false }
    }

    /// Offers `task` to the channel. An open channel takes it in behind all
    /// that wait; a closed channel hands it back and stays as it is.
    pub fn send(&mut self, task: T) -> (r: Result<(), T>)
        ensures
            final(self)@ == old(self)@.send(task),
            r == if old(self)@.closed {
                Err::<(), T>(task)
            } else {
                Ok::<(), T>(())
            },
    {
        if self.closed {
            Err(task)
        } else {
            self.pending.push_back(task);
            Ok(())
        }
    }

    /// Takes the oldest waiting task out of the channel, if there is one.
    /// It never waits: where nothing is there it says whether anything may
    /// still come.
    pub fn try_recv(&mut self) -> (d: Dequeued<T>)
        ensures
            d == old(self)@.head(),
            final(self)@ == old(self)@.recv(),
    {
        match self.pending.pop_front() {
            Some(task) => {
                assert(self.pending@ =~= old(self).pending@.drop_first());
                Dequeued::Task(task)
            },
            None => {
                if self.closed {
                    Dequeued::Closed
                } else {
                    Dequeued::Empty
                }
            },
        }
    }

    /// Closes the channel. What waits stays and is still handed out; on a
    /// closed channel this changes nothing.
    pub fn close(&mut self)
        ensures
            final(self)@ == old(self)@.close(),
    {
        self.closed = true;
    }

    /// Whether the channel has been closed.
    pub fn is_closed(&self) -> (b: bool)
        ensures
            b == self@.closed,
    {
        self.closed
    }

    /// How many tasks wait.
    pub fn len(&self) -> (n: usize)
        ensures
            n == self@.pending.len(),
    {
        self.pending.len()
    }

    /// Whether no task waits.
    pub fn is_empty(&self) -> (b: bool)
        ensures
            b == (self@.pending.len() == 0),
    {
        self.pending.len() == 0
    }
}

/// One operation on a channel, as a history records it.
pub enum ChannelOp<T> {
    /// A producer offers a task.
    Send(T),
    /// A consumer asks for a task.
    Recv,
    /// The producer side is closed.
    Close,
}

impl<T> ChannelView<T> {
    /// The channel after `op`.
    pub open spec fn step(self, op: ChannelOp<T>) -> Self {
        match op {
            ChannelOp::Send(task) => self.send(task),
            ChannelOp::Recv => self.recv(),
            ChannelOp::Close => self.close(),
        }
    }

    /// The channel after the operations `ops`, in their order.
    pub open spec fn run(self, ops: Seq<ChannelOp<T>>) -> Self
        decreases ops.len(),
    {
        if ops.len() == 0 {
            self
        } else {
            self.run(ops.drop_last()).step(ops.last())
        }
    }

    /// The tasks that the channel takes in during `ops`, in their order:
    /// those offered while it is open.
    pub open spec fn accepted(self, ops: Seq<ChannelOp<T>>) -> Seq<T>
        decreases ops.len(),
    {
        if ops.len() == 0 {
            Seq::empty()
        } else {
            let before = self.accepted(ops.drop_last());
            match ops.last() {
                ChannelOp::Send(task) if !self.run(ops.drop_last()).closed => before.push(task),
                _ => before,
            }
        }
    }

    /// The tasks that the channel hands out during `ops`, in their order.
    pub open spec fn delivered(self, ops: Seq<ChannelOp<T>>) -> Seq<T>
        decreases ops.len(),
    {
        if ops.len() == 0 {
            Seq::empty()
        } else {
            let before = self.delivered(ops.drop_last());
            match (ops.last(), self.run(ops.drop_last()).head()) {
                (ChannelOp::Recv, Dequeued::Task(task)) => before.push(task),
                _ => before,
            }
        }
    }
}

/// Every task goes through the channel once, in its turn. Whatever the
/// producers and consumers do and in whatever order, the tasks that waited
/// at the start followed by those taken in since are the tasks handed out
/// since followed by those that wait now: none is handed out twice, none is
/// lost, none overtakes another.
pub proof fn lemma_first_in_first_out<T>(channel: ChannelView<T>, ops: Seq<ChannelOp<T>>)
    ensures
        channel.pending + channel.accepted(ops) == channel.delivered(ops) + channel.run(
            ops,
        ).pending,
    decreases ops.len(),
{
    if ops.len() == 0 {
        assert(channel.pending + Seq::<T>::empty() =~= Seq::<T>::empty() + channel.pending);
    } else {
        let before = channel.run(ops.drop_last());
        lemma_first_in_first_out(channel, ops.drop_last());
        let accepted = channel.accepted(ops.drop_last());
        let delivered = channel.delivered(ops.drop_last());
        assert(channel.pending + accepted == delivered + before.pending);
        match ops.last() {
            ChannelOp::Send(task) => {
                if !before.closed {
                    assert(channel.pending + accepted.push(task) =~= (channel.pending
                        + accepted).push(task));
                    assert(delivered + before.pending.push(task) =~= (delivered
                        + before.pending).push(task));
                }
            },
            ChannelOp::Recv => {
                if before.pending.len() > 0 {
                    assert(delivered.push(before.pending[0]) + before.pending.drop_first()
                        =~= delivered + before.pending);
                }
            },
            ChannelOp::Close => {},
        }
    }
}

/// The close is for good. A closed channel stays closed whatever follows,
/// and takes no task in any more.
pub proof fn lemma_close_is_final<T>(channel: ChannelView<T>, ops: Seq<ChannelOp<T>>)
    requires
        channel.closed,
    ensures
        channel.run(ops).closed,
        channel.accepted(ops) == Seq::<T>::empty(),
    decreases ops.len(),
{
    if ops.len() > 0 {
        lemma_close_is_final(channel, ops.drop_last());
    }
}

/// A closed channel is drained and then tells every consumer so. Once it
/// is closed, as many requests as tasks wait hand these out in their
/// order, and each request after that finds the channel closed, for good.
pub proof fn lemma_closed_channel_drains<T>(channel: ChannelView<T>, requests: nat)
    requires
        channel.closed,
    ensures
        ({
            let ops = Seq::new(requests, |i: int| ChannelOp::<T>::Recv);
            &&& requests <= channel.pending.len() ==> channel.delivered(ops)
                == channel.pending.take(requests as int)
            &&& requests >= channel.pending.len() ==> channel.delivered(ops) == channel.pending
                && channel.run(ops).head() == Dequeued::<T>::Closed
        }),
    decreases requests,
{
    let ops = Seq::new(requests, |i: int| ChannelOp::<T>::Recv);
    lemma_first_in_first_out(channel, ops);
    lemma_close_is_final(channel, ops);
    if requests == 0 {
        assert(channel.pending.take(0) =~= Seq::<T>::empty());
    } else {
        let fewer = Seq::new((requests - 1) as nat, |i: int| ChannelOp::<T>::Recv);
        assert(ops.drop_last() =~= fewer);
        lemma_closed_channel_drains(channel, (requests - 1) as nat);
        lemma_first_in_first_out(channel, fewer);
        lemma_close_is_final(channel, fewer);
        let before = channel.run(fewer);
        let n = channel.pending.len();
        assert(channel.pending + Seq::<T>::empty() =~= channel.pending);
        if requests <= n {
            assert(channel.pending =~= channel.pending.take(requests - 1) + before.pending);
            assert(before.pending.len() == n - (requests - 1));
            assert(before.pending[0] == channel.pending[requests - 1]);
            assert(channel.pending.take(requests - 1).push(channel.pending[requests - 1])
                =~= channel.pending.take(requests as int));
        } else {
            assert(channel.pending =~= channel.pending + before.pending);
            assert(before.pending.len() == 0);
        }
        if requests >= n {
            assert(channel.delivered(ops) + channel.run(ops).pending =~= channel.pending);
            assert(channel.delivered(ops).len() + channel.run(ops).pending.len() == n);
            if requests == n {
                assert(channel.pending.take(n as int) =~= channel.pending);
            }
        }
    }
}

} // verus!
