//! A worker, seen from its two sides: the loop that its thread runs, and the
//! record that the pool keeps of it.

use crate::channel::Channel;
use crate::channel::ChannelView;
use crate::channel::Dequeued;
use crate::error::spawn_failure_message;
use crate::error::PoolCreationError;
use vstd::prelude::*;

verus! {

/// Where a worker's loop stands.
#[derive(Clone, Copy, Debug, PartialEq, Eq, Structural)]
pub enum WorkerState {
    /// The worker has no task and asks the channel for one.
    WaitingForTask,
    /// The worker holds a task that it took from the channel and runs it.
    Executing,
    /// The worker has seen the channel closed and drained: its thread
    /// returns. No state follows this one.
    ShuttingDown,
}

/// What one dequeue by a worker leaves behind: the worker's state, the task
/// that it took into its hands, and the channel.
pub struct Polled<T> {
    pub state: WorkerState,
    pub task: Option<T>,
    pub channel: ChannelView<T>,
}

impl WorkerState {
    /// One dequeue from `channel` by a worker in this state. Only a waiting
    /// worker asks. It takes the oldest task, if one waits, and executes;
    /// it shuts down where the channel is closed and empty; it goes on
    /// waiting where the channel is open and empty. A worker in another
    /// state gets nothing and leaves the channel as it is.
    pub open spec fn poll<T>(self, channel: ChannelView<T>) -> Polled<T> {
        match self {
            WorkerState::WaitingForTask => match channel.head() {
                Dequeued::Task(task) => Polled {
                    state: WorkerState::Executing,
                    task: Some(task),
                    channel: channel.recv(),
                },
                Dequeued::Empty => Polled { state: WorkerState::WaitingForTask, task: None, channel },
                Dequeued::Closed => Polled { state: WorkerState::ShuttingDown, task: None, channel },
            },
            _ => Polled { state: self, task: None, channel },
        }
    }

    /// The state that follows when the task in hand has run to its end: an
    /// executing worker waits again, any other stays as it is.
    pub open spec fn complete(self) -> WorkerState {
        match self {
            WorkerState::Executing => WorkerState::WaitingForTask,
            _ => self,
        }
    }
}

/// The loop of one worker: its id and where it stands. The worker's thread
/// owns it and drives it: `poll` under the lock that guards the channel,
/// then, with the lock released, the task, then `complete`.
#[derive(Debug)]
pub struct WorkerLoop {
    id: usize,
    state: WorkerState,
}

impl WorkerLoop {
    /// The id of the worker whose loop this is.
    pub closed spec fn spec_id(&self) -> usize {
        self.id
    }

    /// Where the loop stands.
    pub closed spec fn spec_state(&self) -> WorkerState {
        self.state
    }

    /// The loop of worker `id` as its thread starts: waiting for a task.
    pub fn new(id: usize) -> (worker: WorkerLoop)
        ensures
            worker.id() == id,
            worker.state() == WorkerState::WaitingForTask,
    {
        WorkerLoop { id, state: WorkerState::WaitingForTask }
    }

    /// The id of the worker whose loop this is.
    #[verifier::when_used_as_spec(spec_id)]
    pub fn id(&self) -> (id: usize)
        ensures
            id == self.spec_id(),
    {
        self.id
    }

    /// Where the loop stands.
    #[verifier::when_used_as_spec(spec_state)]
    pub fn state(&self) -> (state: WorkerState)
        ensures
            state == self.spec_state(),
    {
        self.state
    }

    /// One dequeue by a waiting worker. It takes the oldest task out of
    /// `channel` and hands it to the caller, who runs it once this call has
    /// returned and the channel is free for the other workers again; or it
    /// sees the channel closed and drained, and the loop is over; or nothing
    /// is there yet, and the worker goes on waiting. A worker that is not
    /// waiting leaves the channel alone and gets nothing.
    pub fn poll<T>(&mut self, channel: &mut Channel<T>) -> (task: Option<T>)
        ensures
            final(self).id() == old(self).id(),
            (Polled { state: final(self).state(), task, channel: final(channel)@ }) == old(
                self,
            ).state().poll(old(channel)@),
    {
        match self.state {
            WorkerState::WaitingForTask => match channel.try_recv() {
                Dequeued::Task(task) => {
                    self.state = WorkerState::Executing;
                    Some(task)
                },
                Dequeued::Empty => None,
                Dequeued::Closed => {
                    self.state = WorkerState::ShuttingDown;
                    None
                },
            },
            _ => None,
        }
    }

    /// The task in hand has run to its end: an executing worker waits for
    /// the next one. In any other state nothing changes.
    pub fn complete(&mut self)
        ensures
            final(self).id() == old(self).id(),
            final(self).state() == old(self).state().complete(),
    {
        match self.state {
            WorkerState::Executing => {
                self.state = WorkerState::WaitingForTask;
            },
            _ => {},
        }
    }

    /// Whether the loop is over and the worker's thread returns.
    pub fn is_shutting_down(&self) -> (b: bool)
        ensures
            b == (self.state() == WorkerState::ShuttingDown),
    {
        match self.state {
            WorkerState::ShuttingDown => true,
            _ => false,
        }
    }
}

/// How a worker's thread ended, as its join told.
#[derive(Clone, Copy, Debug, PartialEq, Eq, Structural)]
pub enum Exit {
    /// The thread returned from its loop.
    Finished,
    /// A task panicked and took the thread with it.
    Panicked,
}

/// What the pool knows of one worker.
pub struct WorkerView<H> {
    /// The worker's id, fixed for its lifetime.
    pub id: nat,
    /// The handle of the worker's thread, until it is taken to be joined.
    pub thread: Option<H>,
    /// How the thread ended, once its join has returned.
    pub exit: Option<Exit>,
}

impl<H> WorkerView<H> {
    /// The worker `id` whose thread has just been spawned, with its handle.
    pub open spec fn fresh(id: nat, thread: H) -> Self {
        WorkerView { id, thread: Some(thread), exit: None }
    }

    /// Whether the worker's thread has not been taken to be joined yet.
    pub open spec fn is_live(self) -> bool {
        self.thread.is_some()
    }

    /// Whether the worker's thread has been joined.
    pub open spec fn is_joined(self) -> bool {
        self.exit.is_some()
    }

    /// The worker once its handle has been taken to be joined.
    pub open spec fn taken(self) -> Self {
        WorkerView { id: self.id, thread: None, exit: self.exit }
    }

    /// The worker once the join of its thread has told `exit`.
    pub open spec fn exited(self, exit: Exit) -> Self {
        WorkerView { id: self.id, thread: self.thread, exit: Some(exit) }
    }
}

/// The pool's record of one worker: its id and the handle of its thread,
/// which is taken out when the thread is joined.
#[derive(Debug)]
pub struct Worker<H> {
    id: usize,
    thread: Option<H>,
    exit: Option<Exit>,
}

impl<H> View for Worker<H> {
    type V = WorkerView<H>;

    closed spec fn view(&self) -> WorkerView<H> {
        WorkerView { id: self.id as nat, thread: self.thread, exit: self.exit }
    }
}

impl<H> Worker<H> {
    /// The record of worker `id` from the outcome of spawning its thread:
    /// with the handle where the thread runs, and the error that names `id`
    /// where it could not be spawned.
    pub fn build<E>(id: usize, spawned: Result<H, E>) -> (r: Result<Worker<H>, PoolCreationError>)
        ensures
            match spawned {
                Ok(thread) => r matches Ok(worker) && worker@ == WorkerView::fresh(
                    id as nat,
                    thread,
                ),
                Err(_) => r matches Err(e) && e@ == spawn_failure_message(id as nat),
            },
    {
        match spawned {
            Ok(thread) => Ok(Worker { id, thread: Some(thread), exit: None }),
            Err(_) => Err(PoolCreationError::spawn_failed(id)),
        }
    }

    /// The worker's id.
    pub fn id(&self) -> (id: usize)
        ensures
            id == self@.id,
    {
        self.id
    }

    /// Whether the worker's thread has not been taken to be joined yet.
    pub fn is_live(&self) -> (b: bool)
        ensures
            b == self@.is_live(),
    {
        self.thread.is_some()
    }

    /// How the worker's thread ended, once its join has returned.
    pub fn exit(&self) -> (exit: Option<Exit>)
        ensures
            exit == self@.exit,
    {
        self.exit
    }

    /// Takes the handle of the worker's thread out, to be joined. A second
    /// call finds nothing.
    pub(crate) fn take_thread(&mut self) -> (thread: Option<H>)
        ensures
            thread == old(self)@.thread,
            final(self)@ == old(self)@.taken(),
    {
        self.thread.take()
    }

    /// Records how the worker's thread ended.
    pub(crate) fn set_exit(&mut self, exit: Exit)
        ensures
            final(self)@ == old(self)@.exited(exit),
    {
        self.exit = Some(exit);
    }
}

/// A loop ends in one way only, and for good. A worker shuts down from
/// waiting, on finding the channel closed and empty: never while it
/// executes, so never with a task in its hands. A worker that has shut down
/// stays so, whatever the channel holds. And a worker gets a task only as
/// it goes from waiting to executing, and then the oldest one.
pub proof fn lemma_loop_ends_from_waiting<T>(state: WorkerState, channel: ChannelView<T>)
    ensures
        state.poll(channel).state == WorkerState::ShuttingDown <==> state
            == WorkerState::ShuttingDown || (state == WorkerState::WaitingForTask
            && channel.closed && channel.pending.len() == 0),
        state.complete() == WorkerState::ShuttingDown <==> state == WorkerState::ShuttingDown,
        state.poll(channel).task.is_some() <==> state == WorkerState::WaitingForTask
            && state.poll(channel).state == WorkerState::Executing,
        state.poll(channel).task.is_some() ==> state.poll(channel).task == Some(
            channel.pending[0],
        ),
{
}

} // verus!
