//! The pool: a fixed number of workers and the channel that feeds them,
//! from construction to teardown.
//!
//! A pool is a plain value that decides and records; it starts no thread and
//! never waits. Whoever runs the threads asks it what to do next, does it,
//! and tells it what came of it:
//!
//! - to assemble the pool: `next_worker_id`, spawn that worker's thread,
//!   `Worker::build` on the outcome, `attach`;
//! - to tear it down: `shutdown`, then `next_join`, join that thread,
//!   `joined`, until `next_join` has no more.
//!
//! Shared between threads, the pool sits behind a lock, and each call below
//! is made under it. A thread is joined, and a task is run, with the lock
//! released.

use crate::channel::Channel;
use crate::channel::ChannelView;
use crate::error::zero_size_message;
use crate::error::PoolCreationError;
use crate::worker::Exit;
use crate::worker::Polled;
use crate::worker::Worker;
use crate::worker::WorkerLoop;
use crate::worker::WorkerState;
use crate::worker::WorkerView;
use vstd::prelude::*;

verus! {

/// What a pool is.
pub struct PoolView<T, H> {
    /// The number of workers that the pool was asked for.
    pub size: nat,
    /// The workers whose threads have been spawned, by id.
    pub workers: Seq<WorkerView<H>>,
    /// The channel that carries the tasks to the workers.
    pub channel: ChannelView<T>,
    /// The number of workers whose handles have been taken to be joined.
    pub joining: nat,
}

impl<T, H> PoolView<T, H> {
    /// What holds of every pool: it has room for at least one worker and
    /// never more workers than that; worker `i` stands at place `i`;
    /// handles are taken in the order of the ids, and only once the channel
    /// is closed; a thread is joined only once its handle is taken.
    pub open spec fn valid(self) -> bool {
        &&& 1 <= self.size
        &&& self.workers.len() <= self.size
        &&& self.joining <= self.workers.len()
        &&& self.joining > 0 ==> self.channel.closed
        &&& forall|i: int|
            0 <= i < self.workers.len() ==> {
                &&& (#[trigger] self.workers[i]).id == i
                &&& self.workers[i].thread.is_none() <==> i < self.joining
                &&& self.workers[i].exit.is_some() ==> i < self.joining
            }
    }

    /// The pool as it is made: room for `size` workers, none spawned yet,
    /// the channel open and empty.
    pub open spec fn new(size: nat) -> Self {
        PoolView { size, workers: Seq::empty(), channel: ChannelView::new(), joining: 0 }
    }

    /// Whether workers are still missing and may still be added.
    pub open spec fn is_assembling(self) -> bool {
        !self.channel.closed && self.workers.len() < self.size
    }

    /// Whether the pool is complete and takes tasks.
    pub open spec fn is_running(self) -> bool {
        !self.channel.closed && self.workers.len() == self.size
    }

    /// Whether the pool is closed and every thread that was spawned has
    /// been joined.
    pub open spec fn is_terminated(self) -> bool {
        &&& self.channel.closed
        &&& forall|i: int| 0 <= i < self.workers.len() ==> (#[trigger] self.workers[i]).is_joined()
    }

    /// The number of workers whose threads can still be joined.
    pub open spec fn live_workers(self) -> nat {
        (self.workers.len() - self.joining) as nat
    }

    /// The id of the worker to spawn next, while the pool is assembling.
    pub open spec fn next_worker_id(self) -> Option<nat> {
        if self.is_assembling() {
            Some(self.workers.len())
        } else {
            None
        }
    }

    /// Whether the pool takes `worker` in: it is the one to spawn next, its
    /// thread runs and has not been joined.
    pub open spec fn admits(self, worker: WorkerView<H>) -> bool {
        &&& self.next_worker_id() == Some(worker.id)
        &&& worker.thread.is_some()
        &&& worker.exit.is_none()
    }

    /// The pool after `worker` has been offered to it.
    pub open spec fn attach(self, worker: WorkerView<H>) -> Self {
        if self.admits(worker) {
            PoolView { workers: self.workers.push(worker), ..self }
        } else {
            self
        }
    }

    /// The pool after `task` has been submitted to it.
    pub open spec fn execute(self, task: T) -> Self {
        PoolView { channel: self.channel.send(task), ..self }
    }

    /// The pool after a worker in `state` has asked it for a task.
    pub open spec fn dequeue(self, state: WorkerState) -> Self {
        PoolView { channel: state.poll(self.channel).channel, ..self }
    }

    /// The pool after the shutdown has been asked for.
    pub open spec fn shutdown(self) -> Self {
        PoolView { channel: self.channel.close(), ..self }
    }

    /// Whether a thread is to be joined now: the channel is closed and a
    /// handle is left.
    pub open spec fn has_join(self) -> bool {
        self.channel.closed && self.joining < self.workers.len()
    }

    /// The pool after the next handle has been asked for.
    pub open spec fn next_join(self) -> Self {
        if self.has_join() {
            PoolView {
                workers: self.workers.update(
                    self.joining as int,
                    self.workers[self.joining as int].taken(),
                ),
                joining: self.joining + 1,
                ..self
            }
        } else {
            self
        }
    }

    /// Whether the pool waits to hear how the thread of worker `id` ended:
    /// its handle has been taken and nothing has been recorded yet.
    pub open spec fn awaits_exit(self, id: nat) -> bool {
        id < self.joining && self.workers[id as int].exit.is_none()
    }

    /// The pool after it has been told that the thread of worker `id`
    /// ended with `exit`.
    pub open spec fn joined(self, id: nat, exit: Exit) -> Self {
        if self.awaits_exit(id) {
            PoolView {
                workers: self.workers.update(id as int, self.workers[id as int].exited(exit)),
                ..self
            }
        } else {
            self
        }
    }
}

/// The number of the first `n` of `workers` whose threads ended in a panic.
pub open spec fn panicked_among<H>(workers: Seq<WorkerView<H>>, n: nat) -> nat
    decreases n,
{
    if n == 0 {
        0
    } else {
        let rest = panicked_among(workers, (n - 1) as nat);
        if workers[n - 1].exit == Some(Exit::Panicked) {
            rest + 1
        } else {
            rest
        }
    }
}

/// A fixed-size pool of workers with the channel that feeds them. `T` is
/// the type of a task, `H` that of the handle by which a worker's thread is
/// joined; the pool looks into neither.
#[derive(Debug)]
pub struct ThreadPool<T, H> {
    size: usize,
    workers: Vec<Worker<H>>,
    channel: Channel<T>,
    joining: usize,
}

impl<T, H> View for ThreadPool<T, H> {
    type V = PoolView<T, H>;

    closed spec fn view(&self) -> PoolView<T, H> {
        PoolView {
            size: self.size as nat,
            workers: Seq::new(self.workers@.len(), |i: int| self.workers@[i]@),
            channel: self.channel@,
            joining: self.joining as nat,
        }
    }
}

impl<T, H> ThreadPool<T, H> {
    /// Whether the pool is one that `build` and the operations below can
    /// have made.
    pub open spec fn wf(&self) -> bool {
        self@.valid()
    }

    /// A pool for `size` workers, which are still to be spawned and
    /// attached. A pool of no workers is refused, and nothing is made.
    pub fn build(size: usize) -> (r: Result<ThreadPool<T, H>, PoolCreationError>)
        ensures
            match r {
                Ok(pool) => size > 0 && pool.wf() && pool@ == PoolView::<T, H>::new(size as nat),
                Err(e) => size == 0 && e@ == zero_size_message(),
            },
    {
        if size > 0 {
            let pool = ThreadPool { size, workers: Vec::new(), channel: Channel::new(), joining: 0 };
            assert(pool@.workers =~= Seq::empty());
            Ok(pool)
        } else {
            Err(PoolCreationError::zero_size())
        }
    }

    /// The number of workers that the pool was built for.
    pub fn size(&self) -> (n: usize)
        ensures
            n == self@.size,
    {
        self.size
    }

    /// The id of the worker whose thread is to be spawned next; `None` once
    /// the pool is complete or shut down.
    pub fn next_worker_id(&self) -> (id: Option<usize>)
        ensures
            match id {
                Some(id) => self@.next_worker_id() == Some(id as nat),
                None => self@.next_worker_id().is_none(),
            },
    {
        if !self.channel.is_closed() && self.workers.len() < self.size {
            Some(self.workers.len())
        } else {
            None
        }
    }

    /// Takes in the worker whose thread has just been spawned. A worker
    /// that is not the one to spawn next, or whose handle is gone, is
    /// handed back, and the pool stays as it is.
    pub fn attach(&mut self, worker: Worker<H>) -> (r: Result<(), Worker<H>>)
        requires
            old(self).wf(),
        ensures
            final(self).wf(),
            final(self)@ == old(self)@.attach(worker@),
            r == if old(self)@.admits(worker@) {
                Ok::<(), Worker<H>>(())
            } else {
                Err::<(), Worker<H>>(worker)
            },
    {
        if !self.channel.is_closed() && self.workers.len() < self.size && worker.id()
            == self.workers.len() && worker.is_live() && worker.exit().is_none() {
            self.workers.push(worker);
            assert(self@.workers =~= old(self)@.workers.push(worker@));
            Ok(())
        } else {
            Err(worker)
        }
    }

    /// Submits `task`: it goes into the channel behind all that wait. Once
    /// the pool is shut down the task is refused and handed back, and
    /// nothing changes.
    pub fn execute(&mut self, task: T) -> (r: Result<(), T>)
        requires
            old(self).wf(),
        ensures
            final(self).wf(),
            final(self)@ == old(self)@.execute(task),
            r == if old(self)@.channel.closed {
                Err::<(), T>(task)
            } else {
                Ok::<(), T>(())
            },
    {
        self.channel.send(task)
    }

    /// One dequeue by `worker`: see `WorkerLoop::poll`, which this is on
    /// the pool's channel.
    pub fn dequeue(&mut self, worker: &mut WorkerLoop) -> (task: Option<T>)
        requires
            old(self).wf(),
        ensures
            final(self).wf(),
            final(self)@ == old(self)@.dequeue(old(worker).state()),
            final(worker).id() == old(worker).id(),
            (Polled { state: final(worker).state(), task, channel: final(self)@.channel }) == old(
                worker,
            ).state().poll(old(self)@.channel),
    {
        worker.poll(&mut self.channel)
    }

    /// Closes the channel: no task is taken in any more, what waits is
    /// still handed out, and each worker that then finds nothing ends its
    /// loop. On a pool that is shut down this changes nothing.
    pub fn shutdown(&mut self)
        requires
            old(self).wf(),
        ensures
            final(self).wf(),
            final(self)@ == old(self)@.shutdown(),
    {
        self.channel.close();
    }

    /// Takes out the handle of the next thread to join, with its worker's
    /// id: the lowest id whose handle is still there. There is none before
    /// the shutdown, and none once every handle has been taken.
    pub fn next_join(&mut self) -> (r: Option<(usize, H)>)
        requires
            old(self).wf(),
        ensures
            final(self).wf(),
            final(self)@ == old(self)@.next_join(),
            match r {
                Some((id, thread)) => {
                    &&& old(self)@.has_join()
                    &&& id == old(self)@.joining
                    &&& old(self)@.workers[id as int].thread == Some(thread)
                },
                None => !old(self)@.has_join(),
            },
    {
        if self.channel.is_closed() && self.joining < self.workers.len() {
            let id = self.joining;
            let thread = self.workers[id].take_thread();
            self.joining = id + 1;
            assert(self@.workers =~= old(self)@.workers.update(
                id as int,
                old(self)@.workers[id as int].taken(),
            ));
            match thread {
                Some(thread) => Some((id, thread)),
                None => None,
            }
        } else {
            None
        }
    }

    /// Records that the thread of worker `id` has been joined, and how it
    /// ended. It says whether the pool waited to hear this: of a worker
    /// whose handle it has not handed out, or of whom it has heard already,
    /// it records nothing.
    pub fn joined(&mut self, id: usize, exit: Exit) -> (recorded: bool)
        requires
            old(self).wf(),
        ensures
            final(self).wf(),
            final(self)@ == old(self)@.joined(id as nat, exit),
            recorded == old(self)@.awaits_exit(id as nat),
    {
        if id < self.joining && self.workers[id].exit().is_none() {
            self.workers[id].set_exit(exit);
            assert(self@.workers =~= old(self)@.workers.update(
                id as int,
                old(self)@.workers[id as int].exited(exit),
            ));
            true
        } else {
            false
        }
    }

    /// The number of workers whose threads have been spawned and attached.
    pub fn worker_count(&self) -> (n: usize)
        ensures
            n == self@.workers.len(),
    {
        self.workers.len()
    }

    /// The number of workers whose threads can still be joined.
    pub fn live_workers(&self) -> (n: usize)
        requires
            self.wf(),
        ensures
            n == self@.live_workers(),
    {
        self.workers.len() - self.joining
    }

    /// The number of workers whose threads were found, at their join, to
    /// have ended in a panic.
    pub fn panicked_workers(&self) -> (n: usize)
        ensures
            n == panicked_among(self@.workers, self@.workers.len()),
    {
        let mut n: usize = 0;
        let mut i: usize = 0;
        while i < self.workers.len()
            invariant
                i <= self.workers@.len(),
                n <= i,
                n == panicked_among(self@.workers, i as nat),
            decreases self.workers@.len() - i,
        {
            match self.workers[i].exit() {
                Some(Exit::Panicked) => {
                    n = n + 1;
                },
                _ => {},
            }
            i = i + 1;
        }
        n
    }

    /// The number of tasks that wait in the channel.
    pub fn pending_tasks(&self) -> (n: usize)
        ensures
            n == self@.channel.pending.len(),
    {
        self.channel.len()
    }

    /// Whether the pool has been shut down.
    pub fn is_shut_down(&self) -> (b: bool)
        ensures
            b == self@.channel.closed,
    {
        self.channel.is_closed()
    }

    /// Whether the pool is complete and takes tasks.
    pub fn is_running(&self) -> (b: bool)
        ensures
            b == self@.is_running(),
    {
        !self.channel.is_closed() && self.workers.len() == self.size
    }

    /// Whether the pool is shut down and every thread that was spawned has
    /// been joined.
    pub fn is_terminated(&self) -> (b: bool)
        ensures
            b == self@.is_terminated(),
    {
        if !self.channel.is_closed() {
            return false;
        }
        let mut i: usize = 0;
        while i < self.workers.len()
            invariant
                i <= self.workers@.len(),
                forall|j: int| 0 <= j < i ==> (#[trigger] self@.workers[j]).is_joined(),
            decreases self.workers@.len() - i,
        {
            if self.workers[i].exit().is_none() {
                assert(!self@.workers[i as int].is_joined());
                return false;
            }
            i = i + 1;
        }
        true
    }
}

/// One operation on a pool, as a history records it.
pub enum PoolOp<T, H> {
    /// A worker is offered to the pool.
    Attach(WorkerView<H>),
    /// A task is submitted.
    Execute(T),
    /// A worker whose loop is in this state asks for a task.
    Dequeue(WorkerState),
    /// The shutdown is asked for.
    Shutdown,
    /// The next handle to join is asked for.
    NextJoin,
    /// The pool is told how the thread of the worker of this id ended.
    Joined(nat, Exit),
}

impl<T, H> PoolView<T, H> {
    /// The pool after `op`.
    pub open spec fn step(self, op: PoolOp<T, H>) -> Self {
        match op {
            PoolOp::Attach(worker) => self.attach(worker),
            PoolOp::Execute(task) => self.execute(task),
            PoolOp::Dequeue(state) => self.dequeue(state),
            PoolOp::Shutdown => self.shutdown(),
            PoolOp::NextJoin => self.next_join(),
            PoolOp::Joined(id, exit) => self.joined(id, exit),
        }
    }

    /// The pool after the operations `ops`, in their order.
    pub open spec fn run(self, ops: Seq<PoolOp<T, H>>) -> Self
        decreases ops.len(),
    {
        if ops.len() == 0 {
            self
        } else {
            self.run(ops.drop_last()).step(ops.last())
        }
    }

    /// The pool for `size` workers after the threads of its first workers
    /// have been spawned, one after the other, with the handles `threads`,
    /// and each worker has been attached.
    pub open spec fn assembled(size: nat, threads: Seq<H>) -> Self
        decreases threads.len(),
    {
        if threads.len() == 0 {
            Self::new(size)
        } else {
            Self::assembled(size, threads.drop_last()).attach(
                WorkerView::fresh((threads.len() - 1) as nat, threads.last()),
            )
        }
    }

    /// The pool after its teardown has gone as far as `joins` handles: the
    /// shutdown, then that many requests for the next handle.
    pub open spec fn torn_down(self, joins: nat) -> Self
        decreases joins,
    {
        if joins == 0 {
            self.shutdown()
        } else {
            self.torn_down((joins - 1) as nat).next_join()
        }
    }
}

/// What no operation undoes. Whatever is done to a pool and in whatever
/// order, it stays a valid pool of the size it was built for; workers are
/// added, never removed, and handles are taken, never given back; and once
/// it is shut down it stays shut down and no task enters its channel.
pub proof fn lemma_run_keeps_pool<T, H>(pool: PoolView<T, H>, ops: Seq<PoolOp<T, H>>)
    requires
        pool.valid(),
    ensures
        pool.run(ops).valid(),
        pool.run(ops).size == pool.size,
        pool.run(ops).workers.len() >= pool.workers.len(),
        pool.run(ops).joining >= pool.joining,
        pool.channel.closed ==> {
            &&& pool.run(ops).channel.closed
            &&& pool.run(ops).channel.pending.len() <= pool.channel.pending.len()
            &&& pool.run(ops).workers.len() == pool.workers.len()
        },
    decreases ops.len(),
{
    if ops.len() > 0 {
        lemma_run_keeps_pool(pool, ops.drop_last());
    }
}

/// A pool is built with all its workers or not at all. For a size of at
/// least one, spawning the threads of the workers `0`, `1`, ... and
/// attaching each gives, after `size` of them, a running pool with exactly
/// `size` workers, worker `i` at place `i` with its own handle, all of them
/// live; before that the pool asks for the next id; after that it takes no
/// further worker.
pub proof fn lemma_assembled<T, H>(size: nat, threads: Seq<H>)
    requires
        1 <= size,
        threads.len() <= size,
    ensures
        ({
            let pool = PoolView::<T, H>::assembled(size, threads);
            &&& pool.valid()
            &&& pool.size == size
            &&& pool.workers.len() == threads.len()
            &&& pool.live_workers() == threads.len()
            &&& forall|i: int|
                0 <= i < threads.len() ==> #[trigger] pool.workers[i] == WorkerView::fresh(
                    i as nat,
                    threads[i],
                )
            &&& pool.channel == ChannelView::<T>::new()
            &&& threads.len() < size ==> pool.next_worker_id() == Some(threads.len())
            &&& threads.len() == size ==> pool.is_running() && pool.next_worker_id().is_none()
        }),
    decreases threads.len(),
{
    if threads.len() > 0 {
        lemma_assembled::<T, H>(size, threads.drop_last());
    }
}

/// A second shutdown changes nothing.
pub proof fn lemma_shutdown_twice<T, H>(pool: PoolView<T, H>)
    ensures
        pool.shutdown().shutdown() == pool.shutdown(),
{
}

/// The teardown joins every thread, in the order of the ids. After the
/// shutdown the handles that are left come out one by one, lowest id
/// first, each the handle of its worker; when as many have been asked for
/// as workers were live, none is left, in the pool or to ask for, and what
/// waited in the channel is still there for the workers to drain.
pub proof fn lemma_teardown_joins_all<T, H>(pool: PoolView<T, H>, joins: nat)
    requires
        pool.valid(),
        joins <= pool.live_workers(),
    ensures
        ({
            let after = pool.torn_down(joins);
            &&& after.valid()
            &&& after.channel == pool.channel.close()
            &&& after.joining == pool.joining + joins
            &&& after.workers.len() == pool.workers.len()
            &&& forall|i: int|
                0 <= i < pool.workers.len() ==> #[trigger] after.workers[i] == if i
                    < pool.joining + joins {
                    pool.workers[i].taken()
                } else {
                    pool.workers[i]
                }
            &&& joins < pool.live_workers() ==> after.has_join()
            &&& joins == pool.live_workers() ==> !after.has_join() && after.live_workers() == 0
        }),
    decreases joins,
{
    if joins > 0 {
        lemma_teardown_joins_all(pool, (joins - 1) as nat);
    }
}

} // verus!
