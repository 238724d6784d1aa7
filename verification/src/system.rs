//! The pool at work: the channel, the loops of the workers and the tasks
//! between them, as every run moves them.
//!
//! The operations of the channel and of a worker's loop are made under one
//! lock, so a run is a sequence of events, in the order in which the lock
//! was held. This module says what holds after every such sequence.

use crate::channel::ChannelView;
use crate::worker::WorkerState;
use vstd::multiset::Multiset;
use vstd::prelude::*;

verus! {

/// A worker's loop and the task that it holds.
pub struct Hand<T> {
    pub state: WorkerState,
    pub task: Option<T>,
}

/// The channel, the workers' loops, and what has become of the tasks so far.
pub struct SystemView<T> {
    /// The channel that carries the tasks.
    pub channel: ChannelView<T>,
    /// The loops of the workers, by id.
    pub workers: Seq<Hand<T>>,
    /// The tasks that have been taken in.
    pub accepted: Multiset<T>,
    /// The tasks that have run to their end.
    pub completed: Multiset<T>,
}

/// What can happen in a run.
pub enum Event<T> {
    /// A task is submitted.
    Submit(T),
    /// The worker of this id asks the channel for a task.
    Poll(nat),
    /// The task in the hands of the worker of this id has run to its end.
    Complete(nat),
    /// The pool is shut down.
    Shutdown,
}

/// The tasks that the first `n` of `workers` hold.
pub open spec fn held<T>(workers: Seq<Hand<T>>, n: nat) -> Multiset<T>
    decreases n,
{
    if n == 0 {
        Multiset::empty()
    } else {
        let rest = held(workers, (n - 1) as nat);
        match workers[n - 1].task {
            Some(task) => rest.insert(task),
            None => rest,
        }
    }
}

impl<T> SystemView<T> {
    /// The system as it starts: the channel open and empty, `workers` loops
    /// that wait, no task seen yet.
    pub open spec fn start(workers: nat) -> Self {
        SystemView {
            channel: ChannelView::new(),
            workers: Seq::new(workers, |i: int| Hand { state: WorkerState::WaitingForTask, task: None }),
            accepted: Multiset::empty(),
            completed: Multiset::empty(),
        }
    }

    /// The system after `event`. A submission is `ChannelView::send`, a
    /// poll by a waiting worker is `WorkerState::poll`, the end of a task in
    /// the hands of an executing worker is `WorkerState::complete`, and a
    /// shutdown is `ChannelView::close`: the functions by which the
    /// operations of the channel, of a worker's loop and of the pool say
    /// what they do. An event of a worker that is not there, or that is not
    /// in the state for it, changes nothing.
    pub open spec fn step(self, event: Event<T>) -> Self {
        match event {
            Event::Submit(task) => SystemView {
                channel: self.channel.send(task),
                accepted: if self.channel.closed {
                    self.accepted
                } else {
                    self.accepted.insert(task)
                },
                ..self
            },
            Event::Poll(id) => if id < self.workers.len() && self.workers[id as int].state
                == WorkerState::WaitingForTask {
                let polled = self.workers[id as int].state.poll(self.channel);
                SystemView {
                    channel: polled.channel,
                    workers: self.workers.update(
                        id as int,
                        Hand { state: polled.state, task: polled.task },
                    ),
                    ..self
                }
            } else {
                self
            },
            Event::Complete(id) => if id < self.workers.len() && self.workers[id as int].state
                == WorkerState::Executing {
                let hand = self.workers[id as int];
                SystemView {
                    workers: self.workers.update(
                        id as int,
                        Hand { state: hand.state.complete(), task: None },
                    ),
                    completed: match hand.task {
                        Some(task) => self.completed.insert(task),
                        None => self.completed,
                    },
                    ..self
                }
            } else {
                self
            },
            Event::Shutdown => SystemView { channel: self.channel.close(), ..self },
        }
    }

    /// The system after `events`, in their order.
    pub open spec fn run(self, events: Seq<Event<T>>) -> Self
        decreases events.len(),
    {
        if events.len() == 0 {
            self
        } else {
            self.run(events.drop_last()).step(events.last())
        }
    }

    /// Whether every worker's loop is over.
    pub open spec fn all_shut_down(self) -> bool {
        forall|i: int|
            0 <= i < self.workers.len() ==> (#[trigger] self.workers[i]).state
                == WorkerState::ShuttingDown
    }

    /// What every run keeps: a worker holds a task just while it executes;
    /// each task taken in either has run to its end, or is in a worker's
    /// hands, or waits in the channel, and is in one of these places only;
    /// and a worker's loop is over only once the channel is closed and
    /// empty.
    pub open spec fn consistent(self) -> bool {
        &&& forall|i: int|
            0 <= i < self.workers.len() ==> ((#[trigger] self.workers[i]).task.is_some()
                <==> self.workers[i].state == WorkerState::Executing)
        &&& self.accepted == self.completed.add(held(self.workers, self.workers.len())).add(
            self.channel.pending.to_multiset(),
        )
        &&& forall|i: int|
            0 <= i < self.workers.len() && (#[trigger] self.workers[i]).state
                == WorkerState::ShuttingDown ==> self.channel.closed && self.channel.pending.len()
                == 0
    }
}

/// The tasks held after one worker's hand has changed: what it held is gone
/// and what it holds now is there, and the other hands are as they were.
proof fn lemma_held_update<T>(workers: Seq<Hand<T>>, n: nat, id: int, hand: Hand<T>)
    requires
        0 <= id < workers.len(),
        n <= workers.len(),
    ensures
        id >= n ==> held(workers.update(id, hand), n) == held(workers, n),
        id < n ==> match (workers[id].task, hand.task) {
            (Some(old_task), Some(new_task)) => held(workers.update(id, hand), n).insert(old_task)
                == held(workers, n).insert(new_task),
            (Some(old_task), None) => held(workers.update(id, hand), n).insert(old_task) == held(
                workers,
                n,
            ),
            (None, Some(new_task)) => held(workers.update(id, hand), n) == held(workers, n).insert(
                new_task,
            ),
            (None, None) => held(workers.update(id, hand), n) == held(workers, n),
        },
    decreases n,
{
    broadcast use vstd::multiset::group_multiset_axioms;

    if n > 0 {
        let updated = workers.update(id, hand);
        lemma_held_update(workers, (n - 1) as nat, id, hand);
        let before = held(workers, (n - 1) as nat);
        let after = held(updated, (n - 1) as nat);
        if id == n - 1 {
            assert(after == before);
        } else if id < n - 1 {
            assert(updated[n - 1] == workers[n - 1]);
            match (workers[id].task, hand.task, workers[n - 1].task) {
                (Some(old_task), Some(new_task), Some(last)) => {
                    assert(after.insert(last).insert(old_task) =~= after.insert(old_task).insert(
                        last,
                    ));
                    assert(before.insert(last).insert(new_task) =~= before.insert(new_task).insert(
                        last,
                    ));
                },
                (Some(old_task), None, Some(last)) => {
                    assert(after.insert(last).insert(old_task) =~= after.insert(old_task).insert(
                        last,
                    ));
                },
                (None, Some(new_task), Some(last)) => {
                    assert(before.insert(last).insert(new_task) =~= before.insert(new_task).insert(
                        last,
                    ));
                },
                _ => {},
            }
        } else {
            assert(updated[n - 1] == workers[n - 1]);
        }
    }
}

/// Workers that hold nothing hold no task.
proof fn lemma_held_nothing<T>(workers: Seq<Hand<T>>, n: nat)
    requires
        n <= workers.len(),
        forall|i: int| 0 <= i < n ==> (#[trigger] workers[i]).task.is_none(),
    ensures
        held(workers, n) == Multiset::<T>::empty(),
    decreases n,
{
    if n > 0 {
        lemma_held_nothing(workers, (n - 1) as nat);
    }
}

/// One event keeps a consistent system consistent.
pub proof fn lemma_step_consistent<T>(system: SystemView<T>, event: Event<T>)
    requires
        system.consistent(),
    ensures
        system.step(event).consistent(),
        system.step(event).workers.len() == system.workers.len(),
{
    broadcast use vstd::multiset::group_multiset_axioms;
    broadcast use vstd::seq_lib::group_to_multiset_ensures;

    let next = system.step(event);
    let n = system.workers.len();
    let pending = system.channel.pending;
    match event {
        Event::Submit(task) => {
            if !system.channel.closed {
                assert(next.accepted =~= next.completed.add(held(next.workers, n)).add(
                    next.channel.pending.to_multiset(),
                ));
            }
        },
        Event::Poll(id) => {
            if id < n && system.workers[id as int].state == WorkerState::WaitingForTask {
                let polled = system.workers[id as int].state.poll(system.channel);
                let hand = Hand { state: polled.state, task: polled.task };
                lemma_held_update(system.workers, n, id as int, hand);
                if pending.len() > 0 {
                    assert(pending.drop_first() =~= pending.remove(0));
                    assert(pending.to_multiset().count(pending[0]) > 0) by {
                        assert(pending.contains(pending[0]));
                    }
                    assert(next.accepted =~= next.completed.add(held(next.workers, n)).add(
                        next.channel.pending.to_multiset(),
                    ));
                }
            }
        },
        Event::Complete(id) => {
            if id < n && system.workers[id as int].state == WorkerState::Executing {
                let hand = Hand {
                    state: system.workers[id as int].state.complete(),
                    task: None::<T>,
                };
                lemma_held_update(system.workers, n, id as int, hand);
                assert(next.accepted =~= next.completed.add(held(next.workers, n)).add(
                    next.channel.pending.to_multiset(),
                ));
            }
        },
        Event::Shutdown => {},
    }
}

/// Every run from the start is consistent, and keeps the number of workers.
pub proof fn lemma_run_consistent<T>(workers: nat, events: Seq<Event<T>>)
    ensures
        SystemView::<T>::start(workers).run(events).consistent(),
        SystemView::<T>::start(workers).run(events).workers.len() == workers,
    decreases events.len(),
{
    broadcast use vstd::multiset::group_multiset_axioms;
    broadcast use vstd::seq_lib::group_to_multiset_ensures;

    let start = SystemView::<T>::start(workers);
    if events.len() == 0 {
        lemma_held_nothing(start.workers, workers);
        assert(start.channel.pending.to_multiset() =~= Multiset::<T>::empty());
        assert(start.accepted =~= start.completed.add(held(start.workers, workers)).add(
            start.channel.pending.to_multiset(),
        ));
    } else {
        lemma_run_consistent::<T>(workers, events.drop_last());
        lemma_step_consistent(start.run(events.drop_last()), events.last());
    }
}

/// Every task runs exactly once. In every run of a pool of at least one
/// worker, whoever submits and in whatever order the workers take their
/// turns: no task has run to its end more often than it was taken in; and
/// once the loop of every worker is over, each task that was taken in has
/// run to its end, as often as it was taken in, and none is left in the
/// channel or in a worker's hands.
pub proof fn lemma_every_task_runs_once<T>(workers: nat, events: Seq<Event<T>>)
    requires
        workers >= 1,
    ensures
        ({
            let system = SystemView::<T>::start(workers).run(events);
            &&& system.completed.subset_of(system.accepted)
            &&& system.all_shut_down() ==> {
                &&& system.completed == system.accepted
                &&& system.channel.pending.len() == 0
                &&& held(system.workers, workers) == Multiset::<T>::empty()
            }
        }),
{
    broadcast use vstd::multiset::group_multiset_axioms;
    broadcast use vstd::seq_lib::group_to_multiset_ensures;

    let system = SystemView::<T>::start(workers).run(events);
    lemma_run_consistent::<T>(workers, events);
    if system.all_shut_down() {
        assert(system.workers[0].state == WorkerState::ShuttingDown);
        lemma_held_nothing(system.workers, workers);
        assert(system.channel.pending.to_multiset() =~= Multiset::<T>::empty());
        assert(system.completed =~= system.accepted);
    }
}

/// Workers run their tasks side by side. A waiting worker that asks while a
/// task waits gets that task and executes it, whatever the other workers
/// do: each of them stays as it is, also one that executes at that moment
/// and goes on holding its own task.
pub proof fn lemma_workers_run_side_by_side<T>(system: SystemView<T>, id: nat)
    requires
        id < system.workers.len(),
        system.workers[id as int].state == WorkerState::WaitingForTask,
        system.channel.pending.len() > 0,
    ensures
        ({
            let next = system.step(Event::Poll(id));
            &&& next.workers.len() == system.workers.len()
            &&& next.workers[id as int] == Hand {
                state: WorkerState::Executing,
                task: Some(system.channel.pending[0]),
            }
            &&& forall|other: int|
                0 <= other < system.workers.len() && other != id ==> #[trigger] next.workers[other]
                    == system.workers[other]
            &&& next.channel.pending == system.channel.pending.drop_first()
        }),
{
}

} // verus!
