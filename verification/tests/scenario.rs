use std::cell::Cell;
use std::rc::Rc;
use my_http_server::pool::ThreadPool;
use my_http_server::worker::Exit;
use my_http_server::worker::Worker;
use my_http_server::worker::WorkerLoop;

type Job = Box<dyn FnOnce()>;

struct Thread {
    id: usize,
}

fn running(size: usize) -> ThreadPool<Job, Thread> {
    let mut pool = ThreadPool::build(size).unwrap();
    while let Some(id) = pool.next_worker_id() {
        let spawned: Result<Thread, ()> = Ok(Thread { id });
        assert!(pool.attach(Worker::build(id, spawned).unwrap()).is_ok());
    }
    pool
}

fn increment(counter: &Rc<Cell<usize>>) -> Job {
    let counter = Rc::clone(counter);
    Box::new(move || counter.set(counter.get() + 1))
}

/// Lets the workers take their turns, one poll each, until every loop is
/// over, and runs each task in the turn after the one in which it was
/// taken.
fn drive(pool: &mut ThreadPool<Job, Thread>, workers: &mut Vec<WorkerLoop>) -> usize {
    let mut in_hand: Vec<Option<Job>> = Vec::new();
    for _ in 0..workers.len() {
        in_hand.push(None);
    }
    let mut most_at_once = 0;
    loop {
        let mut over = true;
        for (worker, hand) in workers.iter_mut().zip(in_hand.iter_mut()) {
            if let Some(job) = hand.take() {
                job();
                worker.complete();
            }
            *hand = pool.dequeue(worker);
            if !worker.is_shutting_down() {
                over = false;
            }
        }
        let at_once = in_hand.iter().filter(|hand| hand.is_some()).count();
        if at_once > most_at_once {
            most_at_once = at_once;
        }
        if over {
            return most_at_once;
        }
    }
}

#[test]
fn ten_increments_on_four_workers() {
    let mut pool = running(4);
    assert!(pool.is_running());
    assert_eq!(pool.live_workers(), 4);
    let counter = Rc::new(Cell::new(0));
    for _ in 0..10 {
        assert!(pool.execute(increment(&counter)).is_ok());
    }
    assert_eq!(pool.pending_tasks(), 10);
    pool.shutdown();
    let mut workers: Vec<WorkerLoop> = (0..4).map(WorkerLoop::new).collect();
    let most_at_once = drive(&mut pool, &mut workers);
    assert_eq!(most_at_once, 4);
    let mut joined = Vec::new();
    while let Some((id, thread)) = pool.next_join() {
        assert_eq!(thread.id, id);
        assert!(workers[id].is_shutting_down());
        assert!(pool.joined(id, Exit::Finished));
        joined.push(id);
    }
    assert_eq!(counter.get(), 10);
    assert_eq!(joined, vec![0, 1, 2, 3]);
    assert_eq!(pool.panicked_workers(), 0);
    assert_eq!(pool.live_workers(), 0);
    assert_eq!(pool.pending_tasks(), 0);
    assert!(pool.is_terminated());
}

#[test]
fn every_task_runs_once_whoever_takes_it() {
    let mut pool = running(3);
    let ran: Rc<Cell<u64>> = Rc::new(Cell::new(0));
    let mut workers: Vec<WorkerLoop> = (0..3).map(WorkerLoop::new).collect();
    let mut turn = 0;
    for task in 0..40u32 {
        let seen = Rc::clone(&ran);
        let job: Job = Box::new(move || {
            assert_eq!(seen.get() & (1 << task), 0);
            seen.set(seen.get() | (1 << task));
        });
        assert!(pool.execute(job).is_ok());
        if task % 3 == 0 {
            let worker = &mut workers[turn % 3];
            turn += 2;
            if let Some(job) = pool.dequeue(worker) {
                job();
                worker.complete();
            }
        }
    }
    pool.shutdown();
    drive(&mut pool, &mut workers);
    assert_eq!(ran.get(), (1 << 40) - 1);
    assert_eq!(pool.pending_tasks(), 0);
}

#[test]
fn the_teardown_waits_for_the_task_in_hand() {
    let mut pool = running(1);
    let flag = Rc::new(Cell::new(0));
    assert!(pool.execute(increment(&flag)).is_ok());
    let mut worker = WorkerLoop::new(0);
    let job = pool.dequeue(&mut worker).unwrap();
    pool.shutdown();
    let (id, _thread) = pool.next_join().unwrap();
    assert_eq!(id, 0);
    assert!(pool.dequeue(&mut worker).is_none());
    assert!(!worker.is_shutting_down());
    assert_eq!(flag.get(), 0);
    job();
    worker.complete();
    assert!(pool.dequeue(&mut worker).is_none());
    assert!(worker.is_shutting_down());
    assert_eq!(flag.get(), 1);
    assert!(pool.joined(id, Exit::Finished));
    assert!(pool.is_terminated());
}

#[test]
fn a_panicked_worker_is_recorded_and_the_rest_is_joined() {
    let mut pool = running(2);
    let counter = Rc::new(Cell::new(0));
    assert!(pool.execute(increment(&counter)).is_ok());
    let mut lost = WorkerLoop::new(0);
    let dropped = pool.dequeue(&mut lost);
    assert!(dropped.is_some());
    drop(dropped);
    assert!(pool.execute(increment(&counter)).is_ok());
    pool.shutdown();
    let mut workers = vec![WorkerLoop::new(1)];
    drive(&mut pool, &mut workers);
    assert_eq!(pool.next_join().map(|(id, _)| id), Some(0));
    assert!(pool.joined(0, Exit::Panicked));
    assert_eq!(pool.next_join().map(|(id, _)| id), Some(1));
    assert!(pool.joined(1, Exit::Finished));
    assert!(pool.next_join().is_none());
    assert_eq!(counter.get(), 1);
    assert_eq!(pool.panicked_workers(), 1);
    assert!(pool.is_terminated());
}
