use my_http_server::pool::ThreadPool;
use my_http_server::worker::Exit;
use my_http_server::worker::Worker;
use my_http_server::worker::WorkerLoop;
use my_http_server::worker::WorkerState;

type Pool = ThreadPool<u32, &'static str>;

fn spawned(handle: &'static str) -> Result<&'static str, ()> {
    Ok(handle)
}

fn pool_of(handles: &[&'static str]) -> Pool {
    let mut pool = Pool::build(handles.len()).unwrap();
    for handle in handles {
        let id = pool.next_worker_id().unwrap();
        assert_eq!(pool.attach(Worker::build(id, spawned(handle)).unwrap()).ok(), Some(()));
    }
    pool
}

#[test]
fn a_pool_of_no_workers_is_refused() {
    match Pool::build(0) {
        Ok(_) => panic!("a pool needs a worker"),
        Err(e) => {
            assert_eq!(e.message(), "Size must be larger than 0.");
            assert_eq!(e.to_string(), "PoolCreationError Size must be larger than 0.");
        }
    }
}

#[test]
fn a_new_pool_waits_for_its_first_worker() {
    let pool = Pool::build(3).unwrap();
    assert_eq!(pool.size(), 3);
    assert_eq!(pool.worker_count(), 0);
    assert_eq!(pool.live_workers(), 0);
    assert_eq!(pool.pending_tasks(), 0);
    assert!(!pool.is_running());
    assert!(!pool.is_shut_down());
    assert!(!pool.is_terminated());
    assert_eq!(pool.next_worker_id(), Some(0));
}

#[test]
fn a_pool_of_one_is_the_smallest() {
    let mut pool = Pool::build(1).unwrap();
    assert_eq!(pool.next_worker_id(), Some(0));
    assert!(pool.attach(Worker::build(0, spawned("only")).unwrap()).is_ok());
    assert!(pool.is_running());
    assert_eq!(pool.live_workers(), 1);
    assert_eq!(pool.next_worker_id(), None);
}

#[test]
fn a_built_pool_has_as_many_live_workers_as_asked_for() {
    let mut pool = Pool::build(4).unwrap();
    let handles = ["a", "b", "c", "d"];
    for (expected, handle) in handles.iter().enumerate() {
        assert!(!pool.is_running());
        let id = pool.next_worker_id().unwrap();
        assert_eq!(id, expected);
        assert!(pool.attach(Worker::build(id, spawned(handle)).unwrap()).is_ok());
        assert_eq!(pool.worker_count(), expected + 1);
        assert_eq!(pool.live_workers(), expected + 1);
    }
    assert!(pool.is_running());
    assert_eq!(pool.size(), 4);
    assert_eq!(pool.worker_count(), 4);
    assert_eq!(pool.live_workers(), 4);
    assert_eq!(pool.next_worker_id(), None);
}

#[test]
fn a_full_pool_takes_no_further_worker() {
    let mut pool = pool_of(&["a", "b"]);
    let extra = Worker::build(2, spawned("c")).unwrap();
    match pool.attach(extra) {
        Ok(()) => panic!("the pool was full"),
        Err(worker) => {
            assert_eq!(worker.id(), 2);
            assert!(worker.is_live());
        }
    }
    assert_eq!(pool.worker_count(), 2);
}

#[test]
fn a_worker_out_of_turn_is_handed_back() {
    let mut pool = Pool::build(3).unwrap();
    let worker = Worker::build(1, spawned("b")).unwrap();
    match pool.attach(worker) {
        Ok(()) => panic!("worker 0 comes first"),
        Err(worker) => assert_eq!(worker.id(), 1),
    }
    assert_eq!(pool.worker_count(), 0);
    assert_eq!(pool.next_worker_id(), Some(0));
}

#[test]
fn a_pool_that_is_shut_down_takes_no_worker() {
    let mut pool = Pool::build(3).unwrap();
    assert!(pool.attach(Worker::build(0, spawned("a")).unwrap()).is_ok());
    pool.shutdown();
    assert_eq!(pool.next_worker_id(), None);
    assert!(pool.attach(Worker::build(1, spawned("b")).unwrap()).is_err());
    assert_eq!(pool.worker_count(), 1);
}

#[test]
fn tasks_wait_in_the_order_they_were_submitted() {
    let mut pool = pool_of(&["a"]);
    assert_eq!(pool.execute(5), Ok(()));
    assert_eq!(pool.execute(6), Ok(()));
    assert_eq!(pool.execute(7), Ok(()));
    assert_eq!(pool.pending_tasks(), 3);
    let mut worker = WorkerLoop::new(0);
    assert_eq!(pool.dequeue(&mut worker), Some(5));
    worker.complete();
    assert_eq!(pool.dequeue(&mut worker), Some(6));
    worker.complete();
    assert_eq!(pool.dequeue(&mut worker), Some(7));
    worker.complete();
    assert_eq!(pool.dequeue(&mut worker), None);
    assert_eq!(worker.state(), WorkerState::WaitingForTask);
    assert_eq!(pool.pending_tasks(), 0);
}

#[test]
fn two_workers_execute_at_the_same_time() {
    let mut pool = pool_of(&["a", "b"]);
    assert_eq!(pool.execute(1), Ok(()));
    assert_eq!(pool.execute(2), Ok(()));
    let mut first = WorkerLoop::new(0);
    let mut second = WorkerLoop::new(1);
    assert_eq!(pool.dequeue(&mut first), Some(1));
    assert_eq!(pool.dequeue(&mut second), Some(2));
    assert_eq!(first.state(), WorkerState::Executing);
    assert_eq!(second.state(), WorkerState::Executing);
    second.complete();
    assert_eq!(first.state(), WorkerState::Executing);
    first.complete();
    assert_eq!(second.state(), WorkerState::WaitingForTask);
}

#[test]
fn a_submission_after_the_shutdown_is_handed_back() {
    let mut pool = pool_of(&["a", "b"]);
    assert_eq!(pool.execute(1), Ok(()));
    pool.shutdown();
    assert!(pool.is_shut_down());
    assert!(!pool.is_running());
    assert_eq!(pool.execute(2), Err(2));
    assert_eq!(pool.pending_tasks(), 1);
    let mut worker = WorkerLoop::new(0);
    assert_eq!(pool.dequeue(&mut worker), Some(1));
    worker.complete();
    assert_eq!(pool.dequeue(&mut worker), None);
    assert!(worker.is_shutting_down());
    assert_eq!(pool.execute(3), Err(3));
    assert_eq!(pool.pending_tasks(), 0);
}

#[test]
fn no_thread_is_joined_before_the_shutdown() {
    let mut pool = pool_of(&["a", "b"]);
    assert_eq!(pool.next_join(), None);
    assert_eq!(pool.live_workers(), 2);
    assert!(pool.is_running());
}

#[test]
fn threads_are_joined_in_the_order_of_the_ids() {
    let mut pool = pool_of(&["a", "b", "c"]);
    pool.shutdown();
    assert_eq!(pool.next_join(), Some((0, "a")));
    assert_eq!(pool.live_workers(), 2);
    assert_eq!(pool.next_join(), Some((1, "b")));
    assert_eq!(pool.next_join(), Some((2, "c")));
    assert_eq!(pool.live_workers(), 0);
    assert_eq!(pool.next_join(), None);
    assert_eq!(pool.next_join(), None);
    assert_eq!(pool.worker_count(), 3);
}

#[test]
fn a_second_shutdown_changes_nothing() {
    let mut pool = pool_of(&["a", "b"]);
    assert_eq!(pool.execute(9), Ok(()));
    pool.shutdown();
    assert_eq!(pool.next_join(), Some((0, "a")));
    pool.shutdown();
    assert!(pool.is_shut_down());
    assert_eq!(pool.pending_tasks(), 1);
    assert_eq!(pool.live_workers(), 1);
    assert_eq!(pool.next_join(), Some((1, "b")));
    assert_eq!(pool.next_join(), None);
}

#[test]
fn a_pool_is_terminated_once_every_join_is_recorded() {
    let mut pool = pool_of(&["a", "b"]);
    pool.shutdown();
    assert!(!pool.is_terminated());
    assert_eq!(pool.next_join(), Some((0, "a")));
    assert!(pool.joined(0, Exit::Finished));
    assert!(!pool.is_terminated());
    assert_eq!(pool.next_join(), Some((1, "b")));
    assert!(!pool.is_terminated());
    assert!(pool.joined(1, Exit::Finished));
    assert!(pool.is_terminated());
    assert_eq!(pool.panicked_workers(), 0);
}

#[test]
fn a_join_is_recorded_once_and_only_after_the_handle_was_taken() {
    let mut pool = pool_of(&["a", "b"]);
    assert!(!pool.joined(0, Exit::Finished));
    pool.shutdown();
    assert!(!pool.joined(0, Exit::Finished));
    assert_eq!(pool.next_join(), Some((0, "a")));
    assert!(!pool.joined(1, Exit::Finished));
    assert!(!pool.joined(2, Exit::Finished));
    assert!(pool.joined(0, Exit::Panicked));
    assert!(!pool.joined(0, Exit::Finished));
    assert_eq!(pool.panicked_workers(), 1);
}

#[test]
fn panicked_workers_are_counted() {
    let mut pool = pool_of(&["a", "b", "c", "d"]);
    pool.shutdown();
    let exits = [Exit::Panicked, Exit::Finished, Exit::Panicked, Exit::Finished];
    for exit in exits {
        let (id, _) = pool.next_join().unwrap();
        assert!(pool.joined(id, exit));
    }
    assert_eq!(pool.panicked_workers(), 2);
    assert!(pool.is_terminated());
}

#[test]
fn a_pool_given_up_while_assembling_joins_what_it_has() {
    let mut pool = Pool::build(4).unwrap();
    assert!(pool.attach(Worker::build(0, spawned("a")).unwrap()).is_ok());
    assert!(pool.attach(Worker::build(1, spawned("b")).unwrap()).is_ok());
    let id = pool.next_worker_id().unwrap();
    let failed: Result<&'static str, &str> = Err("no more threads");
    let error = match Worker::build(id, failed) {
        Ok(_) => panic!("the spawn failed"),
        Err(e) => e,
    };
    assert_eq!(error.message(), "Could not spawn the thread of id: 2.");
    pool.shutdown();
    assert_eq!(pool.next_worker_id(), None);
    assert_eq!(pool.next_join(), Some((0, "a")));
    assert!(pool.joined(0, Exit::Finished));
    assert_eq!(pool.next_join(), Some((1, "b")));
    assert!(pool.joined(1, Exit::Finished));
    assert_eq!(pool.next_join(), None);
    assert!(pool.is_terminated());
    assert_eq!(pool.live_workers(), 0);
}

#[test]
fn a_pool_without_workers_terminates_with_its_shutdown() {
    let mut pool = Pool::build(2).unwrap();
    pool.shutdown();
    assert_eq!(pool.next_join(), None);
    assert!(pool.is_terminated());
}
