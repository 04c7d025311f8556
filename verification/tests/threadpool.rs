use wexing::future::Poll;
use wexing::sync::RecvTimeoutError;
use wexing::threadpool::{
    spawn_outcome, thread_name, Inner, NewThreadPoolError, Spawner, StartThreadsError, Task,
    ThreadPool, TryScheduleError, WorkerStep, JOBS_PER_THREAD,
};
use wexing::util::{ErrorKind, IoError};

/// Records the names of the threads it is asked for, and refuses to start
/// more than `limit` of them.
struct Threads {
    names: Vec<String>,
    limit: usize,
}

impl Threads {
    fn new() -> Self {
        Threads { names: Vec::new(), limit: usize::MAX }
    }

    fn with_limit(limit: usize) -> Self {
        Threads { names: Vec::new(), limit }
    }
}

impl Spawner for Threads {
    fn spawn(&mut self, name: String) -> Result<(), IoError> {
        if self.names.len() >= self.limit {
            return Err(IoError::new(ErrorKind::OutOfMemory, "no more threads".to_string()));
        }
        self.names.push(name);
        Ok(())
    }
}

#[test]
fn threadpool() {
    let mut spawner = Threads::new();
    let mut tp: ThreadPool<Task<Box<dyn FnOnce() + Send + 'static>>> =
        ThreadPool::new("wexing", 10, &mut spawner).unwrap();
    tp.run(&mut spawner).unwrap();
    assert_eq!(tp.num_live_threads(), 10);

    let task = Task::new(
        Box::new(|| {
            println!("do task");
        }) as Box<dyn FnOnce() + Send + 'static>,
        0,
    );
    assert!(tp.schedule(&mut spawner, task).is_ok());
    assert_eq!(tp.queued(), 1);
    match tp.work(&mut spawner) {
        WorkerStep::Run(task) => task.execute(),
        _ => panic!("the job that was scheduled is the one to run"),
    }
    assert_eq!(tp.queued(), 0);
}

#[test]
fn new_names_threads_by_number() {
    let mut spawner = Threads::new();
    let pool: ThreadPool<u32> = ThreadPool::new("worker", 3, &mut spawner).unwrap();
    assert_eq!(pool.size(), 3);
    assert_eq!(pool.num_live_threads(), 3);
    assert_eq!(spawner.names, vec!["worker-0", "worker-1", "worker-2"]);
}

#[test]
fn thread_name_is_name_dash_number() {
    assert_eq!(thread_name("async", 0), "async-0");
    assert_eq!(thread_name("async", 9), "async-9");
    assert_eq!(thread_name("async", 10), "async-10");
    assert_eq!(thread_name("blocking", 1234567890), "blocking-1234567890");
}

#[test]
fn new_refuses_empty_name() {
    let mut spawner = Threads::new();
    let result: Result<ThreadPool<u32>, NewThreadPoolError> = ThreadPool::new("", 1, &mut spawner);
    match result {
        Err(NewThreadPoolError::Parameter(text)) => {
            assert_eq!(text, "ThreadPool::new called with empty name")
        }
        _ => panic!("an empty name is refused"),
    }
    assert!(spawner.names.is_empty());
}

#[test]
fn new_refuses_size_zero() {
    let mut spawner = Threads::new();
    let result: Result<ThreadPool<u32>, NewThreadPoolError> = ThreadPool::new("pool", 0, &mut spawner);
    match result {
        Err(NewThreadPoolError::Parameter(text)) => {
            assert_eq!(text, "ThreadPool::new called with invalid size value: 0")
        }
        _ => panic!("a size of 0 is refused"),
    }
}

#[test]
fn new_reports_failed_spawn() {
    let mut spawner = Threads::with_limit(2);
    let result: Result<ThreadPool<u32>, NewThreadPoolError> = ThreadPool::new("pool", 3, &mut spawner);
    match result {
        Err(NewThreadPoolError::Spawn(error)) => {
            assert_eq!(error.kind(), ErrorKind::OutOfMemory);
            assert_eq!(error.to_string(), "no more threads");
        }
        _ => panic!("a spawn that fails makes the pool fail"),
    }
    assert_eq!(spawner.names, vec!["pool-0", "pool-1"]);
}

#[test]
fn queue_takes_two_hundred_jobs_per_thread() {
    assert_eq!(JOBS_PER_THREAD, 200);
    let mut spawner = Threads::new();
    let mut pool: ThreadPool<usize> = ThreadPool::new("pool", 2, &mut spawner).unwrap();
    for job in 0..400 {
        assert_eq!(pool.try_schedule(&mut spawner, job), Ok(()));
    }
    assert_eq!(pool.queued(), 400);
    assert_eq!(pool.try_schedule(&mut spawner, 400), Err(TryScheduleError::QueueFull));
    assert_eq!(pool.schedule(&mut spawner, 401), Err(401));
    assert_eq!(pool.queued(), 400);
}

#[test]
fn jobs_run_in_the_order_scheduled() {
    let mut spawner = Threads::new();
    let mut pool: ThreadPool<u32> = ThreadPool::new("pool", 1, &mut spawner).unwrap();
    for job in [5, 3, 8] {
        assert!(pool.schedule(&mut spawner, job).is_ok());
    }
    let mut ran = Vec::new();
    while let WorkerStep::Run(job) = pool.work(&mut spawner) {
        ran.push(job);
    }
    assert_eq!(ran, vec![5, 3, 8]);
}

#[test]
fn worker_waits_at_an_empty_queue_and_ends_after_join() {
    let mut spawner = Threads::new();
    let mut pool: ThreadPool<u32> = ThreadPool::new("pool", 2, &mut spawner).unwrap();
    assert!(matches!(pool.recv(), Err(RecvTimeoutError::Timeout)));
    assert!(matches!(pool.work(&mut spawner), WorkerStep::Idle));
    assert!(pool.schedule(&mut spawner, 1).is_ok());

    assert!(matches!(pool.join(), Poll::Pending));
    assert!(matches!(pool.work(&mut spawner), WorkerStep::Run(1)));
    assert!(matches!(pool.work(&mut spawner), WorkerStep::Exit));
    assert_eq!(pool.num_live_threads(), 1);
    assert!(matches!(pool.join(), Poll::Pending));
    assert!(matches!(pool.work(&mut spawner), WorkerStep::Exit));
    assert_eq!(pool.num_live_threads(), 0);
    assert!(matches!(pool.join(), Poll::Ready(())));
}

#[test]
fn try_join_times_out() {
    let mut spawner = Threads::new();
    let mut pool: ThreadPool<u32> = ThreadPool::new("pool", 1, &mut spawner).unwrap();
    assert!(matches!(pool.try_join(10, 20), Poll::Pending));
    assert!(matches!(pool.try_join(20, 20), Poll::Pending));
    match pool.try_join(21, 20) {
        Poll::Ready(Err(text)) => {
            assert_eq!(text, "Timed out waiting for ThreadPool workers to stop")
        }
        _ => panic!("the deadline has passed"),
    }
    assert!(matches!(pool.work(&mut spawner), WorkerStep::Exit));
    assert!(matches!(pool.try_join(21, 20), Poll::Ready(Ok(()))));
}

#[test]
fn dead_workers_are_replaced() {
    let mut spawner = Threads::new();
    let mut pool: ThreadPool<u32> = ThreadPool::new("pool", 3, &mut spawner).unwrap();
    pool.thread_exited();
    assert_eq!(pool.num_live_threads(), 2);
    assert!(matches!(pool.work(&mut spawner), WorkerStep::Idle));
    assert_eq!(pool.num_live_threads(), 3);
    assert_eq!(spawner.names.last().unwrap(), "pool-3");

    pool.thread_exited();
    assert!(pool.schedule(&mut spawner, 7).is_ok());
    assert_eq!(pool.num_live_threads(), 3);
    assert_eq!(spawner.names.last().unwrap(), "pool-4");
}

#[test]
fn schedule_backs_off_without_threads() {
    let mut spawner = Threads::with_limit(1);
    let mut pool: ThreadPool<u32> = ThreadPool::new("pool", 1, &mut spawner).unwrap();
    pool.thread_exited();
    assert_eq!(pool.schedule(&mut spawner, 7), Err(7));
    assert_eq!(pool.queued(), 0);
    match pool.try_schedule(&mut spawner, 7) {
        Err(TryScheduleError::NoThreads(error)) => assert_eq!(error.kind(), ErrorKind::OutOfMemory),
        _ => panic!("no thread is left and none can be started"),
    }
    assert_eq!(pool.queued(), 1);
}

#[test]
fn respawn_failure_does_not_stop_schedule() {
    let mut spawner = Threads::with_limit(2);
    let mut pool: ThreadPool<u32> = ThreadPool::new("pool", 2, &mut spawner).unwrap();
    pool.thread_exited();
    assert_eq!(pool.schedule(&mut spawner, 7), Ok(()));
    match pool.try_schedule(&mut spawner, 8) {
        Err(TryScheduleError::Respawn(error)) => assert_eq!(error.to_string(), "no more threads"),
        _ => panic!("one thread is left and the other cannot be started"),
    }
    assert_eq!(pool.queued(), 2);
}

#[test]
fn spawn_outcome_tells_failures_apart() {
    let failure = || IoError::new(ErrorKind::Other, "x".to_string());
    assert_eq!(spawn_outcome(0, Ok(())), Ok(()));
    assert_eq!(spawn_outcome(0, Err(failure())), Err(StartThreadsError::NoThreads(failure())));
    assert_eq!(spawn_outcome(1, Err(failure())), Err(StartThreadsError::Respawn(failure())));
}

#[test]
fn inner_starts_threads_up_to_size() {
    let mut spawner = Threads::new();
    let mut inner = Inner::new("pool", 4);
    assert_eq!(inner.num_live_threads(), 0);
    assert_eq!(inner.start_thread(&mut spawner), Ok(()));
    assert_eq!(inner.num_live_threads(), 1);
    assert_eq!(inner.start_threads(&mut spawner), Ok(()));
    assert_eq!(inner.num_live_threads(), 4);
    assert_eq!(inner.start_thread(&mut spawner), Ok(()));
    assert_eq!(inner.num_live_threads(), 4);
    assert_eq!(spawner.names.len(), 4);
    let step: WorkerStep<u32> = inner.work(&mut spawner, Err(RecvTimeoutError::Disconnected));
    assert!(matches!(step, WorkerStep::Exit));
    assert_eq!(inner.num_live_threads(), 3);
}

#[test]
fn run_keeps_live_threads_and_stops_at_the_first_failure() {
    let mut spawner = Threads::with_limit(4);
    let mut pool: ThreadPool<u32> = ThreadPool::new("pool", 3, &mut spawner).unwrap();
    assert_eq!(pool.run(&mut spawner), Ok(()));
    assert_eq!(spawner.names.len(), 3);

    pool.thread_exited();
    pool.thread_exited();
    assert_eq!(pool.num_live_threads(), 1);
    match pool.run(&mut spawner) {
        Err(StartThreadsError::Respawn(error)) => {
            assert_eq!(error.kind(), ErrorKind::OutOfMemory);
            assert_eq!(error.to_string(), "no more threads");
        }
        _ => panic!("the second replacement cannot be started"),
    }
    assert_eq!(pool.num_live_threads(), 2);
    assert_eq!(spawner.names, vec!["pool-0", "pool-1", "pool-2", "pool-3"]);

    pool.thread_exited();
    pool.thread_exited();
    match pool.run(&mut spawner) {
        Err(StartThreadsError::NoThreads(error)) => assert_eq!(error.to_string(), "no more threads"),
        _ => panic!("no thread is left and none can be started"),
    }
    assert_eq!(pool.num_live_threads(), 0);
    assert_eq!(pool.queued(), 0);
}

#[test]
fn a_joined_pool_takes_no_more_jobs() {
    let mut spawner = Threads::new();
    let mut pool: ThreadPool<u32> = ThreadPool::new("pool", 1, &mut spawner).unwrap();
    assert!(pool.is_open());
    assert!(pool.schedule(&mut spawner, 1).is_ok());
    assert!(matches!(pool.join(), Poll::Pending));
    assert!(!pool.is_open());
    assert_eq!(pool.queued(), 1);
    assert!(matches!(pool.work(&mut spawner), WorkerStep::Run(1)));
    assert!(matches!(pool.work(&mut spawner), WorkerStep::Exit));
    assert!(matches!(pool.join(), Poll::Ready(())));
    assert!(!pool.is_open());

    let mut other: ThreadPool<u32> = ThreadPool::new("other", 1, &mut spawner).unwrap();
    assert!(matches!(other.try_join(0, 10), Poll::Pending));
    assert!(!other.is_open());
}

#[test]
fn a_refused_pool_starts_no_thread() {
    let mut spawner = Threads::new();
    let empty: Result<ThreadPool<u32>, NewThreadPoolError> = ThreadPool::new("", 3, &mut spawner);
    assert!(empty.is_err());
    let none: Result<ThreadPool<u32>, NewThreadPoolError> = ThreadPool::new("pool", 0, &mut spawner);
    assert!(none.is_err());
    assert!(spawner.names.is_empty());
}

#[test]
fn a_full_pool_asks_for_no_thread() {
    let mut spawner = Threads::new();
    let mut pool: ThreadPool<u32> = ThreadPool::new("pool", 2, &mut spawner).unwrap();
    assert_eq!(pool.run(&mut spawner), Ok(()));
    assert!(pool.schedule(&mut spawner, 1).is_ok());
    assert_eq!(pool.try_schedule(&mut spawner, 2), Ok(()));
    assert!(matches!(pool.work(&mut spawner), WorkerStep::Run(1)));
    assert_eq!(spawner.names, vec!["pool-0", "pool-1"]);
}
