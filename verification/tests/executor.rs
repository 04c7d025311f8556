use std::cell::RefCell;
use std::rc::Rc;
use wexing::executor::{Executor, Task};
use wexing::future::{ready, Context, Future, PendingFuture, Poll, Waker};
use wexing::threadpool::{NewThreadPoolError, Spawner};
use wexing::timer::{SleepFuture, Timer, TimerStep};
use wexing::util::{ErrorKind, IoError};

struct Threads {
    started: usize,
    limit: usize,
}

impl Threads {
    fn new() -> Self {
        Threads { started: 0, limit: usize::MAX }
    }
}

impl Spawner for Threads {
    fn spawn(&mut self, _name: String) -> Result<(), IoError> {
        if self.started >= self.limit {
            return Err(IoError::new(ErrorKind::Other, "no more threads".to_string()));
        }
        self.started += 1;
        Ok(())
    }
}

enum HelloWorldState {
    Waiting,
    Hello,
    World,
    End,
}

struct HelloWorldFuture {
    state: HelloWorldState,
}

impl HelloWorldFuture {
    fn new() -> Self {
        Self { state: HelloWorldState::Waiting }
    }
}

impl Future for HelloWorldFuture {
    type Output = usize;

    fn poll(&mut self, cx: &mut Context) -> Poll<usize> {
        let waker = cx.waker;
        match self.state {
            HelloWorldState::Waiting => {
                self.state = HelloWorldState::Hello;
                cx.wake(waker);
            }
            HelloWorldState::Hello => {
                println!("Hello");
                self.state = HelloWorldState::World;
                cx.wake(waker);
            }
            HelloWorldState::World => {
                println!("World");
                self.state = HelloWorldState::End;
                cx.wake(waker);
            }
            HelloWorldState::End => {
                return Poll::Ready(200);
            }
        }
        Poll::Pending
    }
}

#[test]
fn executor_block_on() {
    let mut executor: Executor<PendingFuture, (), Threads> =
        Executor::new(4, 1, Threads::new()).unwrap();
    let code = executor.block_on(HelloWorldFuture::new(), 100);
    assert_eq!(code, Some(200));
}

struct TestFuture {
    state: usize,
    polls: Rc<RefCell<usize>>,
}

impl Future for TestFuture {
    type Output = ();

    fn poll(&mut self, cx: &mut Context) -> Poll<()> {
        *self.polls.borrow_mut() += 1;
        let waker = cx.waker;
        if self.state == 0 {
            self.state = 1;
            println!("Hello");
            cx.wake(waker);
            Poll::Pending
        } else if self.state == 1 {
            self.state = 2;
            println!("World");
            cx.wake(waker);
            Poll::Pending
        } else if self.state == 2 {
            println!("Async");
            cx.wake(waker);
            Poll::Ready(())
        } else {
            self.state = 0;
            cx.wake(waker);
            Poll::Pending
        }
    }
}

/// Four `TestFuture`s, one after the other.
struct FourInARow {
    current: TestFuture,
    left: usize,
}

impl FourInARow {
    fn new(polls: Rc<RefCell<usize>>) -> Self {
        FourInARow { current: TestFuture { state: 0, polls }, left: 4 }
    }
}

impl Future for FourInARow {
    type Output = ();

    fn poll(&mut self, cx: &mut Context) -> Poll<()> {
        while self.left > 0 {
            match self.current.poll(cx) {
                Poll::Ready(()) => {
                    self.left -= 1;
                    self.current.state = 0;
                }
                Poll::Pending => return Poll::Pending,
            }
        }
        Poll::Ready(())
    }
}

#[test]
fn mod_block_on() {
    let polls = Rc::new(RefCell::new(0));
    let mut executor: Executor<PendingFuture, (), Threads> =
        Executor::new(4, 1, Threads::new()).unwrap();
    let output = executor.block_on(FourInARow::new(polls.clone()), 100);
    assert_eq!(output, Some(()));
    assert_eq!(*polls.borrow(), 12);
}

#[test]
fn run() {
    let polls = Rc::new(RefCell::new(0));
    let mut executor: Executor<FourInARow, (), Threads> =
        Executor::new(4, 1, Threads::new()).unwrap();
    let task = executor.spawn(FourInARow::new(polls.clone()));
    assert_eq!(task, 0);
    assert!(!executor.is_done(task));
    executor.run(100);
    assert!(executor.is_done(task));
    assert_eq!(*polls.borrow(), 12);
    assert_eq!(executor.pending_jobs(), 0);
}

#[test]
fn new_starts_both_pools() {
    let executor: Executor<PendingFuture, (), Threads> =
        Executor::new(4, 2, Threads::new()).unwrap();
    assert_eq!(executor.num_live_threads(), 4);
    assert_eq!(executor.task_count(), 0);
    assert_eq!(executor.pending_jobs(), 0);
    assert_eq!(executor.now(), 0);
    assert!(!executor.is_notified());
    assert!(!executor.timer().is_started());
}

#[test]
fn new_refuses_empty_pools() {
    for (async_threads, blocking_threads) in [(0, 1), (1, 0), (0, 0)] {
        let none: Result<Executor<PendingFuture, (), Threads>, NewThreadPoolError> =
            Executor::new(async_threads, blocking_threads, Threads::new());
        match none {
            Err(NewThreadPoolError::Parameter(text)) => {
                assert_eq!(text, "ThreadPool::new called with invalid size value: 0")
            }
            _ => panic!("a pool without threads is refused"),
        }
    }
    let none: Result<Executor<PendingFuture, (), Threads>, NewThreadPoolError> =
        Executor::new(2, 2, Threads { started: 0, limit: 3 });
    assert!(matches!(none, Err(NewThreadPoolError::Spawn(_))));
}

/// Counts its polls and completes at the poll with the given number.
/// It never asks to be woken.
struct Countdown {
    polls: Rc<RefCell<usize>>,
    ready_at: usize,
}

impl Future for Countdown {
    type Output = ();

    fn poll(&mut self, _cx: &mut Context) -> Poll<()> {
        *self.polls.borrow_mut() += 1;
        if *self.polls.borrow() >= self.ready_at {
            Poll::Ready(())
        } else {
            Poll::Pending
        }
    }
}

/// Records that it was polled and stays pending.
struct Mark {
    id: u32,
    order: Rc<RefCell<Vec<u32>>>,
}

impl Future for Mark {
    type Output = ();

    fn poll(&mut self, _cx: &mut Context) -> Poll<()> {
        self.order.borrow_mut().push(self.id);
        Poll::Pending
    }
}

/// A sleep whose timer must have been started.
struct Nap(SleepFuture);

impl Future for Nap {
    type Output = ();

    fn poll(&mut self, cx: &mut Context) -> Poll<()> {
        match self.0.poll(cx) {
            Poll::Ready(result) => {
                result.unwrap();
                Poll::Ready(())
            }
            Poll::Pending => Poll::Pending,
        }
    }
}

#[test]
fn polls_are_no_more_than_wakes_plus_one() {
    let polls = Rc::new(RefCell::new(0));
    let mut executor: Executor<Countdown, (), Threads> =
        Executor::new(1, 1, Threads::new()).unwrap();
    let task = executor.spawn(Countdown { polls: polls.clone(), ready_at: 3 });
    assert_eq!(executor.run(10), 1);
    assert_eq!(*polls.borrow(), 1);
    assert_eq!(executor.run(10), 0);
    assert_eq!(*polls.borrow(), 1);

    executor.wake(Waker::Task(task));
    executor.wake(Waker::Task(task));
    assert_eq!(executor.pending_jobs(), 2);
    assert_eq!(executor.run(10), 2);
    assert_eq!(*polls.borrow(), 3);
    assert!(executor.is_done(task));
}

#[test]
fn wake_after_completion_does_nothing() {
    let polls = Rc::new(RefCell::new(0));
    let mut executor: Executor<Countdown, (), Threads> =
        Executor::new(1, 1, Threads::new()).unwrap();
    let task = executor.spawn(Countdown { polls: polls.clone(), ready_at: 1 });
    assert!(executor.run_one());
    assert!(executor.is_done(task));
    executor.wake(Waker::Task(task));
    executor.wake(Waker::Task(17));
    assert_eq!(executor.pending_jobs(), 0);
    assert!(!executor.run_one());
    assert_eq!(*polls.borrow(), 1);
}

#[test]
fn tasks_are_polled_in_the_order_they_became_ready() {
    let order = Rc::new(RefCell::new(Vec::new()));
    let mut executor: Executor<Mark, (), Threads> = Executor::new(2, 1, Threads::new()).unwrap();
    let a = executor.spawn(Mark { id: 1, order: order.clone() });
    let b = executor.spawn(Mark { id: 2, order: order.clone() });
    let c = executor.spawn(Mark { id: 3, order: order.clone() });
    executor.run(10);
    executor.wake(Waker::Task(c));
    executor.wake(Waker::Task(a));
    executor.wake(Waker::Task(b));
    executor.run(10);
    assert_eq!(*order.borrow(), vec![1, 2, 3, 3, 1, 2]);
}

#[test]
fn block_on_gives_up_when_nothing_can_release_the_caller() {
    let mut executor: Executor<PendingFuture, (), Threads> =
        Executor::new(1, 1, Threads::new()).unwrap();
    assert_eq!(executor.block_on(PendingFuture, 100), None);
    assert_eq!(executor.block_on(ready(5u32), 0), None);
    assert_eq!(executor.block_on(ready(5u32), 1), Some(5));
}

#[test]
fn block_on_stops_at_its_budget() {
    let mut executor: Executor<PendingFuture, (), Threads> =
        Executor::new(1, 1, Threads::new()).unwrap();
    assert_eq!(executor.block_on(HelloWorldFuture::new(), 3), None);
    assert_eq!(executor.block_on(HelloWorldFuture::new(), 4), Some(200));
}

#[test]
fn the_ready_queue_overflows_into_a_waiting_line() {
    let polls = Rc::new(RefCell::new(0));
    let mut executor: Executor<Countdown, (), Threads> =
        Executor::new(1, 1, Threads::new()).unwrap();
    for _ in 0..250 {
        executor.spawn(Countdown { polls: polls.clone(), ready_at: 1000 });
    }
    assert_eq!(executor.pending_jobs(), 250);
    assert_eq!(executor.run(1000), 250);
    assert_eq!(*polls.borrow(), 250);
}

#[test]
fn blocking_jobs_reach_a_worker_with_their_sender() {
    let mut executor: Executor<PendingFuture, u32, Threads> =
        Executor::new(1, 1, Threads::new()).unwrap();
    let mut receiver = match executor.schedule_blocking::<u32>(20) {
        Ok(receiver) => receiver,
        Err(_) => panic!("the queue is empty"),
    };
    let queued = executor.next_blocking().unwrap();
    assert_eq!(queued.job, 20);
    let mut woken = Vec::new();
    assert!(queued.sender.send(&mut receiver, queued.job * 2 + 2, &mut woken).is_ok());
    assert_eq!(receiver.recv(&mut woken), Ok(42));
    assert!(executor.next_blocking().is_none());
}

#[test]
fn blocking_queue_is_bounded() {
    let mut executor: Executor<PendingFuture, u32, Threads> =
        Executor::new(1, 1, Threads::new()).unwrap();
    for job in 0..200 {
        assert!(executor.schedule_blocking::<u32>(job).is_ok());
    }
    assert!(matches!(executor.schedule_blocking::<u32>(200), Err(200)));
}

#[test]
fn a_dropped_blocking_job_is_seen_by_the_receiver() {
    let mut executor: Executor<PendingFuture, u32, Threads> =
        Executor::new(1, 1, Threads::new()).unwrap();
    let mut receiver = executor.schedule_blocking::<u32>(1).ok().unwrap();
    let queued = executor.next_blocking().unwrap();
    let mut woken = Vec::new();
    queued.sender.drop(&mut receiver, &mut woken);
    assert!(receiver.recv(&mut woken).is_err());
}

#[test]
fn fire_timer_wakes_the_task_that_sleeps() {
    let mut executor: Executor<Nap, (), Threads> = Executor::new(1, 1, Threads::new()).unwrap();
    executor.start_timer_thread();
    let task = executor.spawn(Nap(SleepFuture::new(10)));
    assert!(executor.run_one());
    assert_eq!(executor.pending_jobs(), 0);
    assert_eq!(executor.fire_timer(), TimerStep::Wait(10));
    executor.set_now(10);
    assert_eq!(executor.fire_timer(), TimerStep::Wait(0));
    executor.set_now(11);
    assert!(matches!(
        executor.fire_timer(),
        TimerStep::Fired { waker: Some(Waker::Task(0)), .. }
    ));
    assert_eq!(executor.fire_timer(), TimerStep::Idle);
    assert_eq!(executor.pending_jobs(), 1);
    assert!(executor.run_one());
    assert!(executor.is_done(task));
}

#[test]
fn task_cell_empties_when_the_future_completes() {
    let polls = Rc::new(RefCell::new(0));
    let mut task = Task::new(Countdown { polls: polls.clone(), ready_at: 2 });
    let mut cx = Context::new(Timer::new(), 0, Waker::Task(0));
    assert!(!task.is_done());
    assert!(task.poll(&mut cx).is_pending());
    assert!(!task.is_done());
    assert!(task.poll(&mut cx).is_ready());
    assert!(task.is_done());
    assert!(task.poll(&mut cx).is_ready());
    assert_eq!(*polls.borrow(), 2);
}

#[test]
fn a_dead_worker_is_replaced_at_the_next_spawn() {
    let mut executor: Executor<PendingFuture, (), Threads> =
        Executor::new(3, 2, Threads::new()).unwrap();
    executor.worker_exited();
    executor.blocking_worker_exited();
    assert_eq!(executor.num_live_threads(), 2);
    assert_eq!(executor.num_live_blocking_threads(), 1);
    executor.spawn(PendingFuture);
    assert_eq!(executor.num_live_threads(), 3);
    assert_eq!(executor.num_live_blocking_threads(), 1);
    assert!(executor.next_blocking().is_none());
    assert_eq!(executor.num_live_blocking_threads(), 2);
}
