//! The task executor.

pub mod task;

pub use task::{Task, TaskView};

use vstd::prelude::*;
use std::collections::VecDeque;
use crate::future::{Context, ContextView, Future, Poll, Waker};
use crate::sync::channel::{oneshot, OneSender, Receiver};
use crate::threadpool::{
    invalid_size_text, lemma_grown_on, lemma_replenished_grown, numbered, InnerView,
    NewThreadPoolError, Spawner, ThreadPool, WorkerStep, JOBS_PER_THREAD,
};
use vstd::string::StringExecFns;
use crate::timer::{start_timer_thread, timer_thread, Timer, TimerStep};

verus! {

/// How often `task` occurs in `jobs`.
pub open spec fn count(jobs: Seq<usize>, task: usize) -> nat
    decreases jobs.len(),
{
    if jobs.len() == 0 {
        0
    } else {
        count(jobs.drop_last(), task) + if jobs.last() == task {
            1nat
        } else {
            0nat
        }
    }
}

proof fn lemma_count_push(jobs: Seq<usize>, job: usize, task: usize)
    ensures
        count(jobs.push(job), task) == count(jobs, task) + if job == task {
            1nat
        } else {
            0nat
        },
{
    assert(jobs.push(job).drop_last() =~= jobs);
}

proof fn lemma_count_skip(jobs: Seq<usize>, task: usize)
    requires
        jobs.len() > 0,
    ensures
        count(jobs, task) == count(jobs.skip(1), task) + if jobs[0] == task {
            1nat
        } else {
            0nat
        },
    decreases jobs.len(),
{
    if jobs.len() == 1 {
        assert(jobs.skip(1) =~= Seq::<usize>::empty());
        assert(jobs.drop_last() =~= Seq::<usize>::empty());
    } else {
        lemma_count_skip(jobs.drop_last(), task);
        assert(jobs.drop_last().skip(1) =~= jobs.skip(1).drop_last());
    }
}

/// The mathematical content of an [`Executor`].
pub struct ExecutorView<F> {
    /// The tasks, by index.
    pub tasks: Seq<TaskView<F>>,
    /// The poll jobs that wait for a worker, oldest first, each the index
    /// of the task to poll.
    pub jobs: Seq<usize>,
    /// The clock, the timer and the wakers invoked and not yet delivered.
    pub cx: ContextView,
    /// Whether the caller parked in `block_on` has been released.
    pub notified: bool,
}

impl<F: Future<Output = ()>> ExecutorView<F> {
    /// What holds of every executor. Every job names a task, and for
    /// every task the polls done and the poll jobs queued are together no
    /// more than its wakes and the one job of its spawn.
    pub open spec fn wf(self) -> bool {
        &&& forall|i: int| 0 <= i < self.jobs.len() ==> (#[trigger] self.jobs[i]) < self.tasks.len()
        &&& forall|t: usize|
            t < self.tasks.len() ==> (#[trigger] self.tasks[t as int]).polls + count(self.jobs, t)
                <= self.tasks[t as int].wakes + 1
    }

    /// Whether clock and timer are in order and every live future is in
    /// one of its states.
    pub open spec fn valid(self) -> bool {
        &&& self.cx.wf()
        &&& forall|t: int| 0 <= t < self.tasks.len() ==> (#[trigger] self.tasks[t]).wf()
    }

    /// After `future` was spawned: a new task, and one job to poll it.
    pub open spec fn spawn(self, future: F) -> ExecutorView<F> {
        ExecutorView {
            tasks: self.tasks.push(TaskView { future: Some(future), polls: 0, wakes: 0 }),
            jobs: self.jobs.push(self.tasks.len() as usize),
            ..self
        }
    }

    /// After `waker` was invoked. The waker of a live task queues one
    /// more poll of it; the waker of a task that is done, or of no task
    /// of this executor, does nothing. The waker of the caller releases it.
    pub open spec fn wake(self, waker: Waker) -> ExecutorView<F> {
        match waker {
            Waker::Task(t) => if t < self.tasks.len() {
                ExecutorView {
                    tasks: self.tasks.update(t as int, self.tasks[t as int].woken()),
                    jobs: if self.tasks[t as int].done() {
                        self.jobs
                    } else {
                        self.jobs.push(t)
                    },
                    ..self
                }
            } else {
                self
            },
            Waker::Caller => ExecutorView { notified: true, ..self },
        }
    }

    /// Whether invoking `waker` schedules a poll: it is the waker of a
    /// live task.
    pub open spec fn schedules(self, waker: Waker) -> bool {
        waker matches Waker::Task(t) && t < self.tasks.len() && !self.tasks[t as int].done()
    }

    /// After the wakers in `woken` were invoked, in order.
    pub open spec fn wake_all(self, woken: Seq<Waker>) -> ExecutorView<F>
        decreases woken.len(),
    {
        if woken.len() == 0 {
            self
        } else {
            self.wake(woken[0]).wake_all(woken.skip(1))
        }
    }

    /// After the wakers that the context has collected were delivered.
    pub open spec fn deliver(self) -> ExecutorView<F> {
        ExecutorView {
            cx: ContextView { woken: Seq::empty(), ..self.cx },
            ..self
        }.wake_all(self.cx.woken)
    }

    /// After a worker took the oldest job and polled its task: the task
    /// is polled with its own waker, the cell is emptied if the future
    /// has completed, and the wakers invoked during the poll are
    /// delivered. A job for a task that is done does nothing.
    pub open spec fn run_one(self) -> ExecutorView<F> {
        if self.jobs.len() == 0 {
            self
        } else {
            let t = self.jobs[0];
            let (task, polled, result) = self.tasks[t as int].poll(
                ContextView { waker: Waker::Task(t), ..self.cx },
            );
            ExecutorView {
                tasks: self.tasks.update(t as int, task),
                jobs: self.jobs.skip(1),
                cx: polled,
                ..self
            }.deliver()
        }
    }
    /// After `n` turns of a worker.
    pub open spec fn run_n(self, n: nat) -> ExecutorView<F>
        decreases n,
    {
        if n == 0 {
            self
        } else {
            self.run_one().run_n((n - 1) as nat)
        }
    }

    /// After one turn of the timer thread at the clock of the executor,
    /// with the waker of a fired entry invoked.
    pub open spec fn fire_timer(self) -> (ExecutorView<F>, TimerStep) {
        let (timer, step) = self.cx.timer.step(self.cx.now);
        let after = ExecutorView { cx: self.cx.with_timer(timer), ..self };
        match step {
            TimerStep::Fired { waker: Some(waker), .. } => (after.wake(waker), step),
            _ => (after, step),
        }
    }

    /// What happens next while nothing from outside interferes: a worker
    /// takes the oldest job; without jobs the clock moves past the
    /// instant of the earliest timer entry, which fires. `None` when
    /// neither a job nor a timer entry is left.
    pub open spec fn turn(self) -> Option<ExecutorView<F>> {
        if self.jobs.len() > 0 {
            Some(self.run_one())
        } else {
            match self.cx.timer.queue {
                Some(queue) if queue.len() > 0 && queue[0].instant < u64::MAX => {
                    let now = if self.cx.now <= queue[0].instant {
                        (queue[0].instant + 1) as u64
                    } else {
                        self.cx.now
                    };
                    Some(
                        ExecutorView { cx: ContextView { now, ..self.cx }, ..self }.fire_timer().0,
                    )
                },
                _ => None,
            }
        }
    }

    /// One poll of `future` on behalf of the caller of `block_on`: the
    /// notification is reset, the future is polled with the waker of the
    /// caller, and the wakers invoked during the poll are delivered.
    pub open spec fn poll_caller<G: Future>(self, future: G) -> (ExecutorView<F>, G, Poll<
        G::Output,
    >) {
        let (after, polled, result) = future.poll_spec(
            ContextView { waker: Waker::Caller, ..self.cx },
        );
        (ExecutorView { cx: polled, notified: false, ..self }.deliver(), after, result)
    }

    /// The course of `block_on` with `budget` steps left. The future is
    /// polled at once, and again whenever the caller has been released;
    /// while the caller is parked the rest of the runtime takes its
    /// turns. The result is `None` when the budget runs out, and when the
    /// caller is parked with nothing left that could release it.
    pub open spec fn drive<G: Future>(self, future: G, parked: bool, budget: nat) -> (
        ExecutorView<F>,
        Option<G::Output>,
    )
        decreases budget,
    {
        if budget == 0 {
            (self, None)
        } else if !parked || self.notified {
            let (after, future, result) = self.poll_caller(future);
            match result {
                Poll::Ready(value) => (after, Some(value)),
                Poll::Pending => after.drive(future, true, (budget - 1) as nat),
            }
        } else {
            match self.turn() {
                Some(next) => next.drive(future, true, (budget - 1) as nat),
                None => (self, None),
            }
        }
    }
}

/// Invoking a waker keeps the executor well-formed.
pub proof fn lemma_wake_wf<F: Future<Output = ()>>(executor: ExecutorView<F>, waker: Waker)
    requires
        executor.wf(),
    ensures
        executor.wake(waker).wf(),
        executor.wake(waker).cx == executor.cx,
        executor.wake(waker).tasks.len() == executor.tasks.len(),
{
    let after = executor.wake(waker);
    match waker {
        Waker::Task(t) => {
            if t < executor.tasks.len() {
                assert forall|u: usize| u < after.tasks.len() implies (
                #[trigger] after.tasks[u as int]).polls + count(after.jobs, u)
                    <= after.tasks[u as int].wakes + 1 by {
                    lemma_count_push(executor.jobs, t, u);
                    assert(executor.tasks[u as int].polls + count(executor.jobs, u)
                        <= executor.tasks[u as int].wakes + 1);
                }
                assert forall|i: int| 0 <= i < after.jobs.len() implies (#[trigger] after.jobs[i])
                    < after.tasks.len() by {
                    if i < executor.jobs.len() {
                        assert(executor.jobs[i] < executor.tasks.len());
                    }
                }
            }
        },
        Waker::Caller => {},
    }
}

/// Invoking wakers one after the other keeps the executor well-formed.
pub proof fn lemma_wake_all_wf<F: Future<Output = ()>>(executor: ExecutorView<F>, woken: Seq<Waker>)
    requires
        executor.wf(),
    ensures
        executor.wake_all(woken).wf(),
        executor.wake_all(woken).cx == executor.cx,
        executor.wake_all(woken).tasks.len() == executor.tasks.len(),
    decreases woken.len(),
{
    if woken.len() > 0 {
        lemma_wake_wf(executor, woken[0]);
        lemma_wake_all_wf(executor.wake(woken[0]), woken.skip(1));
    }
}

/// Spawning keeps the executor well-formed.
pub proof fn lemma_spawn_wf<F: Future<Output = ()>>(executor: ExecutorView<F>, future: F)
    requires
        executor.wf(),
        executor.tasks.len() < usize::MAX,
    ensures
        executor.spawn(future).wf(),
{
    let after = executor.spawn(future);
    let id = executor.tasks.len() as usize;
    assert forall|u: usize| u < after.tasks.len() implies (#[trigger] after.tasks[u as int]).polls
        + count(after.jobs, u) <= after.tasks[u as int].wakes + 1 by {
        lemma_count_push(executor.jobs, id, u);
        if u < executor.tasks.len() {
            assert(executor.tasks[u as int].polls + count(executor.jobs, u)
                <= executor.tasks[u as int].wakes + 1);
        } else {
            lemma_count_absent(executor.jobs, id);
        }
    }
    assert forall|i: int| 0 <= i < after.jobs.len() implies (#[trigger] after.jobs[i])
        < after.tasks.len() by {
        if i < executor.jobs.len() {
            assert(executor.jobs[i] < executor.tasks.len());
        }
    }
}

proof fn lemma_count_absent(jobs: Seq<usize>, task: usize)
    requires
        forall|i: int| 0 <= i < jobs.len() ==> (#[trigger] jobs[i]) != task,
    ensures
        count(jobs, task) == 0,
    decreases jobs.len(),
{
    if jobs.len() > 0 {
        assert forall|i: int| 0 <= i < jobs.drop_last().len() implies (#[trigger] jobs.drop_last()[i])
            != task by {
            assert(jobs.drop_last()[i] == jobs[i]);
        }
        lemma_count_absent(jobs.drop_last(), task);
    }
}

/// A worker's turn keeps the executor well-formed.
pub proof fn lemma_run_one_wf<F: Future<Output = ()>>(executor: ExecutorView<F>)
    requires
        executor.wf(),
    ensures
        executor.run_one().wf(),
        executor.run_one().tasks.len() == executor.tasks.len(),
{
    if executor.jobs.len() > 0 {
        let t = executor.jobs[0];
        assert(t < executor.tasks.len());
        let cx = ContextView { waker: Waker::Task(t), ..executor.cx };
        let (task, polled, result) = executor.tasks[t as int].poll(cx);
        let middle = ExecutorView {
            tasks: executor.tasks.update(t as int, task),
            jobs: executor.jobs.skip(1),
            cx: polled,
            ..executor
        };
        let cleared = ExecutorView { cx: ContextView { woken: Seq::empty(), ..polled }, ..middle };
        assert forall|u: usize| u < cleared.tasks.len() implies (
        #[trigger] cleared.tasks[u as int]).polls + count(cleared.jobs, u)
            <= cleared.tasks[u as int].wakes + 1 by {
            lemma_count_skip(executor.jobs, u);
            assert(executor.tasks[u as int].polls + count(executor.jobs, u)
                <= executor.tasks[u as int].wakes + 1);
        }
        assert forall|i: int| 0 <= i < cleared.jobs.len() implies (#[trigger] cleared.jobs[i])
            < cleared.tasks.len() by {
            assert(executor.jobs[i + 1] < executor.tasks.len());
        }
        lemma_wake_all_wf(cleared, polled.woken);
    }
}

/// A blocking job on its way to a worker of the blocking pool, with the
/// sender for its result.
pub struct BlockingJob<B> {
    pub job: B,
    pub sender: OneSender,
}

/// Runs tasks on a pool of worker threads and offloads blocking jobs to
/// a second pool. The executor decides what each thread does next; the
/// threads themselves belong to the spawner.
pub struct Executor<F, B, S> {
    spawner: S,
    pool: ThreadPool<usize>,
    blocking: ThreadPool<BlockingJob<B>>,
    waiting: VecDeque<usize>,
    tasks: Vec<Task<F>>,
    cx: Context,
    notified: bool,
}

impl<F, B, S> View for Executor<F, B, S> {
    type V = ExecutorView<F>;

    closed spec fn view(&self) -> ExecutorView<F> {
        ExecutorView {
            tasks: self.tasks@.map_values(|task: Task<F>| task@),
            jobs: self.pool@.queue + self.waiting@,
            cx: self.cx@,
            notified: self.notified,
        }
    }
}

impl<F: Future<Output = ()>, B, S: Spawner> Executor<F, B, S> {
    /// What holds of every executor between two calls: its content is
    /// well-formed, the pools keep their bounds and take jobs, and every
    /// wake has been delivered.
    pub closed spec fn wf(&self) -> bool {
        &&& self@.wf()
        &&& self@.valid()
        &&& self.cx.wf()
        &&& self.cx@.woken.len() == 0
        &&& self.pool.wf()
        &&& self.pool@.open
        &&& self.blocking.wf()
        &&& self.blocking@.open
    }

    /// What `wf` says of the content of the executor: the content is
    /// well-formed and valid, and no wake waits to be delivered.
    pub proof fn lemma_wf(&self)
        requires
            self.wf(),
        ensures
            self@.wf(),
            self@.valid(),
            self@.cx.woken.len() == 0,
            self.task_pool().size >= 1,
            self.blocking_pool().size >= 1,
            self.blocking_jobs().len() <= self.blocking_capacity(),
            self.blocking_capacity() == self.blocking_pool().size * JOBS_PER_THREAD,
    {
    }

    /// The threads of the task pool: name, numbering, number wanted,
    /// number alive, and the names asked of the spawner.
    pub closed spec fn task_pool(&self) -> InnerView {
        self.pool@.inner
    }

    /// The threads of the blocking pool.
    pub closed spec fn blocking_pool(&self) -> InnerView {
        self.blocking@.inner
    }

    /// How many workers of the task pool are alive.
    pub open spec fn workers(&self) -> usize {
        self.task_pool().live
    }

    /// How many workers of the blocking pool are alive.
    pub open spec fn blocking_live(&self) -> usize {
        self.blocking_pool().live
    }

    /// How many workers the blocking pool is meant to have.
    pub open spec fn blocking_size(&self) -> usize {
        self.blocking_pool().size
    }

    /// Whether the blocking pool and its queue are as in `before`.
    pub open spec fn blocking_untouched(self, before: Self) -> bool {
        &&& self.blocking_pool() == before.blocking_pool()
        &&& self.blocking_jobs() == before.blocking_jobs()
        &&& self.blocking_capacity() == before.blocking_capacity()
    }

    /// Whether tasks, poll jobs, clock, timer and the threads of the
    /// task pool are as in `before`.
    pub open spec fn tasks_untouched(self, before: Self) -> bool {
        &&& self@ == before@
        &&& self.task_pool() == before.task_pool()
    }

    /// The blocking jobs that wait for a worker, oldest first.
    pub closed spec fn blocking_jobs(&self) -> Seq<B> {
        self.blocking@.queue.map_values(|queued: BlockingJob<B>| queued.job)
    }

    /// How many jobs the blocking pool takes.
    pub closed spec fn blocking_capacity(&self) -> nat {
        self.blocking@.capacity as nat
    }

    /// An executor with `async_threads` workers for tasks, called
    /// `async-0`, `async-1` and so on, and `blocking_threads` workers for
    /// blocking jobs, called `blocking-0` and so on, all started. It has
    /// no tasks; its clock is at 0 and its timer thread is not started.
    /// A pool without threads is refused before any thread is started.
    pub fn new(async_threads: usize, blocking_threads: usize, spawner: S) -> (result: Result<
        Executor<F, B, S>,
        NewThreadPoolError,
    >)
        requires
            async_threads * JOBS_PER_THREAD <= usize::MAX,
            blocking_threads * JOBS_PER_THREAD <= usize::MAX,
        ensures
            async_threads < 1 || blocking_threads < 1 ==> (result matches Err(
                NewThreadPoolError::Parameter(text),
            ) && text@ == invalid_size_text()),
            async_threads >= 1 && blocking_threads >= 1 ==> (result is Ok || result matches Err(
                NewThreadPoolError::Spawn(_),
            )),
            result matches Ok(executor) ==> {
                &&& executor.wf()
                &&& executor@.tasks.len() == 0
                &&& executor@.jobs.len() == 0
                &&& executor@.cx.now == 0
                &&& !executor@.cx.timer.started()
                &&& executor@.cx.timer.slots.len() == 0
                &&& !executor@.notified
                &&& executor.blocking_jobs().len() == 0
                &&& executor.blocking_capacity() == blocking_threads * JOBS_PER_THREAD
                &&& executor.task_pool() == (InnerView {
                    name: "async"@,
                    next_name_num: async_threads,
                    size: async_threads,
                    live: async_threads,
                    names: numbered("async"@, 0, async_threads as nat),
                })
                &&& executor.blocking_pool() == (InnerView {
                    name: "blocking"@,
                    next_name_num: blocking_threads,
                    size: blocking_threads,
                    live: blocking_threads,
                    names: numbered("blocking"@, 0, blocking_threads as nat),
                })
            },
    {
        proof {
            reveal_strlit("async");
            reveal_strlit("blocking");
        }
        if async_threads < 1 || blocking_threads < 1 {
            return Err(
                NewThreadPoolError::Parameter(
                    String::from_str("ThreadPool::new called with invalid size value: 0"),
                ),
            );
        }
        let mut spawner = spawner;
        let pool = match ThreadPool::new("async", async_threads, &mut spawner) {
            Ok(pool) => pool,
            Err(error) => {
                return Err(error);
            },
        };
        let blocking = match ThreadPool::new("blocking", blocking_threads, &mut spawner) {
            Ok(pool) => pool,
            Err(error) => {
                return Err(error);
            },
        };
        let executor = Executor {
            spawner,
            pool,
            blocking,
            waiting: VecDeque::new(),
            tasks: Vec::new(),
            cx: Context::new(Timer::new(), 0, Waker::Caller),
            notified: false,
        };
        proof {
            assert(executor@.jobs =~= Seq::<usize>::empty());
            assert(executor@.tasks =~= Seq::<TaskView<F>>::empty());
            assert(executor.blocking_jobs() =~= Seq::<B>::empty());
        }
        Ok(executor)
    }

    /// Schedules a poll job behind all that wait, and has the pool
    /// replace the threads it lacks. Where the pool cannot take the job,
    /// because its queue is full or because it has no thread and cannot
    /// start one, the job waits outside the queue, as a caller does that
    /// sleeps until the pool takes it.
    fn enqueue(&mut self, job: usize)
        requires
            old(self).pool.wf(),
            old(self).pool@.open,
        ensures
            final(self).pool.wf(),
            final(self).pool@.open == old(self).pool@.open,
            final(self).pool@.capacity == old(self).pool@.capacity,
            old(self).pool@.inner.replenished(final(self).pool@.inner),
            final(self).blocking == old(self).blocking,
            final(self).tasks == old(self).tasks,
            final(self).cx == old(self).cx,
            final(self).notified == old(self).notified,
            final(self).pool@.queue + final(self).waiting@ == (old(self).pool@.queue + old(self).waiting@).push(job),
    {
        if self.waiting.len() > 0 {
            let _ = self.pool.run(&mut self.spawner);
            self.waiting.push_back(job);
        } else {
            match self.pool.schedule(&mut self.spawner, job) {
                Ok(()) => {},
                Err(job) => {
                    self.waiting.push_back(job);
                },
            }
        }
        proof {
            assert(self.pool@.queue + self.waiting@ =~= (old(self).pool@.queue + old(self).waiting@).push(job));
        }
    }

    /// Spawns a task for `future` and queues the first poll of it.
    /// Returns the index of the task.
    pub fn spawn(&mut self, future: F) -> (task: usize)
        requires
            old(self).wf(),
            future.inv(),
            old(self)@.tasks.len() < usize::MAX,
        ensures
            final(self).wf(),
            task == old(self)@.tasks.len(),
            final(self)@ == old(self)@.spawn(future),
            old(self).task_pool().replenished(final(self).task_pool()),
            (*final(self)).blocking_untouched(*old(self)),
    {
        let task = self.tasks.len();
        self.tasks.push(Task::new(future));
        self.enqueue(task);
        proof {
            assert(self@.tasks =~= old(self)@.spawn(future).tasks);
            lemma_spawn_wf(old(self)@, future);
        }
        task
    }

    /// Invokes `waker`, as a resource does that has become ready.
    pub fn wake(&mut self, waker: Waker)
        requires
            old(self).wf(),
        ensures
            final(self).wf(),
            final(self)@ == old(self)@.wake(waker),
            old(self)@.schedules(waker) ==> old(self).task_pool().replenished(
                final(self).task_pool(),
            ),
            !old(self)@.schedules(waker) ==> final(self).task_pool() == old(self).task_pool(),
            (*final(self)).blocking_untouched(*old(self)),
    {
        self.wake_one(waker);
        proof {
            lemma_wake_wf(old(self)@, waker);
        }
    }

    fn wake_one(&mut self, waker: Waker)
        requires
            old(self).pool.wf(),
            old(self).pool@.open,
        ensures
            final(self).pool.wf(),
            final(self).pool@.open == old(self).pool@.open,
            final(self).pool@.capacity == old(self).pool@.capacity,
            old(self)@.schedules(waker) ==> old(self).pool@.inner.replenished(
                final(self).pool@.inner,
            ),
            !old(self)@.schedules(waker) ==> final(self).pool@.inner == old(self).pool@.inner,
            old(self).pool@.inner.grown(final(self).pool@.inner),
            final(self).blocking == old(self).blocking,
            final(self).cx == old(self).cx,
            final(self)@ == old(self)@.wake(waker),
    {
        match waker {
            Waker::Task(t) => {
                if t < self.tasks.len() {
                    self.tasks[t].note_wake();
                    let done = self.tasks[t].is_done();
                    if !done {
                        self.enqueue(t);
                    }
                    proof {
                        assert(self@.tasks =~= old(self)@.wake(waker).tasks);
                    }
                }
            },
            Waker::Caller => {
                self.notified = true;
            },
        }
        proof {
            if old(self)@.schedules(waker) {
                lemma_replenished_grown(old(self).pool@.inner, self.pool@.inner);
            } else {
                lemma_grown_on(self.pool@.inner, self.pool@.inner, self.pool@.inner);
            }
        }
    }

    /// Delivers the wakers that the context has collected, oldest first.
    fn deliver(&mut self)
        requires
            old(self).pool.wf(),
            old(self).pool@.open,
        ensures
            final(self).pool.wf(),
            final(self).pool@.open == old(self).pool@.open,
            final(self).pool@.capacity == old(self).pool@.capacity,
            old(self).pool@.inner.grown(final(self).pool@.inner),
            final(self).blocking == old(self).blocking,
            final(self).cx.timer == old(self).cx.timer,
            final(self)@ == old(self)@.deliver(),
    {
        let ghost woken = self.cx@.woken;
        let ghost start = ExecutorView {
            cx: ContextView { woken: Seq::empty(), ..self@.cx },
            ..self@
        };
        let mut i: usize = 0;
        proof {
            assert(woken.skip(0) =~= woken);
            lemma_grown_on(self.pool@.inner, self.pool@.inner, self.pool@.inner);
        }
        while i < self.cx.woken.len()
            invariant
                self.pool.wf(),
                self.pool@.open,
                self.pool@.open == old(self).pool@.open,
                self.pool@.capacity == old(self).pool@.capacity,
                old(self).pool@.inner.grown(self.pool@.inner),
                self.blocking == old(self).blocking,
                self.cx == old(self).cx,
                woken == self.cx@.woken,
                0 <= i <= woken.len(),
                (ExecutorView {
                    cx: ContextView { woken: Seq::empty(), ..self@.cx },
                    ..self@
                }).wake_all(woken.skip(i as int)) == start.wake_all(woken),
            decreases woken.len() - i,
        {
            let waker = self.cx.woken[i];
            let ghost before = ExecutorView {
                cx: ContextView { woken: Seq::empty(), ..self@.cx },
                ..self@
            };
            let ghost threads = self.pool@.inner;
            self.wake_one(waker);
            proof {
                lemma_grown_on(old(self).pool@.inner, threads, self.pool@.inner);
                assert(woken.skip(i as int).skip(1) =~= woken.skip(i + 1));
                assert(woken.skip(i as int)[0] == waker);
                assert((ExecutorView {
                    cx: ContextView { woken: Seq::empty(), ..self@.cx },
                    ..self@
                }) == before.wake(waker));
            }
            i += 1;
        }
        self.cx.woken.clear();
        proof {
            assert(woken.skip(i as int) =~= Seq::<Waker>::empty());
        }
    }

    /// One turn of a worker of the task pool: takes the oldest poll job
    /// and polls its task. Returns whether there was a job.
    pub fn run_one(&mut self) -> (ran: bool)
        requires
            old(self).wf(),
        ensures
            final(self).wf(),
            ran == (old(self)@.jobs.len() > 0),
            final(self)@ == old(self)@.run_one(),
            final(self)@.tasks.len() == old(self)@.tasks.len(),
            exists|replaced: InnerView|
                old(self).task_pool().replenished(replaced) && #[trigger] replaced.grown(
                    final(self).task_pool(),
                ),
            old(self).task_pool().grown(final(self).task_pool()),
            (*final(self)).blocking_untouched(*old(self)),
    {
        if self.waiting.len() > 0 {
            let job = self.waiting.pop_front().unwrap();
            match self.pool.offer(job) {
                Ok(()) => {},
                Err(job) => {
                    self.waiting.push_front(job);
                },
            }
            proof {
                assert(old(self).waiting@.subrange(1, old(self).waiting@.len() as int)
                    =~= old(self).waiting@.skip(1));
                assert(self.pool@.queue + self.waiting@ =~= old(self)@.jobs);
            }
        }
        proof {
            assert(self@ == old(self)@);
            if self.pool@.queue.len() == 0 {
                assert(self@.jobs =~= Seq::<usize>::empty());
            } else {
                assert(self@.jobs[0] == self.pool@.queue[0]);
                assert(self.pool@.queue.skip(1) + self.waiting@ =~= self@.jobs.skip(1));
            }
            lemma_run_one_wf(old(self)@);
        }
        let step = self.pool.work(&mut self.spawner);
        let ghost replaced = self.pool@.inner;
        proof {
            lemma_replenished_grown(old(self).pool@.inner, replaced);
            lemma_grown_on(replaced, replaced, replaced);
        }
        match step {
            WorkerStep::Run(t) => {
                assert(t < self.tasks.len()) by {
                    assert(old(self)@.jobs[0] < old(self)@.tasks.len());
                }
                self.cx.waker = Waker::Task(t);
                let _ = self.tasks[t].poll(&mut self.cx);
                proof {
                    assert(self@.tasks =~= old(self)@.tasks.update(
                        t as int,
                        old(self)@.tasks[t as int].poll(
                            ContextView { waker: Waker::Task(t), ..old(self)@.cx },
                        ).0,
                    ));
                }
                proof {
                    let cleared = ExecutorView {
                        cx: ContextView { woken: Seq::empty(), ..self@.cx },
                        ..self@
                    };
                    assert forall|u: int| 0 <= u < cleared.tasks.len() implies (
                    #[trigger] cleared.tasks[u]).wf() by {
                        if u != t {
                            assert(old(self)@.tasks[u].wf());
                        }
                    }
                    lemma_wake_all_valid(cleared, self@.cx.woken);
                }
                self.deliver();
                proof {
                    lemma_grown_on(old(self).pool@.inner, replaced, self.pool@.inner);
                    assert(replaced.grown(self.task_pool()));
                }
                true
            },
            _ => {
                proof {
                    assert(replaced.grown(self.task_pool()));
                }
                false
            },
        }
    }

    /// The clock of the executor.
    pub fn now(&self) -> (now: u64)
        ensures
            now == self@.cx.now,
    {
        self.cx.now
    }

    /// Sets the clock of the executor.
    pub fn set_now(&mut self, now: u64)
        requires
            old(self).wf(),
        ensures
            final(self).wf(),
            final(self)@ == (ExecutorView {
                cx: ContextView { now, ..old(self)@.cx },
                ..old(self)@
            }),
            final(self).task_pool() == old(self).task_pool(),
            (*final(self)).blocking_untouched(*old(self)),
    {
        self.cx.now = now;
    }

    /// Starts the timer thread unless it is running.
    pub fn start_timer_thread(&mut self)
        requires
            old(self).wf(),
        ensures
            final(self).wf(),
            final(self)@ == (ExecutorView {
                cx: old(self)@.cx.with_timer(old(self)@.cx.timer.start()),
                ..old(self)@
            }),
            final(self).task_pool() == old(self).task_pool(),
            (*final(self)).blocking_untouched(*old(self)),
    {
        start_timer_thread(&mut self.cx.timer);
    }

    /// The timer service of the executor.
    pub fn timer(&self) -> (timer: &Timer)
        ensures
            timer@ == self@.cx.timer,
    {
        &self.cx.timer
    }

    /// How many tasks were spawned.
    pub fn task_count(&self) -> (count: usize)
        ensures
            count == self@.tasks.len(),
    {
        self.tasks.len()
    }

    /// Whether the future of `task` has completed.
    pub fn is_done(&self, task: usize) -> (done: bool)
        requires
            task < self@.tasks.len(),
        ensures
            done == self@.tasks[task as int].done(),
    {
        self.tasks[task].is_done()
    }

    /// How many poll jobs wait for a worker.
    pub fn pending_jobs(&self) -> (count: usize)
        requires
            self.wf(),
        ensures
            count == (if self@.jobs.len() <= usize::MAX {
                self@.jobs.len()
            } else {
                usize::MAX as nat
            }),
    {
        let queued = self.pool.queued();
        let waiting = self.waiting.len();
        if waiting <= usize::MAX - queued {
            queued + waiting
        } else {
            usize::MAX
        }
    }

    /// Whether the caller parked in `block_on` has been released.
    pub fn is_notified(&self) -> (notified: bool)
        ensures
            notified == self@.notified,
    {
        self.notified
    }

    /// How many workers of the task pool are alive.
    pub fn num_live_threads(&self) -> (live: usize)
        ensures
            live == self.workers(),
    {
        self.pool.num_live_threads()
    }

    /// Takes note that a worker of the task pool has ended by a panic
    /// in a poll. Its peers replace it at their next turn.
    pub fn worker_exited(&mut self)
        requires
            old(self).wf(),
        ensures
            final(self).wf(),
            final(self)@ == old(self)@,
            (*final(self)).blocking_untouched(*old(self)),
            final(self).task_pool() == (InnerView {
                live: if old(self).workers() > 0 {
                    (old(self).workers() - 1) as usize
                } else {
                    0
                },
                ..old(self).task_pool()
            }),
    {
        self.pool.thread_exited();
    }

    /// Takes note that a worker of the blocking pool has ended by a
    /// panic in its job. Its peers replace it at their next turn.
    pub fn blocking_worker_exited(&mut self)
        requires
            old(self).wf(),
        ensures
            final(self).wf(),
            (*final(self)).tasks_untouched(*old(self)),
            final(self).blocking_jobs() == old(self).blocking_jobs(),
            final(self).blocking_capacity() == old(self).blocking_capacity(),
            final(self).blocking_pool() == (InnerView {
                live: if old(self).blocking_live() > 0 {
                    (old(self).blocking_live() - 1) as usize
                } else {
                    0
                },
                ..old(self).blocking_pool()
            }),
    {
        self.blocking.thread_exited();
    }

    /// How many workers of the blocking pool are alive.
    pub fn num_live_blocking_threads(&self) -> (live: usize)
        ensures
            live == self.blocking_live(),
    {
        self.blocking.num_live_threads()
    }

    /// One turn of the timer thread at the clock of the executor. The
    /// waker of an entry that fires is invoked.
    pub fn fire_timer(&mut self) -> (step: TimerStep)
        requires
            old(self).wf(),
        ensures
            final(self).wf(),
            (final(self)@, step) == old(self)@.fire_timer(),
            old(self).task_pool().grown(final(self).task_pool()),
            (*final(self)).blocking_untouched(*old(self)),
    {
        let step = timer_thread(&mut self.cx.timer, self.cx.now);
        proof {
            assert(self@.tasks == old(self)@.tasks);
            assert(self@.jobs == old(self)@.jobs);
            assert(self@.wf());
        }
        match step {
            TimerStep::Fired { entry, waker: Some(waker) } => {
                let ghost before = self@;
                self.wake_one(waker);
                proof {
                    lemma_wake_wf(before, waker);
                }
            },
            _ => {
                proof {
                    lemma_grown_on(self.pool@.inner, self.pool@.inner, self.pool@.inner);
                }
            },
        }
        step
    }

    /// Lets the runtime take its next turn, as it does while the caller
    /// is parked. Returns whether there was anything to do.
    pub fn turn(&mut self) -> (progressed: bool)
        requires
            old(self).wf(),
        ensures
            final(self).wf(),
            match old(self)@.turn() {
                Some(next) => progressed && final(self)@ == next,
                None => !progressed && (*final(self)).tasks_untouched(*old(self)),
            },
            old(self).task_pool().grown(final(self).task_pool()),
            (*final(self)).blocking_untouched(*old(self)),
    {
        proof {
            lemma_grown_on(self.pool@.inner, self.pool@.inner, self.pool@.inner);
        }
        if self.pool.queued() > 0 || self.waiting.len() > 0 {
            self.run_one()
        } else {
            proof {
                assert(self@.jobs =~= Seq::<usize>::empty());
            }
            match self.cx.timer.next_instant() {
                Some(instant) => {
                    if instant < u64::MAX {
                        if self.cx.now <= instant {
                            self.cx.now = instant + 1;
                        }
                        let _ = self.fire_timer();
                        true
                    } else {
                        false
                    }
                },
                None => false,
            }
        }
    }

    /// Lets workers take up to `budget` poll jobs. Returns how many
    /// jobs were taken; fewer than `budget` only if none was left.
    pub fn run(&mut self, budget: usize) -> (ran: usize)
        requires
            old(self).wf(),
        ensures
            final(self).wf(),
            ran <= budget,
            final(self)@ == old(self)@.run_n(ran as nat),
            final(self)@.tasks.len() == old(self)@.tasks.len(),
            ran < budget ==> final(self)@.jobs.len() == 0,
            old(self).task_pool().grown(final(self).task_pool()),
            (*final(self)).blocking_untouched(*old(self)),
    {
        let mut ran: usize = 0;
        proof {
            lemma_grown_on(self.pool@.inner, self.pool@.inner, self.pool@.inner);
        }
        while ran < budget
            invariant
                self.wf(),
                old(self)@.wf(),
                ran <= budget,
                self@ == old(self)@.run_n(ran as nat),
                self@.tasks.len() == old(self)@.tasks.len(),
                old(self).task_pool().grown(self.task_pool()),
                (*self).blocking_untouched(*old(self)),
            decreases budget - ran,
        {
            let ghost threads = self.task_pool();
            let ran_one = self.run_one();
            proof {
                lemma_grown_on(old(self).task_pool(), threads, self.task_pool());
            }
            if !ran_one {
                return ran;
            }
            proof {
                lemma_run_n_last(old(self)@, ran as nat);
                lemma_run_n_wf(old(self)@, (ran + 1) as nat);
            }
            ran += 1;
        }
        ran
    }

    /// Polls `future` once on behalf of a caller that waits for it: the
    /// notification is reset, the future is polled with the waker of the
    /// caller, and the wakers invoked during the poll are delivered. On
    /// `Pending` the caller parks until it is notified.
    pub fn poll_caller<G: Future>(&mut self, future: &mut G) -> (result: Poll<G::Output>)
        requires
            old(self).wf(),
            old(future).inv(),
        ensures
            final(self).wf(),
            final(future).inv(),
            (final(self)@, *final(future), result) == old(self)@.poll_caller(*old(future)),
            old(self).task_pool().grown(final(self).task_pool()),
            (*final(self)).blocking_untouched(*old(self)),
    {
        self.cx.waker = Waker::Caller;
        self.notified = false;
        let result = future.poll(&mut self.cx);
        proof {
            let middle = ExecutorView {
                cx: ContextView { woken: Seq::empty(), ..self@.cx },
                ..self@
            };
            assert(middle.wf() && middle.valid()) by {
                assert(old(self)@.wf());
                assert(middle.tasks == old(self)@.tasks);
                assert(middle.jobs == old(self)@.jobs);
            }
            lemma_wake_all_wf(middle, self@.cx.woken);
            lemma_wake_all_valid(middle, self@.cx.woken);
        }
        self.deliver();
        result
    }

    /// Polls `future` on behalf of the caller until it has completed,
    /// and returns its output. While the future is pending and the caller
    /// has not been released, the rest of the runtime takes its turns.
    /// Each poll and each turn takes one step of `budget`. The result is
    /// `None` when the budget runs out, and when nothing is left that
    /// could release the caller.
    pub fn block_on<G: Future>(&mut self, future: G, budget: usize) -> (output: Option<G::Output>)
        requires
            old(self).wf(),
            future.inv(),
        ensures
            final(self).wf(),
            (final(self)@, output) == old(self)@.drive(future, false, budget as nat),
            final(self)@.tasks.len() == old(self)@.tasks.len(),
            old(self).task_pool().grown(final(self).task_pool()),
            (*final(self)).blocking_untouched(*old(self)),
    {
        proof {
            lemma_drive_wf(self@, future, false, budget as nat);
        }
        let mut pending = future;
        let mut parked = false;
        let mut left = budget;
        proof {
            lemma_grown_on(self.pool@.inner, self.pool@.inner, self.pool@.inner);
        }
        while left > 0
            invariant
                self.wf(),
                pending.inv(),
                old(self)@.drive(future, false, budget as nat).0.tasks.len() == old(self)@.tasks.len(),
                old(self).task_pool().grown(self.task_pool()),
                (*self).blocking_untouched(*old(self)),
                self@.drive(pending, parked, left as nat) == old(self)@.drive(
                    future,
                    false,
                    budget as nat,
                ),
            decreases left,
        {
            let ghost target = self@.drive(pending, parked, left as nat);
            if !parked || self.notified {
                proof {
                    let (after, next, result) = self@.poll_caller(pending);
                    assert(target == (match result {
                        Poll::Ready(value) => (after, Some(value)),
                        Poll::Pending => after.drive(next, true, (left - 1) as nat),
                    }));
                }
                let ghost threads = self.task_pool();
                let polled = self.poll_caller(&mut pending);
                proof {
                    lemma_grown_on(old(self).task_pool(), threads, self.task_pool());
                }
                match polled {
                    Poll::Ready(value) => {
                        return Some(value);
                    },
                    Poll::Pending => {
                        parked = true;
                    },
                }
            } else {
                proof {
                    assert(target == (match self@.turn() {
                        Some(next) => next.drive(pending, true, (left - 1) as nat),
                        None => (self@, None),
                    }));
                }
                let ghost threads = self.task_pool();
                let progressed = self.turn();
                proof {
                    lemma_grown_on(old(self).task_pool(), threads, self.task_pool());
                }
                if !progressed {
                    return None;
                }
            }
            left -= 1;
        }
        None
    }

    /// One attempt to hand a blocking job to the blocking pool. On
    /// success the caller gets the receiver on which the result of the
    /// job arrives, once, or on which it sees that the job has died.
    /// `Err` gives the job back: the queue is full, or the pool has no
    /// thread and none could be started; the caller sleeps and tries
    /// again.
    pub fn schedule_blocking<T>(&mut self, job: B) -> (result: Result<Receiver<T>, B>)
        requires
            old(self).wf(),
        ensures
            final(self).wf(),
            (*final(self)).tasks_untouched(*old(self)),
            final(self).blocking_capacity() == old(self).blocking_capacity(),
            old(self).blocking_pool().replenished(final(self).blocking_pool()),
            result is Ok <==> final(self).blocking_live() > 0 && old(self).blocking_jobs().len()
                < old(self).blocking_capacity(),
            match result {
                Ok(receiver) => {
                    &&& receiver.wf()
                    &&& receiver@ == crate::sync::channel::fresh::<T>(1)
                    &&& final(self).blocking_jobs() == old(self).blocking_jobs().push(job)
                },
                Err(back) => back == job && final(self).blocking_jobs() == old(self).blocking_jobs(),
            },
    {
        let (sender, receiver) = oneshot::<T>();
        match self.blocking.schedule(&mut self.spawner, BlockingJob { job, sender }) {
            Ok(()) => {
                proof {
                    assert(self.blocking_jobs() =~= old(self).blocking_jobs().push(job));
                }
                Ok(receiver)
            },
            Err(back) => Err(back.job),
        }
    }

    /// One turn of a worker of the blocking pool: the oldest blocking
    /// job with the sender for its result, if a job waits.
    pub fn next_blocking(&mut self) -> (next: Option<BlockingJob<B>>)
        requires
            old(self).wf(),
        ensures
            final(self).wf(),
            (*final(self)).tasks_untouched(*old(self)),
            final(self).blocking_capacity() == old(self).blocking_capacity(),
            old(self).blocking_pool().replenished(final(self).blocking_pool()),
            match next {
                Some(queued) => {
                    &&& old(self).blocking_jobs().len() > 0
                    &&& queued.job == old(self).blocking_jobs()[0]
                    &&& final(self).blocking_jobs() == old(self).blocking_jobs().skip(1)
                },
                None => old(self).blocking_jobs().len() == 0 && final(self).blocking_jobs() == old(self).blocking_jobs(),
            },
    {
        match self.blocking.work(&mut self.spawner) {
            WorkerStep::Run(queued) => {
                proof {
                    assert(self.blocking_jobs() =~= old(self).blocking_jobs().skip(1));
                }
                Some(queued)
            },
            _ => None,
        }
    }
}

/// `n + 1` turns of a worker are `n` turns and one more.
proof fn lemma_run_n_last<F: Future<Output = ()>>(executor: ExecutorView<F>, n: nat)
    ensures
        executor.run_n(n + 1) == executor.run_n(n).run_one(),
    decreases n,
{
    assert(executor.run_n(n + 1) == executor.run_one().run_n(n));
    if n > 0 {
        lemma_run_n_last(executor.run_one(), (n - 1) as nat);
        assert(executor.run_n(n) == executor.run_one().run_n((n - 1) as nat));
    } else {
        assert(executor.run_one().run_n(0) == executor.run_one());
    }
}

/// No task is polled more often than it was woken, counting its spawn
/// as one wake.
pub proof fn lemma_polls_bounded_by_wakes<F: Future<Output = ()>>(
    executor: ExecutorView<F>,
    task: usize,
)
    requires
        executor.wf(),
        task < executor.tasks.len(),
    ensures
        executor.tasks[task as int].polls <= executor.tasks[task as int].wakes + 1,
{
}

/// What invoking wakers leaves alone: the futures and the polls of all
/// tasks, and the jobs that were queued before, which stay in front.
pub open spec fn extends<F: Future<Output = ()>>(
    before: ExecutorView<F>,
    after: ExecutorView<F>,
) -> bool {
    &&& after.tasks.len() == before.tasks.len()
    &&& forall|u: int|
        0 <= u < before.tasks.len() ==> (#[trigger] after.tasks[u]).future == before.tasks[u].future
            && after.tasks[u].polls == before.tasks[u].polls
    &&& before.jobs.len() <= after.jobs.len()
    &&& forall|k: int| 0 <= k < before.jobs.len() ==> (#[trigger] after.jobs[k]) == before.jobs[k]
    &&& after.cx == before.cx
}

/// Invoking wakers leaves clock, timer and futures as valid as they were.
proof fn lemma_wake_all_valid<F: Future<Output = ()>>(executor: ExecutorView<F>, woken: Seq<Waker>)
    requires
        executor.valid(),
    ensures
        executor.wake_all(woken).valid(),
        executor.wake_all(woken).cx == executor.cx,
{
    lemma_wake_all_extends(executor, woken);
    let after = executor.wake_all(woken);
    assert forall|t: int| 0 <= t < after.tasks.len() implies (#[trigger] after.tasks[t]).wf() by {
        assert(executor.tasks[t].wf());
    }
}

proof fn lemma_wake_all_extends<F: Future<Output = ()>>(executor: ExecutorView<F>, woken: Seq<Waker>)
    ensures
        extends(executor, executor.wake_all(woken)),
    decreases woken.len(),
{
    if woken.len() > 0 {
        let next = executor.wake(woken[0]);
        assert(extends(executor, next));
        lemma_wake_all_extends(next, woken.skip(1));
        let last = next.wake_all(woken.skip(1));
        assert forall|u: int| 0 <= u < executor.tasks.len() implies (#[trigger] last.tasks[u]).future
            == executor.tasks[u].future && last.tasks[u].polls == executor.tasks[u].polls by {
            assert(next.tasks[u].future == executor.tasks[u].future);
        }
        assert forall|k: int| 0 <= k < executor.jobs.len() implies (#[trigger] last.jobs[k])
            == executor.jobs[k] by {
            assert(next.jobs[k] == executor.jobs[k]);
        }
    }
}

/// What one turn of a worker does to the tasks and to the queue: the
/// task of the oldest job is polled once if it is live, no other future
/// is touched, and the jobs behind the oldest move up by one place.
pub proof fn lemma_run_one_frame<F: Future<Output = ()>>(executor: ExecutorView<F>)
    requires
        executor.wf(),
        executor.jobs.len() > 0,
    ensures
        ({
            let after = executor.run_one();
            let head = executor.jobs[0] as int;
            &&& after.tasks.len() == executor.tasks.len()
            &&& after.tasks[head].polls == executor.tasks[head].polls + if executor.tasks[head].done() {
                0nat
            } else {
                1nat
            }
            &&& executor.tasks[head].done() ==> after.tasks[head].done()
            &&& forall|u: int|
                0 <= u < executor.tasks.len() && u != head ==> (#[trigger] after.tasks[u]).future
                    == executor.tasks[u].future && after.tasks[u].polls == executor.tasks[u].polls
            &&& executor.jobs.len() - 1 <= after.jobs.len()
            &&& forall|k: int|
                0 <= k < executor.jobs.len() - 1 ==> (#[trigger] after.jobs[k]) == executor.jobs[k + 1]
        }),
{
    let t = executor.jobs[0];
    assert(t < executor.tasks.len());
    let cx = ContextView { waker: Waker::Task(t), ..executor.cx };
    let (task, polled, result) = executor.tasks[t as int].poll(cx);
    let middle = ExecutorView {
        tasks: executor.tasks.update(t as int, task),
        jobs: executor.jobs.skip(1),
        cx: polled,
        ..executor
    };
    let cleared = ExecutorView { cx: ContextView { woken: Seq::empty(), ..polled }, ..middle };
    lemma_wake_all_extends(cleared, polled.woken);
    let after = executor.run_one();
    assert(after == cleared.wake_all(polled.woken));
    assert(after.tasks[t as int].polls == cleared.tasks[t as int].polls);
    assert(after.tasks[t as int].future == cleared.tasks[t as int].future);
    assert forall|u: int| 0 <= u < executor.tasks.len() && u != t implies (#[trigger] after.tasks[u]).future
        == executor.tasks[u].future && after.tasks[u].polls == executor.tasks[u].polls by {
        assert(cleared.tasks[u] == executor.tasks[u]);
    }
    assert forall|k: int| 0 <= k < executor.jobs.len() - 1 implies (#[trigger] after.jobs[k])
        == executor.jobs[k + 1] by {
        assert(cleared.jobs[k] == executor.jobs[k + 1]);
    }
}

/// Worker turns never take a poll back.
pub proof fn lemma_polls_grow<F: Future<Output = ()>>(executor: ExecutorView<F>, n: nat, task: int)
    requires
        executor.wf(),
        0 <= task < executor.tasks.len(),
    ensures
        executor.run_n(n).tasks.len() == executor.tasks.len(),
        executor.run_n(n).tasks[task].polls >= executor.tasks[task].polls,
    decreases n,
{
    if n > 0 {
        lemma_run_one_wf(executor);
        if executor.jobs.len() > 0 {
            lemma_run_one_frame(executor);
        }
        lemma_polls_grow(executor.run_one(), (n - 1) as nat, task);
    }
}

/// Completion is final: a task whose future has completed stays done
/// and is not polled again, however many turns the workers take, and
/// invoking its waker queues nothing.
pub proof fn lemma_done_is_final<F: Future<Output = ()>>(
    executor: ExecutorView<F>,
    task: usize,
    turns: nat,
)
    requires
        executor.wf(),
        task < executor.tasks.len(),
        executor.tasks[task as int].done(),
    ensures
        executor.run_n(turns).tasks.len() == executor.tasks.len(),
        executor.run_n(turns).tasks[task as int].done(),
        executor.run_n(turns).tasks[task as int].polls == executor.tasks[task as int].polls,
        executor.wake(Waker::Task(task)).jobs == executor.jobs,
        executor.wake(Waker::Task(task)).tasks[task as int].done(),
        executor.wake(Waker::Task(task)).tasks[task as int].polls
            == executor.tasks[task as int].polls,
    decreases turns,
{
    if turns > 0 {
        lemma_run_one_wf(executor);
        if executor.jobs.len() > 0 {
            lemma_run_one_frame(executor);
        }
        lemma_done_is_final(executor.run_one(), task, (turns - 1) as nat);
    }
}

/// Nobody starves in the queue: a live task whose poll job waits at
/// place `i` is polled within `i + 1` turns of a worker.
pub proof fn lemma_queued_task_is_polled<F: Future<Output = ()>>(executor: ExecutorView<F>, i: nat)
    requires
        executor.wf(),
        i < executor.jobs.len(),
        !executor.tasks[executor.jobs[i as int] as int].done(),
    ensures
        executor.run_n(i + 1).tasks.len() == executor.tasks.len(),
        executor.run_n(i + 1).tasks[executor.jobs[i as int] as int].polls
            >= executor.tasks[executor.jobs[i as int] as int].polls + 1,
    decreases i,
{
    let t = executor.jobs[i as int] as int;
    assert(0 <= t < executor.tasks.len());
    let next = executor.run_one();
    lemma_run_one_wf(executor);
    lemma_run_one_frame(executor);
    assert(executor.run_n(i + 1) == next.run_n(i));
    if executor.jobs[0] == t {
        lemma_polls_grow(next, i, t);
    } else {
        assert(i > 0);
        assert(next.jobs[i - 1] == executor.jobs[i as int]);
        lemma_queued_task_is_polled(next, (i - 1) as nat);
    }
}

/// Every wake is followed by a poll: once the waker of a live task has
/// been invoked, a job for the task is in the queue, and the task is
/// polled by the time the workers have taken the jobs that were queued
/// before it and this one.
pub proof fn lemma_wake_leads_to_poll<F: Future<Output = ()>>(executor: ExecutorView<F>, task: usize)
    requires
        executor.wf(),
        task < executor.tasks.len(),
        !executor.tasks[task as int].done(),
    ensures
        ({
            let woken = executor.wake(Waker::Task(task));
            let turns = executor.jobs.len() + 1;
            &&& woken.jobs == executor.jobs.push(task)
            &&& woken.tasks[task as int].wakes == executor.tasks[task as int].wakes + 1
            &&& woken.run_n(turns).tasks.len() == executor.tasks.len()
            &&& woken.run_n(turns).tasks[task as int].polls >= executor.tasks[task as int].polls + 1
        }),
{
    let woken = executor.wake(Waker::Task(task));
    lemma_wake_wf(executor, Waker::Task(task));
    lemma_queued_task_is_polled(woken, executor.jobs.len());
}

/// Turns of a worker keep the executor well-formed and add no task.
pub proof fn lemma_run_n_wf<F: Future<Output = ()>>(executor: ExecutorView<F>, n: nat)
    requires
        executor.wf(),
    ensures
        executor.run_n(n).wf(),
        executor.run_n(n).tasks.len() == executor.tasks.len(),
    decreases n,
{
    if n > 0 {
        lemma_run_one_wf(executor);
        lemma_run_n_wf(executor.run_one(), (n - 1) as nat);
    }
}

/// A turn of the runtime keeps the executor well-formed and adds no
/// task.
pub proof fn lemma_turn_wf<F: Future<Output = ()>>(executor: ExecutorView<F>)
    requires
        executor.wf(),
    ensures
        executor.turn() matches Some(next) ==> next.wf() && next.tasks.len()
            == executor.tasks.len(),
{
    if executor.jobs.len() > 0 {
        lemma_run_one_wf(executor);
    } else if let Some(next) = executor.turn() {
        let queue = executor.cx.timer.queue->0;
        let now = if executor.cx.now <= queue[0].instant {
            (queue[0].instant + 1) as u64
        } else {
            executor.cx.now
        };
        let moved = ExecutorView { cx: ContextView { now, ..executor.cx }, ..executor };
        let (timer, step) = moved.cx.timer.step(moved.cx.now);
        let fired = ExecutorView { cx: moved.cx.with_timer(timer), ..moved };
        assert(fired.wf()) by {
            assert(fired.tasks == executor.tasks);
            assert(fired.jobs == executor.jobs);
        }
        if let TimerStep::Fired { waker: Some(waker), .. } = step {
            lemma_wake_wf(fired, waker);
        }
    }
}

/// A poll on behalf of the caller keeps the executor well-formed and
/// adds no task.
pub proof fn lemma_poll_caller_wf<F: Future<Output = ()>, G: Future>(
    executor: ExecutorView<F>,
    future: G,
)
    requires
        executor.wf(),
    ensures
        executor.poll_caller(future).0.wf(),
        executor.poll_caller(future).0.tasks.len() == executor.tasks.len(),
{
    let polled = future.poll_spec(ContextView { waker: Waker::Caller, ..executor.cx }).1;
    let cleared = ExecutorView {
        cx: ContextView { woken: Seq::empty(), ..polled },
        notified: false,
        ..executor
    };
    assert(cleared.wf()) by {
        assert(cleared.tasks == executor.tasks);
        assert(cleared.jobs == executor.jobs);
    }
    lemma_wake_all_wf(cleared, polled.woken);
}

/// Whatever course `block_on` takes, the executor stays well-formed
/// and no task is added: what holds of every executor holds after it.
pub proof fn lemma_drive_wf<F: Future<Output = ()>, G: Future>(
    executor: ExecutorView<F>,
    future: G,
    parked: bool,
    budget: nat,
)
    requires
        executor.wf(),
    ensures
        executor.drive(future, parked, budget).0.wf(),
        executor.drive(future, parked, budget).0.tasks.len() == executor.tasks.len(),
    decreases budget,
{
    if budget > 0 {
        if !parked || executor.notified {
            lemma_poll_caller_wf(executor, future);
            let (after, next, result) = executor.poll_caller(future);
            if result is Pending {
                lemma_drive_wf(after, next, true, (budget - 1) as nat);
            }
        } else {
            lemma_turn_wf(executor);
            if let Some(next) = executor.turn() {
                lemma_drive_wf(next, future, true, (budget - 1) as nat);
            }
        }
    }
}

/// A future that is ready at its first poll is all that `block_on`
/// looks at: the caller gets its value, and no task is polled.
pub proof fn lemma_block_on_ready_at_once<F: Future<Output = ()>, G: Future>(
    executor: ExecutorView<F>,
    future: G,
    budget: nat,
)
    requires
        budget >= 1,
        executor.poll_caller(future).2 is Ready,
    ensures
        executor.drive(future, false, budget) == (
            executor.poll_caller(future).0,
            Some(executor.poll_caller(future).2->Ready_0),
        ),
{
}

/// A caller that nothing can release is not kept waiting: where the
/// future is pending without a wake, no poll job is queued and the timer
/// has no entry, `block_on` gives up after the one poll.
pub proof fn lemma_block_on_gives_up<F: Future<Output = ()>, G: Future>(
    executor: ExecutorView<F>,
    future: G,
    budget: nat,
)
    requires
        budget >= 2,
        executor.poll_caller(future).2 is Pending,
        !executor.poll_caller(future).0.notified,
        executor.poll_caller(future).0.turn() is None,
    ensures
        executor.drive(future, false, budget) == (
            executor.poll_caller(future).0,
            None::<G::Output>,
        ),
{
    let (after, next, result) = executor.poll_caller(future);
    assert(after.drive(next, true, (budget - 1) as nat) == (after, None::<G::Output>));
}

} // verus!
