//! A pool of worker threads behind a bounded queue of jobs.

pub mod error;

pub use error::{NewThreadPoolError, StartThreadsError, TryScheduleError};
pub mod task;

pub use task::Task;

use vstd::prelude::*;
use vstd::string::StringExecFns;
use std::collections::VecDeque;
use crate::future::Poll;
use crate::sync::channel::RecvTimeoutError;
use crate::util::atomic_counter::AtomicCounter;
use crate::util::decimal::{decimal, decimal_digits};
use crate::util::io_error::IoError;

verus! {

/// How many queued jobs a pool takes for each of its threads.
pub const JOBS_PER_THREAD: usize = 200;

/// How long a worker waits for a job before it looks after its peers, in
/// milliseconds.
pub const WORKER_WAIT_MS: u64 = 500;

/// How long a caller sleeps between two attempts to schedule or to join,
/// in milliseconds.
pub const RETRY_MS: u64 = 10;

/// Starts operating-system threads for a pool.
pub trait Spawner {
    /// Starts a worker thread called `name`.
    fn spawn(&mut self, name: String) -> Result<(), IoError>;
}

/// What a worker does after its wait for a job has ended.
pub enum WorkerStep<J> {
    /// Run this job, then wait for the next.
    Run(J),
    /// Nothing arrived: wait again.
    Idle,
    /// The pool is gone and the queue is empty: the thread ends.
    Exit,
}

/// What the threads of a pool share: the name, the numbering of thread
/// names, the number of threads wanted and the number alive.
pub struct Inner {
    name: String,
    next_name_num: AtomicCounter,
    size: usize,
    live: usize,
    names: Ghost<Seq<Seq<char>>>,
}

/// The mathematical content of an [`Inner`].
pub struct InnerView {
    pub name: Seq<char>,
    /// The number in the name of the next thread.
    pub next_name_num: usize,
    /// How many threads the pool is meant to have.
    pub size: usize,
    /// How many threads are alive.
    pub live: usize,
    /// The names of the threads that the spawner was asked for, in order.
    pub names: Seq<Seq<char>>,
}

impl View for Inner {
    type V = InnerView;

    closed spec fn view(&self) -> InnerView {
        InnerView {
            name: self.name@,
            next_name_num: self.next_name_num@,
            size: self.size,
            live: self.live,
            names: self.names@,
        }
    }
}

/// The name of the thread with number `n` in the pool called `name`.
pub open spec fn thread_name_spec(name: Seq<char>, n: usize) -> Seq<char> {
    name + seq!['-'] + decimal_digits(n as nat)
}

/// The name of the thread with number `n` in the pool called `name`.
pub fn thread_name(name: &str, n: usize) -> (text: String)
    ensures
        text@ == thread_name_spec(name@, n),
{
    proof {
        reveal_strlit("-");
    }
    let mut text = String::from_str(name);
    text.append("-");
    text.append(decimal(n).as_str());
    proof {
        assert("-"@ =~= seq!['-']);
    }
    text
}

/// What a spawn means to a pool with `live` threads: a failure is told
/// apart by whether any thread is left to try again.
pub fn spawn_outcome(live: usize, spawned: Result<(), IoError>) -> (result: Result<
    (),
    StartThreadsError,
>)
    ensures
        match spawned {
            Ok(()) => result is Ok,
            Err(e) => result == Err::<(), StartThreadsError>(
                if live == 0 {
                    StartThreadsError::NoThreads(e)
                } else {
                    StartThreadsError::Respawn(e)
                },
            ),
        },
{
    match spawned {
        Ok(()) => Ok(()),
        Err(e) => if live == 0 {
            Err(StartThreadsError::NoThreads(e))
        } else {
            Err(StartThreadsError::Respawn(e))
        },
    }
}

impl InnerView {
    /// The number after `n` in the numbering of thread names.
    pub open spec fn after(n: usize) -> usize {
        if n == usize::MAX {
            0
        } else {
            (n + 1) as usize
        }
    }

    /// The number that is `count` numbers after `first`.
    pub open spec fn advance(first: usize, count: nat) -> usize
        decreases count,
    {
        if count == 0 {
            first
        } else {
            Self::after(Self::advance(first, (count - 1) as nat))
        }
    }
}

/// The names of `count` threads of the pool called `name`, numbered
/// from `first` on.
pub open spec fn numbered(name: Seq<char>, first: usize, count: nat) -> Seq<Seq<char>>
    decreases count,
{
    if count == 0 {
        Seq::empty()
    } else {
        numbered(name, first, (count - 1) as nat).push(
            thread_name_spec(name, InnerView::advance(first, (count - 1) as nat)),
        )
    }
}

impl InnerView {
    /// What one attempt to replace missing threads leaves. Threads are
    /// asked for, one after the other and numbered on from where the
    /// numbering stood, until the pool has as many as it is meant to
    /// have or a spawn fails: each success is one more live thread, and
    /// a pool that still lacks threads has asked for one more than it
    /// got. A pool that lacks none is left as it is.
    pub open spec fn replenished(self, after: InnerView) -> bool {
        let asked = (after.live - self.live + if after.live < after.size {
            1int
        } else {
            0int
        }) as nat;
        &&& after.name == self.name
        &&& after.size == self.size
        &&& after.live >= self.live
        &&& self.live >= self.size ==> after == self
        &&& self.live <= self.size ==> after.live <= self.size
        &&& after.names == self.names + numbered(self.name, self.next_name_num, asked)
        &&& after.next_name_num == InnerView::advance(self.next_name_num, asked)
    }

    /// What any number of such attempts leave: no thread is lost, and
    /// the threads asked for since are numbered on without a gap, at
    /// least one name for each thread gained.
    pub open spec fn grown(self, after: InnerView) -> bool {
        let asked = after.names.len() - self.names.len();
        &&& after.name == self.name
        &&& after.size == self.size
        &&& after.live >= self.live
        &&& after.live - self.live <= asked
        &&& after.names == self.names + numbered(self.name, self.next_name_num, asked as nat)
        &&& after.next_name_num == InnerView::advance(self.next_name_num, asked as nat)
    }
}

/// As many names as threads asked for.
pub proof fn lemma_numbered_len(name: Seq<char>, first: usize, count: nat)
    ensures
        numbered(name, first, count).len() == count,
    decreases count,
{
    if count > 0 {
        lemma_numbered_len(name, first, (count - 1) as nat);
    }
}

/// Numbering on from where a numbering stopped is one numbering.
pub proof fn lemma_numbered_on(name: Seq<char>, first: usize, a: nat, b: nat)
    ensures
        InnerView::advance(InnerView::advance(first, a), b) == InnerView::advance(first, a + b),
        numbered(name, first, a) + numbered(name, InnerView::advance(first, a), b) == numbered(
            name,
            first,
            a + b,
        ),
    decreases b,
{
    if b == 0 {
        assert(numbered(name, first, a) + numbered(name, InnerView::advance(first, a), 0)
            =~= numbered(name, first, a));
    } else {
        lemma_numbered_on(name, first, a, (b - 1) as nat);
        assert(numbered(name, first, a) + numbered(name, InnerView::advance(first, a), b)
            =~= (numbered(name, first, a) + numbered(
            name,
            InnerView::advance(first, a),
            (b - 1) as nat,
        )).push(
            thread_name_spec(
                name,
                InnerView::advance(InnerView::advance(first, a), (b - 1) as nat),
            ),
        ));
    }
}

/// One attempt to replace missing threads is growth.
pub proof fn lemma_replenished_grown(before: InnerView, after: InnerView)
    requires
        before.replenished(after),
    ensures
        before.grown(after),
{
    let asked = (after.live - before.live + if after.live < after.size {
        1int
    } else {
        0int
    }) as nat;
    lemma_numbered_len(before.name, before.next_name_num, asked);
}

/// Nothing is growth, and growth upon growth is growth.
pub proof fn lemma_grown_on(first: InnerView, second: InnerView, third: InnerView)
    requires
        first.grown(second),
        second.grown(third),
    ensures
        first.grown(first),
        first.grown(third),
{
    assert(first.names =~= first.names + numbered(first.name, first.next_name_num, 0));
    let a = (second.names.len() - first.names.len()) as nat;
    let b = (third.names.len() - second.names.len()) as nat;
    lemma_numbered_on(first.name, first.next_name_num, a, b);
    assert(third.names =~= first.names + (numbered(first.name, first.next_name_num, a)
        + numbered(first.name, InnerView::advance(first.next_name_num, a), b)));
}

/// Counting from 0 gives the count, as long as numbers do not run out.
pub proof fn lemma_advance_from_zero(count: nat)
    requires
        count <= usize::MAX,
    ensures
        InnerView::advance(0, count) == count,
    decreases count,
{
    if count > 0 {
        lemma_advance_from_zero((count - 1) as nat);
    }
}

impl Inner {
    /// The shared part of a pool called `name` that is meant to have
    /// `size` threads and has none yet.
    pub fn new(name: &str, size: usize) -> (inner: Inner)
        ensures
            inner@ == (InnerView {
                name: name@,
                next_name_num: 0,
                size,
                live: 0,
                names: Seq::empty(),
            }),
    {
        Inner {
            name: String::from_str(name),
            next_name_num: AtomicCounter::new(),
            size,
            live: 0,
            names: Ghost(Seq::empty()),
        }
    }

    /// How many threads are alive.
    pub fn num_live_threads(&self) -> (live: usize)
        ensures
            live == self@.live,
    {
        self.live
    }

    /// Starts one thread if the pool has fewer than it is meant to have.
    /// The thread gets the next number in its name, whether or not the
    /// spawn succeeds.
    pub fn start_thread<S: Spawner>(&mut self, spawner: &mut S) -> (result: Result<
        (),
        StartThreadsError,
    >)
        ensures
            final(self)@.name == old(self)@.name,
            final(self)@.size == old(self)@.size,
            old(self)@.live >= old(self)@.size ==> result is Ok && final(self)@ == old(self)@
                && *final(spawner) == *old(spawner),
            old(self)@.live < old(self)@.size ==> {
                &&& final(self)@.next_name_num == InnerView::after(old(self)@.next_name_num)
                &&& final(self)@.names == old(self)@.names.push(
                    thread_name_spec(old(self)@.name, old(self)@.next_name_num),
                )
                &&& match result {
                    Ok(()) => final(self)@.live == old(self)@.live + 1,
                    Err(StartThreadsError::NoThreads(_)) => old(self)@.live == 0
                        && final(self)@.live == 0,
                    Err(StartThreadsError::Respawn(_)) => old(self)@.live > 0 && final(self)@.live
                        == old(self)@.live,
                }
            },
    {
        if self.live < self.size {
            let name = thread_name(self.name.as_str(), self.next_name_num.next());
            proof {
                self.names@ = self.names@.push(name@);
            }
            let result = spawn_outcome(self.live, spawner.spawn(name));
            if result.is_ok() {
                self.live = self.live + 1;
            }
            result
        } else {
            Ok(())
        }
    }

    /// Starts threads until the pool has as many as it is meant to have,
    /// and stops at the first spawn that fails.
    pub fn start_threads<S: Spawner>(&mut self, spawner: &mut S) -> (result: Result<
        (),
        StartThreadsError,
    >)
        ensures
            old(self)@.replenished(final(self)@),
            old(self)@.live >= old(self)@.size ==> *final(spawner) == *old(spawner),
            result is Ok <==> final(self)@.live >= final(self)@.size,
            (result matches Err(StartThreadsError::NoThreads(_))) <==> final(self)@.live == 0
                && final(self)@.size > 0,
            (result matches Err(StartThreadsError::Respawn(_))) <==> 0 < final(self)@.live < final(self)@.size,
    {
        let ghost mut asked: nat = 0;
        proof {
            assert(self@.names =~= self@.names + numbered(self@.name, self@.next_name_num, 0));
        }
        while self.live < self.size
            invariant
                self@.name == old(self)@.name,
                self@.size == old(self)@.size,
                self@.live == old(self)@.live + asked,
                old(self)@.live >= old(self)@.size ==> *self == *old(self) && *spawner == *old(spawner),
                old(self)@.live <= old(self)@.size ==> self@.live <= old(self)@.size,
                self@.names == old(self)@.names + numbered(
                    old(self)@.name,
                    old(self)@.next_name_num,
                    asked,
                ),
                self@.next_name_num == InnerView::advance(old(self)@.next_name_num, asked),
            decreases self.size - self.live,
        {
            let result = self.start_thread(spawner);
            proof {
                assert(self@.names =~= old(self)@.names + numbered(
                    old(self)@.name,
                    old(self)@.next_name_num,
                    asked + 1,
                ));
                asked = asked + 1;
            }
            match result {
                Ok(()) => {},
                Err(e) => {
                    return Err(e);
                },
            }
        }
        Ok(())
    }

    /// Takes note that one thread has ended, by returning or by a panic
    /// in its job.
    pub fn thread_exited(&mut self)
        ensures
            final(self)@ == (InnerView {
                live: if old(self)@.live > 0 {
                    (old(self)@.live - 1) as usize
                } else {
                    0
                },
                ..old(self)@
            }),
    {
        if self.live > 0 {
            self.live = self.live - 1;
        }
    }

    /// One turn of a worker's loop, once its wait for a job has ended
    /// with `received`. With a job or after a timeout the worker first
    /// replaces peers that have died; a spawn that fails then is passed
    /// over. When the queue is closed and empty the worker ends.
    pub fn work<J, S: Spawner>(
        &mut self,
        spawner: &mut S,
        received: Result<J, RecvTimeoutError>,
    ) -> (step: WorkerStep<J>)
        ensures
            (received matches Err(RecvTimeoutError::Disconnected)) || old(self)@.live >= old(self)@.size ==> *final(spawner) == *old(spawner),
            match received {
                Ok(job) => step == WorkerStep::Run(job) && old(self)@.replenished(final(self)@),
                Err(RecvTimeoutError::Timeout) => step is Idle && old(self)@.replenished(
                    final(self)@,
                ),
                Err(RecvTimeoutError::Disconnected) => step is Exit && final(self)@ == (InnerView {
                    live: if old(self)@.live > 0 {
                        (old(self)@.live - 1) as usize
                    } else {
                        0
                    },
                    ..old(self)@
                }),
            },
    {
        match received {
            Ok(job) => {
                let _ = self.start_threads(spawner);
                WorkerStep::Run(job)
            },
            Err(RecvTimeoutError::Timeout) => {
                let _ = self.start_threads(spawner);
                WorkerStep::Idle
            },
            Err(RecvTimeoutError::Disconnected) => {
                self.thread_exited();
                WorkerStep::Exit
            },
        }
    }
}

/// A fixed number of worker threads and the bounded queue of jobs that
/// they take from, oldest first.
pub struct ThreadPool<J> {
    inner: Inner,
    queue: VecDeque<J>,
    capacity: usize,
    open: bool,
}

/// The mathematical content of a [`ThreadPool`].
pub struct ThreadPoolView<J> {
    pub inner: InnerView,
    /// The jobs that wait for a worker, oldest first.
    pub queue: Seq<J>,
    /// How many jobs the queue takes.
    pub capacity: usize,
    /// Whether jobs can still be scheduled.
    pub open: bool,
}

impl<J> View for ThreadPool<J> {
    type V = ThreadPoolView<J>;

    closed spec fn view(&self) -> ThreadPoolView<J> {
        ThreadPoolView {
            inner: self.inner@,
            queue: self.queue@,
            capacity: self.capacity,
            open: self.open,
        }
    }
}

impl<J> ThreadPoolView<J> {
    /// The queue keeps its bound, which is 200 jobs for each thread.
    pub open spec fn wf(self) -> bool {
        &&& self.inner.size >= 1
        &&& self.capacity == self.inner.size * JOBS_PER_THREAD
        &&& self.queue.len() <= self.capacity
    }

    /// What a worker's wait for a job ends with, and the queue after it.
    pub open spec fn recv(self) -> (ThreadPoolView<J>, Result<J, RecvTimeoutError>) {
        if self.queue.len() > 0 {
            (ThreadPoolView { queue: self.queue.skip(1), ..self }, Ok(self.queue[0]))
        } else if self.open {
            (self, Err(RecvTimeoutError::Timeout))
        } else {
            (self, Err(RecvTimeoutError::Disconnected))
        }
    }
}

pub open spec fn empty_name_text() -> Seq<char> {
    "ThreadPool::new called with empty name"@
}

pub open spec fn invalid_size_text() -> Seq<char> {
    "ThreadPool::new called with invalid size value: 0"@
}

pub open spec fn join_timeout_text() -> Seq<char> {
    "Timed out waiting for ThreadPool workers to stop"@
}

impl<J> ThreadPool<J> {
    pub open spec fn wf(&self) -> bool {
        self@.wf()
    }

    /// A pool called `name` with `size` threads, all started at once and
    /// numbered from 0, and an empty queue for `size * 200` jobs. An empty
    /// name or a size of 0 is refused, and so is a pool whose threads
    /// cannot all be started.
    pub fn new<S: Spawner>(name: &str, size: usize, spawner: &mut S) -> (result: Result<
        ThreadPool<J>,
        NewThreadPoolError,
    >)
        requires
            size * JOBS_PER_THREAD <= usize::MAX,
        ensures
            name@.len() == 0 ==> (result matches Err(NewThreadPoolError::Parameter(text)) && text@
                == empty_name_text()),
            name@.len() > 0 && size < 1 ==> (result matches Err(
                NewThreadPoolError::Parameter(text),
            ) && text@ == invalid_size_text()),
            name@.len() == 0 || size < 1 ==> *final(spawner) == *old(spawner),
            name@.len() > 0 && size >= 1 ==> match result {
                Ok(pool) => {
                    &&& pool.wf()
                    &&& pool@.inner.name == name@
                    &&& pool@.inner.size == size
                    &&& pool@.inner.live == size
                    &&& pool@.inner.next_name_num == size
                    &&& pool@.inner.names == numbered(name@, 0, size as nat)
                    &&& pool@.queue == Seq::<J>::empty()
                    &&& pool@.open
                },
                Err(error) => error is Spawn,
            },
    {
        if name.unicode_len() == 0 {
            return Err(
                NewThreadPoolError::Parameter(
                    String::from_str("ThreadPool::new called with empty name"),
                ),
            );
        }
        if size < 1 {
            return Err(
                NewThreadPoolError::Parameter(
                    String::from_str("ThreadPool::new called with invalid size value: 0"),
                ),
            );
        }
        let mut pool = ThreadPool {
            inner: Inner::new(name, size),
            queue: VecDeque::new(),
            capacity: size * JOBS_PER_THREAD,
            open: true,
        };
        while pool.inner.live < size
            invariant
                size >= 1,
                name@.len() > 0,
                pool.inner@ == (InnerView {
                    name: name@,
                    next_name_num: pool.inner@.live,
                    size,
                    live: pool.inner@.live,
                    names: numbered(name@, 0, pool.inner@.live as nat),
                }),
                pool.inner@.live <= size,
                pool.queue@ == Seq::<J>::empty(),
                pool.capacity == size * JOBS_PER_THREAD,
                pool.open,
            decreases size - pool.inner.live,
        {
            proof {
                lemma_advance_from_zero(pool.inner@.live as nat);
            }
            match pool.inner.start_thread(spawner) {
                Ok(()) => {},
                Err(e) => {
                    return Err(NewThreadPoolError::from(e));
                },
            }
        }
        Ok(pool)
    }

    /// How many threads the pool is meant to have.
    pub fn size(&self) -> (size: usize)
        ensures
            size == self@.inner.size,
    {
        self.inner.size
    }

    /// How many threads are alive.
    pub fn num_live_threads(&self) -> (live: usize)
        ensures
            live == self@.inner.live,
    {
        self.inner.num_live_threads()
    }

    /// How many jobs wait in the queue.
    pub fn queued(&self) -> (count: usize)
        ensures
            count == self@.queue.len(),
    {
        self.queue.len()
    }

    /// Whether the pool takes jobs: it does until it is joined.
    pub fn is_open(&self) -> (open: bool)
        ensures
            open == self@.open,
    {
        self.open
    }

    /// Starts the threads that the pool lacks.
    pub fn run<S: Spawner>(&mut self, spawner: &mut S) -> (result: Result<(), StartThreadsError>)
        requires
            old(self).wf(),
        ensures
            final(self).wf(),
            final(self)@.queue == old(self)@.queue,
            final(self)@.capacity == old(self)@.capacity,
            final(self)@.open == old(self)@.open,
            old(self)@.inner.replenished(final(self)@.inner),
            old(self)@.inner.live >= old(self)@.inner.size ==> *final(spawner) == *old(spawner),
            result is Ok <==> final(self)@.inner.live >= final(self)@.inner.size,
            (result matches Err(StartThreadsError::NoThreads(_))) <==> final(self)@.inner.live == 0,
            (result matches Err(StartThreadsError::Respawn(_))) <==> 0 < final(self)@.inner.live
                < final(self)@.inner.size,
    {
        self.inner.start_threads(spawner)
    }

    /// Queues the job if the queue has room, and gives it back if not.
    pub fn offer(&mut self, job: J) -> (result: Result<(), J>)
        requires
            old(self).wf(),
            old(self)@.open,
        ensures
            final(self).wf(),
            old(self)@.queue.len() < old(self)@.capacity ==> result is Ok && final(self)@ == (
            ThreadPoolView { queue: old(self)@.queue.push(job), ..old(self)@ }),
            old(self)@.queue.len() >= old(self)@.capacity ==> result == Err::<(), J>(job)
                && final(self)@ == old(self)@,
    {
        if self.queue.len() < self.capacity {
            self.queue.push_back(job);
            Ok(())
        } else {
            Err(job)
        }
    }

    /// One attempt of a caller that waits until its job is queued. Dead
    /// threads are replaced first. `Err` gives the job back: the queue is
    /// full, or the pool has no thread and none could be started; the
    /// caller sleeps for `RETRY_MS` and tries again.
    pub fn schedule<S: Spawner>(&mut self, spawner: &mut S, job: J) -> (result: Result<(), J>)
        requires
            old(self).wf(),
            old(self)@.open,
        ensures
            final(self).wf(),
            final(self)@.capacity == old(self)@.capacity,
            final(self)@.open == old(self)@.open,
            old(self)@.inner.replenished(final(self)@.inner),
            old(self)@.inner.live >= old(self)@.inner.size ==> *final(spawner) == *old(spawner),
            result is Ok <==> final(self)@.inner.live > 0 && old(self)@.queue.len() < old(self)@.capacity,
            match result {
                Ok(()) => final(self)@.queue == old(self)@.queue.push(job),
                Err(back) => back == job && final(self)@.queue == old(self)@.queue,
            },
    {
        match self.inner.start_threads(spawner) {
            Ok(()) => {},
            Err(StartThreadsError::Respawn(_)) => {},
            Err(StartThreadsError::NoThreads(_)) => {
                return Err(job);
            },
        }
        self.offer(job)
    }

    /// Queues the job unless the queue is full, and then replaces dead
    /// threads. A spawn that fails then is reported, with the job queued.
    pub fn try_schedule<S: Spawner>(&mut self, spawner: &mut S, job: J) -> (result: Result<
        (),
        TryScheduleError,
    >)
        requires
            old(self).wf(),
            old(self)@.open,
        ensures
            final(self).wf(),
            final(self)@.capacity == old(self)@.capacity,
            final(self)@.open == old(self)@.open,
            (result matches Err(TryScheduleError::QueueFull)) <==> old(self)@.queue.len() == old(self)@.capacity,
            old(self)@.queue.len() == old(self)@.capacity ==> final(self)@ == old(self)@,
            old(self)@.queue.len() == old(self)@.capacity || old(self)@.inner.live >= old(self)@.inner.size ==> *final(spawner) == *old(spawner),
            old(self)@.queue.len() < old(self)@.capacity ==> {
                &&& final(self)@.queue == old(self)@.queue.push(job)
                &&& old(self)@.inner.replenished(final(self)@.inner)
                &&& result is Ok <==> final(self)@.inner.live >= final(self)@.inner.size
                &&& (result matches Err(TryScheduleError::NoThreads(_))) <==> final(self)@.inner.live == 0
                &&& (result matches Err(TryScheduleError::Respawn(_))) <==> 0 < final(self)@.inner.live < final(self)@.inner.size
            },
    {
        if self.queue.len() >= self.capacity {
            return Err(TryScheduleError::QueueFull);
        }
        self.queue.push_back(job);
        match self.inner.start_threads(spawner) {
            Ok(()) => Ok(()),
            Err(e) => Err(TryScheduleError::from(e)),
        }
    }

    /// What the wait of a worker for a job ends with: the oldest job; a
    /// timeout at an empty queue; the news that the pool is gone, once
    /// the queue is empty.
    pub fn recv(&mut self) -> (received: Result<J, RecvTimeoutError>)
        requires
            old(self).wf(),
        ensures
            final(self).wf(),
            (final(self)@, received) == old(self)@.recv(),
    {
        match self.queue.pop_front() {
            Some(job) => {
                proof {
                    assert(old(self)@.queue.subrange(1, old(self)@.queue.len() as int)
                        =~= old(self)@.queue.skip(1));
                }
                Ok(job)
            },
            None => if self.open {
                Err(RecvTimeoutError::Timeout)
            } else {
                Err(RecvTimeoutError::Disconnected)
            },
        }
    }

    /// One turn of a worker's loop: the wait for a job, and what the
    /// worker does with its outcome.
    pub fn work<S: Spawner>(&mut self, spawner: &mut S) -> (step: WorkerStep<J>)
        requires
            old(self).wf(),
        ensures
            final(self).wf(),
            final(self)@.queue == old(self)@.recv().0.queue,
            final(self)@.capacity == old(self)@.capacity,
            final(self)@.open == old(self)@.open,
            (old(self)@.recv().1 matches Err(RecvTimeoutError::Disconnected)) || old(self)@.inner.live >= old(self)@.inner.size ==> *final(spawner) == *old(spawner),
            match old(self)@.recv().1 {
                Ok(job) => step == WorkerStep::Run(job) && old(self)@.inner.replenished(
                    final(self)@.inner,
                ),
                Err(RecvTimeoutError::Timeout) => step is Idle && old(self)@.inner.replenished(
                    final(self)@.inner,
                ),
                Err(RecvTimeoutError::Disconnected) => step is Exit && final(self)@.inner == (
                InnerView {
                    live: if old(self)@.inner.live > 0 {
                        (old(self)@.inner.live - 1) as usize
                    } else {
                        0
                    },
                    ..old(self)@.inner
                }),
            },
    {
        let received = self.recv();
        self.inner.work(spawner, received)
    }

    /// Takes note that one thread has ended by a panic in its job.
    pub fn thread_exited(&mut self)
        ensures
            final(self)@ == (ThreadPoolView {
                inner: InnerView {
                    live: if old(self)@.inner.live > 0 {
                        (old(self)@.inner.live - 1) as usize
                    } else {
                        0
                    },
                    ..old(self)@.inner
                },
                ..old(self)@
            }),
    {
        self.inner.thread_exited();
    }

    /// One look of a caller that waits for all threads to end. The pool
    /// takes no more jobs from the first look on; the threads end when
    /// the queue is empty. `Pending` asks the caller to sleep for
    /// `RETRY_MS` and to look again.
    pub fn join(&mut self) -> (joined: Poll<()>)
        ensures
            final(self)@ == (ThreadPoolView { open: false, ..old(self)@ }),
            joined is Ready <==> old(self)@.inner.live == 0,
    {
        self.open = false;
        if self.inner.live == 0 {
            Poll::Ready(())
        } else {
            Poll::Pending
        }
    }

    /// As `join`, but gives up once `deadline` has passed at `now`.
    pub fn try_join(&mut self, now: u64, deadline: u64) -> (joined: Poll<Result<(), String>>)
        ensures
            final(self)@ == (ThreadPoolView { open: false, ..old(self)@ }),
            old(self)@.inner.live == 0 ==> joined == Poll::<Result<(), String>>::Ready(Ok(())),
            old(self)@.inner.live > 0 && deadline < now ==> (joined matches Poll::Ready(Err(text))
                && text@ == join_timeout_text()),
            old(self)@.inner.live > 0 && deadline >= now ==> joined is Pending,
    {
        self.open = false;
        if self.inner.live == 0 {
            Poll::Ready(Ok(()))
        } else if deadline < now {
            Poll::Ready(Err(String::from_str("Timed out waiting for ThreadPool workers to stop")))
        } else {
            Poll::Pending
        }
    }
}

} // verus!
