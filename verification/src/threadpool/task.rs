//! A unit of work for a worker thread.

use vstd::prelude::*;

verus! {

/// A job with a priority. The priority is carried along; jobs run in the
/// order in which they were queued.
pub struct Task<F> {
    inner: F,
    priority: usize,
}

impl<F: FnOnce() -> ()> Task<F> {
    /// A task that runs `f`.
    pub fn new(f: F, priority: usize) -> (task: Task<F>)
        ensures
            task.job() == f,
            task.priority_spec() == priority,
    {
        Task { inner: f, priority }
    }

    /// The job of the task.
    pub closed spec fn job(self) -> F {
        self.inner
    }

    /// The priority of the task.
    pub closed spec fn priority_spec(self) -> usize {
        self.priority
    }

    /// The priority of the task.
    pub fn priority(&self) -> (priority: usize)
        ensures
            priority == self.priority_spec(),
    {
        self.priority
    }

    /// Runs the job. The job must accept to be run.
    pub fn execute(self) -> (done: ())
        requires
            call_requires(self.job(), ()),
        ensures
            call_ensures(self.job(), (), done),
    {
        (self.inner)()
    }
}

} // verus!
