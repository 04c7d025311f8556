//! The cell that holds the future of a spawned task.

use vstd::prelude::*;
use crate::future::{Context, ContextView, Future, Poll};

verus! {

/// A spawned task: a cell with at most one future. The task is live
/// while the cell holds the future; once the future has completed the
/// cell is empty for good.
pub struct Task<F> {
    future: Option<F>,
    polls: Ghost<nat>,
    wakes: Ghost<nat>,
}

/// The mathematical content of a [`Task`].
pub struct TaskView<F> {
    /// The future, while the task is live.
    pub future: Option<F>,
    /// How often the future was polled.
    pub polls: nat,
    /// How often the waker of the task was invoked.
    pub wakes: nat,
}

impl<F> View for Task<F> {
    type V = TaskView<F>;

    closed spec fn view(&self) -> TaskView<F> {
        TaskView { future: self.future, polls: self.polls@, wakes: self.wakes@ }
    }
}

impl<F: Future<Output = ()>> TaskView<F> {
    pub open spec fn wf(self) -> bool {
        self.future matches Some(future) ==> future.inv()
    }

    /// Whether the future has completed.
    pub open spec fn done(self) -> bool {
        self.future is None
    }

    /// One poll of the task in the context `cx`. A task that is done is
    /// left alone.
    pub open spec fn poll(self, cx: ContextView) -> (TaskView<F>, ContextView, Poll<()>) {
        match self.future {
            Some(future) => {
                let (after, polled, result) = future.poll_spec(cx);
                (
                    TaskView {
                        future: if result is Ready {
                            None
                        } else {
                            Some(after)
                        },
                        polls: self.polls + 1,
                        ..self
                    },
                    polled,
                    result,
                )
            },
            None => (self, cx, Poll::Ready(())),
        }
    }

    /// After the waker of the task was invoked once more.
    pub open spec fn woken(self) -> TaskView<F> {
        TaskView { wakes: self.wakes + 1, ..self }
    }
}

impl<F: Future<Output = ()>> Task<F> {
    pub open spec fn wf(&self) -> bool {
        self@.wf()
    }

    /// A live task around `future`, not polled and not woken yet.
    pub fn new(future: F) -> (task: Task<F>)
        requires
            future.inv(),
        ensures
            task.wf(),
            task@ == (TaskView { future: Some(future), polls: 0, wakes: 0 }),
    {
        Task { future: Some(future), polls: Ghost(0), wakes: Ghost(0) }
    }

    /// Whether the future has completed.
    pub fn is_done(&self) -> (done: bool)
        ensures
            done == self@.done(),
    {
        self.future.is_none()
    }

    /// Polls the future if the task is live, and empties the cell if the
    /// future has completed. A task that is done is ready without a poll.
    pub fn poll(&mut self, cx: &mut Context) -> (result: Poll<()>)
        requires
            old(self).wf(),
            old(cx).wf(),
        ensures
            final(self).wf(),
            final(cx).wf(),
            (final(self)@, final(cx)@, result) == old(self)@.poll(old(cx)@),
    {
        match self.future.take() {
            Some(mut future) => {
                let result = future.poll(cx);
                proof {
                    self.polls@ = self.polls@ + 1;
                }
                match result {
                    Poll::Ready(done) => Poll::Ready(done),
                    Poll::Pending => {
                        self.future = Some(future);
                        Poll::Pending
                    },
                }
            },
            None => Poll::Ready(()),
        }
    }

    /// Takes note that the waker of the task was invoked.
    pub fn note_wake(&mut self)
        ensures
            final(self)@ == old(self)@.woken(),
    {
        proof {
            self.wakes@ = self.wakes@ + 1;
        }
    }
}

} // verus!
