//! Futures, wakers and the context a future is polled in.

use vstd::prelude::*;
use crate::timer::{Timer, TimerView};

verus! {

/// What one poll of a future gives.
#[derive(Debug)]
pub enum Poll<T> {
    /// The future has completed with this value.
    Ready(T),
    /// The future has suspended; it has left a waker where it waits.
    Pending,
}

impl<T> Poll<T> {
    pub fn is_ready(&self) -> (ready: bool)
        ensures
            ready == (*self is Ready),
    {
        match self {
            Poll::Ready(_) => true,
            Poll::Pending => false,
        }
    }

    pub fn is_pending(&self) -> (pending: bool)
        ensures
            pending == (*self is Pending),
    {
        match self {
            Poll::Ready(_) => false,
            Poll::Pending => true,
        }
    }
}

/// A handle that asks for one more poll of whatever it was made for.
#[derive(Clone, Copy, Debug, PartialEq, Eq, Structural)]
pub enum Waker {
    /// Re-enqueues the task with this index on its executor.
    Task(usize),
    /// Releases the caller that is parked in a blocking wait on a future.
    Caller,
}

/// The world as a future sees it during one poll: the clock, the waker of
/// the task being polled, the timer service, and the wakers invoked so far.
pub struct Context {
    /// The current instant.
    pub now: u64,
    /// The waker of whoever is being polled.
    pub waker: Waker,
    /// The timer service.
    pub timer: Timer,
    /// Wakers invoked and not yet acted upon, oldest first.
    pub woken: Vec<Waker>,
}

/// The mathematical content of a [`Context`].
pub struct ContextView {
    pub now: u64,
    pub waker: Waker,
    pub timer: TimerView,
    pub woken: Seq<Waker>,
}

impl View for Context {
    type V = ContextView;

    open spec fn view(&self) -> ContextView {
        ContextView { now: self.now, waker: self.waker, timer: self.timer@, woken: self.woken@ }
    }
}

impl ContextView {
    /// The same world with another timer state.
    pub open spec fn with_timer(self, timer: TimerView) -> ContextView {
        ContextView { timer, ..self }
    }

    /// The same world after `waker` was invoked.
    pub open spec fn wake(self, waker: Waker) -> ContextView {
        ContextView { woken: self.woken.push(waker), ..self }
    }

    pub open spec fn wf(self) -> bool {
        self.timer.wf()
    }
}

impl Context {
    pub open spec fn wf(&self) -> bool {
        self.timer.wf() && self@.wf()
    }

    /// A context at instant `now` around `timer`, with nothing woken yet.
    pub fn new(timer: Timer, now: u64, waker: Waker) -> (cx: Context)
        requires
            timer.wf(),
        ensures
            cx.wf(),
            cx@ == (ContextView { now, waker, timer: timer@, woken: Seq::empty() }),
    {
        Context { now, waker, timer, woken: Vec::new() }
    }

    /// Invokes `waker`: the wake is recorded for the executor to act upon.
    pub fn wake(&mut self, waker: Waker)
        requires
            old(self).wf(),
        ensures
            final(self).wf(),
            final(self)@ == old(self)@.wake(waker),
    {
        self.woken.push(waker);
    }
}

/// An asynchronous operation that is driven by polling.
///
/// A future can describe itself for proofs: `inv` says which states it
/// can be in, and `poll_spec` gives one poll as a function of the future
/// and of the context it is polled in. What is proved about code that
/// polls futures is proved from this description. A future that gives
/// none has no state that proofs know to be valid: it can be polled, and
/// nothing is claimed of the outcome.
pub trait Future: Sized {
    type Output;

    /// The states this future can be in.
    open spec fn inv(&self) -> bool {
        false
    }

    /// One poll, as a function: the future after the poll, the context
    /// after it, and the result.
    open spec fn poll_spec(self, cx: ContextView) -> (Self, ContextView, Poll<Self::Output>) {
        arbitrary()
    }

    /// Polls once. On `Pending` the future has arranged for a wake.
    fn poll(&mut self, cx: &mut Context) -> (result: Poll<Self::Output>)
        requires
            old(self).inv(),
            old(cx).wf(),
        ensures
            final(self).inv(),
            final(cx).wf(),
            (*final(self), final(cx)@, result) == (*old(self)).poll_spec(old(cx)@),
    ;
}

/// A future that never completes and never asks to be woken.
pub struct PendingFuture;

impl Future for PendingFuture {
    type Output = ();

    open spec fn inv(&self) -> bool {
        true
    }

    open spec fn poll_spec(self, cx: ContextView) -> (Self, ContextView, Poll<()>) {
        (self, cx, Poll::Pending)
    }

    fn poll(&mut self, cx: &mut Context) -> (result: Poll<()>) {
        Poll::Pending
    }
}

/// A future that completes at its first poll with the value it holds.
pub struct ReadyFuture<T> {
    pub value: Option<T>,
}

/// A future that is ready with `value`.
pub fn ready<T>(value: T) -> (future: ReadyFuture<T>)
    ensures
        future.value == Some(value),
{
    ReadyFuture { value: Some(value) }
}

impl<T> Future for ReadyFuture<T> {
    type Output = T;

    open spec fn inv(&self) -> bool {
        true
    }

    /// Ready with the value while it holds one, pending once it was taken.
    open spec fn poll_spec(self, cx: ContextView) -> (Self, ContextView, Poll<T>) {
        match self.value {
            Some(value) => (ReadyFuture { value: None }, cx, Poll::Ready(value)),
            None => (self, cx, Poll::Pending),
        }
    }

    fn poll(&mut self, cx: &mut Context) -> (result: Poll<T>) {
        match self.value.take() {
            Some(value) => Poll::Ready(value),
            None => Poll::Pending,
        }
    }
}

} // verus!
