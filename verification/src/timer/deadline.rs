//! A future that gives up on another future once an instant has passed.

use vstd::prelude::*;
use crate::future::{Context, ContextView, Future, Poll};
use crate::timer::{deadline_after, instant_after, DeadlineError, DeadlineExceeded, Timer};

verus! {

/// Completes with the result of `inner`, or with an error at the first
/// poll after `deadline` has passed.
pub struct DeadlineFuture<Fut> {
    pub inner: Fut,
    pub deadline: u64,
    pub slot: Option<usize>,
}

impl<Fut: Future> DeadlineFuture<Fut> {
    /// Guards `inner` by `deadline`. Nothing is registered with the timer
    /// before a poll finds `inner` pending.
    pub fn new(inner: Fut, deadline: u64) -> (future: DeadlineFuture<Fut>)
        ensures
            future == (DeadlineFuture { inner, deadline, slot: None }),
    {
        DeadlineFuture { inner, deadline, slot: None }
    }
}

impl<Fut: Future> DeadlineFuture<Fut> {
    /// Gives the guard up, as dropping it does: its waker leaves the
    /// slot it shares with the timer, so that the entry for the deadline
    /// wakes nobody when it fires. The inner future comes back, for the
    /// caller to give up in turn.
    pub fn drop(self, timer: &mut Timer) -> (inner: Fut)
        requires
            old(timer).wf(),
        ensures
            final(timer).wf(),
            final(timer)@ == old(timer)@.give_up(self.slot),
            inner == self.inner,
    {
        timer.give_up(self.slot);
        self.inner
    }
}

impl<Fut: Future> Future for DeadlineFuture<Fut> {
    type Output = Result<Fut::Output, DeadlineError>;

    open spec fn inv(&self) -> bool {
        self.inner.inv()
    }

    /// Past the deadline the poll fails and leaves `inner` alone.
    /// Otherwise `inner` is polled; where it is pending the waker is left
    /// with the timer as a sleep does it.
    open spec fn poll_spec(self, cx: ContextView) -> (Self, ContextView, Poll<Self::Output>) {
        if self.deadline < cx.now {
            (self, cx, Poll::Ready(Err(DeadlineError::DeadlineExceeded)))
        } else {
            let (inner, polled, result) = self.inner.poll_spec(cx);
            match result {
                Poll::Ready(value) => (
                    DeadlineFuture { inner, ..self },
                    polled,
                    Poll::Ready(Ok(value)),
                ),
                Poll::Pending => {
                    let (timer, slot, armed) = polled.timer.arm(
                        self.slot,
                        self.deadline,
                        polled.waker,
                    );
                    (
                        DeadlineFuture { inner, slot: Some(slot), ..self },
                        polled.with_timer(timer),
                        if armed {
                            Poll::Pending
                        } else {
                            Poll::Ready(Err(DeadlineError::TimerThreadNotStarted))
                        },
                    )
                },
            }
        }
    }

    fn poll(&mut self, cx: &mut Context) -> (result: Poll<Self::Output>) {
        if self.deadline < cx.now {
            return Poll::Ready(Err(DeadlineError::DeadlineExceeded));
        }
        match self.inner.poll(cx) {
            Poll::Ready(value) => {
                return Poll::Ready(Ok(value));
            },
            Poll::Pending => {},
        }
        let (slot, armed) = cx.timer.arm(self.slot, self.deadline, cx.waker);
        self.slot = Some(slot);
        match armed {
            Ok(()) => Poll::Pending,
            Err(_) => Poll::Ready(Err(DeadlineError::TimerThreadNotStarted)),
        }
    }
}

/// `inner`, given up once `deadline` has passed.
pub fn with_deadline<Fut: Future>(inner: Fut, deadline: u64) -> (future: DeadlineFuture<Fut>)
    ensures
        future == (DeadlineFuture { inner, deadline, slot: None }),
{
    DeadlineFuture::new(inner, deadline)
}

/// `inner`, given up once `duration` has passed, counted from `now`.
pub fn with_timeout<Fut: Future>(inner: Fut, now: u64, duration: u64) -> (future: DeadlineFuture<
    Fut,
>)
    ensures
        future == (DeadlineFuture { inner, deadline: instant_after(now, duration), slot: None }),
{
    with_deadline(inner, deadline_after(now, duration))
}

/// What the caller of a guarded operation sees. The timer thread must
/// have been started: its absence is a fault of the program, not a result.
pub fn expect_started<T>(output: Result<T, DeadlineError>) -> (result: Result<T, DeadlineExceeded>)
    requires
        output != Err::<T, DeadlineError>(DeadlineError::TimerThreadNotStarted),
    ensures
        match output {
            Ok(value) => result == Ok::<T, DeadlineExceeded>(value),
            Err(_) => result == Err::<T, DeadlineExceeded>(DeadlineExceeded),
        },
{
    match output {
        Ok(value) => Ok(value),
        Err(DeadlineError::DeadlineExceeded) => Err(DeadlineExceeded),
        Err(DeadlineError::TimerThreadNotStarted) => vstd::pervasive::unreached(),
    }
}

/// A guarded future whose inner future is ready at its first poll
/// completes with the value of the inner future, whatever the timeout
/// and whether or not the timer thread was started. The context is left
/// as the inner poll left it: no slot is made and nothing is scheduled.
pub proof fn lemma_ready_inner_skips_timer<Fut: Future>(
    inner: Fut,
    now: u64,
    duration: u64,
    cx: ContextView,
)
    requires
        cx.now == now,
        inner.poll_spec(cx).2 is Ready,
    ensures
        ({
            let future = DeadlineFuture {
                inner,
                deadline: instant_after(now, duration),
                slot: None,
            };
            let (after, polled, result) = future.poll_spec(cx);
            &&& result == Poll::<Result<Fut::Output, DeadlineError>>::Ready(
                Ok(inner.poll_spec(cx).2->Ready_0),
            )
            &&& polled == inner.poll_spec(cx).1
            &&& after.inner == inner.poll_spec(cx).0
            &&& after.slot is None
        }),
{
}

/// A guarded future whose deadline is in the past fails with
/// `DeadlineExceeded` and does not poll its inner future.
pub proof fn lemma_past_deadline_fails<Fut: Future>(future: DeadlineFuture<Fut>, cx: ContextView)
    requires
        future.deadline < cx.now,
    ensures
        future.poll_spec(cx) == (
            future,
            cx,
            Poll::<Result<Fut::Output, DeadlineError>>::Ready(Err(DeadlineError::DeadlineExceeded)),
        ),
{
}

} // verus!
