//! A future that completes once an instant has passed.

use vstd::prelude::*;
use crate::future::{Context, ContextView, Future, Poll};
use crate::timer::{
    deadline_after, instant_after, lemma_rank_bound, rank, ScheduledWake, Timer,
    TimerThreadNotStarted,
};

verus! {

/// Completes at the first poll after `deadline` has passed. Until then
/// each poll leaves the waker of the polling task with the timer.
pub struct SleepFuture {
    /// The instant that has to pass.
    pub deadline: u64,
    /// The waker slot shared with the timer, once a poll has made one.
    pub slot: Option<usize>,
}

impl SleepFuture {
    /// A sleep that ends once `deadline` has passed. Nothing is registered
    /// with the timer before the first poll.
    pub fn new(deadline: u64) -> (future: SleepFuture)
        ensures
            future == (SleepFuture { deadline, slot: None }),
    {
        SleepFuture { deadline, slot: None }
    }
}

impl SleepFuture {
    /// Gives the sleep up, as dropping it does: its waker leaves the
    /// slot it shares with the timer, so that the entry for the sleep
    /// wakes nobody when it fires.
    pub fn drop(self, timer: &mut Timer)
        requires
            old(timer).wf(),
        ensures
            final(timer).wf(),
            final(timer)@ == old(timer)@.give_up(self.slot),
    {
        timer.give_up(self.slot);
    }
}

impl Future for SleepFuture {
    type Output = Result<(), TimerThreadNotStarted>;

    open spec fn inv(&self) -> bool {
        true
    }

    /// Ready once the deadline has passed. Before that the waker goes
    /// into the slot and, if the slot was empty, one entry is scheduled;
    /// the poll fails if the timer cannot take that entry.
    open spec fn poll_spec(self, cx: ContextView) -> (Self, ContextView, Poll<Self::Output>) {
        if self.deadline < cx.now {
            (self, cx, Poll::Ready(Ok(())))
        } else {
            let (timer, slot, armed) = cx.timer.arm(self.slot, self.deadline, cx.waker);
            (
                SleepFuture { slot: Some(slot), ..self },
                cx.with_timer(timer),
                if armed {
                    Poll::Pending
                } else {
                    Poll::Ready(Err(TimerThreadNotStarted {  }))
                },
            )
        }
    }

    fn poll(&mut self, cx: &mut Context) -> (result: Poll<Self::Output>) {
        if self.deadline < cx.now {
            return Poll::Ready(Ok(()));
        }
        let (slot, armed) = cx.timer.arm(self.slot, self.deadline, cx.waker);
        self.slot = Some(slot);
        match armed {
            Ok(()) => Poll::Pending,
            Err(error) => Poll::Ready(Err(error)),
        }
    }
}

/// A sleep until `deadline` has passed.
pub fn sleep_until(deadline: u64) -> (future: SleepFuture)
    ensures
        future == (SleepFuture { deadline, slot: None }),
{
    SleepFuture::new(deadline)
}

/// A sleep for `duration`, counted from `now`.
pub fn sleep_for(now: u64, duration: u64) -> (future: SleepFuture)
    ensures
        future == (SleepFuture { deadline: instant_after(now, duration), slot: None }),
{
    SleepFuture::new(deadline_after(now, duration))
}

/// A sleep does not end early: a poll finds it over exactly when the
/// clock is past the deadline, and while the timer runs the sleep is
/// pending at every instant up to the deadline.
pub proof fn lemma_sleep_not_early(future: SleepFuture, cx: ContextView)
    ensures
        future.poll_spec(cx).2 == Poll::<Result<(), TimerThreadNotStarted>>::Ready(Ok(()))
            <==> future.deadline < cx.now,
        cx.now <= future.deadline && cx.timer.started() ==> future.poll_spec(cx).2 is Pending,
        future.poll_spec(cx).0.deadline == future.deadline,
{
}

/// A sleep for `duration` from `start` lasts that long, whatever the
/// start and the duration: at its first poll and at every later one it
/// is over exactly when the clock is past `start + duration`, and while
/// the timer runs it is pending until then.
pub proof fn lemma_sleep_for_lasts(start: u64, duration: u64, slot: Option<usize>, cx: ContextView)
    ensures
        ({
            let future = SleepFuture { deadline: instant_after(start, duration), slot };
            &&& future.poll_spec(cx).2 == Poll::<Result<(), TimerThreadNotStarted>>::Ready(Ok(()))
                <==> start + duration < cx.now
            &&& cx.now <= start + duration && cx.timer.started() ==> future.poll_spec(cx).2
                is Pending
            &&& future.poll_spec(cx).0.deadline == future.deadline
        }),
{
}

/// A sleep that suspends is woken: after the first poll of a sleep that
/// is not over, with the timer running and room for one more slot, the
/// waker of the polling task is in the slot of the sleep, and the entry
/// for the deadline and that slot is in the queue of the timer. The
/// timer fires the entry once the deadline has passed, and the poll that
/// follows finds the sleep over.
pub proof fn lemma_sleep_is_woken(future: SleepFuture, cx: ContextView)
    requires
        future.slot is None,
        cx.now <= future.deadline,
        cx.timer.started(),
        cx.timer.slots.len() < usize::MAX,
    ensures
        ({
            let (after, polled, result) = future.poll_spec(cx);
            let entry = ScheduledWake { instant: future.deadline, slot: after.slot->0 };
            &&& result is Pending
            &&& after.slot is Some
            &&& polled.timer.waker_in(after.slot->0) == Some(cx.waker)
            &&& polled.timer.queue is Some
            &&& polled.timer.queue->0.contains(entry)
            &&& forall|later: ContextView|
                future.deadline < later.now ==> (#[trigger] after.poll_spec(later)).2 == Poll::<
                    Result<(), TimerThreadNotStarted>,
                >::Ready(Ok(()))
        }),
{
    let (stored, id, previous) = cx.timer.store(future.slot, cx.waker);
    let queue = stored.queue->0;
    let entry = ScheduledWake { instant: future.deadline, slot: id };
    lemma_rank_bound(queue, future.deadline);
    let place = rank(queue, future.deadline) as int;
    assert(queue.insert(place, entry)[place] == entry);
}

/// Re-polling replaces the waker without a second entry: while the slot
/// holds a waker the queue of the timer stays as it is.
pub proof fn lemma_rearm_keeps_queue(future: SleepFuture, cx: ContextView)
    requires
        cx.now <= future.deadline,
        future.slot matches Some(slot) && cx.timer.waker_in(slot) is Some,
    ensures
        future.poll_spec(cx).1.timer.queue == cx.timer.queue,
        future.poll_spec(cx).1.timer.waker_in(future.slot->0) == Some(cx.waker),
        future.poll_spec(cx).2 is Pending,
{
}

} // verus!
