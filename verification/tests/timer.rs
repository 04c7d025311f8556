use wexing::future::{ready, Context, Future, PendingFuture, Poll, Waker};
use wexing::timer::{
    expect_started, schedule_wake, sleep_for, sleep_until, start_timer_thread, timer_thread,
    with_deadline, with_timeout, DeadlineError, DeadlineExceeded, DeadlineFuture, ScheduledWake,
    SleepFuture, Timer, TimerStep, TimerThreadNotStarted,
};

fn started() -> Timer {
    let mut timer = Timer::new();
    start_timer_thread(&mut timer);
    timer
}

#[test]
fn schedule_wake_needs_a_started_timer() {
    let mut timer = Timer::new();
    assert!(!timer.is_started());
    assert_eq!(schedule_wake(&mut timer, 10, 0), Err(TimerThreadNotStarted {}));
    assert_eq!(timer.pending(), 0);
    assert!(!timer.is_started());

    start_timer_thread(&mut timer);
    assert!(timer.is_started());
    assert_eq!(timer.pending(), 0);
    assert_eq!(schedule_wake(&mut timer, 10, 0), Ok(()));
    assert_eq!(timer.pending(), 1);
    assert_eq!(timer.next_instant(), Some(10));
}

#[test]
fn starting_twice_keeps_the_queue() {
    let mut timer = started();
    schedule_wake(&mut timer, 10, 0).unwrap();
    schedule_wake(&mut timer, 5, 1).unwrap();
    start_timer_thread(&mut timer);
    assert!(timer.is_started());
    assert_eq!(timer.pending(), 2);
    assert_eq!(timer.next_instant(), Some(5));
}

#[test]
fn an_unstarted_timer_thread_is_idle() {
    let mut timer = Timer::new();
    assert_eq!(timer_thread(&mut timer, 100), TimerStep::Idle);
    assert_eq!(timer.next_instant(), None);
    let mut timer = started();
    assert_eq!(timer_thread(&mut timer, 100), TimerStep::Idle);
}

#[test]
fn entries_fire_earliest_first() {
    let mut timer = started();
    let (fifty, _) = timer.store_waker(None, Waker::Task(50));
    let (ten, _) = timer.store_waker(None, Waker::Task(10));
    let (thirty, _) = timer.store_waker(None, Waker::Task(30));
    assert_eq!((fifty, ten, thirty), (0, 1, 2));
    schedule_wake(&mut timer, 50, fifty).unwrap();
    schedule_wake(&mut timer, 10, ten).unwrap();
    schedule_wake(&mut timer, 30, thirty).unwrap();

    let mut fired = Vec::new();
    while let TimerStep::Fired { entry, waker } = timer_thread(&mut timer, 100) {
        fired.push((entry.instant, waker));
    }
    assert_eq!(
        fired,
        vec![
            (10, Some(Waker::Task(10))),
            (30, Some(Waker::Task(30))),
            (50, Some(Waker::Task(50))),
        ]
    );
    assert_eq!(timer.pending(), 0);
}

#[test]
fn entries_for_the_same_instant_fire_in_the_order_scheduled() {
    let mut timer = started();
    schedule_wake(&mut timer, 7, 3).unwrap();
    schedule_wake(&mut timer, 7, 1).unwrap();
    schedule_wake(&mut timer, 5, 9).unwrap();
    schedule_wake(&mut timer, 7, 2).unwrap();
    let mut slots = Vec::new();
    while let TimerStep::Fired { entry, .. } = timer_thread(&mut timer, 8) {
        slots.push(entry.slot);
    }
    assert_eq!(slots, vec![9, 3, 1, 2]);
}

#[test]
fn an_entry_fires_only_after_its_instant() {
    let mut timer = started();
    let (slot, previous) = timer.store_waker(None, Waker::Task(1));
    assert_eq!(previous, None);
    schedule_wake(&mut timer, 10, slot).unwrap();
    assert_eq!(timer_thread(&mut timer, 0), TimerStep::Wait(10));
    assert_eq!(timer_thread(&mut timer, 9), TimerStep::Wait(1));
    assert_eq!(timer_thread(&mut timer, 10), TimerStep::Wait(0));
    assert_eq!(timer.pending(), 1);
    assert_eq!(
        timer_thread(&mut timer, 11),
        TimerStep::Fired {
            entry: ScheduledWake { instant: 10, slot },
            waker: Some(Waker::Task(1)),
        }
    );
    assert_eq!(timer_thread(&mut timer, 11), TimerStep::Idle);
}

#[test]
fn a_later_entry_waits_behind_the_earliest() {
    let mut timer = started();
    schedule_wake(&mut timer, 20, 0).unwrap();
    schedule_wake(&mut timer, 10, 1).unwrap();
    assert!(matches!(timer_thread(&mut timer, 15), TimerStep::Fired { entry, .. } if entry.instant == 10));
    assert_eq!(timer_thread(&mut timer, 15), TimerStep::Wait(5));
}

#[test]
fn firing_takes_the_waker_out_of_the_slot() {
    let mut timer = started();
    let (slot, _) = timer.store_waker(None, Waker::Task(4));
    let entry = ScheduledWake { instant: 1, slot };
    assert_eq!(entry.wake(&mut timer), Some(Waker::Task(4)));
    assert_eq!(entry.wake(&mut timer), None);
    let unknown = ScheduledWake { instant: 1, slot: 99 };
    assert_eq!(unknown.wake(&mut timer), None);
}

#[test]
fn an_entry_for_a_slot_that_is_gone_wakes_nobody() {
    let mut timer = started();
    schedule_wake(&mut timer, 1, 42).unwrap();
    assert_eq!(
        timer_thread(&mut timer, 2),
        TimerStep::Fired { entry: ScheduledWake { instant: 1, slot: 42 }, waker: None }
    );
}

#[test]
fn storing_replaces_the_waker_in_the_slot() {
    let mut timer = Timer::new();
    assert_eq!(timer.store_waker(None, Waker::Task(1)), (0, None));
    assert_eq!(timer.store_waker(Some(0), Waker::Task(2)), (0, Some(Waker::Task(1))));
    assert_eq!(timer.store_waker(Some(7), Waker::Task(3)), (1, None));
    assert_eq!(timer.store_waker(None, Waker::Caller), (2, None));
}

#[test]
fn rearming_replaces_the_waker_without_a_second_entry() {
    let mut timer = started();
    let (slot, armed) = timer.arm(None, 10, Waker::Task(1));
    assert_eq!((slot, armed), (0, Ok(())));
    assert_eq!(timer.pending(), 1);
    assert_eq!(timer.arm(Some(slot), 10, Waker::Task(2)), (0, Ok(())));
    assert_eq!(timer.pending(), 1);
    assert!(matches!(
        timer_thread(&mut timer, 11),
        TimerStep::Fired { waker: Some(Waker::Task(2)), .. }
    ));
    assert_eq!(timer.arm(Some(slot), 20, Waker::Task(3)), (0, Ok(())));
    assert_eq!(timer.pending(), 1);
    assert_eq!(timer.next_instant(), Some(20));
}

#[test]
fn arming_fails_once_without_a_timer_thread() {
    let mut timer = Timer::new();
    assert_eq!(timer.arm(None, 10, Waker::Task(1)), (0, Err(TimerThreadNotStarted {})));
    assert_eq!(timer.arm(Some(0), 10, Waker::Task(1)), (0, Ok(())));
    assert_eq!(timer.pending(), 0);
}

#[test]
fn sleep_is_pending_until_the_deadline_has_passed() {
    let mut cx = Context::new(started(), 0, Waker::Task(3));
    let mut sleep = sleep_until(10);
    assert_eq!(sleep.deadline, 10);
    assert_eq!(sleep.slot, None);
    assert!(sleep.poll(&mut cx).is_pending());
    assert_eq!(sleep.slot, Some(0));
    assert_eq!(cx.timer.pending(), 1);
    assert_eq!(cx.timer.next_instant(), Some(10));

    cx.now = 10;
    assert!(sleep.poll(&mut cx).is_pending());
    assert_eq!(cx.timer.pending(), 1);

    cx.now = 11;
    assert!(matches!(sleep.poll(&mut cx), Poll::Ready(Ok(()))));
    assert!(cx.woken.is_empty());
}

#[test]
fn sleep_past_its_deadline_leaves_the_timer_alone() {
    let mut cx = Context::new(Timer::new(), 5, Waker::Task(3));
    let mut sleep = SleepFuture::new(4);
    assert!(matches!(sleep.poll(&mut cx), Poll::Ready(Ok(()))));
    assert_eq!(sleep.slot, None);
    assert_eq!(cx.timer.pending(), 0);
}

#[test]
fn sleep_for_counts_from_now() {
    let sleep = sleep_for(1_000, 50);
    assert_eq!(sleep.deadline, 1_050);
    assert_eq!(sleep.slot, None);
}

#[test]
fn sleep_reports_a_missing_timer_thread_once() {
    let mut cx = Context::new(Timer::new(), 0, Waker::Task(3));
    let mut sleep = SleepFuture::new(10);
    assert!(matches!(sleep.poll(&mut cx), Poll::Ready(Err(TimerThreadNotStarted {}))));
    assert!(sleep.poll(&mut cx).is_pending());
}

#[test]
fn sleep_is_woken_by_the_timer() {
    let mut cx = Context::new(started(), 0, Waker::Task(3));
    let mut sleep = SleepFuture::new(10);
    assert!(sleep.poll(&mut cx).is_pending());
    assert!(matches!(
        timer_thread(&mut cx.timer, 11),
        TimerStep::Fired { waker: Some(Waker::Task(3)), .. }
    ));
}

#[test]
fn with_timeout_of_a_ready_future_skips_the_timer() {
    let mut cx = Context::new(Timer::new(), 100, Waker::Task(0));
    let mut guarded = with_timeout(ready(7u32), 100, 50);
    assert_eq!(guarded.deadline, 150);
    assert!(matches!(guarded.poll(&mut cx), Poll::Ready(Ok(7))));
    assert_eq!(guarded.slot, None);
    assert_eq!(cx.timer.pending(), 0);
    assert!(!cx.timer.is_started());
}

#[test]
fn with_deadline_in_the_past_does_not_poll_inner() {
    let mut cx = Context::new(started(), 100, Waker::Task(0));
    let mut guarded = with_deadline(ready(7u32), 99);
    assert!(matches!(guarded.poll(&mut cx), Poll::Ready(Err(DeadlineError::DeadlineExceeded))));
    assert_eq!(guarded.inner.value, Some(7));
    assert_eq!(cx.timer.pending(), 0);
}

#[test]
fn deadline_that_is_now_has_not_passed() {
    let mut cx = Context::new(started(), 100, Waker::Task(0));
    let mut guarded = with_deadline(ready(7u32), 100);
    assert!(matches!(guarded.poll(&mut cx), Poll::Ready(Ok(7))));
}

#[test]
fn deadline_future_suspends_like_a_sleep() {
    let mut cx = Context::new(started(), 0, Waker::Task(6));
    let mut guarded = DeadlineFuture::new(PendingFuture, 50);
    assert!(guarded.poll(&mut cx).is_pending());
    assert_eq!(guarded.slot, Some(0));
    assert_eq!(cx.timer.next_instant(), Some(50));
    assert!(guarded.poll(&mut cx).is_pending());
    assert_eq!(cx.timer.pending(), 1);
    assert!(matches!(
        timer_thread(&mut cx.timer, 51),
        TimerStep::Fired { waker: Some(Waker::Task(6)), .. }
    ));
    cx.now = 51;
    assert!(matches!(guarded.poll(&mut cx), Poll::Ready(Err(DeadlineError::DeadlineExceeded))));
}

#[test]
fn deadline_future_reports_a_missing_timer_thread() {
    let mut cx = Context::new(Timer::new(), 0, Waker::Task(6));
    let mut guarded = DeadlineFuture::new(PendingFuture, 50);
    assert!(matches!(
        guarded.poll(&mut cx),
        Poll::Ready(Err(DeadlineError::TimerThreadNotStarted))
    ));
}

#[test]
fn expect_started_maps_the_outcome() {
    assert_eq!(expect_started(Ok::<u32, DeadlineError>(42)), Ok(42));
    assert_eq!(
        expect_started(Err::<u32, DeadlineError>(DeadlineError::DeadlineExceeded)),
        Err(DeadlineExceeded)
    );
}

#[test]
fn sleep_for_beyond_the_clock_never_ends() {
    let sleep = sleep_for(u64::MAX - 1, 5);
    assert_eq!(sleep.deadline, u64::MAX);
    assert_eq!(sleep_for(u64::MAX, 0).deadline, u64::MAX);
    assert_eq!(sleep_for(u64::MAX - 5, 5).deadline, u64::MAX);
    assert_eq!(sleep_for(0, u64::MAX).deadline, u64::MAX);

    let mut cx = Context::new(started(), u64::MAX, Waker::Task(0));
    let mut sleep = sleep_for(u64::MAX - 1, 5);
    assert!(sleep.poll(&mut cx).is_pending());
    assert!(sleep.poll(&mut cx).is_pending());
    assert_eq!(timer_thread(&mut cx.timer, u64::MAX), TimerStep::Wait(0));
}

#[test]
fn with_timeout_beyond_the_clock_still_polls_inner() {
    let mut cx = Context::new(Timer::new(), u64::MAX, Waker::Task(0));
    let mut guarded = with_timeout(ready(7u32), u64::MAX, 10);
    assert_eq!(guarded.deadline, u64::MAX);
    assert!(matches!(guarded.poll(&mut cx), Poll::Ready(Ok(7))));
    assert_eq!(guarded.slot, None);
    assert_eq!(cx.timer.pending(), 0);
}

#[test]
fn a_sleep_that_was_given_up_wakes_nobody() {
    let mut cx = Context::new(started(), 0, Waker::Task(3));
    let mut sleep = SleepFuture::new(10);
    assert!(sleep.poll(&mut cx).is_pending());
    assert_eq!(cx.timer.pending(), 1);
    sleep.drop(&mut cx.timer);
    assert_eq!(cx.timer.pending(), 1);
    assert_eq!(
        timer_thread(&mut cx.timer, 11),
        TimerStep::Fired { entry: ScheduledWake { instant: 10, slot: 0 }, waker: None }
    );
    SleepFuture::new(10).drop(&mut cx.timer);
    assert_eq!(cx.timer.pending(), 0);
}

#[test]
fn a_deadline_that_was_given_up_wakes_nobody() {
    let mut cx = Context::new(started(), 0, Waker::Task(6));
    let mut guarded = DeadlineFuture::new(SleepFuture::new(100), 50);
    assert!(guarded.poll(&mut cx).is_pending());
    assert_eq!(cx.timer.pending(), 2);
    let inner = guarded.drop(&mut cx.timer);
    assert_eq!(inner.deadline, 100);
    assert!(matches!(timer_thread(&mut cx.timer, 51), TimerStep::Fired { waker: None, .. }));
    assert!(matches!(
        timer_thread(&mut cx.timer, 101),
        TimerStep::Fired { waker: Some(Waker::Task(6)), .. }
    ));
}

#[test]
fn take_waker_empties_the_slot() {
    let mut timer = Timer::new();
    let (slot, _) = timer.store_waker(None, Waker::Caller);
    assert_eq!(timer.take_waker(slot), Some(Waker::Caller));
    assert_eq!(timer.take_waker(slot), None);
    assert_eq!(timer.take_waker(77), None);
    timer.give_up(None);
    timer.give_up(Some(slot));
}
