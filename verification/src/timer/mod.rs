//! The timer service: wakes registered wakers no sooner than their instant.

pub mod deadline;
pub mod error;
pub mod sleep;

pub use deadline::{expect_started, with_deadline, with_timeout, DeadlineFuture};
pub use error::{DeadlineError, DeadlineExceeded, TimerThreadNotStarted};
pub use sleep::{sleep_for, sleep_until, SleepFuture};

use vstd::prelude::*;
use once_cell::sync::OnceCell;
use crate::future::Waker;

verus! {

#[verifier::external_type_specification]
#[verifier::external_body]
#[verifier::reject_recursive_types(T)]
pub struct ExOnceCell<T>(OnceCell<T>);

/// What the cell of the timer thread holds: nothing before the thread is
/// started, afterwards its queue of `(instant, slot)` entries.
pub uninterp spec fn cell_queue(cell: OnceCell<Vec<(u64, usize)>>) -> Option<Seq<(u64, usize)>>;

/// `OnceCell::new`: the new cell is empty.
#[verifier::external_body]
fn cell_new() -> (cell: OnceCell<Vec<(u64, usize)>>)
    ensures
        cell_queue(cell) is None,
{
    OnceCell::new()
}

fn empty_queue() -> (queue: Vec<(u64, usize)>)
    ensures
        queue@ == Seq::<(u64, usize)>::empty(),
{
    Vec::new()
}

/// `OnceCell::get_or_init` with an empty queue as the initial value: a
/// full cell keeps what it holds, an empty one holds the empty queue
/// afterwards.
#[verifier::external_body]
fn cell_get_or_init(cell: &mut OnceCell<Vec<(u64, usize)>>)
    ensures
        cell_queue(*final(cell)) == Some(
            match cell_queue(*old(cell)) {
                Some(queue) => queue,
                None => Seq::empty(),
            },
        ),
{
    cell.get_or_init(|| empty_queue());
}

/// `OnceCell::get`: the value held, `None` for an empty cell.
#[verifier::external_body]
fn cell_get(cell: &OnceCell<Vec<(u64, usize)>>) -> (queue: Option<&Vec<(u64, usize)>>)
    ensures
        match queue {
            Some(q) => cell_queue(*cell) == Some(q@),
            None => cell_queue(*cell) is None,
        },
{
    cell.get()
}

/// `OnceCell::get_mut`: `None` for an empty cell, which stays empty;
/// otherwise the value held, and what the caller leaves in it is what the
/// cell holds afterwards.
#[verifier::external_body]
fn cell_get_mut(cell: &mut OnceCell<Vec<(u64, usize)>>) -> (queue: Option<&mut Vec<(u64, usize)>>)
    ensures
        match queue {
            Some(q) => cell_queue(*old(cell)) == Some(q@) && cell_queue(*final(cell)) == Some(
                final(q)@,
            ),
            None => cell_queue(*old(cell)) is None && cell_queue(*final(cell)) is None,
        },
{
    cell.get_mut()
}

/// The instant `duration` after `now`. Where the clock does not reach
/// that far it is the last instant of the clock: no reading of the clock
/// is past the one or the other, so the last instant stands for all that
/// lie beyond it.
pub open spec fn instant_after(now: u64, duration: u64) -> u64 {
    if now + duration <= u64::MAX {
        (now + duration) as u64
    } else {
        u64::MAX
    }
}

/// The instant `duration` after `now`.
pub fn deadline_after(now: u64, duration: u64) -> (deadline: u64)
    ensures
        deadline == instant_after(now, duration),
{
    if duration <= u64::MAX - now {
        now + duration
    } else {
        u64::MAX
    }
}

/// A request to wake whatever waits in `slot` once `instant` has passed.
#[derive(Clone, Copy, Debug, PartialEq, Eq, Structural)]
pub struct ScheduledWake {
    pub instant: u64,
    pub slot: usize,
}

/// What the timer thread does in one turn of its loop.
#[derive(Clone, Copy, Debug, PartialEq, Eq, Structural)]
pub enum TimerStep {
    /// Nothing is scheduled: block until an entry arrives.
    Idle,
    /// The earliest entry is not due: wait for this long, or until an
    /// entry arrives.
    Wait(u64),
    /// The earliest entry was due and has left the queue; `waker` is what
    /// its slot held, and is to be invoked.
    Fired { entry: ScheduledWake, waker: Option<Waker> },
}

/// The timer service: the queue of the timer thread, if it was started,
/// and the waker slots that futures share with it.
pub struct Timer {
    cell: OnceCell<Vec<(u64, usize)>>,
    slots: Vec<Option<Waker>>,
}

/// The mathematical content of a [`Timer`].
pub struct TimerView {
    /// The scheduled entries, earliest first; `None` before the start.
    pub queue: Option<Seq<ScheduledWake>>,
    /// What each waker slot holds.
    pub slots: Seq<Option<Waker>>,
}

/// The entries as `ScheduledWake` values.
pub open spec fn entries(queue: Seq<(u64, usize)>) -> Seq<ScheduledWake> {
    queue.map_values(|e: (u64, usize)| ScheduledWake { instant: e.0, slot: e.1 })
}

/// Earliest first.
pub open spec fn sorted(queue: Seq<ScheduledWake>) -> bool {
    forall|i: int, j: int| 0 <= i <= j < queue.len() ==> queue[i].instant <= queue[j].instant
}

/// How many leading entries of `queue` are due no later than `instant`:
/// the place of a new entry for `instant`, behind all that fire before it.
pub open spec fn rank(queue: Seq<ScheduledWake>, instant: u64) -> nat
    decreases queue.len(),
{
    if queue.len() == 0 || queue[0].instant > instant {
        0
    } else {
        1 + rank(queue.skip(1), instant)
    }
}

/// The place of a new entry is within the queue or at its end.
pub proof fn lemma_rank_bound(queue: Seq<ScheduledWake>, instant: u64)
    ensures
        rank(queue, instant) <= queue.len(),
    decreases queue.len(),
{
    if queue.len() > 0 && queue[0].instant <= instant {
        lemma_rank_bound(queue.skip(1), instant);
    }
}

proof fn lemma_rank(queue: Seq<ScheduledWake>, instant: u64, i: int)
    requires
        0 <= i <= queue.len(),
        forall|j: int| 0 <= j < i ==> queue[j].instant <= instant,
        i == queue.len() || queue[i].instant > instant,
    ensures
        rank(queue, instant) == i,
    decreases i,
{
    if i > 0 {
        let rest = queue.skip(1);
        assert forall|j: int| 0 <= j < i - 1 implies rest[j].instant <= instant by {
            assert(rest[j] == queue[j + 1]);
        }
        lemma_rank(rest, instant, i - 1);
    }
}

impl TimerView {
    pub open spec fn wf(self) -> bool {
        self.queue matches Some(queue) ==> sorted(queue)
    }

    pub open spec fn started(self) -> bool {
        self.queue is Some
    }

    /// After the timer thread was started, if it was not running yet.
    pub open spec fn start(self) -> TimerView {
        match self.queue {
            Some(_) => self,
            None => TimerView { queue: Some(Seq::empty()), ..self },
        }
    }

    /// After `entry` was merged into the queue of a started timer.
    pub open spec fn schedule(self, entry: ScheduledWake) -> TimerView {
        match self.queue {
            Some(queue) => TimerView {
                queue: Some(queue.insert(rank(queue, entry.instant) as int, entry)),
                ..self
            },
            None => self,
        }
    }

    /// What `slot` holds; a slot that was never made holds nothing.
    pub open spec fn waker_in(self, slot: usize) -> Option<Waker> {
        if slot < self.slots.len() {
            self.slots[slot as int]
        } else {
            None
        }
    }

    /// After `waker` went into `slot`, with the slot used and what it held
    /// before; without a slot, or with one that was never made, the waker
    /// goes into a new slot.
    pub open spec fn store(self, slot: Option<usize>, waker: Waker) -> (TimerView, usize, Option<
        Waker,
    >) {
        match slot {
            Some(id) if id < self.slots.len() => (
                TimerView { slots: self.slots.update(id as int, Some(waker)), ..self },
                id,
                self.slots[id as int],
            ),
            _ => (
                TimerView { slots: self.slots.push(Some(waker)), ..self },
                self.slots.len() as usize,
                None,
            ),
        }
    }

    /// After a suspending future left `waker` for `deadline`: the timer,
    /// the slot used, and whether the timer could take the entry.
    pub open spec fn arm(self, slot: Option<usize>, deadline: u64, waker: Waker) -> (
        TimerView,
        usize,
        bool,
    ) {
        let (stored, id, previous) = self.store(slot, waker);
        if previous is Some {
            (stored, id, true)
        } else {
            (stored.schedule(ScheduledWake { instant: deadline, slot: id }), id, stored.started())
        }
    }

    /// After `slot` was emptied.
    pub open spec fn take(self, slot: usize) -> TimerView {
        if slot < self.slots.len() {
            TimerView { slots: self.slots.update(slot as int, None), ..self }
        } else {
            self
        }
    }

    /// After a future that used `slot` was given up.
    pub open spec fn give_up(self, slot: Option<usize>) -> TimerView {
        match slot {
            Some(slot) => self.take(slot),
            None => self,
        }
    }

    /// One turn of the timer thread at instant `now`.
    pub open spec fn step(self, now: u64) -> (TimerView, TimerStep) {
        match self.queue {
            Some(queue) if queue.len() > 0 => {
                let entry = queue[0];
                if entry.instant < now {
                    (
                        TimerView { queue: Some(queue.skip(1)), ..self }.take(entry.slot),
                        TimerStep::Fired { entry, waker: self.waker_in(entry.slot) },
                    )
                } else {
                    (self, TimerStep::Wait((entry.instant - now) as u64))
                }
            },
            _ => (self, TimerStep::Idle),
        }
    }
}

impl View for Timer {
    type V = TimerView;

    closed spec fn view(&self) -> TimerView {
        TimerView {
            queue: match cell_queue(self.cell) {
                Some(queue) => Some(entries(queue)),
                None => None,
            },
            slots: self.slots@,
        }
    }
}

impl Timer {
    pub open spec fn wf(&self) -> bool {
        self@.wf()
    }

    /// A timer whose thread has not been started, without slots.
    pub fn new() -> (timer: Timer)
        ensures
            timer.wf(),
            timer@ == (TimerView { queue: None, slots: Seq::empty() }),
    {
        Timer { cell: cell_new(), slots: Vec::new() }
    }

    /// Whether the timer thread was started.
    pub fn is_started(&self) -> (started: bool)
        ensures
            started == self@.started(),
    {
        cell_get(&self.cell).is_some()
    }

    /// How many entries wait in the queue; none before the start.
    pub fn pending(&self) -> (count: usize)
        ensures
            count == (match self@.queue {
                Some(queue) => queue.len(),
                None => 0,
            }),
    {
        match cell_get(&self.cell) {
            Some(queue) => queue.len(),
            None => 0,
        }
    }

    /// The instant of the earliest entry, if there is one.
    pub fn next_instant(&self) -> (instant: Option<u64>)
        ensures
            instant == (match self@.queue {
                Some(queue) if queue.len() > 0 => Some(queue[0].instant),
                _ => None,
            }),
    {
        match cell_get(&self.cell) {
            Some(queue) => if queue.len() > 0 {
                Some(queue[0].0)
            } else {
                None
            },
            None => None,
        }
    }

    /// Stores `waker` in `slot` and returns the slot with what it held
    /// before. Without a slot, or with one that was never made, a new slot
    /// is made for the waker.
    pub fn store_waker(&mut self, slot: Option<usize>, waker: Waker) -> (stored: (
        usize,
        Option<Waker>,
    ))
        requires
            old(self).wf(),
        ensures
            final(self).wf(),
            (final(self)@, stored.0, stored.1) == old(self)@.store(slot, waker),
    {
        match slot {
            Some(id) if id < self.slots.len() => {
                let previous = self.slots[id];
                self.slots[id] = Some(waker);
                (id, previous)
            },
            _ => {
                let id = self.slots.len();
                self.slots.push(Some(waker));
                (id, None)
            },
        }
    }

    /// Empties `slot` and returns the waker that was in it. A slot that
    /// was never made holds nothing.
    pub fn take_waker(&mut self, slot: usize) -> (waker: Option<Waker>)
        requires
            old(self).wf(),
        ensures
            final(self).wf(),
            waker == old(self)@.waker_in(slot),
            final(self)@ == old(self)@.take(slot),
    {
        if slot < self.slots.len() {
            let waker = self.slots[slot];
            self.slots[slot] = None;
            waker
        } else {
            None
        }
    }

    /// Gives up what a future has left in `slot`, as dropping the future
    /// does: the slot is emptied. The entry stays in the queue; when it
    /// fires it finds the slot empty and wakes nobody. A future that has
    /// made no slot has left nothing.
    pub fn give_up(&mut self, slot: Option<usize>)
        requires
            old(self).wf(),
        ensures
            final(self).wf(),
            final(self)@ == old(self)@.give_up(slot),
    {
        match slot {
            Some(slot) => {
                let _ = self.take_waker(slot);
            },
            None => {},
        }
    }

    /// Leaves `waker` in `slot` for the timer to invoke once `deadline`
    /// has passed, as a suspending future does: the waker replaces the one
    /// in the slot, and where the slot was empty one entry is scheduled.
    /// Fails when that entry cannot be scheduled; the waker stays stored.
    pub fn arm(&mut self, slot: Option<usize>, deadline: u64, waker: Waker) -> (armed: (
        usize,
        Result<(), TimerThreadNotStarted>,
    ))
        requires
            old(self).wf(),
        ensures
            final(self).wf(),
            (final(self)@, armed.0, armed.1 is Ok) == old(self)@.arm(slot, deadline, waker),
    {
        let (id, previous) = self.store_waker(slot, waker);
        if previous.is_none() {
            (id, schedule_wake(self, deadline, id))
        } else {
            (id, Ok(()))
        }
    }
}

impl ScheduledWake {
    /// Fires this entry: empties its slot and returns the waker that was
    /// in it, which the caller invokes. An entry fires at most one waker:
    /// a second firing finds the slot empty.
    pub fn wake(&self, timer: &mut Timer) -> (waker: Option<Waker>)
        requires
            old(timer).wf(),
        ensures
            final(timer).wf(),
            waker == old(timer)@.waker_in(self.slot),
            final(timer)@ == old(timer)@.take(self.slot),
    {
        timer.take_waker(self.slot)
    }
}

/// Starts the timer thread unless it is running: afterwards wakes can be
/// scheduled. A second call changes nothing.
pub fn start_timer_thread(timer: &mut Timer)
    requires
        old(timer).wf(),
    ensures
        final(timer).wf(),
        final(timer)@ == old(timer)@.start(),
{
    cell_get_or_init(&mut timer.cell);
    proof {
        assert(entries(Seq::<(u64, usize)>::empty()) =~= Seq::<ScheduledWake>::empty());
    }
}

/// Merges the entry into `queue`, behind all entries due no later.
fn insert_entry(queue: &mut Vec<(u64, usize)>, instant: u64, slot: usize)
    requires
        sorted(entries(old(queue)@)),
    ensures
        sorted(entries(final(queue)@)),
        entries(final(queue)@) == entries(old(queue)@).insert(
            rank(entries(old(queue)@), instant) as int,
            ScheduledWake { instant, slot },
        ),
{
    let ghost before = entries(queue@);
    let mut i: usize = 0;
    while i < queue.len() && queue[i].0 <= instant
        invariant
            *queue == *old(queue),
            before == entries(queue@),
            0 <= i <= queue.len(),
            forall|j: int| 0 <= j < i ==> before[j].instant <= instant,
        decreases queue.len() - i,
    {
        i += 1;
    }
    proof {
        lemma_rank(before, instant, i as int);
    }
    queue.insert(i, (instant, slot));
    proof {
        let after = entries(queue@);
        let entry = ScheduledWake { instant, slot };
        assert(after =~= before.insert(i as int, entry));
        assert forall|a: int, b: int| 0 <= a <= b < after.len() implies after[a].instant
            <= after[b].instant by {
            if a < i && b > i {
                assert(before[a].instant <= instant);
                assert(before[i as int].instant <= before[b - 1].instant);
            } else if a > i {
                assert(before[a - 1].instant <= before[b - 1].instant);
            } else if b < i {
                assert(before[a].instant <= before[b].instant);
            } else if a == i && b > i {
                assert(before[i as int].instant <= before[b - 1].instant);
            }
        }
    }
}

/// Hands the entry `(instant, slot)` to the timer thread, which merges it
/// into its queue. Fails if the timer thread was never started.
pub fn schedule_wake(timer: &mut Timer, instant: u64, slot: usize) -> (result: Result<
    (),
    TimerThreadNotStarted,
>)
    requires
        old(timer).wf(),
    ensures
        final(timer).wf(),
        result is Ok <==> old(timer)@.started(),
        final(timer)@ == old(timer)@.schedule(ScheduledWake { instant, slot }),
{
    match cell_get_mut(&mut timer.cell) {
        Some(queue) => {
            insert_entry(queue, instant, slot);
            Ok(())
        },
        None => Err(TimerThreadNotStarted {}),
    }
}

/// Removes the earliest entry if it is due at `now`.
fn pop_due(queue: &mut Vec<(u64, usize)>, now: u64) -> (due: Option<ScheduledWake>)
    requires
        sorted(entries(old(queue)@)),
    ensures
        sorted(entries(final(queue)@)),
        match due {
            Some(entry) => {
                &&& old(queue)@.len() > 0
                &&& entry == entries(old(queue)@)[0]
                &&& entry.instant < now
                &&& entries(final(queue)@) == entries(old(queue)@).skip(1)
            },
            None => {
                &&& *final(queue) == *old(queue)
                &&& old(queue)@.len() > 0 ==> entries(old(queue)@)[0].instant >= now
            },
        },
{
    if queue.len() > 0 && queue[0].0 < now {
        let ghost before = entries(queue@);
        let (instant, slot) = queue.remove(0);
        proof {
            let after = entries(queue@);
            assert(after =~= before.skip(1));
            assert forall|a: int, b: int| 0 <= a <= b < after.len() implies after[a].instant
                <= after[b].instant by {
                assert(before[a + 1].instant <= before[b + 1].instant);
            }
        }
        Some(ScheduledWake { instant, slot })
    } else {
        None
    }
}

/// One turn of the timer thread's loop at instant `now`: fires the
/// earliest entry if its instant has passed, and otherwise says how long
/// the thread is to wait for new entries.
pub fn timer_thread(timer: &mut Timer, now: u64) -> (step: TimerStep)
    requires
        old(timer).wf(),
    ensures
        final(timer).wf(),
        (final(timer)@, step) == old(timer)@.step(now),
{
    let due = match cell_get_mut(&mut timer.cell) {
        Some(queue) => pop_due(queue, now),
        None => None,
    };
    match due {
        Some(entry) => {
            let waker = entry.wake(timer);
            TimerStep::Fired { entry, waker }
        },
        None => match timer.next_instant() {
            Some(instant) => TimerStep::Wait(instant - now),
            None => TimerStep::Idle,
        },
    }
}

/// An entry fires only after its instant has passed, and only when no
/// entry in the queue is due earlier.
pub proof fn lemma_fires_no_earlier(timer: TimerView, now: u64)
    requires
        timer.wf(),
    ensures
        timer.step(now).1 matches TimerStep::Fired { entry, .. } ==> {
            &&& entry.instant < now
            &&& timer.queue is Some
            &&& forall|i: int|
                0 <= i < timer.queue->0.len() ==> entry.instant <= (#[trigger] timer.queue->0[i]).instant
        },
{
}

/// What was given up wakes nobody: once a slot has been emptied, the
/// entries in the queue are as before, and an entry for that slot fires
/// without a waker.
pub proof fn lemma_given_up_wakes_nobody(timer: TimerView, slot: usize, now: u64)
    requires
        timer.wf(),
    ensures
        timer.take(slot).wf(),
        timer.take(slot).queue == timer.queue,
        timer.take(slot).waker_in(slot) is None,
        timer.take(slot).step(now).1 matches TimerStep::Fired { entry, waker } ==> {
            &&& timer.step(now).1 matches TimerStep::Fired { entry: same, .. } && same == entry
            &&& entry.slot == slot ==> waker is None
            &&& entry.slot != slot ==> waker == timer.waker_in(entry.slot)
        },
{
}

/// A scheduled entry stays in the queue until the timer fires it, and
/// the timer does not fire while the clock has not passed the instant of
/// the earliest entry.
pub proof fn lemma_waits_until_due(timer: TimerView, now: u64)
    requires
        timer.wf(),
        timer.queue matches Some(queue) && queue.len() > 0 && now <= queue[0].instant,
    ensures
        timer.step(now) == (timer, TimerStep::Wait((timer.queue->0[0].instant - now) as u64)),
{
}

} // verus!
