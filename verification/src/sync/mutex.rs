//! A mutex that suspends the task instead of blocking the thread.

use vstd::prelude::*;
use std::collections::VecDeque;
use crate::future::{Context, Poll, Waker};

verus! {

/// Serialises access to a value between tasks. While a guard is out the
/// value is with the guard, and tasks that ask for the lock wait in line.
pub struct Mutex<T> {
    value: Option<T>,
    waiters: VecDeque<Waker>,
}

/// The mathematical content of a [`Mutex`].
pub struct MutexView<T> {
    /// The protected value; `None` while a guard holds it.
    pub value: Option<T>,
    /// The wakers of the tasks that found the mutex locked, oldest first.
    pub waiters: Seq<Waker>,
}

/// Exclusive access to the value of a mutex, from a completed lock until
/// it is handed back by `unlock`.
pub struct MutexGuard<T> {
    value: T,
}

/// One request for the lock of a mutex.
pub struct LockFuture {
}

impl<T> MutexView<T> {
    /// Whether a guard is out.
    pub open spec fn locked(self) -> bool {
        self.value is None
    }

    /// How many guards are out.
    pub open spec fn guards(self) -> nat {
        if self.locked() {
            1
        } else {
            0
        }
    }

    /// One poll of a lock request by the task of `waker`: the mutex
    /// afterwards, and the value that goes to the new guard if the lock
    /// was free.
    pub open spec fn poll_lock(self, waker: Waker) -> (MutexView<T>, Option<T>) {
        match self.value {
            Some(value) => (MutexView { value: None, ..self }, Some(value)),
            None => (MutexView { waiters: self.waiters.push(waker), ..self }, None),
        }
    }

    /// After the guard gave `value` back: the mutex is free and nobody
    /// waits; all who waited are woken.
    pub open spec fn unlock(self, value: T) -> MutexView<T> {
        MutexView { value: Some(value), waiters: Seq::empty() }
    }
}

impl<T> View for Mutex<T> {
    type V = MutexView<T>;

    closed spec fn view(&self) -> MutexView<T> {
        MutexView { value: self.value, waiters: self.waiters@ }
    }
}

impl<T> View for MutexGuard<T> {
    type V = T;

    closed spec fn view(&self) -> T {
        self.value
    }
}

impl<T> Mutex<T> {
    /// A free mutex around `value`.
    pub fn new(value: T) -> (mutex: Mutex<T>)
        ensures
            mutex@ == (MutexView { value: Some(value), waiters: Seq::empty() }),
    {
        Mutex { value: Some(value), waiters: VecDeque::new() }
    }

    /// A request for the lock; it takes effect when polled.
    pub fn lock(&self) -> (future: LockFuture) {
        LockFuture {  }
    }

    /// Whether a guard is out.
    pub fn is_locked(&self) -> (locked: bool)
        ensures
            locked == self@.locked(),
    {
        self.value.is_none()
    }

    /// How many tasks wait for the lock.
    pub fn waiting(&self) -> (count: usize)
        ensures
            count == self@.waiters.len(),
    {
        self.waiters.len()
    }
}

impl LockFuture {
    /// Polls the request. A free mutex becomes locked and gives a guard
    /// with its value. A locked one puts the waker of the polling task at
    /// the end of the line and leaves the request pending.
    pub fn poll<T>(&mut self, mutex: &mut Mutex<T>, cx: &mut Context) -> (result: Poll<
        MutexGuard<T>,
    >)
        requires
            old(cx).wf(),
        ensures
            final(cx).wf(),
            final(cx)@ == old(cx)@,
            final(mutex)@ == old(mutex)@.poll_lock(old(cx).waker).0,
            match result {
                Poll::Ready(guard) => old(mutex)@.poll_lock(old(cx).waker).1 == Some(guard@),
                Poll::Pending => old(mutex)@.poll_lock(old(cx).waker).1 is None,
            },
    {
        match mutex.value.take() {
            Some(value) => Poll::Ready(MutexGuard::new(value)),
            None => {
                mutex.waiters.push_back(cx.waker);
                Poll::Pending
            },
        }
    }
}

impl<T> MutexGuard<T> {
    /// The guard of a mutex that has just been locked.
    fn new(value: T) -> (guard: MutexGuard<T>)
        ensures
            guard@ == value,
    {
        MutexGuard { value }
    }

    /// The protected value.
    pub fn deref(&self) -> (value: &T)
        ensures
            *value == self@,
    {
        &self.value
    }

    /// The protected value, for writing.
    pub fn deref_mut(&mut self) -> (value: &mut T)
        ensures
            *value == old(self)@,
            final(self)@ == *final(value),
    {
        &mut self.value
    }

    /// Replaces the protected value.
    pub fn set(&mut self, value: T)
        ensures
            final(self)@ == value,
    {
        self.value = value;
    }

    /// Releases the lock, as dropping the guard does: the value goes
    /// back, the mutex is free, and every task in line is woken, in the
    /// order in which it came.
    pub fn unlock(self, mutex: &mut Mutex<T>, cx: &mut Context)
        requires
            old(mutex)@.locked(),
            old(cx).wf(),
        ensures
            final(cx).wf(),
            final(mutex)@ == old(mutex)@.unlock(self@),
            final(cx)@ == (crate::future::ContextView {
                woken: old(cx)@.woken + old(mutex)@.waiters,
                ..old(cx)@
            }),
    {
        mutex.value = Some(self.value);
        let ghost waiters = mutex.waiters@;
        let ghost before = cx@;
        let ghost mut count: int = 0;
        while mutex.waiters.len() > 0
            invariant
                cx.wf(),
                mutex.value == Some(self.value),
                0 <= count <= waiters.len(),
                mutex.waiters@ == waiters.skip(count),
                cx@ == (crate::future::ContextView {
                    woken: before.woken + waiters.take(count),
                    ..before
                }),
            decreases mutex.waiters.len(),
        {
            let waker = mutex.waiters.pop_front().unwrap();
            proof {
                assert(waiters.skip(count).skip(1) =~= waiters.skip(count + 1));
                assert(waiters.take(count).push(waiters[count as int]) =~= waiters.take(
                    count + 1,
                ));
                assert((before.woken + waiters.take(count)).push(waker) =~= before.woken
                    + waiters.take(count + 1));
            }
            cx.wake(waker);
            proof {
                count = count + 1;
            }
        }
        proof {
            assert(waiters.take(count) =~= waiters);
            assert(mutex.waiters@ =~= Seq::<Waker>::empty());
        }
    }
}

/// At most one guard is out at any time: a lock request gets a guard
/// exactly when none is out, the mutex is locked from then on, and every
/// further request stays pending until the guard is handed back.
pub proof fn lemma_at_most_one_guard<T>(mutex: MutexView<T>, waker: Waker)
    ensures
        mutex.guards() <= 1,
        mutex.poll_lock(waker).1 is Some <==> mutex.guards() == 0,
        mutex.poll_lock(waker).0.guards() == 1,
        mutex.locked() ==> mutex.poll_lock(waker).0.value == mutex.value,
        forall|value: T| (#[trigger] mutex.unlock(value)).guards() == 0,
{
}

/// Nobody who waits is forgotten: a task that found the mutex locked is
/// in line until the guard comes back, and is woken then.
pub proof fn lemma_waiter_is_woken<T>(mutex: MutexView<T>, waker: Waker, value: T)
    requires
        mutex.locked(),
    ensures
        mutex.poll_lock(waker).0.waiters.contains(waker),
        mutex.poll_lock(waker).0.unlock(value).waiters.len() == 0,
{
    let waiters = mutex.poll_lock(waker).0.waiters;
    assert(waiters[waiters.len() - 1] == waker);
}

} // verus!
