//! Bounded channels with many senders and one receiver.
//!
//! The receiver owns the channel: the buffer, the wait lists and the
//! count of senders. A sender is a token for one share in the channel and
//! acts on it through the receiver.

use vstd::prelude::*;
use std::collections::VecDeque;
use crate::future::{Context, Poll, Waker};

verus! {

/// The value could not be sent: the receiver is gone. The value comes back.
#[derive(Debug)]
pub struct SendError<T>(pub T);

/// Why a send that does not wait gave the value back.
#[derive(Debug)]
pub enum TrySendError<T> {
    /// The buffer is full.
    Full(T),
    /// The receiver is gone.
    Disconnected(T),
}

/// Nothing will ever arrive: the buffer is empty and no sender is left.
#[derive(Debug, PartialEq, Eq, Structural)]
pub struct RecvError;

/// Why a receive that does not wait came back empty-handed.
#[derive(Debug, PartialEq, Eq, Structural)]
pub enum TryRecvError {
    /// The buffer is empty, and a sender may still fill it.
    Empty,
    /// The buffer is empty and no sender is left.
    Disconnected,
}

/// Why a receive with a time limit came back empty-handed.
#[derive(Debug, PartialEq, Eq, Structural)]
pub enum RecvTimeoutError {
    /// Nothing arrived within the limit.
    Timeout,
    /// The buffer is empty and no sender is left.
    Disconnected,
}

/// The receiving end of a channel, and the channel itself.
pub struct Receiver<T> {
    queue: VecDeque<T>,
    bound: usize,
    sender_wakers: Vec<Waker>,
    receiver_waker: Option<Waker>,
    senders: usize,
    open: bool,
    sent: Ghost<Seq<T>>,
    received: Ghost<Seq<T>>,
}

/// The sender of a channel for a single value. Sending consumes it.
pub struct OneSender {
}

/// A sender of a bounded channel. It can be cloned; each clone counts.
pub struct SyncSender {
}

/// One asynchronous send: the value on its way into the channel.
pub struct SendFuture<T> {
    value: Option<T>,
}

/// The mathematical content of a channel.
pub struct ChannelView<T> {
    /// The values in the buffer, oldest first.
    pub queue: Seq<T>,
    /// How many values the buffer takes.
    pub bound: nat,
    /// The wakers of the senders that found the buffer full.
    pub sender_wakers: Seq<Waker>,
    /// The waker of the receiver, if it found the buffer empty.
    pub receiver_waker: Option<Waker>,
    /// How many senders are alive.
    pub senders: nat,
    /// Whether the receiver is alive.
    pub open: bool,
    /// Every value that a send has put into the buffer, in order.
    pub sent: Seq<T>,
    /// Every value that a receive has taken out, in order.
    pub received: Seq<T>,
}

/// The wakers to invoke for an optional waker.
pub open spec fn wakes(waker: Option<Waker>) -> Seq<Waker> {
    match waker {
        Some(waker) => seq![waker],
        None => Seq::empty(),
    }
}

impl<T> ChannelView<T> {
    /// What holds of every channel: the buffer keeps its bound; what was
    /// received and what waits in the buffer are, in this order, what was
    /// sent; the receiver waits only at an empty buffer, and senders wait
    /// only at a full one.
    pub open spec fn wf(self) -> bool {
        &&& 1 <= self.bound
        &&& self.queue.len() <= self.bound
        &&& self.open ==> self.received + self.queue == self.sent
        &&& !self.open ==> self.queue.len() == 0 && self.received.is_prefix_of(self.sent)
        &&& self.receiver_waker is Some ==> self.open && self.queue.len() == 0
        &&& self.sender_wakers.len() > 0 ==> self.open && self.queue.len() == self.bound
    }

    /// Whether a send would find room, or find the receiver gone.
    pub open spec fn can_send(self) -> bool {
        !self.open || self.queue.len() < self.bound
    }

    /// Whether a receive would find a value, or find that none can come.
    pub open spec fn can_recv(self) -> bool {
        self.queue.len() > 0 || self.senders == 0 || !self.open
    }

    /// A send that does not wait: the channel afterwards, the wakers to
    /// invoke, and the result. A value that goes in wakes the receiver.
    pub open spec fn try_send(self, value: T) -> (ChannelView<T>, Seq<Waker>, Result<
        (),
        TrySendError<T>,
    >) {
        if !self.open {
            (self, Seq::empty(), Err(TrySendError::Disconnected(value)))
        } else if self.queue.len() >= self.bound {
            (self, Seq::empty(), Err(TrySendError::Full(value)))
        } else {
            (
                ChannelView {
                    queue: self.queue.push(value),
                    sent: self.sent.push(value),
                    receiver_waker: None,
                    ..self
                },
                wakes(self.receiver_waker),
                Ok(()),
            )
        }
    }

    /// A receive that does not wait: the channel afterwards, the wakers
    /// to invoke, and the result. A value that comes out wakes every
    /// sender that waits.
    pub open spec fn try_recv(self) -> (ChannelView<T>, Seq<Waker>, Result<T, TryRecvError>) {
        if self.queue.len() > 0 {
            (
                ChannelView {
                    queue: self.queue.skip(1),
                    received: self.received.push(self.queue[0]),
                    sender_wakers: Seq::empty(),
                    ..self
                },
                self.sender_wakers,
                Ok(self.queue[0]),
            )
        } else if self.senders == 0 || !self.open {
            (self, Seq::empty(), Err(TryRecvError::Disconnected))
        } else {
            (self, Seq::empty(), Err(TryRecvError::Empty))
        }
    }

    /// What one look of a receive with a time limit ends with, given
    /// whether the limit is reached: the value, or the news that none can
    /// come; at an empty buffer with a sender alive the wait goes on
    /// while the limit is not reached, and ends with `Timeout` once it is.
    pub open spec fn recv_until(self, expired: bool) -> Poll<Result<T, RecvTimeoutError>> {
        match self.try_recv().2 {
            Ok(value) => Poll::Ready(Ok(value)),
            Err(TryRecvError::Disconnected) => Poll::Ready(Err(RecvTimeoutError::Disconnected)),
            Err(TryRecvError::Empty) => if expired {
                Poll::Ready(Err(RecvTimeoutError::Timeout))
            } else {
                Poll::Pending
            },
        }
    }

    /// One poll of an asynchronous send by the task of `waker`. At a full
    /// buffer the waker joins the waiting senders and the value stays with
    /// the future, which is what `Err` gives back here.
    pub open spec fn poll_send(self, value: T, waker: Waker) -> (
        ChannelView<T>,
        Seq<Waker>,
        Result<Result<(), SendError<T>>, T>,
    ) {
        let (sent, woken, result) = self.try_send(value);
        match result {
            Ok(()) => (sent, woken, Ok(Ok(()))),
            Err(TrySendError::Disconnected(value)) => (sent, woken, Ok(Err(SendError(value)))),
            Err(TrySendError::Full(value)) => (
                ChannelView { sender_wakers: self.sender_wakers.push(waker), ..self },
                Seq::empty(),
                Err(value),
            ),
        }
    }

    /// One poll of the receiver by the task of `waker`. At an empty
    /// buffer with senders alive the waker replaces the one that waits.
    pub open spec fn poll_recv(self, waker: Waker) -> (ChannelView<T>, Seq<Waker>, Poll<
        Result<T, RecvError>,
    >) {
        let (taken, woken, result) = self.try_recv();
        match result {
            Ok(value) => (taken, woken, Poll::Ready(Ok(value))),
            Err(TryRecvError::Disconnected) => (taken, woken, Poll::Ready(Err(RecvError))),
            Err(TryRecvError::Empty) => (
                ChannelView { receiver_waker: Some(waker), ..self },
                Seq::empty(),
                Poll::Pending,
            ),
        }
    }

    /// After one sender went away. The last one to go wakes the receiver,
    /// which can then see that nothing will come.
    pub open spec fn drop_sender(self) -> (ChannelView<T>, Seq<Waker>) {
        if self.senders <= 1 {
            (
                ChannelView { senders: 0, receiver_waker: None, ..self },
                wakes(self.receiver_waker),
            )
        } else {
            (ChannelView { senders: (self.senders - 1) as nat, ..self }, Seq::empty())
        }
    }

    /// After the receiver went away: what was in the buffer is dropped,
    /// and every sender that waits is woken to see the channel closed.
    pub open spec fn close(self) -> (ChannelView<T>, Seq<Waker>) {
        (
            ChannelView {
                queue: Seq::empty(),
                sender_wakers: Seq::empty(),
                receiver_waker: None,
                open: false,
                ..self
            },
            self.sender_wakers,
        )
    }
}

impl<T> View for Receiver<T> {
    type V = ChannelView<T>;

    closed spec fn view(&self) -> ChannelView<T> {
        ChannelView {
            queue: self.queue@,
            bound: self.bound as nat,
            sender_wakers: self.sender_wakers@,
            receiver_waker: self.receiver_waker,
            senders: self.senders as nat,
            open: self.open,
            sent: self.sent@,
            received: self.received@,
        }
    }
}

/// An open channel with one sender, an empty buffer and nobody waiting.
pub open spec fn fresh<T>(bound: nat) -> ChannelView<T> {
    ChannelView {
        queue: Seq::empty(),
        bound,
        sender_wakers: Seq::empty(),
        receiver_waker: None,
        senders: 1,
        open: true,
        sent: Seq::empty(),
        received: Seq::empty(),
    }
}

fn channel<T>(bound: usize) -> (receiver: Receiver<T>)
    requires
        bound > 0,
    ensures
        receiver.wf(),
        receiver@ == fresh::<T>(bound as nat),
{
    let receiver = Receiver {
        queue: VecDeque::new(),
        bound,
        sender_wakers: Vec::new(),
        receiver_waker: None,
        senders: 1,
        open: true,
        sent: Ghost(Seq::empty()),
        received: Ghost(Seq::empty()),
    };
    proof {
        assert(receiver@.received + receiver@.queue =~= receiver@.sent);
    }
    receiver
}

/// A channel for a single value: room for one, and a sender that is
/// consumed by sending.
pub fn oneshot<T>() -> (ends: (OneSender, Receiver<T>))
    ensures
        ends.1.wf(),
        ends.1@ == fresh::<T>(1),
{
    (OneSender {  }, channel(1))
}

/// A channel with room for `bound` values and a sender that can be cloned.
pub fn sync_channel<T>(bound: usize) -> (ends: (SyncSender, Receiver<T>))
    requires
        bound > 0,
    ensures
        ends.1.wf(),
        ends.1@ == fresh::<T>(bound as nat),
{
    (SyncSender {  }, channel(bound))
}

impl<T> Receiver<T> {
    pub open spec fn wf(&self) -> bool {
        self@.wf()
    }

    /// Puts `value` into the buffer if the receiver is alive and there is
    /// room; wakes nobody.
    fn push(&mut self, value: T) -> (result: Result<(), TrySendError<T>>)
        requires
            old(self).wf(),
        ensures
            result == old(self)@.try_send(value).2,
            final(self)@ == (ChannelView {
                receiver_waker: old(self)@.receiver_waker,
                ..old(self)@.try_send(value).0
            }),
    {
        if !self.open {
            Err(TrySendError::Disconnected(value))
        } else if self.queue.len() >= self.bound {
            Err(TrySendError::Full(value))
        } else {
            proof {
                self.sent@ = self.sent@.push(value);
            }
            self.queue.push_back(value);
            Ok(())
        }
    }

    /// Takes the oldest value out of the buffer; wakes nobody.
    fn pop(&mut self) -> (result: Result<T, TryRecvError>)
        requires
            old(self).wf(),
        ensures
            result == old(self)@.try_recv().2,
            final(self)@ == (ChannelView {
                sender_wakers: old(self)@.sender_wakers,
                ..old(self)@.try_recv().0
            }),
    {
        match self.queue.pop_front() {
            Some(value) => {
                proof {
                    self.received@ = self.received@.push(value);
                    assert(old(self).queue@.subrange(1, old(self).queue@.len() as int)
                        =~= old(self).queue@.skip(1));
                }
                Ok(value)
            },
            None => if self.senders == 0 || !self.open {
                Err(TryRecvError::Disconnected)
            } else {
                Err(TryRecvError::Empty)
            },
        }
    }

    /// Invokes the waker of the receiver, if one waits.
    fn wake_receiver(&mut self, woken: &mut Vec<Waker>)
        ensures
            final(self)@ == (ChannelView { receiver_waker: None, ..old(self)@ }),
            final(woken)@ == old(woken)@ + wakes(old(self)@.receiver_waker),
    {
        match self.receiver_waker.take() {
            Some(waker) => {
                woken.push(waker);
                proof {
                    assert(woken@ =~= old(woken)@ + seq![waker]);
                }
            },
            None => {
                proof {
                    assert(woken@ =~= old(woken)@ + Seq::<Waker>::empty());
                }
            },
        }
    }

    /// Wakes the receiver after a successful send, and passes the result on.
    fn wake_receiver_if_ok<E>(&mut self, result: Result<(), E>, woken: &mut Vec<Waker>) -> (passed:
        Result<(), E>)
        ensures
            passed == result,
            result is Ok ==> final(self)@ == (ChannelView { receiver_waker: None, ..old(self)@ })
                && final(woken)@ == old(woken)@ + wakes(old(self)@.receiver_waker),
            result is Err ==> final(self)@ == old(self)@ && final(woken)@ == old(woken)@,
    {
        if result.is_ok() {
            self.wake_receiver(woken);
        }
        result
    }

    /// Invokes the wakers of all senders that wait, and forgets them.
    fn wake_senders(&mut self, woken: &mut Vec<Waker>)
        ensures
            final(self)@ == (ChannelView { sender_wakers: Seq::empty(), ..old(self)@ }),
            final(woken)@ == old(woken)@ + old(self)@.sender_wakers,
    {
        woken.append(&mut self.sender_wakers);
    }

    /// Wakes the senders after a successful receive, and passes the
    /// result on.
    fn wake_senders_if_ok<E>(&mut self, result: Result<T, E>, woken: &mut Vec<Waker>) -> (passed:
        Result<T, E>)
        ensures
            passed == result,
            result is Ok ==> final(self)@ == (ChannelView {
                sender_wakers: Seq::empty(),
                ..old(self)@
            }) && final(woken)@ == old(woken)@ + old(self)@.sender_wakers,
            result is Err ==> final(self)@ == old(self)@ && final(woken)@ == old(woken)@,
    {
        if result.is_ok() {
            self.wake_senders(woken);
        }
        result
    }

    /// Takes `value` from a sender that does not wait, and wakes the
    /// receiver if the value went in.
    fn offer(&mut self, value: T, woken: &mut Vec<Waker>) -> (result: Result<(), TrySendError<T>>)
        requires
            old(self).wf(),
        ensures
            final(self).wf(),
            result == old(self)@.try_send(value).2,
            final(self)@ == old(self)@.try_send(value).0,
            final(woken)@ == old(woken)@ + old(self)@.try_send(value).1,
    {
        let result = self.push(value);
        let result = self.wake_receiver_if_ok(result, woken);
        proof {
            lemma_try_send_wf(old(self)@, value);
            assert(old(woken)@ + Seq::<Waker>::empty() =~= old(woken)@);
        }
        result
    }

    /// Receives without waiting. A value that comes out wakes every
    /// sender that waits for room.
    pub fn try_recv(&mut self, woken: &mut Vec<Waker>) -> (result: Result<T, TryRecvError>)
        requires
            old(self).wf(),
        ensures
            final(self).wf(),
            result == old(self)@.try_recv().2,
            final(self)@ == old(self)@.try_recv().0,
            final(woken)@ == old(woken)@ + old(self)@.try_recv().1,
    {
        let result = self.pop();
        let result = self.wake_senders_if_ok(result, woken);
        proof {
            lemma_try_recv_wf(old(self)@);
            assert(old(woken)@ + Seq::<Waker>::empty() =~= old(woken)@);
        }
        result
    }

    /// Receives a value, for a caller that may wait. The caller calls
    /// when the wait is over: a value is there, or none can come.
    pub fn recv(&mut self, woken: &mut Vec<Waker>) -> (result: Result<T, RecvError>)
        requires
            old(self).wf(),
            old(self)@.can_recv(),
        ensures
            final(self).wf(),
            final(self)@ == old(self)@.try_recv().0,
            final(woken)@ == old(woken)@ + old(self)@.try_recv().1,
            match result {
                Ok(value) => old(self)@.try_recv().2 == Ok::<T, TryRecvError>(value),
                Err(_) => old(self)@.try_recv().2 is Err,
            },
    {
        match self.try_recv(woken) {
            Ok(value) => Ok(value),
            Err(_) => Err(RecvError),
        }
    }

    /// One look of a caller that waits for a value, but no longer than
    /// `timeout`, after it has waited for `waited`. A value ends the wait,
    /// and so does the news that none can come. At an empty buffer with
    /// a sender alive the wait goes on until the limit is reached, and
    /// ends with `Timeout` then.
    pub fn recv_timeout(&mut self, woken: &mut Vec<Waker>, waited: u64, timeout: u64) -> (result:
        Poll<Result<T, RecvTimeoutError>>)
        requires
            old(self).wf(),
        ensures
            final(self).wf(),
            final(self)@ == old(self)@.try_recv().0,
            final(woken)@ == old(woken)@ + old(self)@.try_recv().1,
            result == old(self)@.recv_until(waited >= timeout),
    {
        match self.try_recv(woken) {
            Ok(value) => Poll::Ready(Ok(value)),
            Err(TryRecvError::Disconnected) => Poll::Ready(Err(RecvTimeoutError::Disconnected)),
            Err(TryRecvError::Empty) => if waited >= timeout {
                Poll::Ready(Err(RecvTimeoutError::Timeout))
            } else {
                Poll::Pending
            },
        }
    }

    /// As `recv_timeout`, for a limit given as an instant: the limit is
    /// reached when the clock `now` reads `deadline` or later.
    pub fn recv_deadline(&mut self, woken: &mut Vec<Waker>, now: u64, deadline: u64) -> (result:
        Poll<Result<T, RecvTimeoutError>>)
        requires
            old(self).wf(),
        ensures
            final(self).wf(),
            final(self)@ == old(self)@.try_recv().0,
            final(woken)@ == old(woken)@ + old(self)@.try_recv().1,
            result == old(self)@.recv_until(deadline <= now),
    {
        match self.try_recv(woken) {
            Ok(value) => Poll::Ready(Ok(value)),
            Err(TryRecvError::Disconnected) => Poll::Ready(Err(RecvTimeoutError::Disconnected)),
            Err(TryRecvError::Empty) => if deadline <= now {
                Poll::Ready(Err(RecvTimeoutError::Timeout))
            } else {
                Poll::Pending
            },
        }
    }

    /// Polls the receiver for the task of the context. A value that
    /// comes out wakes the senders that wait. At an empty buffer the poll
    /// fails if no sender is left, and otherwise leaves the waker of the
    /// task for the next sender.
    pub fn poll(&mut self, cx: &mut Context) -> (result: Poll<Result<T, RecvError>>)
        requires
            old(self).wf(),
            old(cx).wf(),
        ensures
            final(self).wf(),
            final(cx).wf(),
            final(self)@ == old(self)@.poll_recv(old(cx).waker).0,
            result == old(self)@.poll_recv(old(cx).waker).2,
            final(cx)@ == (crate::future::ContextView {
                woken: old(cx)@.woken + old(self)@.poll_recv(old(cx).waker).1,
                ..old(cx)@
            }),
    {
        proof {
            lemma_poll_recv_wf(self@, cx.waker);
        }
        match self.try_recv(&mut cx.woken) {
            Ok(value) => Poll::Ready(Ok(value)),
            Err(TryRecvError::Disconnected) => Poll::Ready(Err(RecvError)),
            Err(TryRecvError::Empty) => {
                self.receiver_waker = Some(cx.waker);
                proof {
                    assert(old(cx)@.woken + Seq::<Waker>::empty() =~= old(cx)@.woken);
                }
                Poll::Pending
            },
        }
    }

    /// Every value that can be received without waiting, oldest first.
    pub fn try_iter(&mut self, woken: &mut Vec<Waker>) -> (values: Vec<T>)
        requires
            old(self).wf(),
        ensures
            final(self).wf(),
            values@ == old(self)@.queue,
            final(self)@ == (ChannelView {
                queue: Seq::empty(),
                received: old(self)@.received + old(self)@.queue,
                sender_wakers: if old(self)@.queue.len() > 0 {
                    Seq::empty()
                } else {
                    old(self)@.sender_wakers
                },
                ..old(self)@
            }),
            final(woken)@ == old(woken)@ + (if old(self)@.queue.len() > 0 {
                old(self)@.sender_wakers
            } else {
                Seq::empty()
            }),
    {
        let mut values: Vec<T> = Vec::new();
        let ghost start = self@;
        proof {
            assert(start.queue.take(0) =~= Seq::<T>::empty());
            assert(start.received + Seq::<T>::empty() =~= start.received);
            assert(start.queue.skip(0) =~= start.queue);
            assert(old(woken)@ + Seq::<Waker>::empty() =~= old(woken)@);
        }
        while self.queue.len() > 0
            invariant
                self.wf(),
                start.wf(),
                0 <= values@.len() <= start.queue.len(),
                values@ == start.queue.take(values@.len() as int),
                self@ == (ChannelView {
                    queue: start.queue.skip(values@.len() as int),
                    received: start.received + values@,
                    sender_wakers: if values@.len() > 0 {
                        Seq::empty()
                    } else {
                        start.sender_wakers
                    },
                    ..start
                }),
                woken@ == old(woken)@ + (if values@.len() > 0 {
                    start.sender_wakers
                } else {
                    Seq::empty()
                }),
            decreases self@.queue.len(),
        {
            let ghost taken = values@;
            let ghost before = self@;
            let ghost woken_before = woken@;
            match self.try_recv(woken) {
                Ok(value) => {
                    values.push(value);
                    proof {
                        let n = taken.len() as int;
                        assert(before.queue[0] == start.queue[n]);
                        assert(values@ =~= start.queue.take(n + 1));
                        assert(before.queue.skip(1) =~= start.queue.skip(n + 1));
                        assert(before.received.push(value) =~= start.received + values@);
                        if n > 0 {
                            assert(woken_before + Seq::<Waker>::empty() =~= woken_before);
                        }
                    }
                },
                Err(_) => {
                    proof {
                        assert(false);
                    }
                },
            }
        }
        proof {
            assert(values@ =~= start.queue);
            assert(self@.queue =~= Seq::<T>::empty());
        }
        values
    }

    /// Every value that is received until the channel gives none any
    /// more. The caller calls when all senders are gone, which is when
    /// such an iteration ends.
    pub fn iter(&mut self, woken: &mut Vec<Waker>) -> (values: Vec<T>)
        requires
            old(self).wf(),
            old(self)@.senders == 0 || !old(self)@.open,
        ensures
            final(self).wf(),
            values@ == old(self)@.queue,
            final(self)@ == (ChannelView {
                queue: Seq::empty(),
                received: old(self)@.received + old(self)@.queue,
                sender_wakers: if old(self)@.queue.len() > 0 {
                    Seq::empty()
                } else {
                    old(self)@.sender_wakers
                },
                ..old(self)@
            }),
            final(woken)@ == old(woken)@ + (if old(self)@.queue.len() > 0 {
                old(self)@.sender_wakers
            } else {
                Seq::empty()
            }),
    {
        self.try_iter(woken)
    }

    /// Drops the receiving end: the values in the buffer are dropped with
    /// it, and every sender that waits is woken to see the channel closed.
    pub fn close(&mut self, woken: &mut Vec<Waker>)
        requires
            old(self).wf(),
        ensures
            final(self).wf(),
            final(self)@ == old(self)@.close().0,
            final(woken)@ == old(woken)@ + old(self)@.close().1,
    {
        self.open = false;
        self.receiver_waker = None;
        self.queue.clear();
        self.wake_senders(woken);
        proof {
            assert(self@.received.is_prefix_of(self@.sent)) by {
                if old(self)@.open {
                    assert(old(self)@.received + old(self)@.queue == old(self)@.sent);
                }
            }
        }
    }

    /// Whether a send would find the buffer full.
    pub fn is_full(&self) -> (full: bool)
        ensures
            full == (self@.queue.len() >= self@.bound),
    {
        self.queue.len() >= self.bound
    }

    /// How many values wait in the buffer.
    pub fn len(&self) -> (len: usize)
        ensures
            len == self@.queue.len(),
    {
        self.queue.len()
    }

    /// How many senders are alive.
    pub fn sender_count(&self) -> (count: usize)
        ensures
            count == self@.senders,
    {
        self.senders
    }

    /// Whether the receiving end is alive.
    pub fn is_open(&self) -> (open: bool)
        ensures
            open == self@.open,
    {
        self.open
    }
}

impl OneSender {
    /// Sends the one value and gives the sender up, which wakes the
    /// receiver. Fails, giving the value back, if the receiver is gone.
    pub fn send<T>(self, receiver: &mut Receiver<T>, value: T, woken: &mut Vec<Waker>) -> (result:
        Result<(), SendError<T>>)
        requires
            old(receiver).wf(),
            old(receiver)@.can_send(),
        ensures
            final(receiver).wf(),
            final(receiver)@ == (ChannelView {
                senders: 0,
                receiver_waker: None,
                ..old(receiver)@.try_send(value).0
            }),
            final(woken)@ == old(woken)@ + wakes(old(receiver)@.receiver_waker),
            match result {
                Ok(()) => old(receiver)@.open,
                Err(error) => !old(receiver)@.open && error.0 == value,
            },
    {
        let result = match receiver.push(value) {
            Ok(()) => Ok(()),
            Err(TrySendError::Disconnected(value)) => Err(SendError(value)),
            Err(TrySendError::Full(_)) => vstd::pervasive::unreached(),
        };
        proof {
            lemma_try_send_wf(old(receiver)@, value);
        }
        self.drop(receiver, woken);
        result
    }

    /// Gives the sender up without sending, which wakes the receiver.
    pub fn drop<T>(self, receiver: &mut Receiver<T>, woken: &mut Vec<Waker>)
        ensures
            old(receiver).wf() ==> final(receiver).wf(),
            final(receiver)@ == (ChannelView { senders: 0, receiver_waker: None, ..old(receiver)@ }),
            final(woken)@ == old(woken)@ + wakes(old(receiver)@.receiver_waker),
    {
        receiver.senders = 0;
        receiver.wake_receiver(woken);
    }
}

impl SyncSender {
    /// An asynchronous send of `value`; it takes effect when polled.
    pub fn async_send<T>(&self, value: T) -> (future: SendFuture<T>)
        ensures
            future@ == Some(value),
    {
        SendFuture { value: Some(value) }
    }

    /// Sends without waiting. A value that goes in wakes the receiver.
    pub fn try_send<T>(&self, receiver: &mut Receiver<T>, value: T, woken: &mut Vec<Waker>) -> (result:
        Result<(), TrySendError<T>>)
        requires
            old(receiver).wf(),
        ensures
            final(receiver).wf(),
            result == old(receiver)@.try_send(value).2,
            final(receiver)@ == old(receiver)@.try_send(value).0,
            final(woken)@ == old(woken)@ + old(receiver)@.try_send(value).1,
    {
        receiver.offer(value, woken)
    }

    /// Sends a value, for a caller that may wait for room. The caller
    /// calls when the wait is over: there is room, or the receiver is gone.
    pub fn send<T>(&self, receiver: &mut Receiver<T>, value: T, woken: &mut Vec<Waker>) -> (result:
        Result<(), SendError<T>>)
        requires
            old(receiver).wf(),
            old(receiver)@.can_send(),
        ensures
            final(receiver).wf(),
            final(receiver)@ == old(receiver)@.try_send(value).0,
            final(woken)@ == old(woken)@ + old(receiver)@.try_send(value).1,
            match result {
                Ok(()) => old(receiver)@.open,
                Err(error) => !old(receiver)@.open && error.0 == value,
            },
    {
        match self.try_send(receiver, value, woken) {
            Ok(()) => Ok(()),
            Err(TrySendError::Disconnected(value)) => Err(SendError(value)),
            Err(TrySendError::Full(_)) => vstd::pervasive::unreached(),
        }
    }

    /// One more sender for the same channel.
    pub fn clone<T>(&self, receiver: &mut Receiver<T>) -> (sender: SyncSender)
        requires
            old(receiver)@.senders < usize::MAX,
        ensures
            final(receiver)@ == (ChannelView {
                senders: old(receiver)@.senders + 1,
                ..old(receiver)@
            }),
    {
        receiver.senders = receiver.senders + 1;
        SyncSender {  }
    }

    /// Gives this sender up. The last sender to go wakes the receiver.
    pub fn drop<T>(self, receiver: &mut Receiver<T>, woken: &mut Vec<Waker>)
        requires
            old(receiver).wf(),
        ensures
            final(receiver).wf(),
            final(receiver)@ == old(receiver)@.drop_sender().0,
            final(woken)@ == old(woken)@ + old(receiver)@.drop_sender().1,
    {
        if receiver.senders <= 1 {
            receiver.senders = 0;
            receiver.wake_receiver(woken);
        } else {
            receiver.senders = receiver.senders - 1;
            proof {
                assert(old(woken)@ + Seq::<Waker>::empty() =~= old(woken)@);
            }
        }
    }
}

impl<T> View for SendFuture<T> {
    type V = Option<T>;

    closed spec fn view(&self) -> Option<T> {
        self.value
    }
}

impl<T> SendFuture<T> {
    /// Whether the value has left the future: the send has completed.
    pub fn is_done(&self) -> (done: bool)
        ensures
            done == (self@ is None),
    {
        self.value.is_none()
    }

    /// Polls the send for the task of the context. A value that goes in
    /// wakes the receiver. At a full buffer the value stays with the
    /// future, and the waker of the task joins the senders that wait. A
    /// completed send must not be polled again.
    pub fn poll(&mut self, receiver: &mut Receiver<T>, cx: &mut Context) -> (result: Poll<
        Result<(), SendError<T>>,
    >)
        requires
            old(self)@ is Some,
            old(receiver).wf(),
            old(cx).wf(),
        ensures
            final(receiver).wf(),
            final(cx).wf(),
            final(receiver)@ == old(receiver)@.poll_send(old(self)@->0, old(cx).waker).0,
            final(cx)@ == (crate::future::ContextView {
                woken: old(cx)@.woken + old(receiver)@.poll_send(old(self)@->0, old(cx).waker).1,
                ..old(cx)@
            }),
            match old(receiver)@.poll_send(old(self)@->0, old(cx).waker).2 {
                Ok(done) => result == Poll::Ready(done) && final(self)@ is None,
                Err(value) => result is Pending && final(self)@ == Some(value),
            },
    {
        let value = self.value.take().unwrap();
        proof {
            lemma_poll_send_wf(receiver@, value, cx.waker);
        }
        match receiver.offer(value, &mut cx.woken) {
            Ok(()) => Poll::Ready(Ok(())),
            Err(TrySendError::Disconnected(value)) => Poll::Ready(Err(SendError(value))),
            Err(TrySendError::Full(value)) => {
                self.value = Some(value);
                receiver.sender_wakers.push(cx.waker);
                proof {
                    assert(old(cx)@.woken + Seq::<Waker>::empty() =~= old(cx)@.woken);
                }
                Poll::Pending
            },
        }
    }
}

/// A send that does not wait keeps the channel well-formed.
pub proof fn lemma_try_send_wf<T>(channel: ChannelView<T>, value: T)
    requires
        channel.wf(),
    ensures
        channel.try_send(value).0.wf(),
{
    let after = channel.try_send(value).0;
    if channel.open && channel.queue.len() < channel.bound {
        assert(after.received + after.queue =~= after.sent);
    }
}

/// A receive that does not wait keeps the channel well-formed.
pub proof fn lemma_try_recv_wf<T>(channel: ChannelView<T>)
    requires
        channel.wf(),
    ensures
        channel.try_recv().0.wf(),
{
    let after = channel.try_recv().0;
    if channel.queue.len() > 0 {
        assert(after.received + after.queue =~= channel.received + channel.queue);
        if !channel.open {
            assert(false);
        }
    }
}

/// A poll of a send keeps the channel well-formed.
pub proof fn lemma_poll_send_wf<T>(channel: ChannelView<T>, value: T, waker: Waker)
    requires
        channel.wf(),
    ensures
        channel.poll_send(value, waker).0.wf(),
{
    lemma_try_send_wf(channel, value);
}

/// A poll of the receiver keeps the channel well-formed.
pub proof fn lemma_poll_recv_wf<T>(channel: ChannelView<T>, waker: Waker)
    requires
        channel.wf(),
    ensures
        channel.poll_recv(waker).0.wf(),
{
    lemma_try_recv_wf(channel);
}

/// Values arrive in the order in which they were sent, each at most
/// once: what has been received is always a prefix of what has been sent,
/// a receive takes the oldest value that has not been received, and a
/// send puts its value behind all that wait.
pub proof fn lemma_fifo_at_most_once<T>(channel: ChannelView<T>, value: T)
    requires
        channel.wf(),
    ensures
        channel.received.is_prefix_of(channel.sent),
        channel.open ==> channel.queue == channel.sent.skip(channel.received.len() as int),
        channel.try_recv().2 matches Ok(taken) ==> {
            &&& taken == channel.sent[channel.received.len() as int]
            &&& channel.try_recv().0.received == channel.received.push(taken)
            &&& channel.try_recv().0.sent == channel.sent
        },
        channel.try_recv().2 is Err ==> channel.try_recv().0 == channel,
        channel.try_send(value).2 is Ok ==> {
            &&& channel.try_send(value).0.sent == channel.sent.push(value)
            &&& channel.try_send(value).0.received == channel.received
        },
        channel.try_send(value).2 is Err ==> channel.try_send(value).0 == channel,
{
    if channel.open {
        assert(channel.received + channel.queue == channel.sent);
        assert(channel.queue =~= channel.sent.skip(channel.received.len() as int));
        assert(channel.received.is_prefix_of(channel.sent)) by {
            assert(channel.sent.take(channel.received.len() as int) =~= channel.received);
        }
        if channel.queue.len() > 0 {
            assert(channel.sent[channel.received.len() as int] == channel.queue[0]);
        }
    }
}

/// Once the last sender is gone and the buffer is empty, the receiver
/// is woken if it waits, and its next poll fails with `RecvError`.
pub proof fn lemma_last_sender_drop_disconnects<T>(channel: ChannelView<T>, waker: Waker)
    requires
        channel.wf(),
        channel.senders <= 1,
        channel.queue.len() == 0,
    ensures
        channel.drop_sender().1 == wakes(channel.receiver_waker),
        channel.drop_sender().0.poll_recv(waker).2 == Poll::<Result<T, RecvError>>::Ready(
            Err(RecvError),
        ),
{
}

/// With values still in the buffer the receiver gets them first, oldest
/// first, and sees the disconnection once the buffer is empty.
pub proof fn lemma_disconnect_after_drain<T>(channel: ChannelView<T>, waker: Waker)
    requires
        channel.wf(),
        channel.senders == 0,
        channel.queue.len() > 0,
    ensures
        channel.poll_recv(waker).2 == Poll::<Result<T, RecvError>>::Ready(Ok(channel.queue[0])),
        channel.poll_recv(waker).0.senders == 0,
        channel.poll_recv(waker).0.queue.len() == channel.queue.len() - 1,
{
}

} // verus!
