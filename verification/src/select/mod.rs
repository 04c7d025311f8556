//! Selection: the first of several futures to complete, by position.

pub mod options;

pub use options::{OptionAb, OptionAbc, OptionAbcd, OptionAbcde};

use vstd::prelude::*;
use crate::future::{Context, ContextView, Future, PendingFuture, Poll};

verus! {

/// Races five futures. Each poll tries them in the order A to E and
/// completes with the first that is ready; the futures behind it are not
/// polled in that poll. The losers are dropped with the selection.
pub struct SelectFuture<FutA, FutB, FutC, FutD, FutE> {
    pub a: FutA,
    pub b: FutB,
    pub c: FutC,
    pub d: FutD,
    pub e: FutE,
}

impl<FutA: Future, FutB: Future, FutC: Future, FutD: Future, FutE: Future> SelectFuture<
    FutA,
    FutB,
    FutC,
    FutD,
    FutE,
> {
    /// A selection among the five futures, none of them polled yet.
    pub fn new(a: FutA, b: FutB, c: FutC, d: FutD, e: FutE) -> (future: Self)
        ensures
            future == (SelectFuture { a, b, c, d, e }),
    {
        SelectFuture { a, b, c, d, e }
    }
}

impl<FutA: Future, FutB: Future, FutC: Future, FutD: Future, FutE: Future> Future for SelectFuture<
    FutA,
    FutB,
    FutC,
    FutD,
    FutE,
> {
    type Output = OptionAbcde<FutA::Output, FutB::Output, FutC::Output, FutD::Output, FutE::Output>;

    open spec fn inv(&self) -> bool {
        self.a.inv() && self.b.inv() && self.c.inv() && self.d.inv() && self.e.inv()
    }

    /// Polls A to E in turn, each in the context that the one before has
    /// left, and stops at the first that is ready.
    open spec fn poll_spec(self, cx: ContextView) -> (Self, ContextView, Poll<Self::Output>) {
        let (a, cx_a, result_a) = self.a.poll_spec(cx);
        if let Poll::Ready(value) = result_a {
            (SelectFuture { a, ..self }, cx_a, Poll::Ready(OptionAbcde::A(value)))
        } else {
            let (b, cx_b, result_b) = self.b.poll_spec(cx_a);
            if let Poll::Ready(value) = result_b {
                (SelectFuture { a, b, ..self }, cx_b, Poll::Ready(OptionAbcde::B(value)))
            } else {
                let (c, cx_c, result_c) = self.c.poll_spec(cx_b);
                if let Poll::Ready(value) = result_c {
                    (SelectFuture { a, b, c, ..self }, cx_c, Poll::Ready(OptionAbcde::C(value)))
                } else {
                    let (d, cx_d, result_d) = self.d.poll_spec(cx_c);
                    if let Poll::Ready(value) = result_d {
                        (
                            SelectFuture { a, b, c, d, ..self },
                            cx_d,
                            Poll::Ready(OptionAbcde::D(value)),
                        )
                    } else {
                        let (e, cx_e, result_e) = self.e.poll_spec(cx_d);
                        (
                            SelectFuture { a, b, c, d, e },
                            cx_e,
                            match result_e {
                                Poll::Ready(value) => Poll::Ready(OptionAbcde::E(value)),
                                Poll::Pending => Poll::Pending,
                            },
                        )
                    }
                }
            }
        }
    }

    fn poll(&mut self, cx: &mut Context) -> (result: Poll<Self::Output>) {
        match self.a.poll(cx) {
            Poll::Ready(value) => return Poll::Ready(OptionAbcde::A(value)),
            Poll::Pending => {},
        }
        match self.b.poll(cx) {
            Poll::Ready(value) => return Poll::Ready(OptionAbcde::B(value)),
            Poll::Pending => {},
        }
        match self.c.poll(cx) {
            Poll::Ready(value) => return Poll::Ready(OptionAbcde::C(value)),
            Poll::Pending => {},
        }
        match self.d.poll(cx) {
            Poll::Ready(value) => return Poll::Ready(OptionAbcde::D(value)),
            Poll::Pending => {},
        }
        match self.e.poll(cx) {
            Poll::Ready(value) => return Poll::Ready(OptionAbcde::E(value)),
            Poll::Pending => {},
        }
        Poll::Pending
    }
}

/// A race of two futures: the five-way selection with the unused positions
/// filled by futures that never complete.
pub struct SelectAb<FutA, FutB> {
    pub engine: SelectFuture<FutA, FutB, PendingFuture, PendingFuture, PendingFuture>,
}

impl<FutA: Future, FutB: Future> SelectAb<FutA, FutB> {
    /// The result of the five-way selection, in the union of two positions.
    pub open spec fn narrow(result: Poll<OptionAbcde<FutA::Output, FutB::Output, (), (), ()>>) -> Poll<OptionAb<FutA::Output, FutB::Output>> {
        match result {
            Poll::Ready(OptionAbcde::A(value)) => Poll::Ready(OptionAb::A(value)),
            Poll::Ready(OptionAbcde::B(value)) => Poll::Ready(OptionAb::B(value)),
            _ => Poll::Pending,
        }
    }
}

impl<FutA: Future, FutB: Future> Future for SelectAb<FutA, FutB> {
    type Output = OptionAb<FutA::Output, FutB::Output>;

    open spec fn inv(&self) -> bool {
        self.engine.inv()
    }

    open spec fn poll_spec(self, cx: ContextView) -> (Self, ContextView, Poll<Self::Output>) {
        let (engine, polled, result) = self.engine.poll_spec(cx);
        (SelectAb { engine }, polled, Self::narrow(result))
    }

    fn poll(&mut self, cx: &mut Context) -> (result: Poll<Self::Output>) {
        match self.engine.poll(cx) {
            Poll::Ready(OptionAbcde::A(value)) => Poll::Ready(OptionAb::A(value)),
            Poll::Ready(OptionAbcde::B(value)) => Poll::Ready(OptionAb::B(value)),
            Poll::Ready(_) => vstd::pervasive::unreached(),
            Poll::Pending => Poll::Pending,
        }
    }
}

/// The race of the two futures, by position.
pub fn select_ab<FutA: Future, FutB: Future>(a: FutA, b: FutB) -> (future: SelectAb<FutA, FutB>)
    ensures
        future == (SelectAb { engine: SelectFuture { a, b, c: PendingFuture, d: PendingFuture, e: PendingFuture } }),
{
    SelectAb { engine: SelectFuture::new(a, b, PendingFuture, PendingFuture, PendingFuture) }
}

/// A race of three futures: the five-way selection with the unused positions
/// filled by futures that never complete.
pub struct SelectAbc<FutA, FutB, FutC> {
    pub engine: SelectFuture<FutA, FutB, FutC, PendingFuture, PendingFuture>,
}

impl<FutA: Future, FutB: Future, FutC: Future> SelectAbc<FutA, FutB, FutC> {
    /// The result of the five-way selection, in the union of three positions.
    pub open spec fn narrow(result: Poll<OptionAbcde<FutA::Output, FutB::Output, FutC::Output, (), ()>>) -> Poll<OptionAbc<FutA::Output, FutB::Output, FutC::Output>> {
        match result {
            Poll::Ready(OptionAbcde::A(value)) => Poll::Ready(OptionAbc::A(value)),
            Poll::Ready(OptionAbcde::B(value)) => Poll::Ready(OptionAbc::B(value)),
            Poll::Ready(OptionAbcde::C(value)) => Poll::Ready(OptionAbc::C(value)),
            _ => Poll::Pending,
        }
    }
}

impl<FutA: Future, FutB: Future, FutC: Future> Future for SelectAbc<FutA, FutB, FutC> {
    type Output = OptionAbc<FutA::Output, FutB::Output, FutC::Output>;

    open spec fn inv(&self) -> bool {
        self.engine.inv()
    }

    open spec fn poll_spec(self, cx: ContextView) -> (Self, ContextView, Poll<Self::Output>) {
        let (engine, polled, result) = self.engine.poll_spec(cx);
        (SelectAbc { engine }, polled, Self::narrow(result))
    }

    fn poll(&mut self, cx: &mut Context) -> (result: Poll<Self::Output>) {
        match self.engine.poll(cx) {
            Poll::Ready(OptionAbcde::A(value)) => Poll::Ready(OptionAbc::A(value)),
            Poll::Ready(OptionAbcde::B(value)) => Poll::Ready(OptionAbc::B(value)),
            Poll::Ready(OptionAbcde::C(value)) => Poll::Ready(OptionAbc::C(value)),
            Poll::Ready(_) => vstd::pervasive::unreached(),
            Poll::Pending => Poll::Pending,
        }
    }
}

/// The race of the three futures, by position.
pub fn select_abc<FutA: Future, FutB: Future, FutC: Future>(a: FutA, b: FutB, c: FutC) -> (future: SelectAbc<FutA, FutB, FutC>)
    ensures
        future == (SelectAbc { engine: SelectFuture { a, b, c, d: PendingFuture, e: PendingFuture } }),
{
    SelectAbc { engine: SelectFuture::new(a, b, c, PendingFuture, PendingFuture) }
}

/// A race of four futures: the five-way selection with the unused positions
/// filled by futures that never complete.
pub struct SelectAbcd<FutA, FutB, FutC, FutD> {
    pub engine: SelectFuture<FutA, FutB, FutC, FutD, PendingFuture>,
}

impl<FutA: Future, FutB: Future, FutC: Future, FutD: Future> SelectAbcd<FutA, FutB, FutC, FutD> {
    /// The result of the five-way selection, in the union of four positions.
    pub open spec fn narrow(result: Poll<OptionAbcde<FutA::Output, FutB::Output, FutC::Output, FutD::Output, ()>>) -> Poll<OptionAbcd<FutA::Output, FutB::Output, FutC::Output, FutD::Output>> {
        match result {
            Poll::Ready(OptionAbcde::A(value)) => Poll::Ready(OptionAbcd::A(value)),
            Poll::Ready(OptionAbcde::B(value)) => Poll::Ready(OptionAbcd::B(value)),
            Poll::Ready(OptionAbcde::C(value)) => Poll::Ready(OptionAbcd::C(value)),
            Poll::Ready(OptionAbcde::D(value)) => Poll::Ready(OptionAbcd::D(value)),
            _ => Poll::Pending,
        }
    }
}

impl<FutA: Future, FutB: Future, FutC: Future, FutD: Future> Future for SelectAbcd<FutA, FutB, FutC, FutD> {
    type Output = OptionAbcd<FutA::Output, FutB::Output, FutC::Output, FutD::Output>;

    open spec fn inv(&self) -> bool {
        self.engine.inv()
    }

    open spec fn poll_spec(self, cx: ContextView) -> (Self, ContextView, Poll<Self::Output>) {
        let (engine, polled, result) = self.engine.poll_spec(cx);
        (SelectAbcd { engine }, polled, Self::narrow(result))
    }

    fn poll(&mut self, cx: &mut Context) -> (result: Poll<Self::Output>) {
        match self.engine.poll(cx) {
            Poll::Ready(OptionAbcde::A(value)) => Poll::Ready(OptionAbcd::A(value)),
            Poll::Ready(OptionAbcde::B(value)) => Poll::Ready(OptionAbcd::B(value)),
            Poll::Ready(OptionAbcde::C(value)) => Poll::Ready(OptionAbcd::C(value)),
            Poll::Ready(OptionAbcde::D(value)) => Poll::Ready(OptionAbcd::D(value)),
            Poll::Ready(_) => vstd::pervasive::unreached(),
            Poll::Pending => Poll::Pending,
        }
    }
}

/// The race of the four futures, by position.
pub fn select_abcd<FutA: Future, FutB: Future, FutC: Future, FutD: Future>(a: FutA, b: FutB, c: FutC, d: FutD) -> (future: SelectAbcd<FutA, FutB, FutC, FutD>)
    ensures
        future == (SelectAbcd { engine: SelectFuture { a, b, c, d, e: PendingFuture } }),
{
    SelectAbcd { engine: SelectFuture::new(a, b, c, d, PendingFuture) }
}

/// The race of the five futures, by position.
pub fn select_abcde<FutA: Future, FutB: Future, FutC: Future, FutD: Future, FutE: Future>(
    a: FutA,
    b: FutB,
    c: FutC,
    d: FutD,
    e: FutE,
) -> (future: SelectFuture<FutA, FutB, FutC, FutD, FutE>)
    ensures
        future == (SelectFuture { a, b, c, d, e }),
{
    SelectFuture::new(a, b, c, d, e)
}

/// Where the first future is ready the selection completes with its
/// value at position A, whatever the second would give: the second is not
/// polled.
pub proof fn lemma_select_ab_prefers_first<FutA: Future, FutB: Future>(
    a: FutA,
    b: FutB,
    cx: ContextView,
)
    requires
        a.poll_spec(cx).2 is Ready,
    ensures
        ({
            let future = SelectAb { engine: SelectFuture { a, b, c: PendingFuture, d: PendingFuture, e: PendingFuture } };
            let (after, polled, result) = future.poll_spec(cx);
            &&& result == Poll::<OptionAb<FutA::Output, FutB::Output>>::Ready(
                OptionAb::A(a.poll_spec(cx).2->Ready_0),
            )
            &&& after.engine.b == b
            &&& polled == a.poll_spec(cx).1
        }),
{
}

/// Where the first future is pending and the second is ready, the
/// selection completes with the value of the second at position B.
pub proof fn lemma_select_ab_falls_through<FutA: Future, FutB: Future>(
    a: FutA,
    b: FutB,
    cx: ContextView,
)
    requires
        a.poll_spec(cx).2 is Pending,
        b.poll_spec(a.poll_spec(cx).1).2 is Ready,
    ensures
        ({
            let future = SelectAb { engine: SelectFuture { a, b, c: PendingFuture, d: PendingFuture, e: PendingFuture } };
            future.poll_spec(cx).2 == Poll::<OptionAb<FutA::Output, FutB::Output>>::Ready(
                OptionAb::B(b.poll_spec(a.poll_spec(cx).1).2->Ready_0),
            )
        }),
{
}

/// A selection is pending exactly when all of A to E are pending, each
/// polled in the context that the one before has left.
pub proof fn lemma_select_pending_iff_all_pending<
    FutA: Future,
    FutB: Future,
    FutC: Future,
    FutD: Future,
    FutE: Future,
>(future: SelectFuture<FutA, FutB, FutC, FutD, FutE>, cx: ContextView)
    ensures
        ({
            let (a, cx_a, result_a) = future.a.poll_spec(cx);
            let (b, cx_b, result_b) = future.b.poll_spec(cx_a);
            let (c, cx_c, result_c) = future.c.poll_spec(cx_b);
            let (d, cx_d, result_d) = future.d.poll_spec(cx_c);
            let (e, cx_e, result_e) = future.e.poll_spec(cx_d);
            future.poll_spec(cx).2 is Pending <==> result_a is Pending && result_b is Pending
                && result_c is Pending && result_d is Pending && result_e is Pending
        }),
{
}

} // verus!
