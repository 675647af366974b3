use vstd::prelude::*;
use crate::context::{read_step, Context, ContextView};
use crate::poll::Poll;

verus! {

/// A computation advanced one step at a time.
///
/// `step` says exactly what one call of `poll` does: the computation's next
/// state, the context after the step, and the result. A step never blocks:
/// "no value yet" is `Pending`.
pub trait SimpleFuture: Sized {
    type Output;

    /// Every source this computation reads has an index below `n`.
    spec fn reads_below(&self, n: nat) -> bool;

    /// One step from context `cx`.
    spec fn step(&self, cx: ContextView) -> (Self, ContextView, Poll<Self::Output>);

    fn poll(&mut self, cx: &mut Context) -> (r: Poll<Self::Output>)
        requires
            old(self).reads_below(old(cx)@.sockets.len()),
        ensures
            *final(self) == old(self).step(old(cx)@).0,
            final(cx)@ == old(self).step(old(cx)@).1,
            r == old(self).step(old(cx)@).2,
            final(cx)@.waker == old(cx)@.waker,
            final(cx)@.sockets.len() == old(cx)@.sockets.len(),
            final(self).reads_below(old(cx)@.sockets.len()),
    ;
}

/// A leaf: reads the bytes that arrive at one source.
#[derive(Clone, Copy, Debug, PartialEq, Eq)]
pub struct SocketRead {
    /// The index of the source in the context.
    pub socket: usize,
}

impl SocketRead {
    pub fn new(socket: usize) -> (r: SocketRead)
        ensures
            r.socket == socket,
    {
        SocketRead { socket }
    }
}

impl SimpleFuture for SocketRead {
    type Output = Vec<u8>;

    open spec fn reads_below(&self, n: nat) -> bool {
        self.socket < n
    }

    open spec fn step(&self, cx: ContextView) -> (SocketRead, ContextView, Poll<Vec<u8>>) {
        let (cx2, got) = read_step(cx, self.socket);
        (
            *self,
            cx2,
            match got {
                Some(d) => Poll::Ready(d),
                None => Poll::Pending,
            },
        )
    }

    /// Ready with the arrived bytes, or else Pending once the task's waker is
    /// registered with the source.
    fn poll(&mut self, cx: &mut Context) -> (r: Poll<Vec<u8>>) {
        match cx.read_or_register(self.socket) {
            Some(d) => Poll::Ready(d),
            None => Poll::Pending,
        }
    }
}

/// Steps the computation in `slot`, if any, and retires it once it is ready.
pub open spec fn step_slot<F: SimpleFuture>(slot: Option<F>, cx: ContextView) -> (Option<F>, ContextView) {
    match slot {
        Some(f) => {
            let (f2, cx2, r) = f.step(cx);
            (if r is Ready { None } else { Some(f2) }, cx2)
        },
        None => (None, cx),
    }
}

/// Runs two computations interleaved until both are done. Each step visits
/// `a` before `b`; a child that is ready is dropped and never stepped again.
/// Its value is discarded.
pub struct Join<FutureA, FutureB> {
    pub a: Option<FutureA>,
    pub b: Option<FutureB>,
}

impl<FutureA: SimpleFuture, FutureB: SimpleFuture> Join<FutureA, FutureB> {
    pub fn new(a: FutureA, b: FutureB) -> (j: Join<FutureA, FutureB>)
        ensures
            j.a == Some(a),
            j.b == Some(b),
    {
        Join { a: Some(a), b: Some(b) }
    }
}

impl<FutureA: SimpleFuture, FutureB: SimpleFuture> SimpleFuture for Join<FutureA, FutureB> {
    type Output = ();

    open spec fn reads_below(&self, n: nat) -> bool {
        &&& (self.a matches Some(a) ==> a.reads_below(n))
        &&& (self.b matches Some(b) ==> b.reads_below(n))
    }

    open spec fn step(&self, cx: ContextView) -> (Join<FutureA, FutureB>, ContextView, Poll<()>) {
        let (a, cx1) = step_slot(self.a, cx);
        let (b, cx2) = step_slot(self.b, cx1);
        (Join { a, b }, cx2, if a is None && b is None { Poll::Ready(()) } else { Poll::Pending })
    }

    fn poll(&mut self, cx: &mut Context) -> (r: Poll<()>) {
        if let Some(a) = &mut self.a {
            if a.poll(cx).is_ready() {
                self.a = None;
            }
        }
        if let Some(b) = &mut self.b {
            if b.poll(cx).is_ready() {
                self.b = None;
            }
        }
        if self.a.is_none() && self.b.is_none() {
            Poll::Ready(())
        } else {
            Poll::Pending
        }
    }
}

/// Runs two computations one after the other: `second` is stepped only once
/// `first` is done, and in the same step that finishes `first`. The value of
/// `first` is discarded; the value of `second` is the result.
pub struct AndThenFut<FutureA, FutureB> {
    pub first: Option<FutureA>,
    pub second: FutureB,
}

impl<FutureA: SimpleFuture, FutureB: SimpleFuture> AndThenFut<FutureA, FutureB> {
    pub fn new(first: FutureA, second: FutureB) -> (t: AndThenFut<FutureA, FutureB>)
        ensures
            t.first == Some(first),
            t.second == second,
    {
        AndThenFut { first: Some(first), second }
    }
}

impl<FutureA: SimpleFuture, FutureB: SimpleFuture> SimpleFuture for AndThenFut<FutureA, FutureB> {
    type Output = FutureB::Output;

    open spec fn reads_below(&self, n: nat) -> bool {
        &&& (self.first matches Some(f) ==> f.reads_below(n))
        &&& self.second.reads_below(n)
    }

    open spec fn step(&self, cx: ContextView) -> (AndThenFut<FutureA, FutureB>, ContextView, Poll<FutureB::Output>) {
        match self.first {
            Some(f) => {
                let (f2, cx1, r1) = f.step(cx);
                if r1 is Ready {
                    let (s2, cx2, r2) = self.second.step(cx1);
                    (AndThenFut { first: None, second: s2 }, cx2, r2)
                } else {
                    (AndThenFut { first: Some(f2), second: self.second }, cx1, Poll::Pending)
                }
            },
            None => {
                let (s2, cx2, r2) = self.second.step(cx);
                (AndThenFut { first: None, second: s2 }, cx2, r2)
            },
        }
    }

    fn poll(&mut self, cx: &mut Context) -> (r: Poll<FutureB::Output>) {
        if let Some(first) = &mut self.first {
            if first.poll(cx).is_pending() {
                return Poll::Pending;
            }
            self.first = None;
        }
        self.second.poll(cx)
    }
}

} // verus!
