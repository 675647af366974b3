use vstd::prelude::*;
use crate::socket::Socket;
use crate::waker::Waker;

verus! {

/// What one step of a computation sees: the waker of the task being stepped,
/// the readiness sources, and a log of the sources that leaves consulted, in
/// the order they did.
pub struct Context {
    waker: Waker,
    sockets: Vec<Socket>,
    log: Vec<usize>,
}

pub ghost struct ContextView {
    pub waker: Waker,
    pub sockets: Seq<Socket>,
    pub log: Seq<usize>,
}

impl View for Context {
    type V = ContextView;

    closed spec fn view(&self) -> ContextView {
        ContextView { waker: self.waker, sockets: self.sockets@, log: self.log@ }
    }
}

impl Context {
    /// A context for one step of the task named by `waker`, over `sockets`.
    pub fn new(waker: Waker, sockets: Vec<Socket>) -> (cx: Context)
        ensures
            cx@.waker == waker,
            cx@.sockets == sockets@,
            cx@.log == Seq::<usize>::empty(),
    {
        Context { waker, sockets, log: Vec::new() }
    }

    /// The waker bound to the task being stepped.
    pub fn waker(&self) -> (w: Waker)
        ensures
            w == self@.waker,
    {
        self.waker
    }

    /// The sources consulted so far, in order.
    pub fn log(&self) -> (l: &Vec<usize>)
        ensures
            l@ == self@.log,
    {
        &self.log
    }

    pub fn sockets(&self) -> (s: &Vec<Socket>)
        ensures
            s@ == self@.sockets,
    {
        &self.sockets
    }

    /// Ends the step and hands the sources back.
    pub fn into_sockets(self) -> (s: Vec<Socket>)
        ensures
            s@ == self@.sockets,
    {
        self.sockets
    }

    /// Reads source `i` for the current task: its bytes if any have arrived,
    /// else `None` after the task's waker is registered with it.
    pub fn read_or_register(&mut self, i: usize) -> (r: Option<Vec<u8>>)
        requires
            i < old(self)@.sockets.len(),
        ensures
            final(self)@ == read_step(old(self)@, i).0,
            r == read_step(old(self)@, i).1,
    {
        self.log.push(i);
        let w = self.waker;
        let s = &mut self.sockets[i];
        if s.has_data_to_read() {
            Some(s.read_buf())
        } else {
            s.set_readable_callback(w);
            None
        }
    }
}

/// One read of source `i`: the log records it; arrived bytes are taken, or
/// else the context's waker replaces the source's waiter.
pub open spec fn read_step(cx: ContextView, i: usize) -> (ContextView, Option<Vec<u8>>) {
    let s = cx.sockets[i as int];
    let log = cx.log.push(i);
    match s.data {
        Some(d) => (
            ContextView {
                log,
                sockets: cx.sockets.update(i as int, Socket { data: None, waiter: s.waiter }),
                ..cx
            },
            Some(d),
        ),
        None => (
            ContextView {
                log,
                sockets: cx.sockets.update(i as int, Socket { data: None, waiter: Some(cx.waker) }),
                ..cx
            },
            None,
        ),
    }
}

} // verus!
