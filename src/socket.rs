use vstd::prelude::*;
use crate::waker::Waker;

verus! {

/// An external readiness source: bytes arrive from outside, and a reader that
/// found nothing leaves a waker to be told when they do.
#[derive(Debug)]
pub struct Socket {
    /// The bytes that have arrived and not been read yet.
    pub data: Option<Vec<u8>>,
    /// The most recent waiter; only it is notified.
    pub waiter: Option<Waker>,
}

impl Socket {
    pub fn new() -> (s: Socket)
        ensures
            s.data is None,
            s.waiter is None,
    {
        Socket { data: None, waiter: None }
    }

    pub fn has_data_to_read(&self) -> (r: bool)
        ensures
            r == (self.data is Some),
    {
        self.data.is_some()
    }

    /// Takes the bytes that have arrived; they are handed out exactly once.
    pub fn read_buf(&mut self) -> (r: Vec<u8>)
        requires
            old(self).data is Some,
        ensures
            r == old(self).data->Some_0,
            final(self).data is None,
            final(self).waiter == old(self).waiter,
    {
        match self.data.take() {
            Some(d) => d,
            None => Vec::new(),
        }
    }

    /// Registers the waker to notify when bytes arrive, replacing any earlier one.
    pub fn set_readable_callback(&mut self, w: Waker)
        ensures
            final(self).waiter == Some(w),
            final(self).data == old(self).data,
    {
        self.waiter = Some(w);
    }

    /// The external event: `bytes` arrive, after any that are still unread.
    /// The registered waker, if any, is handed back for the caller to invoke,
    /// and the registration is spent.
    pub fn deliver(&mut self, bytes: Vec<u8>) -> (w: Option<Waker>)
        ensures
            w == old(self).waiter,
            final(self).waiter is None,
            final(self).data is Some,
            bytes_of(final(self).data) == bytes_of(old(self).data) + bytes@,
    {
        let mut bytes = bytes;
        let joined = match self.data.take() {
            Some(mut d) => {
                d.append(&mut bytes);
                d
            },
            None => bytes,
        };
        self.data = Some(joined);
        self.waiter.take()
    }
}

/// The bytes held in `data`; none when it is empty.
pub open spec fn bytes_of(data: Option<Vec<u8>>) -> Seq<u8> {
    match data {
        Some(d) => d@,
        None => Seq::empty(),
    }
}

} // verus!
