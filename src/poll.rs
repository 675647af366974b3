use vstd::prelude::*;

verus! {

/// The outcome of one step of a computation.
#[derive(Debug, PartialEq, Eq)]
pub enum Poll<T> {
    /// The computation has produced its value.
    Ready(T),
    /// The computation cannot make progress yet.
    Pending,
}

impl<T> Poll<T> {
    pub fn is_ready(&self) -> (r: bool)
        ensures
            r == (*self is Ready),
    {
        match self {
            Poll::Ready(_) => true,
            Poll::Pending => false,
        }
    }

    pub fn is_pending(&self) -> (r: bool)
        ensures
            r == (*self is Pending),
    {
        match self {
            Poll::Ready(_) => false,
            Poll::Pending => true,
        }
    }
}

} // verus!
