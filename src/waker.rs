use vstd::prelude::*;

verus! {

/// A notification handle: it names the task that should be stepped again.
///
/// A waker carries nothing but the task's identity, so it stays valid, and
/// harmless, after its task is gone.
#[derive(Clone, Copy, Debug, PartialEq, Eq)]
pub struct Waker {
    pub task: u64,
}

impl Waker {
    pub fn new(task: u64) -> (w: Waker)
        ensures
            w.task == task,
    {
        Waker { task }
    }

    /// The identity of the task this waker belongs to.
    pub fn task(&self) -> (t: u64)
        ensures
            t == self.task,
    {
        self.task
    }
}

} // verus!
