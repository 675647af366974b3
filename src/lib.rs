//! A minimal cooperative task-scheduling model: poll-based computations,
//! a concurrent join and a sequential chain of two computations, wakers
//! that carry a task's identity, and a single-threaded driver loop.
//! Beside it stand two small list containers.
mod context;
mod executor;
mod future;
mod poll;
mod socket;
mod waker;

pub mod deque;
pub mod laws;
pub mod stack;

pub use context::{read_step, Context, ContextView};
pub use executor::{
    blocked_on, idle, ids_below, ids_rising, other_than, run_pass, state_wf, submitted, task_context, tasks_fit,
    visit, wake_task, without_task, woken, ExecState, Executor, Task, TaskId,
};
pub use future::{step_slot, AndThenFut, Join, SimpleFuture, SocketRead};
pub use poll::Poll;
pub use socket::{bytes_of, Socket};
pub use waker::Waker;
