use vstd::prelude::*;
use crate::context::{Context, ContextView};
use crate::future::SimpleFuture;
use crate::poll::Poll;
use crate::socket::{bytes_of, Socket};
use crate::waker::Waker;

verus! {

/// The identity of a task; its waker carries it.
pub type TaskId = u64;

/// The driver's bookkeeping unit: a root computation, its identity, and
/// whether it is ready to be stepped.
pub struct Task<F> {
    pub id: TaskId,
    pub fut: F,
    pub runnable: bool,
}

/// The driver's state as contracts see it.
pub ghost struct ExecState<F: SimpleFuture> {
    /// The live tasks, in the order they were submitted.
    pub tasks: Seq<Task<F>>,
    pub sockets: Seq<Socket>,
    /// The outputs of completed tasks, in the order they completed.
    pub done: Seq<(TaskId, F::Output)>,
    pub next_id: TaskId,
}

/// A single-threaded driver: it owns the tasks and the readiness sources,
/// and steps runnable tasks until none is left.
pub struct Executor<F: SimpleFuture> {
    tasks: Vec<Task<F>>,
    sockets: Vec<Socket>,
    done: Vec<(TaskId, F::Output)>,
    next_id: TaskId,
}

impl<F: SimpleFuture> View for Executor<F> {
    type V = ExecState<F>;

    closed spec fn view(&self) -> ExecState<F> {
        ExecState { tasks: self.tasks@, sockets: self.sockets@, done: self.done@, next_id: self.next_id }
    }
}

/// Every task reads only sources that exist.
pub open spec fn tasks_fit<F: SimpleFuture>(tasks: Seq<Task<F>>, n: nat) -> bool {
    forall|j: int| 0 <= j < tasks.len() ==> (#[trigger] tasks[j]).fut.reads_below(n)
}

/// Every identity handed out so far lies below `next`.
pub open spec fn ids_below<F>(tasks: Seq<Task<F>>, next: TaskId) -> bool {
    forall|j: int| 0 <= j < tasks.len() ==> (#[trigger] tasks[j]).id < next
}

/// Identities rise in the order of submission, so no two tasks share one.
pub open spec fn ids_rising<F>(tasks: Seq<Task<F>>) -> bool {
    forall|j: int, k: int| 0 <= j < k < tasks.len() ==> (#[trigger] tasks[j]).id < (#[trigger] tasks[k]).id
}

pub open spec fn state_wf<F: SimpleFuture>(s: ExecState<F>) -> bool {
    &&& tasks_fit(s.tasks, s.sockets.len())
    &&& ids_below(s.tasks, s.next_id)
    &&& ids_rising(s.tasks)
    &&& forall|j: int| 0 <= j < s.done.len() ==> (#[trigger] s.done[j]).0 < s.next_id
}

/// The tasks after the waker of task `id` is invoked: that task, if it is
/// still there, becomes runnable; nothing else changes.
pub open spec fn woken<F>(tasks: Seq<Task<F>>, id: TaskId) -> Seq<Task<F>> {
    tasks.map_values(|t: Task<F>| wake_task(t, id))
}

pub open spec fn wake_task<F>(t: Task<F>, id: TaskId) -> Task<F> {
    if t.id == id {
        Task { id: t.id, fut: t.fut, runnable: true }
    } else {
        t
    }
}

/// The context that task `id` is stepped in: its own waker, the sources, and
/// an empty log.
pub open spec fn task_context(id: TaskId, sockets: Seq<Socket>) -> ContextView {
    ContextView { waker: Waker { task: id }, sockets, log: Seq::empty() }
}

/// One task met during a pass of the driver. A sleeping task is kept as it
/// is. A runnable one is stepped: when ready it is dropped and its output
/// recorded; else it is kept, asleep, until its waker is invoked.
pub open spec fn visit<F: SimpleFuture>(s: ExecState<F>, t: Task<F>) -> ExecState<F> {
    if !t.runnable {
        ExecState { tasks: s.tasks.push(t), ..s }
    } else {
        let (f2, cx, p) = t.fut.step(task_context(t.id, s.sockets));
        match p {
            Poll::Ready(v) => ExecState { sockets: cx.sockets, done: s.done.push((t.id, v)), ..s },
            Poll::Pending => ExecState {
                sockets: cx.sockets,
                tasks: s.tasks.push(Task { id: t.id, fut: f2, runnable: false }),
                ..s
            },
        }
    }
}

/// Visits the tasks of `todo` in order, from state `s`.
pub open spec fn run_pass<F: SimpleFuture>(s: ExecState<F>, todo: Seq<Task<F>>) -> ExecState<F>
    decreases todo.len(),
{
    if todo.len() == 0 {
        s
    } else {
        run_pass(visit(s, todo[0]), todo.drop_first())
    }
}

/// The state once every runnable task has been stepped. No step wakes a task,
/// so one pass leaves none runnable.
pub open spec fn idle<F: SimpleFuture>(s: ExecState<F>) -> ExecState<F> {
    run_pass(ExecState { tasks: Seq::empty(), ..s }, s.tasks)
}

/// The state after `fut` is submitted as the root of a new runnable task.
pub open spec fn submitted<F: SimpleFuture>(s: ExecState<F>, fut: F) -> ExecState<F> {
    ExecState {
        tasks: s.tasks.push(Task { id: s.next_id, fut, runnable: true }),
        next_id: (s.next_id + 1) as u64,
        ..s
    }
}

/// The tasks left once task `id` is dropped.
pub open spec fn without_task<F>(tasks: Seq<Task<F>>, id: TaskId) -> Seq<Task<F>> {
    tasks.filter(other_than(id))
}

pub open spec fn other_than<F>(id: TaskId) -> spec_fn(Task<F>) -> bool {
    |t: Task<F>| t.id != id
}

/// What `block_on` leaves: the state once the submitted root and every other
/// runnable task have been stepped, with the root's output handed out when it
/// completed. The root is visited last, so its output is then the newest.
pub open spec fn blocked_on<F: SimpleFuture>(s: ExecState<F>, fut: F) -> (ExecState<F>, Poll<F::Output>) {
    let after = idle(submitted(s, fut));
    if after.done.len() > 0 && after.done.last().0 == s.next_id {
        (ExecState { done: after.done.drop_last(), ..after }, Poll::Ready(after.done.last().1))
    } else {
        (after, Poll::Pending)
    }
}

impl<F: SimpleFuture> Executor<F> {
    pub open spec fn wf(&self) -> bool {
        state_wf(self@)
    }

    /// A driver with no tasks, over the given sources.
    pub fn new(sockets: Vec<Socket>) -> (e: Executor<F>)
        ensures
            e@.tasks == Seq::<Task<F>>::empty(),
            e@.sockets == sockets@,
            e@.done == Seq::<(TaskId, F::Output)>::empty(),
            e@.next_id == 0,
            e.wf(),
    {
        Executor { tasks: Vec::new(), sockets, done: Vec::new(), next_id: 0 }
    }

    pub fn tasks(&self) -> (t: &Vec<Task<F>>)
        ensures
            t@ == self@.tasks,
    {
        &self.tasks
    }

    pub fn sockets(&self) -> (s: &Vec<Socket>)
        ensures
            s@ == self@.sockets,
    {
        &self.sockets
    }

    pub fn done(&self) -> (d: &Vec<(TaskId, F::Output)>)
        ensures
            d@ == self@.done,
    {
        &self.done
    }

    /// Submits a root computation as a new runnable task.
    pub fn submit(&mut self, fut: F) -> (id: TaskId)
        requires
            old(self).wf(),
            fut.reads_below(old(self)@.sockets.len()),
            old(self)@.next_id < u64::MAX,
        ensures
            id == old(self)@.next_id,
            final(self)@ == submitted(old(self)@, fut),
            final(self).wf(),
    {
        let id = self.next_id;
        self.tasks.push(Task { id, fut, runnable: true });
        self.next_id = id + 1;
        proof {
            assert(forall|j: int| 0 <= j < old(self)@.tasks.len() ==> self@.tasks[j] == old(self)@.tasks[j]);
            assert(self@.tasks[old(self)@.tasks.len() as int].id == id);
            assert(forall|j: int| 0 <= j < old(self)@.tasks.len() ==> (#[trigger] self@.tasks[j]).id < id);
            assert(ids_rising(self@.tasks));
            assert(ids_below(self@.tasks, self.next_id));
            assert(tasks_fit(self@.tasks, self@.sockets.len()));
        }
        id
    }

    /// Invokes a waker: its task, if it still exists, becomes runnable.
    /// Invoking it again, or after the task is gone, changes nothing.
    pub fn wake(&mut self, w: Waker)
        requires
            old(self).wf(),
        ensures
            final(self)@ == (ExecState { tasks: woken(old(self)@.tasks, w.task), ..old(self)@ }),
            final(self).wf(),
    {
        let ghost target = woken(old(self)@.tasks, w.task);
        let mut i: usize = 0;
        while i < self.tasks.len()
            invariant
                self.tasks@.len() == old(self)@.tasks.len(),
                target == woken(old(self)@.tasks, w.task),
                i <= self.tasks@.len(),
                forall|j: int| 0 <= j < i ==> self.tasks@[j] == target[j],
                forall|j: int| i <= j < self.tasks@.len() ==> self.tasks@[j] == old(self)@.tasks[j],
                self.sockets == old(self).sockets,
                self.done == old(self).done,
                self.next_id == old(self).next_id,
            decreases self.tasks@.len() - i,
        {
            let t = &mut self.tasks[i];
            if t.id == w.task {
                t.runnable = true;
            }
            i = i + 1;
        }
        assert(self.tasks@ =~= target);
        assert(forall|j: int| 0 <= j < target.len() ==> target[j].fut == old(self)@.tasks[j].fut
            && target[j].id == old(self)@.tasks[j].id);
    }

    /// The external event: `bytes` arrive at source `socket`. The waker
    /// registered there, if any, is invoked, and the registration is spent.
    pub fn deliver(&mut self, socket: usize, bytes: Vec<u8>)
        requires
            old(self).wf(),
            socket < old(self)@.sockets.len(),
        ensures
            final(self).wf(),
            final(self)@.sockets.len() == old(self)@.sockets.len(),
            forall|j: int| 0 <= j < old(self)@.sockets.len() && j != socket
                ==> final(self)@.sockets[j] == old(self)@.sockets[j],
            final(self)@.sockets[socket as int].waiter is None,
            final(self)@.sockets[socket as int].data is Some,
            bytes_of(final(self)@.sockets[socket as int].data)
                == bytes_of(old(self)@.sockets[socket as int].data) + bytes@,
            final(self)@.tasks == match old(self)@.sockets[socket as int].waiter {
                Some(w) => woken(old(self)@.tasks, w.task),
                None => old(self)@.tasks,
            },
            final(self)@.done == old(self)@.done,
            final(self)@.next_id == old(self)@.next_id,
    {
        let w = self.sockets[socket].deliver(bytes);
        assert(self@.tasks == old(self)@.tasks && self@.done == old(self)@.done);
        if let Some(w) = w {
            self.wake(w);
        }
    }

    /// Steps every runnable task once, in the order they were submitted, as
    /// the driver loop does until nothing is runnable.
    pub fn run_until_idle(&mut self)
        requires
            old(self).wf(),
        ensures
            final(self)@ == idle(old(self)@),
            final(self).wf(),
            forall|j: int| 0 <= j < final(self)@.tasks.len() ==> !(#[trigger] final(self)@.tasks[j]).runnable,
    {
        let ghost target = idle(self@);
        let ghost n = self@.sockets.len();
        let mut todo: Vec<Task<F>> = Vec::new();
        std::mem::swap(&mut todo, &mut self.tasks);
        while todo.len() > 0
            invariant
                run_pass(self@, todo@) == target,
                self@.sockets.len() == n,
                tasks_fit(todo@, n),
                tasks_fit(self@.tasks, n),
                forall|j: int| 0 <= j < self@.tasks.len() ==> !(#[trigger] self@.tasks[j]).runnable,
                self.next_id == old(self).next_id,
                ids_below(todo@, self.next_id),
                ids_below(self@.tasks, self.next_id),
                forall|j: int| 0 <= j < self@.done.len() ==> (#[trigger] self@.done[j]).0 < self.next_id,
                ids_rising(todo@),
                ids_rising(self@.tasks),
                forall|j: int, k: int| 0 <= j < self@.tasks.len() && 0 <= k < todo@.len()
                    ==> (#[trigger] self@.tasks[j]).id < (#[trigger] todo@[k]).id,
            decreases todo.len(),
        {
            let ghost before = self@;
            let ghost rest = todo@;
            let t = todo.remove(0);
            assert(todo@ =~= rest.drop_first());
            assert(tasks_fit(todo@, n)) by {
                assert forall|j: int| 0 <= j < todo@.len() implies (#[trigger] todo@[j]).fut.reads_below(n) by {
                    assert(todo@[j] == rest[j + 1]);
                }
            }
            assert(ids_below(todo@, self.next_id)) by {
                assert forall|j: int| 0 <= j < todo@.len() implies (#[trigger] todo@[j]).id < self.next_id by {
                    assert(todo@[j] == rest[j + 1]);
                }
            }
            assert(t.fut.reads_below(n) && t.id < self.next_id) by {
                assert(rest[0] == t);
            }
            assert(forall|j: int| 0 <= j < self@.tasks.len() ==> (#[trigger] self@.tasks[j]).id < t.id) by {
                assert(rest[0] == t);
            }
            assert(forall|k: int| 0 <= k < todo@.len() ==> t.id < (#[trigger] todo@[k]).id) by {
                assert(rest[0] == t);
                assert(forall|k: int| 0 <= k < todo@.len() ==> todo@[k] == rest[k + 1]);
            }
            assert(ids_rising(todo@)) by {
                assert(forall|k: int| 0 <= k < todo@.len() ==> todo@[k] == rest[k + 1]);
            }
            if !t.runnable {
                self.tasks.push(t);
            } else {
                let Task { id, fut, runnable } = t;
                let mut fut = fut;
                let mut sockets: Vec<Socket> = Vec::new();
                std::mem::swap(&mut sockets, &mut self.sockets);
                let mut cx = Context::new(Waker::new(id), sockets);
                assert(cx@ == task_context(id, before.sockets));
                let p = fut.poll(&mut cx);
                self.sockets = cx.into_sockets();
                match p {
                    Poll::Ready(v) => {
                        self.done.push((id, v));
                    },
                    Poll::Pending => {
                        self.tasks.push(Task { id, fut, runnable: false });
                    },
                }
            }
            assert(self@ == visit(before, rest[0]));
        }
        assert(todo@ =~= Seq::<Task<F>>::empty());
    }

    /// Drops task `id` before it completes, discarding its state. Wakers that
    /// name it stay valid: invoking one later changes nothing.
    pub fn cancel(&mut self, id: TaskId) -> (found: bool)
        requires
            old(self).wf(),
        ensures
            found == exists|j: int| 0 <= j < old(self)@.tasks.len() && (#[trigger] old(self)@.tasks[j]).id == id,
            final(self)@ == (ExecState { tasks: without_task(old(self)@.tasks, id), ..old(self)@ }),
            final(self).wf(),
    {
        let ghost orig = self@.tasks;
        let mut todo: Vec<Task<F>> = Vec::new();
        std::mem::swap(&mut todo, &mut self.tasks);
        let mut found = false;
        while todo.len() > 0
            invariant
                todo@.len() <= orig.len(),
                todo@ == orig.skip(orig.len() - todo@.len()),
                self.tasks@ == without_task(orig.take(orig.len() - todo@.len()), id),
                found == exists|j: int| 0 <= j < orig.len() - todo@.len() && (#[trigger] orig[j]).id == id,
                self.sockets == old(self).sockets,
                self.done == old(self).done,
                self.next_id == old(self).next_id,
                orig == old(self)@.tasks,
                ids_rising(orig),
                ids_rising(self.tasks@),
                forall|j: int| 0 <= j < self.tasks@.len() ==> orig.take(orig.len() - todo@.len()).contains(#[trigger] self.tasks@[j]),
            decreases todo.len(),
        {
            let ghost k = orig.len() - todo@.len();
            let t = todo.remove(0);
            assert(orig[k] == t);
            assert(orig.take(k + 1) =~= orig.take(k).push(t));
            proof {
                orig.take(k).lemma_filter_push(t, other_than(id));
            }
            assert(todo@ =~= orig.skip(k + 1));
            let ghost prev = self.tasks@;
            assert forall|j: int| 0 <= j < prev.len() implies (#[trigger] prev[j]).id < t.id by {
                let x = choose|m: int| 0 <= m < k && orig.take(k)[m] == prev[j];
                assert(orig[x] == prev[j]);
            }
            assert forall|j: int| 0 <= j < prev.len() implies orig.take(k + 1).contains(#[trigger] prev[j]) by {
                let x = choose|m: int| 0 <= m < k && orig.take(k)[m] == prev[j];
                assert(orig.take(k + 1)[x] == prev[j]);
            }
            if t.id == id {
                found = true;
            } else {
                self.tasks.push(t);
                assert(orig.take(k + 1)[k] == t);
            }
            assert(found == exists|j: int| 0 <= j < k + 1 && (#[trigger] orig[j]).id == id);
        }
        assert(orig.take(orig.len() as int) =~= orig);
        proof {
            let kept = without_task(orig, id);
            assert forall|j: int| 0 <= j < kept.len() implies (#[trigger] kept[j]).fut.reads_below(
                self@.sockets.len(),
            ) by {
                assert(kept.contains(kept[j]));
                orig.lemma_filter_contains_rev(other_than(id), kept[j]);
            }
            assert(ids_rising(kept));
            assert forall|j: int| 0 <= j < kept.len() implies (#[trigger] kept[j]).id < self.next_id by {
                assert(kept.contains(kept[j]));
                orig.lemma_filter_contains_rev(other_than(id), kept[j]);
            }
        }
        found
    }

    /// Submits `fut` and drives the loop until nothing is runnable. When that
    /// completed a task, the newest output, the root's, is handed out; else the
    /// root waits on an outside event, to be resumed by `deliver` and
    /// `run_until_idle`.
    pub fn block_on(&mut self, fut: F) -> (r: Poll<F::Output>)
        requires
            old(self).wf(),
            fut.reads_below(old(self)@.sockets.len()),
            old(self)@.next_id < u64::MAX,
        ensures
            final(self)@ == blocked_on(old(self)@, fut).0,
            r == blocked_on(old(self)@, fut).1,
            final(self).wf(),
    {
        let id = self.submit(fut);
        self.run_until_idle();
        let n = self.done.len();
        if n > 0 && self.done[n - 1].0 == id {
            match self.done.pop() {
                Some((_, v)) => Poll::Ready(v),
                None => Poll::Pending,
            }
        } else {
            Poll::Pending
        }
    }

    /// Hands out the outputs recorded so far and forgets them.
    pub fn take_done(&mut self) -> (d: Vec<(TaskId, F::Output)>)
        ensures
            d@ == old(self)@.done,
            final(self)@ == (ExecState { done: Seq::empty(), ..old(self)@ }),
    {
        let mut d: Vec<(TaskId, F::Output)> = Vec::new();
        std::mem::swap(&mut d, &mut self.done);
        d
    }
}

} // verus!
