use vstd::prelude::*;
use crate::context::ContextView;
use crate::executor::{
    blocked_on, idle, ids_rising, other_than, run_pass, submitted, visit, without_task, woken, ExecState, Task,
    TaskId,
};
use crate::future::{AndThenFut, Join, SimpleFuture, SocketRead};
use crate::poll::Poll;
use crate::waker::Waker;

verus! {

/// A join is ready exactly when both slots are empty, and a slot empties
/// exactly when its child yields `Ready`: so a join of two computations is
/// ready once both have yielded `Ready`, and no earlier.
pub proof fn join_ready_iff_both_done<A: SimpleFuture, B: SimpleFuture>(j: Join<A, B>, cx: ContextView)
    ensures
        (j.step(cx).2 is Ready) <==> (j.step(cx).0.a is None && j.step(cx).0.b is None),
        (j.step(cx).0.a is None) <==> (j.a is None || j.a->Some_0.step(cx).2 is Ready),
        (j.step(cx).0.b is None) <==> (j.b is None || j.b->Some_0.step(
            if j.a is Some { j.a->Some_0.step(cx).1 } else { cx },
        ).2 is Ready),
{
}

/// Within one step a join visits its first child before its second: two
/// pending leaves consult their sources in that order, and two leaves that
/// both find bytes are retired in the same step, which is then ready.
pub proof fn join_visits_a_before_b(j: Join<SocketRead, SocketRead>, cx: ContextView)
    requires
        j.a is Some,
        j.b is Some,
        j.reads_below(cx.sockets.len()),
    ensures
        j.step(cx).1.log == cx.log.push(j.a->Some_0.socket).push(j.b->Some_0.socket),
        j.a->Some_0.socket != j.b->Some_0.socket
            && cx.sockets[j.a->Some_0.socket as int].data is Some
            && cx.sockets[j.b->Some_0.socket as int].data is Some
            ==> j.step(cx).2 is Ready,
{
}

/// While the first child of a chain is unfinished, a step of the chain is
/// a step of the first child alone: the second is neither stepped nor changed.
pub proof fn and_then_waits_for_first<A: SimpleFuture, B: SimpleFuture>(t: AndThenFut<A, B>, cx: ContextView)
    requires
        t.first is Some,
        t.first->Some_0.step(cx).2 is Pending,
    ensures
        t.step(cx).0.second == t.second,
        t.step(cx).0.first == Some(t.first->Some_0.step(cx).0),
        t.step(cx).1 == t.first->Some_0.step(cx).1,
        t.step(cx).2 is Pending,
{
}

/// Invoking the same waker twice schedules its task no more than invoking it
/// once.
pub proof fn wake_is_idempotent<F>(tasks: Seq<Task<F>>, id: TaskId)
    ensures
        woken(woken(tasks, id), id) == woken(tasks, id),
{
    assert(woken(woken(tasks, id), id) =~= woken(tasks, id));
}

/// Among tasks with distinct identities, invoking a waker makes at most one
/// task runnable, and only if it was asleep: nothing is scheduled twice.
pub proof fn wake_schedules_at_most_one<F>(tasks: Seq<Task<F>>, id: TaskId)
    requires
        ids_rising(tasks),
    ensures
        woken(tasks, id).len() == tasks.len(),
        forall|j: int, k: int|
            0 <= j < tasks.len() && 0 <= k < tasks.len() && woken(tasks, id)[j] != tasks[j]
                && woken(tasks, id)[k] != tasks[k] ==> j == k,
        forall|j: int|
            0 <= j < tasks.len() && woken(tasks, id)[j] != tasks[j]
                ==> !tasks[j].runnable && woken(tasks, id)[j].runnable && tasks[j].id == id,
{
}

/// Invoking the waker of a task that is no longer there changes nothing.
pub proof fn wake_of_absent_task_is_noop<F>(tasks: Seq<Task<F>>, id: TaskId)
    requires
        forall|j: int| 0 <= j < tasks.len() ==> (#[trigger] tasks[j]).id != id,
    ensures
        woken(tasks, id) == tasks,
{
    assert(woken(tasks, id) =~= tasks);
}

/// After a task is dropped mid-flight, a stale waker that names it changes
/// nothing.
pub proof fn stale_waker_after_cancel<F>(tasks: Seq<Task<F>>, id: TaskId)
    ensures
        woken(without_task(tasks, id), id) == without_task(tasks, id),
{
    let kept = without_task(tasks, id);
    assert forall|j: int| 0 <= j < kept.len() implies (#[trigger] kept[j]).id != id by {
        tasks.lemma_filter_pred(other_than(id), j);
    }
    wake_of_absent_task_is_noop(kept, id);
}

/// A lone task whose leaf finds no bytes goes to sleep with its waker
/// registered at the source; once the source invokes that waker with bytes
/// in place, the next pass steps the task again and it completes with them.
pub proof fn woken_leaf_completes(s: ExecState<SocketRead>, id: TaskId, leaf: SocketRead, s2: ExecState<SocketRead>)
    requires
        s.tasks == seq![Task { id, fut: leaf, runnable: true }],
        leaf.socket < s.sockets.len(),
        s.sockets[leaf.socket as int].data is None,
        s2.tasks == woken(idle(s).tasks, idle(s).sockets[leaf.socket as int].waiter->Some_0.task),
        s2.sockets.len() == s.sockets.len(),
        s2.sockets[leaf.socket as int].data is Some,
        s2.done == idle(s).done,
    ensures
        idle(s).tasks == seq![Task { id, fut: leaf, runnable: false }],
        idle(s).sockets[leaf.socket as int].waiter == Some(Waker { task: id }),
        idle(s).done == s.done,
        idle(s2).tasks == Seq::<Task<SocketRead>>::empty(),
        idle(s2).done == s.done.push((id, s2.sockets[leaf.socket as int].data->Some_0)),
{
    let t = Task { id, fut: leaf, runnable: true };
    let s0 = ExecState { tasks: Seq::empty(), ..s };
    assert(s.tasks.drop_first() =~= Seq::<Task<SocketRead>>::empty());
    assert(idle(s) == run_pass(visit(s0, t), Seq::<Task<SocketRead>>::empty()));
    let s1 = idle(s);
    assert(s1.tasks =~= seq![Task { id, fut: leaf, runnable: false }]);
    let t2 = Task { id, fut: leaf, runnable: true };
    assert(s2.tasks =~= seq![t2]);
    assert(s2.tasks.drop_first() =~= Seq::<Task<SocketRead>>::empty());
    let s3 = ExecState { tasks: Seq::empty(), ..s2 };
    assert(idle(s2) == run_pass(visit(s3, t2), Seq::<Task<SocketRead>>::empty()));
    assert(idle(s2).tasks =~= Seq::<Task<SocketRead>>::empty());
}

/// Driving a join of two leaves whose sources both hold bytes completes it in
/// the first pass: `block_on` returns `Ready(())` and leaves no task behind.
pub proof fn block_on_join_of_ready_leaves(s: ExecState<Join<SocketRead, SocketRead>>, a: SocketRead, b: SocketRead)
    requires
        s.tasks.len() == 0,
        a.socket != b.socket,
        a.socket < s.sockets.len(),
        b.socket < s.sockets.len(),
        s.sockets[a.socket as int].data is Some,
        s.sockets[b.socket as int].data is Some,
    ensures
        blocked_on(s, Join { a: Some(a), b: Some(b) }).1 == Poll::<()>::Ready(()),
        blocked_on(s, Join { a: Some(a), b: Some(b) }).0.tasks.len() == 0,
        blocked_on(s, Join { a: Some(a), b: Some(b) }).0.done == s.done,
{
    let j = Join { a: Some(a), b: Some(b) };
    let s1 = submitted(s, j);
    let t = Task { id: s.next_id, fut: j, runnable: true };
    assert(s1.tasks =~= seq![t]);
    assert(s1.tasks.drop_first() =~= Seq::<Task<Join<SocketRead, SocketRead>>>::empty());
    let s0 = ExecState { tasks: Seq::empty(), ..s1 };
    assert(idle(s1) == run_pass(visit(s0, t), Seq::<Task<Join<SocketRead, SocketRead>>>::empty()));
    assert(idle(s1).done.drop_last() =~= s.done);
}

/// A chain whose first leaf must wait for its source: `block_on` returns
/// `Pending` with the task asleep, its waker registered at the first source,
/// and the second leaf not yet stepped. Once the source invokes that waker
/// with bytes in place, the next pass finishes the first leaf, steps the
/// second in the same step, and records its bytes as the task's output.
pub proof fn and_then_completes_after_wake(
    s: ExecState<AndThenFut<SocketRead, SocketRead>>,
    a: SocketRead,
    b: SocketRead,
    s2: ExecState<AndThenFut<SocketRead, SocketRead>>,
)
    requires
        s.tasks.len() == 0,
        forall|j: int| 0 <= j < s.done.len() ==> (#[trigger] s.done[j]).0 < s.next_id,
        a.socket != b.socket,
        a.socket < s.sockets.len(),
        b.socket < s.sockets.len(),
        s.sockets[a.socket as int].data is None,
        s.sockets[b.socket as int].data is Some,
        s2.tasks == woken(
            blocked_on(s, AndThenFut { first: Some(a), second: b }).0.tasks,
            blocked_on(s, AndThenFut { first: Some(a), second: b }).0.sockets[a.socket as int].waiter->Some_0.task,
        ),
        s2.sockets.len() == s.sockets.len(),
        s2.sockets[a.socket as int].data is Some,
        s2.sockets[b.socket as int] == blocked_on(s, AndThenFut { first: Some(a), second: b }).0.sockets[b.socket as int],
        s2.done == s.done,
    ensures
        blocked_on(s, AndThenFut { first: Some(a), second: b }).1 is Pending,
        blocked_on(s, AndThenFut { first: Some(a), second: b }).0.tasks == seq![
            Task { id: s.next_id, fut: AndThenFut { first: Some(a), second: b }, runnable: false },
        ],
        blocked_on(s, AndThenFut { first: Some(a), second: b }).0.sockets[a.socket as int].waiter
            == Some(Waker { task: s.next_id }),
        blocked_on(s, AndThenFut { first: Some(a), second: b }).0.sockets[b.socket as int] == s.sockets[b.socket as int],
        idle(s2).tasks == Seq::<Task<AndThenFut<SocketRead, SocketRead>>>::empty(),
        idle(s2).done == s.done.push((s.next_id, s.sockets[b.socket as int].data->Some_0)),
        idle(s2).sockets[b.socket as int].data is None,
{
    let c = AndThenFut { first: Some(a), second: b };
    let id = s.next_id;
    let s1 = submitted(s, c);
    let t = Task { id, fut: c, runnable: true };
    assert(s1.tasks =~= seq![t]);
    assert(s1.tasks.drop_first() =~= Seq::<Task<AndThenFut<SocketRead, SocketRead>>>::empty());
    let s0 = ExecState { tasks: Seq::empty(), ..s1 };
    assert(idle(s1) == run_pass(visit(s0, t), Seq::<Task<AndThenFut<SocketRead, SocketRead>>>::empty()));
    let after = idle(s1);
    assert(after.done == s.done);
    if after.done.len() > 0 {
        assert(after.done.last().0 < s.next_id);
    }
    assert(after.tasks =~= seq![Task { id, fut: c, runnable: false }]);
    let t2 = Task { id, fut: c, runnable: true };
    assert(s2.tasks =~= seq![t2]);
    assert(s2.tasks.drop_first() =~= Seq::<Task<AndThenFut<SocketRead, SocketRead>>>::empty());
    let s3 = ExecState { tasks: Seq::empty(), ..s2 };
    assert(idle(s2) == run_pass(visit(s3, t2), Seq::<Task<AndThenFut<SocketRead, SocketRead>>>::empty()));
    assert(idle(s2).tasks =~= Seq::<Task<AndThenFut<SocketRead, SocketRead>>>::empty());
}

} // verus!
