use simple_executor::{AndThenFut, Context, Executor, Join, Poll, SimpleFuture, Socket, SocketRead, Waker};

fn ready_socket(bytes: &[u8]) -> Socket {
    Socket { data: Some(bytes.to_vec()), waiter: None }
}

#[test]
fn leaf_ready_takes_bytes_once() {
    let mut cx = Context::new(Waker::new(7), vec![ready_socket(b"hi")]);
    let mut leaf = SocketRead::new(0);
    assert_eq!(leaf.poll(&mut cx), Poll::Ready(b"hi".to_vec()));
    assert!(cx.sockets()[0].data.is_none());
    assert_eq!(leaf.poll(&mut cx), Poll::Pending);
    assert_eq!(cx.sockets()[0].waiter, Some(Waker::new(7)));
    assert_eq!(cx.log(), &vec![0usize, 0]);
}

#[test]
fn leaf_pending_registers_latest_waker() {
    let mut sockets = vec![Socket::new()];
    sockets[0].set_readable_callback(Waker::new(1));
    let mut cx = Context::new(Waker::new(2), sockets);
    let mut leaf = SocketRead::new(0);
    assert!(leaf.poll(&mut cx).is_pending());
    assert_eq!(cx.sockets()[0].waiter, Some(Waker::new(2)));
}

#[test]
fn socket_deliver_appends_and_hands_back_waker() {
    let mut s = Socket::new();
    assert_eq!(s.deliver(vec![1, 2]), None);
    s.set_readable_callback(Waker::new(3));
    assert_eq!(s.deliver(vec![3]), Some(Waker::new(3)));
    assert_eq!(s.waiter, None);
    assert!(s.has_data_to_read());
    assert_eq!(s.read_buf(), vec![1, 2, 3]);
    assert!(!s.has_data_to_read());
}

#[test]
fn join_ready_only_after_both_children() {
    let mut cx = Context::new(Waker::new(0), vec![ready_socket(b"a"), Socket::new()]);
    let mut j = Join::new(SocketRead::new(0), SocketRead::new(1));
    assert_eq!(j.poll(&mut cx), Poll::Pending);
    assert!(j.a.is_none());
    assert!(j.b.is_some());
    let mut sockets = cx.into_sockets();
    assert_eq!(sockets[1].deliver(b"b".to_vec()), Some(Waker::new(0)));
    let mut cx = Context::new(Waker::new(0), sockets);
    assert_eq!(j.poll(&mut cx), Poll::Ready(()));
    assert_eq!(cx.log(), &vec![1usize]);
}

#[test]
fn join_visits_first_child_first() {
    let mut cx = Context::new(Waker::new(0), vec![ready_socket(b"a"), ready_socket(b"b")]);
    let mut j = Join::new(SocketRead::new(0), SocketRead::new(1));
    assert_eq!(j.poll(&mut cx), Poll::Ready(()));
    assert_eq!(cx.log(), &vec![0usize, 1]);
}

#[test]
fn and_then_leaves_second_alone_while_first_pending() {
    let mut cx = Context::new(Waker::new(4), vec![Socket::new(), ready_socket(b"z")]);
    let mut t = AndThenFut::new(SocketRead::new(0), SocketRead::new(1));
    assert_eq!(t.poll(&mut cx), Poll::Pending);
    assert_eq!(cx.log(), &vec![0usize]);
    assert!(cx.sockets()[1].has_data_to_read());
    assert!(t.first.is_some());
}

#[test]
fn and_then_steps_second_in_same_call() {
    let mut cx = Context::new(Waker::new(4), vec![ready_socket(b"x"), ready_socket(b"y")]);
    let mut t = AndThenFut::new(SocketRead::new(0), SocketRead::new(1));
    assert_eq!(t.poll(&mut cx), Poll::Ready(b"y".to_vec()));
    assert_eq!(cx.log(), &vec![0usize, 1]);
    assert!(t.first.is_none());
}

#[test]
fn block_on_join_of_ready_leaves() {
    let mut exec = Executor::new(vec![ready_socket(b"1"), ready_socket(b"2")]);
    let r = exec.block_on(Join::new(SocketRead::new(0), SocketRead::new(1)));
    assert_eq!(r, Poll::Ready(()));
    assert!(exec.tasks().is_empty());
}

#[test]
fn block_on_and_then_waits_for_wake() {
    let mut exec = Executor::new(vec![Socket::new(), ready_socket(b"second")]);
    let r = exec.block_on(AndThenFut::new(SocketRead::new(0), SocketRead::new(1)));
    assert_eq!(r, Poll::Pending);
    assert_eq!(exec.tasks().len(), 1);
    assert!(!exec.tasks()[0].runnable);
    assert!(exec.sockets()[1].has_data_to_read());
    assert_eq!(exec.sockets()[0].waiter, Some(Waker::new(0)));
    exec.deliver(0, b"first".to_vec());
    assert!(exec.tasks()[0].runnable);
    exec.run_until_idle();
    assert!(exec.tasks().is_empty());
    assert!(!exec.sockets()[1].has_data_to_read());
    assert_eq!(exec.sockets()[1].waiter, None);
    let done = exec.take_done();
    assert_eq!(done, vec![(0u64, b"second".to_vec())]);
}

#[test]
fn woken_leaf_task_completes() {
    let mut exec = Executor::new(vec![Socket::new()]);
    let id = exec.submit(SocketRead::new(0));
    exec.run_until_idle();
    assert_eq!(exec.sockets()[0].waiter, Some(Waker::new(id)));
    assert!(!exec.tasks()[0].runnable);
    exec.deliver(0, vec![9, 8]);
    exec.run_until_idle();
    assert!(exec.tasks().is_empty());
    assert_eq!(exec.done(), &vec![(id, vec![9u8, 8])]);
}

#[test]
fn waking_twice_schedules_once() {
    let mut exec = Executor::new(vec![Socket::new(), Socket::new()]);
    let a = exec.submit(SocketRead::new(0));
    let b = exec.submit(SocketRead::new(1));
    exec.run_until_idle();
    exec.wake(Waker::new(a));
    exec.wake(Waker::new(a));
    assert_eq!(exec.tasks().len(), 2);
    assert!(exec.tasks()[0].runnable);
    assert!(!exec.tasks()[1].runnable);
    assert_eq!(exec.tasks()[1].id, b);
    exec.wake(Waker::new(99));
    assert_eq!(exec.tasks().len(), 2);
    assert!(!exec.tasks()[1].runnable);
}

#[test]
fn stale_waker_after_dropping_pending_join() {
    let mut exec = Executor::new(vec![Socket::new(), Socket::new()]);
    let r = exec.block_on(Join::new(SocketRead::new(0), SocketRead::new(1)));
    assert_eq!(r, Poll::Pending);
    let stale = exec.sockets()[0].waiter.unwrap();
    assert!(exec.cancel(stale.task()));
    assert!(exec.tasks().is_empty());
    exec.wake(stale);
    exec.deliver(0, vec![1]);
    exec.deliver(1, vec![2]);
    exec.run_until_idle();
    assert!(exec.tasks().is_empty());
    assert!(exec.done().is_empty());
    assert!(!exec.cancel(stale.task()));
}

#[test]
fn submission_order_and_ids() {
    let mut exec = Executor::new(vec![ready_socket(b"p"), ready_socket(b"q")]);
    let a = exec.submit(SocketRead::new(1));
    let b = exec.submit(SocketRead::new(0));
    assert_eq!((a, b), (0, 1));
    exec.run_until_idle();
    assert_eq!(exec.done(), &vec![(0u64, b"q".to_vec()), (1u64, b"p".to_vec())]);
}

#[test]
fn poll_predicates() {
    let r: Poll<u8> = Poll::Ready(1);
    assert!(r.is_ready());
    assert!(!r.is_pending());
    let p: Poll<u8> = Poll::Pending;
    assert!(p.is_pending());
}
