use simple_executor::deque::List;

#[test]
fn basics() {
    let mut list = List::new();
    assert_eq!(list.pop_front(), None);

    list.push_front(1);
    list.push_front(2);
    list.push_front(3);

    assert_eq!(list.pop_front(), Some(3));
    assert_eq!(list.pop_front(), Some(2));

    list.push_front(4);
    list.push_front(5);

    assert_eq!(list.pop_front(), Some(5));
    assert_eq!(list.pop_front(), Some(4));
    assert_eq!(list.pop_front(), Some(1));
    assert_eq!(list.pop_front(), None);

    assert_eq!(list.pop_back(), None);
    list.push_back(4);
    list.push_back(5);
    assert_eq!(list.pop_back(), Some(5));
    assert_eq!(list.pop_back(), Some(4));
    assert_eq!(list.pop_back(), None);
}

#[test]
fn peek() {
    let mut list = List::new();
    assert!(list.peek_front().is_none());
    assert!(list.peek_back().is_none());
    assert!(list.peek_front_mut().is_none());
    assert!(list.peek_back_mut().is_none());

    list.push_front(1);
    list.push_front(2);
    list.push_front(3);

    assert_eq!(*list.peek_front().unwrap(), 3);
    assert_eq!(*list.peek_front_mut().unwrap(), 3);
    assert_eq!(*list.peek_back().unwrap(), 1);
    assert_eq!(*list.peek_back_mut().unwrap(), 1);
}

#[test]
fn main_into_iter() {
    let mut list = List::new();
    list.push_front(1);
    list.push_front(2);
    list.push_front(3);

    let mut iter = list.into_iter();
    assert_eq!(iter.next(), Some(3));
    assert_eq!(iter.next_back(), Some(1));
    assert_eq!(iter.next(), Some(2));
    assert_eq!(iter.next_back(), None);
    assert_eq!(iter.next(), None);
}

#[test]
fn deque_peek_mut_writes_through() {
    let mut list = List::new();
    list.push_back(1);
    list.push_back(2);
    list.push_back(3);
    *list.peek_front_mut().unwrap() = 10;
    *list.peek_back_mut().unwrap() = 30;
    assert_eq!(list.pop_front(), Some(10));
    assert_eq!(list.pop_back(), Some(30));
    assert_eq!(list.pop_back(), Some(2));
    assert_eq!(list.pop_front(), None);
}
