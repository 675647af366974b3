use simple_executor::stack::List;

#[test]
fn lib_into_iter() {
    let mut list = List::new();
    list.push(1);
    list.push(2);
    list.push(3);

    assert_eq!(list.peek(), Some(&3));

    let mut iter = list.into_iter();
    assert_eq!(iter.next(), Some(3));
    assert_eq!(iter.next(), Some(2));
    assert_eq!(iter.next(), Some(1));
    assert_eq!(iter.next(), None);
    println!("{:?}", iter);
}

#[test]
fn iter() {
    let mut list = List::new();
    list.push(1);
    list.push(2);
    list.push(3);

    let mut iter = list.iter();
    assert_eq!(iter.next(), Some(&3));
    assert_eq!(iter.next(), Some(&2));
    assert_eq!(iter.next(), Some(&1));
    assert_eq!(iter.next(), None);
}

#[test]
fn iter_mut() {
    let mut list = List::new();
    list.push(1);
    list.push(2);
    list.push(3);

    let mut iter_mut = list.iter_mut();
    assert_eq!(iter_mut.next(), Some(&mut 3));
    assert_eq!(iter_mut.next(), Some(&mut 2));
    assert_eq!(iter_mut.next(), Some(&mut 1));
    assert_eq!(iter_mut.next(), None);
}

#[test]
fn stack_pop_and_peek_mut() {
    let mut list: List<i32> = List::new();
    assert_eq!(list.pop(), None);
    assert_eq!(list.peek(), None);
    assert_eq!(list.peek_mut(), None);
    list.push(1);
    list.push(2);
    if let Some(v) = list.peek_mut() {
        *v = 42;
    }
    assert_eq!(list.peek(), Some(&42));
    assert_eq!(list.pop(), Some(42));
    assert_eq!(list.pop(), Some(1));
    assert_eq!(list.pop(), None);
}

#[test]
fn stack_iter_mut_writes_through() {
    let mut list = List::new();
    list.push(1);
    list.push(2);
    {
        let mut it = list.iter_mut();
        while let Some(v) = it.next() {
            *v *= 10;
        }
    }
    let mut it = list.iter();
    assert_eq!(it.next(), Some(&20));
    assert_eq!(it.next(), Some(&10));
    assert_eq!(it.next(), None);
}
