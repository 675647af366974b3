use vstd::prelude::*;

verus! {

/// A singly linked list used as a stack: `push` and `pop` work at the head.
/// Its view lists the elements from the head.
#[derive(Debug)]
pub struct List<T> {
    head: Link<T>,
}

type Link<T> = Option<Box<Node<T>>>;

#[derive(Debug)]
struct Node<T> {
    elem: T,
    next: Link<T>,
}

/// The elements of a chain of nodes, from its first node.
spec fn link_seq<T>(l: Link<T>) -> Seq<T>
    decreases l,
{
    match l {
        Some(n) => seq![n.elem] + link_seq(n.next),
        None => Seq::empty(),
    }
}

spec fn node_seq<T>(n: Node<T>) -> Seq<T> {
    seq![n.elem] + link_seq(n.next)
}

impl<T> View for List<T> {
    type V = Seq<T>;

    closed spec fn view(&self) -> Seq<T> {
        link_seq(self.head)
    }
}

/// Takes the list's elements from the head on.
#[derive(Debug)]
pub struct IntoIter<T>(List<T>);

/// Borrows the list's elements from the head on.
pub struct Iter<'a, T>(Option<&'a Node<T>>);

/// Borrows the list's elements mutably from the head on.
pub struct IterMut<'a, T>(Option<&'a mut Node<T>>);

impl<T> View for IntoIter<T> {
    type V = Seq<T>;

    closed spec fn view(&self) -> Seq<T> {
        self.0@
    }
}

impl<'a, T> View for Iter<'a, T> {
    type V = Seq<T>;

    closed spec fn view(&self) -> Seq<T> {
        match self.0 {
            Some(n) => node_seq(*n),
            None => Seq::empty(),
        }
    }
}

impl<'a, T> View for IterMut<'a, T> {
    type V = Seq<T>;

    closed spec fn view(&self) -> Seq<T> {
        match self.0 {
            Some(n) => node_seq(*n),
            None => Seq::empty(),
        }
    }
}

impl<T> List<T> {
    pub fn new() -> (l: List<T>)
        ensures
            l@ == Seq::<T>::empty(),
    {
        List { head: None }
    }

    /// Puts `elem` at the head.
    pub fn push(&mut self, elem: T)
        ensures
            final(self)@ == seq![elem] + old(self)@,
    {
        let next = self.head.take();
        self.head = Some(Box::new(Node { elem, next }));
    }

    /// Takes the head element, if any.
    pub fn pop(&mut self) -> (r: Option<T>)
        ensures
            old(self)@.len() == 0 ==> r is None && final(self)@ == old(self)@,
            old(self)@.len() > 0 ==> r == Some(old(self)@[0]) && final(self)@ == old(self)@.drop_first(),
    {
        match self.head.take() {
            Some(node) => {
                let node = *node;
                self.head = node.next;
                assert(old(self)@.drop_first() =~= self@);
                Some(node.elem)
            },
            None => None,
        }
    }

    /// The head element, if any.
    pub fn peek(&self) -> (r: Option<&T>)
        ensures
            self@.len() == 0 ==> r is None,
            self@.len() > 0 ==> r == Some(&self@[0]),
    {
        match &self.head {
            Some(node) => Some(&node.elem),
            None => None,
        }
    }

    /// The head element, mutably, if any; a write through it replaces the head.
    pub fn peek_mut(&mut self) -> (r: Option<&mut T>)
        ensures
            old(self)@.len() == 0 ==> r is None && final(self)@ == old(self)@,
            old(self)@.len() > 0 ==> r is Some && *r->Some_0 == old(self)@[0]
                && final(self)@ == old(self)@.update(0, *final(r->Some_0)),
    {
        match &mut self.head {
            Some(node) => Some(&mut node.elem),
            None => None,
        }
    }

    /// Turns the list into an iterator that hands out its elements from the head.
    pub fn into_iter(self) -> (it: IntoIter<T>)
        ensures
            it@ == self@,
    {
        IntoIter(self)
    }

    /// An iterator over references to the elements, from the head.
    pub fn iter(&self) -> (it: Iter<'_, T>)
        ensures
            it@ == self@,
    {
        match &self.head {
            Some(b) => Iter(Some(&**b)),
            None => Iter(None),
        }
    }

    /// An iterator over mutable references to the elements, from the head.
    pub fn iter_mut(&mut self) -> (it: IterMut<'_, T>)
        ensures
            it@ == old(self)@,
    {
        match &mut self.head {
            Some(b) => IterMut(Some(&mut **b)),
            None => IterMut(None),
        }
    }
}

impl<T> IntoIter<T> {
    pub fn next(&mut self) -> (r: Option<T>)
        ensures
            old(self)@.len() == 0 ==> r is None && final(self)@ == old(self)@,
            old(self)@.len() > 0 ==> r == Some(old(self)@[0]) && final(self)@ == old(self)@.drop_first(),
    {
        self.0.pop()
    }
}

impl<'a, T> Iter<'a, T> {
    pub fn next(&mut self) -> (r: Option<&'a T>)
        ensures
            old(self)@.len() == 0 ==> r is None && final(self)@ == old(self)@,
            old(self)@.len() > 0 ==> r == Some(&old(self)@[0]) && final(self)@ == old(self)@.drop_first(),
    {
        match self.0 {
            Some(node) => {
                self.0 = match &node.next {
                    Some(b) => Some(&**b),
                    None => None,
                };
                assert(old(self)@.drop_first() =~= self@);
                Some(&node.elem)
            },
            None => None,
        }
    }
}

impl<'a, T> IterMut<'a, T> {
    pub fn next(&mut self) -> (r: Option<&'a mut T>)
        ensures
            old(self)@.len() == 0 ==> r is None && final(self)@ == old(self)@,
            old(self)@.len() > 0 ==> r is Some && *r->Some_0 == old(self)@[0]
                && final(self)@ == old(self)@.drop_first(),
    {
        match self.0.take() {
            Some(node) => {
                self.0 = match &mut node.next {
                    Some(b) => Some(&mut **b),
                    None => None,
                };
                assert(old(self)@.drop_first() =~= self@);
                Some(&mut node.elem)
            },
            None => None,
        }
    }
}

impl<T> Drop for List<T> {
    /// Frees the nodes one by one, so a long list does not recurse deeply.
    fn drop(&mut self)
        opens_invariants none
        no_unwind
    {
        let mut link: Link<T> = None;
        std::mem::swap(&mut link, &mut self.head);
        loop
            decreases link_seq(link).len(),
        {
            match link {
                Some(node) => {
                    let node = *node;
                    link = node.next;
                },
                None => break,
            }
        }
    }
}

} // verus!
