use vstd::prelude::*;

verus! {

/// A double-ended list: elements are added and taken at either end. Its view
/// lists the elements from the front.
#[derive(Debug)]
pub struct List<T> {
    items: Vec<T>,
}

impl<T> View for List<T> {
    type V = Seq<T>;

    closed spec fn view(&self) -> Seq<T> {
        self.items@
    }
}

/// Takes the list's elements from either end.
#[derive(Debug)]
pub struct IntoIter<T>(List<T>);

impl<T> View for IntoIter<T> {
    type V = Seq<T>;

    closed spec fn view(&self) -> Seq<T> {
        self.0@
    }
}

impl<T> List<T> {
    pub fn new() -> (l: List<T>)
        ensures
            l@ == Seq::<T>::empty(),
    {
        List { items: Vec::new() }
    }

    pub fn push_front(&mut self, elem: T)
        ensures
            final(self)@ == seq![elem] + old(self)@,
    {
        self.items.insert(0, elem);
        assert(final(self)@ =~= seq![elem] + old(self)@);
    }

    pub fn push_back(&mut self, elem: T)
        ensures
            final(self)@ == old(self)@.push(elem),
    {
        self.items.push(elem);
    }

    pub fn pop_front(&mut self) -> (r: Option<T>)
        ensures
            old(self)@.len() == 0 ==> r is None && final(self)@ == old(self)@,
            old(self)@.len() > 0 ==> r == Some(old(self)@[0]) && final(self)@ == old(self)@.drop_first(),
    {
        if self.items.len() == 0 {
            None
        } else {
            let x = self.items.remove(0);
            assert(self@ =~= old(self)@.drop_first());
            Some(x)
        }
    }

    pub fn pop_back(&mut self) -> (r: Option<T>)
        ensures
            old(self)@.len() == 0 ==> r is None && final(self)@ == old(self)@,
            old(self)@.len() > 0 ==> r == Some(old(self)@.last()) && final(self)@ == old(self)@.drop_last(),
    {
        self.items.pop()
    }

    pub fn peek_front(&self) -> (r: Option<&T>)
        ensures
            self@.len() == 0 ==> r is None,
            self@.len() > 0 ==> r == Some(&self@[0]),
    {
        if self.items.len() == 0 {
            None
        } else {
            Some(&self.items[0])
        }
    }

    pub fn peek_back(&self) -> (r: Option<&T>)
        ensures
            self@.len() == 0 ==> r is None,
            self@.len() > 0 ==> r == Some(&self@.last()),
    {
        let n = self.items.len();
        if n == 0 {
            None
        } else {
            Some(&self.items[n - 1])
        }
    }

    /// The front element, mutably; a write through it replaces the front.
    pub fn peek_front_mut(&mut self) -> (r: Option<&mut T>)
        ensures
            old(self)@.len() == 0 ==> r is None && final(self)@ == old(self)@,
            old(self)@.len() > 0 ==> r is Some && *r->Some_0 == old(self)@[0]
                && final(self)@ == old(self)@.update(0, *final(r->Some_0)),
    {
        if self.items.len() == 0 {
            None
        } else {
            Some(&mut self.items[0])
        }
    }

    /// The back element, mutably; a write through it replaces the back.
    pub fn peek_back_mut(&mut self) -> (r: Option<&mut T>)
        ensures
            old(self)@.len() == 0 ==> r is None && final(self)@ == old(self)@,
            old(self)@.len() > 0 ==> r is Some && *r->Some_0 == old(self)@.last()
                && final(self)@ == old(self)@.update(old(self)@.len() - 1, *final(r->Some_0)),
    {
        let n = self.items.len();
        if n == 0 {
            None
        } else {
            Some(&mut self.items[n - 1])
        }
    }

    /// Turns the list into an iterator over its elements, from either end.
    pub fn into_iter(self) -> (it: IntoIter<T>)
        ensures
            it@ == self@,
    {
        IntoIter(self)
    }
}

impl<T> IntoIter<T> {
    /// Takes the front element.
    pub fn next(&mut self) -> (r: Option<T>)
        ensures
            old(self)@.len() == 0 ==> r is None && final(self)@ == old(self)@,
            old(self)@.len() > 0 ==> r == Some(old(self)@[0]) && final(self)@ == old(self)@.drop_first(),
    {
        self.0.pop_front()
    }

    /// Takes the back element.
    pub fn next_back(&mut self) -> (r: Option<T>)
        ensures
            old(self)@.len() == 0 ==> r is None && final(self)@ == old(self)@,
            old(self)@.len() > 0 ==> r == Some(old(self)@.last()) && final(self)@ == old(self)@.drop_last(),
    {
        self.0.pop_back()
    }
}

} // verus!
