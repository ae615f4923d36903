//! A front-poppable token/node stack: the ordered sequence type that the
//! lexer produces and the parser consumes.

use vstd::prelude::*;

verus! {

/// An ordered sequence with push/pop at the back and pop at the front.
/// The view of a stack is the sequence of its elements, front first.
#[derive(Debug, PartialEq)]
pub struct Stack<K> {
    pub data: Vec<K>,
}

impl<K> View for Stack<K> {
    type V = Seq<K>;

    open spec fn view(&self) -> Seq<K> {
        self.data@
    }
}

impl<K> Stack<K> {
    /// Creates an empty stack.
    pub fn new() -> (r: Self)
        ensures
            r@ == Seq::<K>::empty(),
    {
        Self { data: Vec::new() }
    }

    /// Appends an element at the back.
    pub fn push(&mut self, token: K)
        ensures
            final(self)@ == old(self)@.push(token),
    {
        self.data.push(token);
    }

    /// Removes and returns the last element, or `None` when empty.
    pub fn pop(&mut self) -> (r: Option<K>)
        ensures
            old(self)@.len() == 0 ==> r is None && final(self)@ == old(self)@,
            old(self)@.len() > 0 ==> r == Some(old(self)@.last()) && final(self)@ == old(self)@.drop_last(),
    {
        if self.data.len() == 0 {
            None
        } else {
            let r = self.data.remove(self.data.len() - 1);
            proof {
                assert(final(self)@ =~= old(self)@.drop_last());
            }
            Some(r)
        }
    }

    /// True when the stack holds no elements.
    pub fn is_empty(&self) -> (r: bool)
        ensures
            r == (self@.len() == 0),
    {
        self.data.len() == 0
    }

    /// Returns a reference to the last element, or `None` when empty.
    pub fn last(&self) -> (r: Option<&K>)
        ensures
            self@.len() == 0 ==> r is None,
            self@.len() > 0 ==> r == Some(&self@.last()),
    {
        if self.data.len() == 0 {
            None
        } else {
            Some(&self.data[self.data.len() - 1])
        }
    }

    /// Removes and returns the first element, or `None` when empty.
    pub fn pop_front(&mut self) -> (r: Option<K>)
        ensures
            old(self)@.len() == 0 ==> r is None && final(self)@ == old(self)@,
            old(self)@.len() > 0 ==> r == Some(old(self)@.first()) && final(self)@ == old(self)@.drop_first(),
    {
        if self.data.len() == 0 {
            None
        } else {
            let r = self.data.remove(0);
            proof {
                assert(final(self)@ =~= old(self)@.drop_first());
            }
            Some(r)
        }
    }
}

} // verus!
