//! Storage of the messages a protocol session has seen.
use vstd::prelude::*;

verus! {

/// A store of the messages of a protocol session.
pub trait ProtocolStorage {
    type Item;

    /// Appends a message.
    fn store(&mut self, msg: Self::Item);

    /// Iterates over the stored messages in the order they were stored.
    fn iter(&self) -> std::slice::Iter<'_, Self::Item>;

    fn is_empty(&self) -> bool;

    fn len(&self) -> usize;
}

/// A message log kept in memory, in the order the messages were stored.
#[derive(Debug)]
pub struct InMemoryMessageLog<T> {
    log: Vec<T>,
}

impl<T> View for InMemoryMessageLog<T> {
    type V = Seq<T>;

    closed spec fn view(&self) -> Seq<T> {
        self.log@
    }
}

impl<T> InMemoryMessageLog<T> {
    /// An empty log.
    pub fn new() -> (l: Self)
        ensures
            l@ == Seq::<T>::empty(),
    {
        InMemoryMessageLog { log: Vec::new() }
    }
}

impl<T> Default for InMemoryMessageLog<T> {
    fn default() -> (l: Self)
        ensures
            l@ == Seq::<T>::empty(),
    {
        Self::new()
    }
}

impl<T> ProtocolStorage for InMemoryMessageLog<T> {
    type Item = T;

    fn store(&mut self, msg: T)
        ensures
            final(self)@ == old(self)@.push(msg),
    {
        self.log.push(msg);
    }

    fn iter(&self) -> (it: std::slice::Iter<'_, T>)
        ensures
            vstd::std_specs::slice::into_iter_elts(it) == self@,
    {
        broadcast use vstd::std_specs::slice::axiom_spec_slice_iter;
        let it = self.log.as_slice().iter();
        proof {
            assert(self@.as_ref().unref() =~= self@);
        }
        it
    }

    fn is_empty(&self) -> (b: bool)
        ensures
            b == (self@.len() == 0),
    {
        self.log.len() == 0
    }

    fn len(&self) -> (n: usize)
        ensures
            n == self@.len(),
    {
        self.log.len()
    }
}

/// A message log meant to be kept in a file; it stores nothing yet.
pub struct FileMessageLog<T> {
    phantom: core::marker::PhantomData<T>,
}

} // verus!
