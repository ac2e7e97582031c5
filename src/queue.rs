use vstd::prelude::*;

verus! {

/// Pending commands of one batch.
///
/// The queue is drained from the same end it is filled at, so it behaves as a
/// stack: the command pushed last is popped first.
#[derive(Clone)]
pub struct RPCQueue<T> {
    messages: Vec<T>,
}

impl<T> View for RPCQueue<T> {
    type V = Seq<T>;

    /// The pending commands, oldest first; the next to be popped is the last.
    closed spec fn view(&self) -> Seq<T> {
        self.messages@
    }
}

impl<T> Default for RPCQueue<T> {
    fn default() -> (r: Self)
        ensures
            r@ == Seq::<T>::empty(),
    {
        RPCQueue { messages: Vec::new() }
    }
}

impl<T> RPCQueue<T> {
    pub fn new() -> (r: Self)
        ensures
            r@ == Seq::<T>::empty(),
    {
        RPCQueue { messages: Vec::new() }
    }

    /// Removes and returns the most recently pushed command.
    pub fn pop(&mut self) -> (r: Option<T>)
        ensures
            old(self)@.len() == 0 ==> r.is_none() && final(self)@ == old(self)@,
            old(self)@.len() > 0 ==> r == Some(old(self)@.last()) && final(self)@
                == old(self)@.drop_last(),
    {
        self.messages.pop()
    }

    /// Appends every command of `batch`, keeping the batch's order.
    pub fn push(&mut self, batch: Vec<T>)
        ensures
            final(self)@ == old(self)@ + batch@,
    {
        let mut batch = batch;
        self.messages.append(&mut batch);
    }

    /// Drops every pending command.
    pub fn reset(&mut self)
        ensures
            final(self)@ == Seq::<T>::empty(),
    {
        self.messages.clear();
    }

    pub fn len(&self) -> (r: usize)
        ensures
            r == self@.len(),
    {
        self.messages.len()
    }

    pub fn is_empty(&self) -> (r: bool)
        ensures
            r == (self@.len() == 0),
    {
        self.messages.len() == 0
    }
}

} // verus!
