//! Bounded storage: a block of at most `capacity` slots, filled from the front
//! and never reallocated past its capacity.
use vstd::prelude::*;

verus! {

/// A fixed-capacity container whose initialized prefix is `buffer`.
pub struct Vec<A> {
    pub(crate) buffer: std::vec::Vec<A>,
    pub(crate) cap: usize,
}

impl<A> Vec<A> {
    /// The initialized slots, in order.
    pub closed spec fn view(&self) -> Seq<A> {
        self.buffer@
    }

    /// The number of slots fixed at construction.
    pub closed spec fn spec_capacity(&self) -> nat {
        self.cap as nat
    }

    /// The initialized prefix never outgrows the capacity.
    pub open spec fn wf(&self) -> bool {
        self@.len() <= self.spec_capacity() <= usize::MAX
    }

    /// An empty block of `capacity` slots.
    pub fn new(capacity: usize) -> (r: Self)
        ensures
            r.wf(),
            r@ == Seq::<A>::empty(),
            r.spec_capacity() == capacity,
    {
        Vec { buffer: std::vec::Vec::new(), cap: capacity }
    }

    pub fn capacity(&self) -> (r: usize)
        ensures
            r == self.spec_capacity(),
    {
        self.cap
    }

    /// The number of initialized slots.
    pub fn len(&self) -> (r: usize)
        ensures
            r == self@.len(),
    {
        self.buffer.len()
    }

    /// Appends `item` when a slot is left; otherwise hands `item` back and
    /// changes nothing.
    pub fn push(&mut self, item: A) -> (r: Result<(), A>)
        requires
            old(self).wf(),
        ensures
            final(self).wf(),
            final(self).spec_capacity() == old(self).spec_capacity(),
            old(self)@.len() < old(self).spec_capacity() ==> (r is Ok && final(self)@ == old(
                self,
            )@.push(item)),
            old(self)@.len() >= old(self).spec_capacity() ==> (r == Err::<(), A>(item)
                && final(self)@ == old(self)@),
    {
        if self.buffer.len() < self.cap {
            self.buffer.push(item);
            Ok(())
        } else {
            Err(item)
        }
    }

    /// The initialized slot at `index`.
    pub fn get(&self, index: usize) -> (r: &A)
        requires
            index < self@.len(),
        ensures
            *r == self@[index as int],
    {
        &self.buffer[index]
    }

    /// The initialized slot at `index`, for writing in place.
    pub fn get_mut(&mut self, index: usize) -> (r: &mut A)
        requires
            index < old(self)@.len(),
        ensures
            *r == old(self)@[index as int],
            final(self)@ == old(self)@.update(index as int, *final(r)),
            final(self).spec_capacity() == old(self).spec_capacity(),
    {
        &mut self.buffer[index]
    }

    /// Writes `item` into the initialized slot at `index` and returns what
    /// was there.
    pub fn replace(&mut self, index: usize, item: A) -> (r: A)
        requires
            old(self).wf(),
            index < old(self)@.len(),
        ensures
            final(self).wf(),
            r == old(self)@[index as int],
            final(self)@ == old(self)@.update(index as int, item),
            final(self).spec_capacity() == old(self).spec_capacity(),
    {
        let mut item = item;
        std::mem::swap(&mut self.buffer[index], &mut item);
        item
    }
}

} // verus!
