//! A bounded first-in, first-out queue.

use std::collections::VecDeque;
use vstd::prelude::*;

verus! {

/// A queue that holds at most `capacity` items and hands them out in the
/// order in which they were accepted.
///
/// Its view is the sequence of the items it holds, oldest first.
pub struct BoundedQueue<T> {
    items: VecDeque<T>,
    capacity: usize,
}

impl<T> View for BoundedQueue<T> {
    type V = Seq<T>;

    closed spec fn view(&self) -> Seq<T> {
        self.items@
    }
}

impl<T> BoundedQueue<T> {
    /// The number of items that the queue can hold.
    pub closed spec fn spec_capacity(&self) -> nat {
        self.capacity as nat
    }

    /// The queue never holds more than its capacity.
    #[verifier::type_invariant]
    pub open spec fn within_capacity(&self) -> bool {
        self@.len() <= self.spec_capacity()
    }

    /// Makes an empty queue that can hold `capacity` items.
    pub fn new(capacity: usize) -> (queue: Self)
        ensures
            queue@ == Seq::<T>::empty(),
            queue.spec_capacity() == capacity,
    {
        BoundedQueue { items: VecDeque::new(), capacity }
    }

    /// The number of items that the queue can hold.
    pub fn capacity(&self) -> (capacity: usize)
        ensures
            capacity == self.spec_capacity(),
    {
        self.capacity
    }

    /// The number of items in the queue.
    pub fn len(&self) -> (len: usize)
        ensures
            len == self@.len(),
            len <= self.spec_capacity(),
    {
        proof {
            use_type_invariant(self);
        }
        self.items.len()
    }

    /// Whether the queue holds nothing.
    pub fn is_empty(&self) -> (empty: bool)
        ensures
            empty == (self@.len() == 0),
    {
        self.items.len() == 0
    }

    /// Whether the queue holds as much as it can.
    pub fn is_full(&self) -> (full: bool)
        ensures
            full == (self@.len() == self.spec_capacity()),
            self@.len() <= self.spec_capacity(),
    {
        proof {
            use_type_invariant(self);
        }
        self.items.len() >= self.capacity
    }

    /// Appends `item` if there is room, and hands it back if there is none.
    pub fn try_push(&mut self, item: T) -> (outcome: Result<(), T>)
        ensures
            final(self).spec_capacity() == old(self).spec_capacity(),
            old(self)@.len() < old(self).spec_capacity() ==> outcome is Ok && final(self)@ == old(
                self,
            )@.push(item),
            old(self)@.len() >= old(self).spec_capacity() ==> outcome == Err::<(), T>(item)
                && final(self)@ == old(self)@,
    {
        if self.items.len() < self.capacity {
            let mut items = VecDeque::new();
            core::mem::swap(&mut self.items, &mut items);
            items.push_back(item);
            core::mem::swap(&mut self.items, &mut items);
            Ok(())
        } else {
            Err(item)
        }
    }

    /// Takes the oldest item out of the queue, if there is one.
    pub fn pop(&mut self) -> (item: Option<T>)
        ensures
            final(self).spec_capacity() == old(self).spec_capacity(),
            old(self)@.len() > 0 ==> item == Some(old(self)@[0]) && final(self)@ == old(
                self,
            )@.drop_first(),
            old(self)@.len() == 0 ==> item is None && final(self)@ == old(self)@,
    {
        proof {
            use_type_invariant(&*self);
        }
        let mut items = VecDeque::new();
        core::mem::swap(&mut self.items, &mut items);
        let item = items.pop_front();
        core::mem::swap(&mut self.items, &mut items);
        item
    }
}

} // verus!
