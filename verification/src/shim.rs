//! A plain cell holding one value; the slot and lock payloads are stored in it.
use vstd::prelude::*;

verus! {

/// Holds one value that its owner reads by reference and replaces whole.
pub struct UnsafeCell<T> {
    value: T,
}

impl<T> UnsafeCell<T> {
    /// The value held.
    pub closed spec fn value(&self) -> T {
        self.value
    }

    /// A cell holding `value`.
    pub fn new(value: T) -> (c: Self)
        ensures
            c.value() == value,
    {
        UnsafeCell { value }
    }

    /// A reference to the value held.
    pub fn get(&self) -> (r: &T)
        ensures
            *r == self.value(),
    {
        &self.value
    }

    /// Stores `value`, handing back the value held before.
    pub fn replace(&mut self, value: T) -> (previous: T)
        ensures
            previous == old(self).value(),
            final(self).value() == value,
    {
        let mut value = value;
        std::mem::swap(&mut self.value, &mut value);
        value
    }
}

} // verus!
