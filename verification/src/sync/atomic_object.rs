//! A slot that holds at most one object and gives it up whole.

use vstd::prelude::*;

verus! {

/// A single slot for an object of type `T`. Storing replaces what the slot
/// holds; loading empties it.
pub struct AtomicObject<T> {
    slot: Option<Box<T>>,
}

impl<T> View for AtomicObject<T> {
    type V = Option<T>;

    closed spec fn view(&self) -> Option<T> {
        match self.slot {
            Some(object) => Some(*object),
            None => None,
        }
    }
}

impl<T> AtomicObject<T> {
    /// An empty slot.
    pub fn default() -> (slot: Self)
        ensures
            slot@ is None,
    {
        AtomicObject { slot: None }
    }

    /// Puts `t` into the slot: one indivisible step. What the slot held
    /// before is dropped.
    pub fn store(&mut self, t: T)
        ensures
            final(self)@ == Some(t),
    {
        self.slot = Some(Box::new(t));
    }

    /// Takes the object out of the slot: one indivisible step. A second load
    /// finds the slot empty.
    pub fn load(&mut self) -> (object: Option<Box<T>>)
        ensures
            final(self)@ is None,
            match object {
                Some(boxed) => old(self)@ == Some(*boxed),
                None => old(self)@ is None,
            },
    {
        self.slot.take()
    }
}

} // verus!
