//! A single-owner busy flag.
//!
//! The long-running loops each guard themselves with one: taking it
//! fails while it is held, releasing it lets the next start succeed.
//! Callers that share a controller across threads put it behind their
//! own lock; the flag itself only carries the guard's state and its
//! acquire-once meaning.

use vstd::prelude::*;

verus! {

/// A flag that at most one activity holds at a time.
pub struct BusyFlag {
    set: bool,
}

impl BusyFlag {
    /// Whether the flag is held.
    pub closed spec fn is_held(&self) -> bool {
        self.set
    }

    /// A released flag.
    pub fn new() -> (r: Self)
        ensures
            !r.is_held(),
    {
        BusyFlag { set: false }
    }

    /// Takes the flag: succeeds exactly when it was free, and it is held
    /// afterwards either way.
    pub fn try_acquire(&mut self) -> (ok: bool)
        ensures
            final(self).is_held(),
            ok <==> !old(self).is_held(),
            old(self).is_held() ==> *final(self) == *old(self),
    {
        let was = self.set;
        self.set = true;
        !was
    }

    /// Releases the flag.
    pub fn release(&mut self)
        ensures
            !final(self).is_held(),
    {
        self.set = false;
    }

    /// Reads the flag.
    pub fn is_set(&self) -> (r: bool)
        ensures
            r == self.is_held(),
    {
        self.set
    }
}

} // verus!
