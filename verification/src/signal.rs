//! The broadcast flag that tells every participant of a search to unwind.

use vstd::prelude::*;

verus! {

/// A flag that starts unset, can be raised, and is never cleared.
pub struct StopSignal {
    raised: bool,
}

impl StopSignal {
    /// Whether the flag has been raised.
    pub closed spec fn is_raised(&self) -> bool {
        self.raised
    }

    /// A fresh, unset flag.
    pub fn new() -> (signal: Self)
        ensures
            !signal.is_raised(),
    {
        StopSignal { raised: false }
    }

    /// Raises the flag. Raising an already raised flag changes nothing.
    pub fn raise(&mut self)
        ensures
            final(self).is_raised(),
    {
        self.raised = true;
    }

    /// Reads the flag.
    pub fn is_set(&self) -> (set: bool)
        ensures
            set == self.is_raised(),
    {
        self.raised
    }
}

} // verus!
