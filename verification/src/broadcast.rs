//! Debounced scheduling of state broadcasts.
//!
//! A change asks for a broadcast by setting a flag. The first change to
//! set it starts a timer; changes that find it set add nothing. When the
//! timer is over the flag is cleared and the state, as it then is, goes out.

use vstd::prelude::*;

verus! {

/// Length of the coalescing window, in milliseconds.
pub const COALESCING_WINDOW_MS: u64 = 100;

/// The pending flag of the debounced broadcast.
#[derive(Clone, Copy, Debug, PartialEq, Eq, Structural)]
pub struct BroadcastDebounce {
    pub pending: bool,
}

impl BroadcastDebounce {
    pub fn new() -> (r: Self)
        ensures
            !r.pending,
    {
        BroadcastDebounce { pending: false }
    }

    /// Asks for a broadcast: sets the flag and says whether a timer is to
    /// be started, which is the case where the flag was not set.
    pub fn request(&mut self) -> (start_timer: bool)
        ensures
            start_timer == !old(self).pending,
            final(self).pending,
    {
        let was: bool = self.pending;
        self.pending = true;
        !was
    }

    /// The timer is over: clears the flag.
    pub fn due(&mut self)
        ensures
            !final(self).pending,
    {
        self.pending = false;
    }
}

} // verus!
