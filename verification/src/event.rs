//! The wakeup channel: how the terminal engine tells the foreground that the
//! grid changed. It holds one signal at most, so that wakeups that arrive
//! before a poll count as one. It says that something changed, never what:
//! the foreground captures the whole grid anew.
//!
//! The channel lives on the foreground's side. What carries a wakeup across
//! from the engine's thread is the host's; it calls `notify` for each one
//! that arrived.

use vstd::prelude::*;

verus! {

/// A channel that carries no more than "something changed".
pub struct WakeupChannel {
    pending: bool,
}

impl View for WakeupChannel {
    type V = bool;

    /// Whether a signal waits to be taken.
    closed spec fn view(&self) -> bool {
        self.pending
    }
}

impl WakeupChannel {
    /// A channel with no signal in it.
    pub fn new() -> (channel: WakeupChannel)
        ensures
            !channel@,
    {
        WakeupChannel { pending: false }
    }

    /// Signals that the grid changed. A signal that already waits stays the
    /// only one.
    pub fn notify(&mut self)
        ensures
            final(self)@,
    {
        self.pending = true;
    }

    /// Takes the signal out, if there is one, and tells whether there was.
    pub fn drain(&mut self) -> (signalled: bool)
        ensures
            signalled == old(self)@,
            !final(self)@,
    {
        let signalled: bool = self.pending;
        self.pending = false;
        signalled
    }
}

} // verus!
