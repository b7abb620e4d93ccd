//! The state-change signal: mutators raise it, the publisher takes it.
//! Signals raised between two takes are coalesced into one.

use vstd::prelude::*;

verus! {

/// A signal that says "the registry changed, read it again".
#[derive(Debug)]
pub struct Notifier {
    pending: bool,
}

impl View for Notifier {
    type V = bool;

    /// Whether a change is waiting to be taken.
    closed spec fn view(&self) -> bool {
        self.pending
    }
}

impl Notifier {
    /// A notifier with nothing pending.
    pub fn new() -> (notifier: Notifier)
        ensures
            !notifier@,
    {
        Notifier { pending: false }
    }

    /// Raises the signal.
    pub fn notify(&mut self)
        ensures
            final(self)@,
    {
        self.pending = true;
    }

    /// Takes the signal: says whether a change was pending, and clears it.
    pub fn take(&mut self) -> (changed: bool)
        ensures
            changed == old(self)@,
            !final(self)@,
    {
        let changed = self.pending;
        self.pending = false;
        changed
    }

    /// Whether a change is waiting to be taken.
    pub fn is_pending(&self) -> (pending: bool)
        ensures
            pending == self@,
    {
        self.pending
    }
}

} // verus!
