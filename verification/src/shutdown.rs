//! The process-wide shutdown flag: clear at startup, raised when the
//! sentinel command's closing notice is observed, never cleared again.
//! Raising it is idempotent, so any number of racing handlers may do it.

use vstd::prelude::*;

verus! {

/// The shutdown flag. Once its value is true, the accept loop stops
/// admitting new connections.
pub struct ShutdownFlag {
    /// Whether shutdown was requested.
    pub value: bool,
}

/// The flag after a raise: true, whatever it held before.
pub open spec fn set_v(f: ShutdownFlag) -> ShutdownFlag {
    ShutdownFlag { value: true }
}

impl ShutdownFlag {
    /// The flag as the process starts: not raised.
    pub fn new() -> (f: ShutdownFlag)
        ensures
            !f.value,
    {
        ShutdownFlag { value: false }
    }

    /// Raise the flag. A plain store: no compare-and-swap is needed,
    /// because every raise writes the same value.
    pub fn set(&mut self)
        ensures
            *final(self) == set_v(*old(self)),
    {
        self.value = true;
    }

    /// Whether shutdown was requested.
    pub fn is_set(&self) -> (b: bool)
        ensures
            b == self.value,
    {
        self.value
    }
}

/// Raising the flag twice leaves exactly the state one raise leaves, from
/// any starting state: a racing second sender of the sentinel changes
/// nothing.
pub proof fn lemma_set_idempotent(f: ShutdownFlag)
    ensures
        set_v(set_v(f)) == set_v(f),
        set_v(f).value,
{
}

} // verus!
