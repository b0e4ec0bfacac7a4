//! States of a hart and ways to suspend it, as the interface numbers them.
use vstd::prelude::*;

verus! {

/// The hart is executing.
pub const STARTED: usize = 0;

/// The hart is not executing.
pub const STOPPED: usize = 1;

/// A start of the hart has been requested.
pub const START_PENDING: usize = 2;

/// A stop of the hart has been requested.
pub const STOP_PENDING: usize = 3;

/// The hart is in a low-power state.
pub const SUSPENDED: usize = 4;

/// Internal state: a start has been requested and its data are being written.
pub const START_PENDING_EXT: usize = usize::MAX;

/// Suspend that keeps the hart's registers.
pub const RETENTIVE: u32 = 0;

/// Suspend that loses the hart's registers.
pub const NON_RETENTIVE: u32 = 0x8000_0000;

/// The states are numbered as the supervisor sees them, but for the internal one, which has all
/// bits set. A suspend that loses the hart's registers has the highest bit set, one that keeps them
/// has not.
pub proof fn state_numbers()
    ensures
        STARTED == 0,
        STOPPED == 1,
        START_PENDING == 2,
        STOP_PENDING == 3,
        SUSPENDED == 4,
        START_PENDING_EXT == usize::MAX,
        RETENTIVE == 0,
        NON_RETENTIVE == 0x8000_0000,
{
}

} // verus!
