//! RPMI service-group identifiers.
use vstd::prelude::*;

verus! {

/// Base service group.
pub const BASE: u16 = 0x0001;

/// System MSI service group.
pub const SYSTEM_MSI: u16 = 0x0002;

/// System reset service group.
pub const SYSTEM_RESET: u16 = 0x0003;

/// System suspend service group.
pub const SYSTEM_SUSPEND: u16 = 0x0004;

/// Hart State Management service group.
pub const HSM: u16 = 0x0005;

/// CPPC service group.
pub const CPPC: u16 = 0x0006;

/// Voltage service group.
pub const VOLTAGE: u16 = 0x0007;

/// Clock service group.
pub const CLOCK: u16 = 0x0008;

/// Device power domain service group.
pub const DOMAIN: u16 = 0x0009;

/// RTC service group (SpacemiT vendor group).
pub const RTC: u16 = 0x000e;

/// Power key service group (SpacemiT vendor group).
pub const PWRKEY: u16 = 0x000f;

/// The groups that every platform may have are numbered from one on without a gap, those of the
/// vendor follow from fourteen on.
pub proof fn group_numbers()
    ensures
        BASE == 1,
        SYSTEM_MSI == 2,
        SYSTEM_RESET == 3,
        SYSTEM_SUSPEND == 4,
        HSM == 5,
        CPPC == 6,
        VOLTAGE == 7,
        CLOCK == 8,
        DOMAIN == 9,
        RTC == 14,
        PWRKEY == 15,
{
}

} // verus!
