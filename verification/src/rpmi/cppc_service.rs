//! Services of the RPMI CPPC service group.
use vstd::prelude::*;

verus! {

/// CPPC service: probe a register.
pub const PROBE_REG: u8 = 0x02;

/// CPPC service: read a register.
pub const READ_REG: u8 = 0x03;

/// CPPC service: write a register.
pub const WRITE_REG: u8 = 0x04;

} // verus!
