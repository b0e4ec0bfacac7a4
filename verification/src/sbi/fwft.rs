//! Firmware features.
//!
//! A request is served step by step: the machine here says which register to read or write next,
//! and goes on with what was read. A feature that is backed by a field of the environment register
//! counts as supported only if the field can be written: all of its bits are written and read back,
//! and what the register held is put back, before the feature is set or got.
use vstd::prelude::*;

use crate::binary::{SbiError, SbiRet};

verus! {

/// Feature: misaligned accesses are delegated.
pub const MISALIGNED_EXC_DELEG: u32 = 0;

/// Feature: landing pads.
pub const LANDING_PAD: u32 = 1;

/// Feature: shadow stacks.
pub const SHADOW_STACK: u32 = 2;

/// Feature: double traps.
pub const DOUBLE_TRAP: u32 = 3;

/// Feature: hardware updates the accessed and dirty bits of page tables.
pub const PTE_AD_HW_UPDATING: u32 = 4;

/// Feature: length of pointer tags.
pub const POINTER_MASKING_PMLEN: u32 = 5;

/// Misaligned load and store among the delegated exceptions.
pub const MIS_DELEG: usize = 0x50;

/// Environment: landing pads.
pub const ENVCFG_LPE: usize = 0x1;

/// Environment: double traps.
pub const ENVCFG_DTE: usize = 0x2;

/// Environment: page-table updates.
pub const ENVCFG_ADUE: usize = 0x20;

/// Environment: shadow stacks.
pub const ENVCFG_SSE: usize = 0x100;

/// Environment: length of pointer tags.
pub const ENVCFG_PMM: usize = 0x600;

/// Place of the pointer-tag field.
pub const ENVCFG_PMM_SHIFT: usize = 9;

/// Bit of supervisor mode in the instruction-set register.
pub const MISA_S_BIT: usize = 0x4_0000;

/// A field of the environment register.
#[derive(Clone, Copy, PartialEq, Eq, Structural, Debug)]
pub struct Field {
    /// Bits of the field.
    pub mask: usize,
    /// Place of its lowest bit.
    pub shift: usize,
    /// Greatest value.
    pub max: usize,
}

/// The field that backs a feature, if one does.
pub open spec fn feature_field(feature_id: u32) -> Option<Field> {
    if feature_id == LANDING_PAD {
        Some(Field { mask: ENVCFG_LPE, shift: 0, max: 1 })
    } else if feature_id == SHADOW_STACK {
        Some(Field { mask: ENVCFG_SSE, shift: 8, max: 1 })
    } else if feature_id == DOUBLE_TRAP {
        Some(Field { mask: ENVCFG_DTE, shift: 1, max: 1 })
    } else if feature_id == PTE_AD_HW_UPDATING {
        Some(Field { mask: ENVCFG_ADUE, shift: 5, max: 1 })
    } else if feature_id == POINTER_MASKING_PMLEN {
        Some(Field { mask: ENVCFG_PMM, shift: ENVCFG_PMM_SHIFT, max: 3 })
    } else {
        None
    }
}

/// The field that backs a feature, if one does.
fn menvcfg_field(feature_id: u32) -> (f: Option<Field>)
    ensures
        f == feature_field(feature_id),
{
    if feature_id == LANDING_PAD {
        Some(Field { mask: ENVCFG_LPE, shift: 0, max: 1 })
    } else if feature_id == SHADOW_STACK {
        Some(Field { mask: ENVCFG_SSE, shift: 8, max: 1 })
    } else if feature_id == DOUBLE_TRAP {
        Some(Field { mask: ENVCFG_DTE, shift: 1, max: 1 })
    } else if feature_id == PTE_AD_HW_UPDATING {
        Some(Field { mask: ENVCFG_ADUE, shift: 5, max: 1 })
    } else if feature_id == POINTER_MASKING_PMLEN {
        Some(Field { mask: ENVCFG_PMM, shift: ENVCFG_PMM_SHIFT, max: 3 })
    } else {
        None
    }
}

/// What a request wants done next.
#[derive(Clone, Copy, PartialEq, Eq, Structural, Debug)]
pub enum FwftAction {
    /// Read the instruction-set register.
    ReadMisa,
    /// Read the register of delegated exceptions.
    ReadMedeleg,
    /// Write the register of delegated exceptions.
    WriteMedeleg(usize),
    /// Read the environment register.
    ReadMenvcfg,
    /// Write the environment register.
    WriteMenvcfg(usize),
    /// Return to the supervisor.
    Return(SbiRet),
}

/// A request that is under way.
#[derive(Clone, Copy, PartialEq, Eq, Structural, Debug)]
pub enum FwftCall {
    /// Set delegation: does the hart have supervisor mode?
    SetDelegMisa(usize),
    /// Set delegation: what is delegated now?
    SetDelegRead(usize),
    /// Set delegation: write what is to be delegated.
    SetDelegWrite(usize),
    /// Set a field to these bits: what does the register hold?
    SetFieldRead(Field, usize),
    /// Set a field: write all of its bits on top of what the register held.
    SetFieldProbe(Field, usize, usize),
    /// Set a field: which of them did the register keep?
    SetFieldProbed(Field, usize, usize),
    /// Set a field: put back what the register held; it had kept this.
    SetFieldRestore(Field, usize, usize, usize),
    /// Set a field: write the register.
    SetFieldWrite(Field, usize),
    /// Set a field: did the register keep what was written?
    SetFieldCheck(Field, usize),
    /// Get delegation: does the hart have supervisor mode?
    GetDelegMisa,
    /// Get delegation: what is delegated?
    GetDelegRead,
    /// Get a field: what does the register hold?
    GetFieldRead(Field),
    /// Get a field: write all of its bits on top of what the register held.
    GetFieldProbe(Field, usize),
    /// Get a field: which of them did the register keep?
    GetFieldCheck(Field, usize),
    /// Get a field: put back what the register held; it had kept this.
    GetFieldRestore(Field, usize, usize),
    /// Get a field: read its value.
    GetFieldValue(Field),
    /// The request has been served.
    Done(SbiRet),
}

/// The register with a field replaced.
pub open spec fn with_field(current: usize, f: Field, bits: usize) -> usize {
    (current & !f.mask) | bits
}

impl FwftCall {
    /// The request to set a feature.
    pub open spec fn setting(feature_id: u32, value: usize, flags: usize) -> FwftCall {
        if flags != 0 {
            FwftCall::Done(SbiRet::err(SbiError::InvalidParam))
        } else if feature_id == MISALIGNED_EXC_DELEG {
            FwftCall::SetDelegMisa(value)
        } else {
            match feature_field(feature_id) {
                Some(f) => if value > f.max {
                    FwftCall::Done(SbiRet::err(SbiError::InvalidParam))
                } else {
                    FwftCall::SetFieldRead(f, value << f.shift)
                },
                None => FwftCall::Done(SbiRet::err(SbiError::Denied)),
            }
        }
    }

    /// The request to get a feature.
    pub open spec fn getting(feature_id: u32) -> FwftCall {
        if feature_id == MISALIGNED_EXC_DELEG {
            FwftCall::GetDelegMisa
        } else {
            match feature_field(feature_id) {
                Some(f) => FwftCall::GetFieldRead(f),
                None => FwftCall::Done(SbiRet::err(SbiError::Denied)),
            }
        }
    }

    /// What the request wants done next.
    pub open spec fn wants(self) -> FwftAction {
        match self {
            FwftCall::SetDelegMisa(_) => FwftAction::ReadMisa,
            FwftCall::SetDelegRead(_) => FwftAction::ReadMedeleg,
            FwftCall::SetDelegWrite(next) => FwftAction::WriteMedeleg(next),
            FwftCall::SetFieldRead(_, _) => FwftAction::ReadMenvcfg,
            FwftCall::SetFieldProbe(f, _, current) => FwftAction::WriteMenvcfg(current | f.mask),
            FwftCall::SetFieldProbed(_, _, _) => FwftAction::ReadMenvcfg,
            FwftCall::SetFieldRestore(_, _, current, _) => FwftAction::WriteMenvcfg(current),
            FwftCall::SetFieldWrite(_, next) => FwftAction::WriteMenvcfg(next),
            FwftCall::SetFieldCheck(_, _) => FwftAction::ReadMenvcfg,
            FwftCall::GetDelegMisa => FwftAction::ReadMisa,
            FwftCall::GetDelegRead => FwftAction::ReadMedeleg,
            FwftCall::GetFieldRead(_) => FwftAction::ReadMenvcfg,
            FwftCall::GetFieldProbe(f, current) => FwftAction::WriteMenvcfg(current | f.mask),
            FwftCall::GetFieldCheck(_, _) => FwftAction::ReadMenvcfg,
            FwftCall::GetFieldRestore(_, current, _) => FwftAction::WriteMenvcfg(current),
            FwftCall::GetFieldValue(_) => FwftAction::ReadMenvcfg,
            FwftCall::Done(r) => FwftAction::Return(r),
        }
    }

    /// The request after its action, which read `reply` if it read anything.
    pub open spec fn after(self, reply: usize) -> FwftCall {
        match self {
            FwftCall::SetDelegMisa(value) => if reply & MISA_S_BIT == 0 {
                FwftCall::Done(SbiRet::err(SbiError::NotSupported))
            } else {
                FwftCall::SetDelegRead(value)
            },
            FwftCall::SetDelegRead(value) => if value == 0 {
                FwftCall::SetDelegWrite(reply & !MIS_DELEG)
            } else if value == 1 {
                FwftCall::SetDelegWrite(reply | MIS_DELEG)
            } else {
                FwftCall::Done(SbiRet::err(SbiError::InvalidParam))
            },
            FwftCall::SetDelegWrite(_) => FwftCall::Done(SbiRet::ok(0)),
            FwftCall::SetFieldRead(f, bits) => FwftCall::SetFieldProbe(f, bits, reply),
            FwftCall::SetFieldProbe(f, bits, current) => FwftCall::SetFieldProbed(f, bits, current),
            FwftCall::SetFieldProbed(f, bits, current) => FwftCall::SetFieldRestore(
                f,
                bits,
                current,
                reply,
            ),
            FwftCall::SetFieldRestore(f, bits, current, probed) => if probed & f.mask == 0 {
                FwftCall::Done(SbiRet::err(SbiError::NotSupported))
            } else {
                FwftCall::SetFieldWrite(f, with_field(current, f, bits))
            },
            FwftCall::SetFieldWrite(f, next) => FwftCall::SetFieldCheck(f, next),
            FwftCall::SetFieldCheck(f, next) => if reply & f.mask == next & f.mask {
                FwftCall::Done(SbiRet::ok(0))
            } else {
                FwftCall::Done(SbiRet::err(SbiError::NotSupported))
            },
            FwftCall::GetDelegMisa => if reply & MISA_S_BIT == 0 {
                FwftCall::Done(SbiRet::err(SbiError::NotSupported))
            } else {
                FwftCall::GetDelegRead
            },
            FwftCall::GetDelegRead => FwftCall::Done(
                SbiRet::ok(
                    if reply & MIS_DELEG != 0 {
                        1
                    } else {
                        0
                    },
                ),
            ),
            FwftCall::GetFieldRead(f) => FwftCall::GetFieldProbe(f, reply),
            FwftCall::GetFieldProbe(f, current) => FwftCall::GetFieldCheck(f, current),
            FwftCall::GetFieldCheck(f, current) => FwftCall::GetFieldRestore(f, current, reply),
            FwftCall::GetFieldRestore(f, _, probed) => if probed & f.mask == 0 {
                FwftCall::Done(SbiRet::err(SbiError::NotSupported))
            } else {
                FwftCall::GetFieldValue(f)
            },
            FwftCall::GetFieldValue(f) => FwftCall::Done(SbiRet::ok((reply & f.mask) >> f.shift)),
            FwftCall::Done(r) => FwftCall::Done(r),
        }
    }

    /// What the request wants done next.
    pub fn action(&self) -> (a: FwftAction)
        ensures
            a == self.wants(),
    {
        match *self {
            FwftCall::SetDelegMisa(_) => FwftAction::ReadMisa,
            FwftCall::SetDelegRead(_) => FwftAction::ReadMedeleg,
            FwftCall::SetDelegWrite(next) => FwftAction::WriteMedeleg(next),
            FwftCall::SetFieldRead(_, _) => FwftAction::ReadMenvcfg,
            FwftCall::SetFieldProbe(f, _, current) => FwftAction::WriteMenvcfg(current | f.mask),
            FwftCall::SetFieldProbed(_, _, _) => FwftAction::ReadMenvcfg,
            FwftCall::SetFieldRestore(_, _, current, _) => FwftAction::WriteMenvcfg(current),
            FwftCall::SetFieldWrite(_, next) => FwftAction::WriteMenvcfg(next),
            FwftCall::SetFieldCheck(_, _) => FwftAction::ReadMenvcfg,
            FwftCall::GetDelegMisa => FwftAction::ReadMisa,
            FwftCall::GetDelegRead => FwftAction::ReadMedeleg,
            FwftCall::GetFieldRead(_) => FwftAction::ReadMenvcfg,
            FwftCall::GetFieldProbe(f, current) => FwftAction::WriteMenvcfg(current | f.mask),
            FwftCall::GetFieldCheck(_, _) => FwftAction::ReadMenvcfg,
            FwftCall::GetFieldRestore(_, current, _) => FwftAction::WriteMenvcfg(current),
            FwftCall::GetFieldValue(_) => FwftAction::ReadMenvcfg,
            FwftCall::Done(r) => FwftAction::Return(r),
        }
    }

    /// The place of the field that the request is about is inside a register.
    pub open spec fn wf(self) -> bool {
        match self {
            FwftCall::GetFieldRead(f) => f.shift < 32,
            FwftCall::GetFieldProbe(f, _) => f.shift < 32,
            FwftCall::GetFieldCheck(f, _) => f.shift < 32,
            FwftCall::GetFieldRestore(f, _, _) => f.shift < 32,
            FwftCall::GetFieldValue(f) => f.shift < 32,
            _ => true,
        }
    }

    /// Goes on after the action, which read `reply` if it read anything.
    pub fn step(&self, reply: usize) -> (next: FwftCall)
        requires
            self.wf(),
        ensures
            next == self.after(reply),
            next.wf(),
    {
        match *self {
            FwftCall::SetDelegMisa(value) => if reply & MISA_S_BIT == 0 {
                FwftCall::Done(SbiRet::not_supported())
            } else {
                FwftCall::SetDelegRead(value)
            },
            FwftCall::SetDelegRead(value) => if value == 0 {
                FwftCall::SetDelegWrite(reply & !MIS_DELEG)
            } else if value == 1 {
                FwftCall::SetDelegWrite(reply | MIS_DELEG)
            } else {
                FwftCall::Done(SbiRet::invalid_param())
            },
            FwftCall::SetDelegWrite(_) => FwftCall::Done(SbiRet::success(0)),
            FwftCall::SetFieldRead(f, bits) => FwftCall::SetFieldProbe(f, bits, reply),
            FwftCall::SetFieldProbe(f, bits, current) => FwftCall::SetFieldProbed(f, bits, current),
            FwftCall::SetFieldProbed(f, bits, current) => FwftCall::SetFieldRestore(
                f,
                bits,
                current,
                reply,
            ),
            FwftCall::SetFieldRestore(f, bits, current, probed) => if probed & f.mask == 0 {
                FwftCall::Done(SbiRet::not_supported())
            } else {
                FwftCall::SetFieldWrite(f, (current & !f.mask) | bits)
            },
            FwftCall::SetFieldWrite(f, next) => FwftCall::SetFieldCheck(f, next),
            FwftCall::SetFieldCheck(f, next) => if reply & f.mask == next & f.mask {
                FwftCall::Done(SbiRet::success(0))
            } else {
                FwftCall::Done(SbiRet::not_supported())
            },
            FwftCall::GetDelegMisa => if reply & MISA_S_BIT == 0 {
                FwftCall::Done(SbiRet::not_supported())
            } else {
                FwftCall::GetDelegRead
            },
            FwftCall::GetDelegRead => if reply & MIS_DELEG != 0 {
                FwftCall::Done(SbiRet::success(1))
            } else {
                FwftCall::Done(SbiRet::success(0))
            },
            FwftCall::GetFieldRead(f) => FwftCall::GetFieldProbe(f, reply),
            FwftCall::GetFieldProbe(f, current) => FwftCall::GetFieldCheck(f, current),
            FwftCall::GetFieldCheck(f, current) => FwftCall::GetFieldRestore(f, current, reply),
            FwftCall::GetFieldRestore(f, _, probed) => if probed & f.mask == 0 {
                FwftCall::Done(SbiRet::not_supported())
            } else {
                FwftCall::GetFieldValue(f)
            },
            FwftCall::GetFieldValue(f) => FwftCall::Done(
                SbiRet::success((reply & f.mask) >> f.shift),
            ),
            FwftCall::Done(r) => FwftCall::Done(r),
        }
    }
}

/// Firmware features extension.
pub struct SbiFwft;

impl SbiFwft {
    /// Begins to set a feature. No flag is supported: a locked feature could never be changed
    /// again.
    pub fn set(&self, feature_id: u32, value: usize, flags: usize) -> (c: FwftCall)
        ensures
            c == FwftCall::setting(feature_id, value, flags),
            c.wf(),
    {
        if flags != 0 {
            return FwftCall::Done(SbiRet::invalid_param());
        }
        if feature_id == MISALIGNED_EXC_DELEG {
            return FwftCall::SetDelegMisa(value);
        }
        match menvcfg_field(feature_id) {
            Some(f) => {
                if value > f.max {
                    return FwftCall::Done(SbiRet::invalid_param());
                }
                FwftCall::SetFieldRead(f, value << f.shift)
            },
            None => FwftCall::Done(SbiRet::denied()),
        }
    }

    /// Begins to get a feature.
    pub fn get(&self, feature_id: u32) -> (c: FwftCall)
        ensures
            c == FwftCall::getting(feature_id),
            c.wf(),
    {
        if feature_id == MISALIGNED_EXC_DELEG {
            return FwftCall::GetDelegMisa;
        }
        match menvcfg_field(feature_id) {
            Some(f) => FwftCall::GetFieldRead(f),
            None => FwftCall::Done(SbiRet::denied()),
        }
    }
}

/// The registers of a hart that features live in.
pub struct Registers {
    /// Instruction-set register.
    pub misa: usize,
    /// Delegated exceptions.
    pub medeleg: usize,
    /// Environment.
    pub menvcfg: usize,
    /// The bits of the environment register that the hart implements; the others stay as they are.
    pub implemented: usize,
}

impl Registers {
    /// What the environment register holds after `value` has been written to it.
    pub open spec fn kept(self, value: usize) -> usize {
        (value & self.implemented) | (self.menvcfg & !self.implemented)
    }

    /// The registers after an action, and what it read.
    pub open spec fn performed(self, a: FwftAction) -> (Registers, usize) {
        match a {
            FwftAction::ReadMisa => (self, self.misa),
            FwftAction::ReadMedeleg => (self, self.medeleg),
            FwftAction::WriteMedeleg(v) => (Registers { medeleg: v, ..self }, 0),
            FwftAction::ReadMenvcfg => (self, self.menvcfg),
            FwftAction::WriteMenvcfg(v) => (Registers { menvcfg: self.kept(v), ..self }, 0),
            FwftAction::Return(_) => (self, 0),
        }
    }
}

impl FwftCall {
    /// Number of actions until the request has been served, at most.
    pub open spec fn left(self) -> nat {
        match self {
            FwftCall::Done(_) => 0,
            FwftCall::SetDelegMisa(_) => 3,
            FwftCall::SetDelegRead(_) => 2,
            FwftCall::SetDelegWrite(_) => 1,
            FwftCall::SetFieldRead(_, _) => 6,
            FwftCall::SetFieldProbe(_, _, _) => 5,
            FwftCall::SetFieldProbed(_, _, _) => 4,
            FwftCall::SetFieldRestore(_, _, _, _) => 3,
            FwftCall::SetFieldWrite(_, _) => 2,
            FwftCall::SetFieldCheck(_, _) => 1,
            FwftCall::GetDelegMisa => 2,
            FwftCall::GetDelegRead => 1,
            FwftCall::GetFieldRead(_) => 5,
            FwftCall::GetFieldProbe(_, _) => 4,
            FwftCall::GetFieldCheck(_, _) => 3,
            FwftCall::GetFieldRestore(_, _, _) => 2,
            FwftCall::GetFieldValue(_) => 1,
        }
    }

    /// Serves the request to its end: the registers afterwards and the result.
    pub open spec fn served(self, regs: Registers) -> (Registers, SbiRet)
        decreases self.left(),
    {
        match self {
            FwftCall::Done(r) => (regs, r),
            _ => {
                let (after, reply) = regs.performed(self.wants());
                self.after(reply).served(after)
            },
        }
    }
}

/// The fields and their values, as bit patterns.
proof fn field_values(feature_id: u32, value: usize)
    requires
        feature_field(feature_id) is Some,
        value <= feature_field(feature_id)->0.max,
    ensures
        ({
            let f = feature_field(feature_id)->0;
            let bits = value << f.shift;
            &&& bits & f.mask == bits
            &&& (bits & f.mask) >> f.shift == value
            &&& f.mask != 0
            &&& value != 0 ==> bits != 0
        }),
{
    assert(value <= 1 ==> {
        &&& (value << 0usize) & 0x1 == value << 0usize
        &&& ((value << 0usize) & 0x1) >> 0usize == value
        &&& (value << 8usize) & 0x100 == value << 8usize
        &&& ((value << 8usize) & 0x100) >> 8usize == value
        &&& (value << 1usize) & 0x2 == value << 1usize
        &&& ((value << 1usize) & 0x2) >> 1usize == value
        &&& (value << 5usize) & 0x20 == value << 5usize
        &&& ((value << 5usize) & 0x20) >> 5usize == value
    }) by (bit_vector);
    assert(value <= 3 ==> {
        &&& (value << 9usize) & 0x600 == value << 9usize
        &&& ((value << 9usize) & 0x600) >> 9usize == value
    }) by (bit_vector);
    assert(0usize & 0x1 == 0 && 0usize & 0x2 == 0 && 0usize & 0x20 == 0 && 0usize & 0x100 == 0
        && 0usize & 0x600 == 0 && 0usize >> 0usize == 0 && 0usize >> 1usize == 0 && 0usize >> 5usize
        == 0 && 0usize >> 8usize == 0 && 0usize >> 9usize == 0) by (bit_vector);
}

/// A field can be written: the register keeps a bit of it.
pub open spec fn writable(regs: Registers, f: Field) -> bool {
    regs.kept(regs.menvcfg | f.mask) & f.mask != 0
}

/// Writing all bits of a field and then what the register held leaves the register as it was.
proof fn probe_restores(regs: Registers, f: Field)
    ensures
        ({
            let probed = Registers { menvcfg: regs.kept(regs.menvcfg | f.mask), ..regs };
            probed.kept(regs.menvcfg) == regs.menvcfg
        }),
{
    let (m, i, mask) = (regs.menvcfg, regs.implemented, f.mask);
    let probed = regs.kept(m | mask);
    assert((m & i) | (probed & !i) == m) by (bit_vector)
        requires
            probed == ((m | mask) & i) | (m & !i),
    ;
}

/// Setting a field that cannot be written is not supported and changes nothing. Setting any other
/// writes it into the environment register and succeeds exactly if the register keeps it.
pub proof fn set_field_served(feature_id: u32, value: usize, regs: Registers)
    requires
        feature_field(feature_id) is Some,
        value <= feature_field(feature_id)->0.max,
    ensures
        ({
            let f = feature_field(feature_id)->0;
            let next = with_field(regs.menvcfg, f, value << f.shift);
            FwftCall::setting(feature_id, value, 0).served(regs) == if !writable(regs, f) {
                (regs, SbiRet::err(SbiError::NotSupported))
            } else {
                (
                    Registers { menvcfg: regs.kept(next), ..regs },
                    if regs.kept(next) & f.mask == next & f.mask {
                        SbiRet::ok(0)
                    } else {
                        SbiRet::err(SbiError::NotSupported)
                    },
                )
            }
        }),
{
    probe_restores(regs, feature_field(feature_id)->0);
    reveal_with_fuel(FwftCall::served, 7);
}

/// Getting a field leaves all registers as they were, and succeeds exactly if the field can be
/// written.
pub proof fn get_field_served(feature_id: u32, regs: Registers)
    requires
        feature_field(feature_id) is Some,
    ensures
        ({
            let f = feature_field(feature_id)->0;
            FwftCall::getting(feature_id).served(regs) == (
                regs,
                if writable(regs, f) {
                    SbiRet::ok((regs.menvcfg & f.mask) >> f.shift)
                } else {
                    SbiRet::err(SbiError::NotSupported)
                },
            )
        }),
{
    probe_restores(regs, feature_field(feature_id)->0);
    reveal_with_fuel(FwftCall::served, 6);
}

/// A field that could be set reads back as it was set.
proof fn set_field_then_get(feature_id: u32, value: usize, regs: Registers)
    requires
        feature_field(feature_id) is Some,
        FwftCall::setting(feature_id, value, 0).served(regs).1 == SbiRet::ok(0),
    ensures
        ({
            let after = FwftCall::setting(feature_id, value, 0).served(regs).0;
            FwftCall::getting(feature_id).served(after) == (after, SbiRet::ok(value))
        }),
{
    let f = feature_field(feature_id)->0;
    assert(value <= f.max);
    let (m, i, mask) = (regs.menvcfg, regs.implemented, f.mask);
    let bits = value << f.shift;
    let next = with_field(m, f, bits);
    let kept = regs.kept(next);
    let (after, _) = FwftCall::setting(feature_id, value, 0).served(regs);
    field_values(feature_id, value);
    set_field_served(feature_id, value, regs);
    get_field_served(feature_id, after);
    assert(next & mask == bits && (((kept | mask) & i) | (kept & !i)) & mask == (((m | mask) & i)
        | (m & !i)) & mask) by (bit_vector)
        requires
            bits & mask == bits,
            next == (m & !mask) | bits,
            kept == (next & i) | (m & !i),
    ;
}

/// A feature that could be set is supported and reads back as it was set, on every hart and for
/// every value; reading it changes nothing.
pub proof fn set_then_get(feature_id: u32, value: usize, regs: Registers)
    requires
        FwftCall::setting(feature_id, value, 0).served(regs).1 == SbiRet::ok(0),
    ensures
        ({
            let after = FwftCall::setting(feature_id, value, 0).served(regs).0;
            FwftCall::getting(feature_id).served(after) == (after, SbiRet::ok(value))
        }),
{
    if feature_id == MISALIGNED_EXC_DELEG {
        delegation_served(value, regs);
    } else if feature_field(feature_id) is Some {
        set_field_then_get(feature_id, value, regs);
    }
}

/// On a hart that implements all bits of a feature's field, every value up to the greatest can be
/// set.
pub proof fn implemented_field(feature_id: u32, value: usize, regs: Registers)
    requires
        feature_field(feature_id) is Some,
        value <= feature_field(feature_id)->0.max,
        regs.implemented & feature_field(feature_id)->0.mask == feature_field(feature_id)->0.mask,
    ensures
        FwftCall::setting(feature_id, value, 0).served(regs).1 == SbiRet::ok(0),
{
    let f = feature_field(feature_id)->0;
    let (m, i, mask) = (regs.menvcfg, regs.implemented, f.mask);
    let bits = value << f.shift;
    let next = with_field(m, f, bits);
    let kept = regs.kept(next);
    field_values(feature_id, value);
    set_field_served(feature_id, value, regs);
    assert(kept & mask == next & mask && (((m | mask) & i) | (m & !i)) & mask == mask)
        by (bit_vector)
        requires
            i & mask == mask,
            kept == (next & i) | (m & !i),
    ;
}

/// On a hart that does not implement a feature's field, and where it reads as zero, the feature is
/// not supported: neither getting it nor setting it, to whatever value, succeeds or changes
/// anything.
pub proof fn missing_field(feature_id: u32, value: usize, regs: Registers)
    requires
        feature_field(feature_id) is Some,
        value <= feature_field(feature_id)->0.max,
        regs.implemented & feature_field(feature_id)->0.mask == 0,
        regs.menvcfg & feature_field(feature_id)->0.mask == 0,
    ensures
        FwftCall::getting(feature_id).served(regs) == (
            regs,
            SbiRet::err(SbiError::NotSupported),
        ),
        FwftCall::setting(feature_id, value, 0).served(regs) == (
            regs,
            SbiRet::err(SbiError::NotSupported),
        ),
{
    let f = feature_field(feature_id)->0;
    let (m, i, mask) = (regs.menvcfg, regs.implemented, f.mask);
    set_field_served(feature_id, value, regs);
    get_field_served(feature_id, regs);
    assert((((m | mask) & i) | (m & !i)) & mask == 0) by (bit_vector)
        requires
            i & mask == 0,
            m & mask == 0,
    ;
}

/// On a hart with supervisor mode, delegation of misaligned accesses can be set to zero and one and
/// reads back as set; the other delegated exceptions are left alone. Without supervisor mode it is
/// not supported.
pub proof fn delegation_served(value: usize, regs: Registers)
    ensures
        regs.misa & MISA_S_BIT == 0 ==> FwftCall::setting(MISALIGNED_EXC_DELEG, value, 0).served(
            regs,
        ) == (regs, SbiRet::err(SbiError::NotSupported)) && FwftCall::getting(
            MISALIGNED_EXC_DELEG,
        ).served(regs) == (regs, SbiRet::err(SbiError::NotSupported)),
        regs.misa & MISA_S_BIT != 0 && value > 1 ==> FwftCall::setting(
            MISALIGNED_EXC_DELEG,
            value,
            0,
        ).served(regs) == (regs, SbiRet::err(SbiError::InvalidParam)),
        regs.misa & MISA_S_BIT != 0 && value <= 1 ==> {
            let (after, r) = FwftCall::setting(MISALIGNED_EXC_DELEG, value, 0).served(regs);
            &&& r == SbiRet::ok(0)
            &&& after.medeleg & !MIS_DELEG == regs.medeleg & !MIS_DELEG
            &&& FwftCall::getting(MISALIGNED_EXC_DELEG).served(after) == (after, SbiRet::ok(value))
        },
{
    reveal_with_fuel(FwftCall::served, 4);
    let d = regs.medeleg;
    assert((d & !0x50usize) & 0x50 == 0 && (d | 0x50) & 0x50 != 0 && (d & !0x50usize) & !0x50usize
        == d & !0x50usize && (d | 0x50) & !0x50usize == d & !0x50usize) by (bit_vector);
}

/// Which bits of the environment register back a feature: one feature has two bits, four have one,
/// and no bit backs two features.
pub proof fn field_bits(a: u32, b: u32)
    ensures
        feature_field(a) is Some <==> 1 <= a <= 5,
        a == 1 ==> feature_field(a)->0.mask == 0x1 && feature_field(a)->0.shift == 0,
        a == 2 ==> feature_field(a)->0.mask == 0x100 && feature_field(a)->0.shift == 8,
        a == 3 ==> feature_field(a)->0.mask == 0x2 && feature_field(a)->0.shift == 1,
        a == 4 ==> feature_field(a)->0.mask == 0x20 && feature_field(a)->0.shift == 5,
        a == 5 ==> feature_field(a)->0.mask == 0x600 && feature_field(a)->0.shift == 9,
        1 <= a <= 4 ==> feature_field(a)->0.max == 1,
        a == 5 ==> feature_field(a)->0.max == 3,
        1 <= a <= 5 && 1 <= b <= 5 && a != b ==> feature_field(a)->0.mask
            & feature_field(b)->0.mask == 0,
{
    assert(forall|x: usize, y: usize|
        #![trigger (x & y)]
        (x == 0x1 || x == 0x100 || x == 0x2 || x == 0x20 || x == 0x600) && (y == 0x1 || y == 0x100
            || y == 0x2 || y == 0x20 || y == 0x600) && x != y ==> x & y == 0) by (bit_vector);
}

/// Setting a feature, whether or not it succeeds, leaves everything else alone: the registers that
/// it does not live in, and every bit that does not back it.
pub proof fn set_touches_own_bits(feature_id: u32, value: usize, flags: usize, regs: Registers)
    ensures
        ({
            let after = FwftCall::setting(feature_id, value, flags).served(regs).0;
            &&& after.misa == regs.misa
            &&& after.implemented == regs.implemented
            &&& feature_id != 0 ==> after.medeleg == regs.medeleg
            &&& after.medeleg & !0x50usize == regs.medeleg & !0x50usize
            &&& feature_id == 1 ==> after.menvcfg & !0x1usize == regs.menvcfg & !0x1usize
            &&& feature_id == 2 ==> after.menvcfg & !0x100usize == regs.menvcfg & !0x100usize
            &&& feature_id == 3 ==> after.menvcfg & !0x2usize == regs.menvcfg & !0x2usize
            &&& feature_id == 4 ==> after.menvcfg & !0x20usize == regs.menvcfg & !0x20usize
            &&& feature_id == 5 ==> after.menvcfg & !0x600usize == regs.menvcfg & !0x600usize
            &&& feature_id == 0 || feature_id > 5 ==> after.menvcfg == regs.menvcfg
        }),
{
    field_bits(feature_id, feature_id);
    if flags == 0 && 1 <= feature_id <= 5 && value <= feature_field(feature_id)->0.max {
        let f = feature_field(feature_id)->0;
        let (m, i, mask) = (regs.menvcfg, regs.implemented, f.mask);
        let bits = value << f.shift;
        let next = with_field(m, f, bits);
        let kept = regs.kept(next);
        set_field_served(feature_id, value, regs);
        field_values(feature_id, value);
        assert(kept & !mask == m & !mask) by (bit_vector)
            requires
                bits & mask == bits,
                next == (m & !mask) | bits,
                kept == (next & i) | (m & !i),
        ;
    } else {
        let d = regs.medeleg;
        assert((d & !0x50usize) & !0x50usize == d & !0x50usize && (d | 0x50) & !0x50usize == d
            & !0x50usize) by (bit_vector);
        reveal_with_fuel(FwftCall::served, 4);
    }
}

/// Features do not disturb each other: after a feature has been set, or could not be, getting
/// another gives what it gave before.
pub proof fn features_independent(
    feature_id: u32,
    value: usize,
    flags: usize,
    other: u32,
    regs: Registers,
)
    requires
        feature_id != other,
    ensures
        ({
            let after = FwftCall::setting(feature_id, value, flags).served(regs).0;
            FwftCall::getting(other).served(after).1 == FwftCall::getting(other).served(regs).1
        }),
{
    let after = FwftCall::setting(feature_id, value, flags).served(regs).0;
    set_touches_own_bits(feature_id, value, flags, regs);
    field_bits(feature_id, other);
    if 1 <= other <= 5 {
        let g = feature_field(other)->0.mask;
        let (m, n, i) = (regs.menvcfg, after.menvcfg, regs.implemented);
        get_field_served(other, regs);
        get_field_served(other, after);
        if 1 <= feature_id <= 5 {
            let f = feature_field(feature_id)->0.mask;
            assert(n & g == m & g && (((n | g) & i) | (n & !i)) & g == (((m | g) & i) | (m & !i))
                & g) by (bit_vector)
                requires
                    n & !f == m & !f,
                    f & g == 0,
            ;
        }
    } else {
        reveal_with_fuel(FwftCall::served, 3);
    }
}

/// Where a feature's value lies: a feature that has been set, or can be got, has its value in its
/// bits of its register.
pub proof fn value_in_bits(feature_id: u32, value: usize, regs: Registers)
    ensures
        ({
            let (after, r) = FwftCall::setting(feature_id, value, 0).served(regs);
            r == SbiRet::ok(0) ==> holds_value(after, feature_id, value)
        }),
        ({
            let r = FwftCall::getting(feature_id).served(regs).1;
            r.error == 0 ==> holds_value(regs, feature_id, r.value)
        }),
{
    field_bits(feature_id, feature_id);
    if 1 <= feature_id <= 5 {
        let f = feature_field(feature_id)->0;
        let m = regs.menvcfg;
        get_field_served(feature_id, regs);
        assert(forall|x: usize|
            #![trigger (x & 0x1)]
            x & 0x1 == ((x & 0x1) >> 0usize) * 0x1 && x & 0x100 == ((x & 0x100) >> 8usize) * 0x100
                && x & 0x2 == ((x & 0x2) >> 1usize) * 0x2 && x & 0x20 == ((x & 0x20) >> 5usize)
                * 0x20 && x & 0x600 == ((x & 0x600) >> 9usize) * 0x200) by (bit_vector);
        assert(m & 0x1 == ((m & 0x1) >> 0usize) * 0x1);
        let (after, r) = FwftCall::setting(feature_id, value, 0).served(regs);
        if r == SbiRet::ok(0) {
            set_field_then_get(feature_id, value, regs);
            get_field_served(feature_id, after);
            let n = after.menvcfg;
            assert(n & 0x1 == ((n & 0x1) >> 0usize) * 0x1);
        }
    } else if feature_id == 0 {
        delegation_bits(value, regs);
    } else {
        reveal_with_fuel(FwftCall::served, 2);
    }
}

/// A feature has this value: delegation of misaligned accesses is bits four and six of the
/// delegated exceptions, the others are bits of the environment register.
pub open spec fn holds_value(regs: Registers, feature_id: u32, value: usize) -> bool {
    &&& feature_id == 0 ==> value <= 1 && (value == 0 <==> regs.medeleg & 0x50 == 0)
    &&& feature_id == 1 ==> regs.menvcfg & 0x1 == value * 0x1
    &&& feature_id == 2 ==> regs.menvcfg & 0x100 == value * 0x100
    &&& feature_id == 3 ==> regs.menvcfg & 0x2 == value * 0x2
    &&& feature_id == 4 ==> regs.menvcfg & 0x20 == value * 0x20
    &&& feature_id == 5 ==> regs.menvcfg & 0x600 == value * 0x200
}

/// Setting delegation of misaligned accesses sets or clears both of its bits, on a hart whose
/// instruction-set register has bit eighteen; on any other it is not supported.
pub proof fn delegation_bits(value: usize, regs: Registers)
    ensures
        ({
            let (after, r) = FwftCall::setting(0, value, 0).served(regs);
            let got = FwftCall::getting(0).served(regs);
            &&& r == SbiRet::ok(0) <==> regs.misa & 0x4_0000 != 0 && value <= 1
            &&& regs.misa & 0x4_0000 == 0 ==> r == SbiRet::err(SbiError::NotSupported) && got.1
                == SbiRet::err(SbiError::NotSupported)
            &&& regs.misa & 0x4_0000 != 0 && value > 1 ==> r == SbiRet::err(
                SbiError::InvalidParam,
            )
            &&& r == SbiRet::ok(0) && value == 0 ==> after.medeleg & 0x50 == 0
            &&& r == SbiRet::ok(0) && value == 1 ==> after.medeleg & 0x50 == 0x50
            &&& regs.misa & 0x4_0000 != 0 ==> got.1.error == 0 && got.1.value <= 1 && (got.1.value
                == 0 <==> regs.medeleg & 0x50 == 0)
            &&& got.0 == regs
        }),
{
    reveal_with_fuel(FwftCall::served, 4);
    let d = regs.medeleg;
    assert((d & !0x50usize) & 0x50 == 0 && (d | 0x50) & 0x50 == 0x50) by (bit_vector);
}

/// A request that cannot be served changes nothing: no flag is known, a value must fit into the
/// feature's bits, and there are six features.
pub proof fn requests_refused(feature_id: u32, value: usize, flags: usize, regs: Registers)
    ensures
        flags != 0 || 1 <= feature_id <= 4 && value > 1 || feature_id == 5 && value > 3
            ==> FwftCall::setting(feature_id, value, flags).served(regs) == (
            regs,
            SbiRet::err(SbiError::InvalidParam),
        ),
        flags == 0 && feature_id > 5 ==> FwftCall::setting(feature_id, value, flags).served(regs)
            == (regs, SbiRet::err(SbiError::Denied)),
        feature_id > 5 ==> FwftCall::getting(feature_id).served(regs) == (
            regs,
            SbiRet::err(SbiError::Denied),
        ),
{
    field_bits(feature_id, feature_id);
    reveal_with_fuel(FwftCall::served, 2);
}

/// A feature's bits of the environment register show it: one of them is set, or can be.
pub open spec fn shows(regs: Registers, feature_id: u32) -> bool {
    let some = regs.menvcfg | regs.implemented;
    ||| feature_id == 1 && some & 0x1 != 0
    ||| feature_id == 2 && some & 0x100 != 0
    ||| feature_id == 3 && some & 0x2 != 0
    ||| feature_id == 4 && some & 0x20 != 0
    ||| feature_id == 5 && some & 0x600 != 0
}

/// A feature that lives in the environment register can be got exactly if its bits show it. Setting
/// it to a value that fits succeeds exactly if they do and the register holds the value afterwards;
/// it is not supported otherwise, and nothing changes if the bits do not show it. Getting a feature
/// changes nothing in any case.
pub proof fn supported_if_shown(feature_id: u32, value: usize, regs: Registers)
    requires
        1 <= feature_id <= 5,
        value <= 1 || feature_id == 5 && value <= 3,
    ensures
        ({
            let got = FwftCall::getting(feature_id).served(regs);
            let (after, r) = FwftCall::setting(feature_id, value, 0).served(regs);
            &&& got.0 == regs
            &&& got.1.error == 0 <==> shows(regs, feature_id)
            &&& !shows(regs, feature_id) ==> got.1 == SbiRet::err(SbiError::NotSupported) && r
                == SbiRet::err(SbiError::NotSupported) && after == regs
            &&& r == SbiRet::ok(0) <==> shows(regs, feature_id) && holds_value(
                after,
                feature_id,
                value,
            )
            &&& r != SbiRet::ok(0) ==> r == SbiRet::err(SbiError::NotSupported)
        }),
{
    field_bits(feature_id, feature_id);
    let f = feature_field(feature_id)->0;
    let (m, i, mask) = (regs.menvcfg, regs.implemented, f.mask);
    get_field_served(feature_id, regs);
    set_field_served(feature_id, value, regs);
    field_values(feature_id, value);
    value_in_bits(feature_id, value, regs);
    assert((((m | mask) & i) | (m & !i)) & mask != 0 <==> (m | i) & mask != 0) by (bit_vector);
    let bits = value << f.shift;
    let next = with_field(m, f, bits);
    assert(next & mask == bits) by (bit_vector)
        requires
            next == (m & !mask) | bits,
            bits & mask == bits,
    ;
    assert((feature_id == 1 ==> value << 0usize == value) && (feature_id == 2 && value <= 1
        ==> value << 8usize == value * 0x100) && (feature_id == 3 && value <= 1 ==> value << 1usize
        == value * 0x2) && (feature_id == 4 && value <= 1 ==> value << 5usize == value * 0x20) && (
    feature_id == 5 && value <= 3 ==> value << 9usize == value * 0x200)) by (bit_vector);
}

} // verus!
