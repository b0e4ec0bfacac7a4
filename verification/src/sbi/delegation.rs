//! Set-up of a hart's control registers for the hand-over to the supervisor.
use vstd::prelude::*;

use crate::sbi::features::{
    has_extension, misa_has, Extension, Features, HartFeatures, PrivilegedVersion, MISA_D, MISA_F,
    MISA_V,
};

verus! {

/// Control register that is set up.
#[derive(Clone, Copy, PartialEq, Eq, Structural, Debug)]
pub enum Csr {
    /// Machine status.
    Mstatus,
    /// Delegated interrupts.
    Mideleg,
    /// Delegated exceptions.
    Medeleg,
    /// Counters that the supervisor may read.
    Mcounteren,
    /// Counters that the user may read.
    Scounteren,
    /// Counters that stand still.
    Mcountinhibit,
    /// Configuration of the supervisor's environment.
    Menvcfg,
    /// State that the supervisor may access.
    Mstateen0,
}

/// Access to a control register.
#[derive(Clone, Copy, PartialEq, Eq, Structural, Debug)]
pub enum CsrOp {
    /// Writes a value.
    Write(Csr, u64),
    /// Sets bits.
    SetBits(Csr, u64),
    /// Clears bits.
    ClearBits(Csr, u64),
    /// Points the trap vector at the firmware's trap entry, in direct mode.
    TrapVector,
}

/// Floating-point state in the machine status: dirty.
pub const MSTATUS_FS: u64 = 0x6000;

/// Vector state in the machine status: dirty.
pub const MSTATUS_VS: u64 = 0x600;

/// Supervisor software, timer and external interrupt.
pub const SUPERVISOR_INTERRUPTS: u64 = 0x222;

/// Exception: illegal instruction.
pub const ILLEGAL_INSTRUCTION: u64 = 0x4;

/// Exception: misaligned load.
pub const LOAD_MISALIGNED: u64 = 0x10;

/// Exception: load access fault.
pub const LOAD_FAULT: u64 = 0x20;

/// Exception: misaligned store.
pub const STORE_MISALIGNED: u64 = 0x40;

/// Exception: store access fault.
pub const STORE_FAULT: u64 = 0x80;

/// Exception: call from supervisor mode.
pub const SUPERVISOR_ENV_CALL: u64 = 0x200;

/// Cycle, time and retired-instruction counter.
pub const BASE_COUNTERS: u64 = 0x7;

/// Environment: supervisor timer comparison.
pub const ENVCFG_STCE: u64 = 0x8000_0000_0000_0000;

/// Environment: page-based memory types.
pub const ENVCFG_PBMTE: u64 = 0x4000_0000_0000_0000;

/// Environment: cache-block invalidation, performed as such.
pub const ENVCFG_CBIE_INVALIDATE: u64 = 0x30;

/// Environment: cache-block clean and flush.
pub const ENVCFG_CBCFE: u64 = 0x40;

/// Environment: cache-block zero.
pub const ENVCFG_CBZE: u64 = 0x80;

/// State: the supervisor's own state-enable registers.
pub const STATEEN_STATEN: u64 = 0x8000_0000_0000_0000;

/// State: environment configuration.
pub const STATEEN_HSENVCFG: u64 = 0x4000_0000_0000_0000;

/// State: indirect register access.
pub const STATEEN_SVSLCT: u64 = 0x1000_0000_0000_0000;

/// State: advanced interrupt architecture.
pub const STATEEN_AIA: u64 = 0x0800_0000_0000_0000;

/// State: interrupt files.
pub const STATEEN_IMSIC: u64 = 0x0400_0000_0000_0000;

/// State: context registers.
pub const STATEEN_CONTEXT: u64 = 0x0200_0000_0000_0000;

/// What the set-up of a hart depends on beside its features.
#[derive(Clone, Copy, PartialEq, Eq, Structural, Debug)]
pub struct HartSetup {
    /// Machine status.
    pub mstatus: u64,
    /// Instruction-set register.
    pub misa: u64,
    /// The platform is one whose access faults the firmware services itself.
    pub is_k3: bool,
    /// The advanced interrupt architecture is in use.
    pub aia_active: bool,
    /// The state-enable register is there.
    pub has_mstateen0: bool,
}

impl HartSetup {
    /// The machine status with the floating-point and vector state switched on, as far as the hart
    /// has them.
    pub open spec fn status(self) -> u64 {
        let with_fs = if misa_has(self.misa, MISA_F) || misa_has(self.misa, MISA_D) {
            self.mstatus | MSTATUS_FS
        } else {
            self.mstatus
        };
        if misa_has(self.misa, MISA_V) {
            with_fs | MSTATUS_VS
        } else {
            with_fs
        }
    }

    /// The state that the supervisor may access.
    pub open spec fn stateen0(self, smaia: bool) -> u64 {
        let base = STATEEN_STATEN | STATEEN_CONTEXT | STATEEN_HSENVCFG;
        if self.aia_active && smaia {
            base | (STATEEN_AIA | STATEEN_IMSIC | STATEEN_SVSLCT)
        } else {
            base
        }
    }

    /// The accesses that switch on floating-point and vector state.
    pub open spec fn status_ops(self) -> Seq<CsrOp> {
        if self.status() != self.mstatus {
            seq![CsrOp::Write(Csr::Mstatus, self.status())]
        } else {
            seq![]
        }
    }

    /// The accesses that delegate interrupts and exceptions and open the counters.
    pub open spec fn delegation_ops(self) -> Seq<CsrOp> {
        seq![
            CsrOp::Write(Csr::Mideleg, SUPERVISOR_INTERRUPTS),
            CsrOp::Write(Csr::Medeleg, u64::MAX),
            CsrOp::Write(Csr::Mcounteren, u64::MAX),
            CsrOp::Write(Csr::Scounteren, BASE_COUNTERS),
            CsrOp::ClearBits(Csr::Medeleg, SUPERVISOR_ENV_CALL),
            CsrOp::ClearBits(Csr::Medeleg, LOAD_MISALIGNED),
            CsrOp::ClearBits(Csr::Medeleg, STORE_MISALIGNED),
            CsrOp::ClearBits(Csr::Medeleg, ILLEGAL_INSTRUCTION),
        ]
    }

    /// The accesses that keep access faults with the firmware.
    pub open spec fn fault_ops(self) -> Seq<CsrOp> {
        if self.is_k3 {
            seq![
                CsrOp::ClearBits(Csr::Medeleg, LOAD_FAULT),
                CsrOp::ClearBits(Csr::Medeleg, STORE_FAULT),
            ]
        } else {
            seq![]
        }
    }

    /// The accesses that depend on the version of the architecture.
    pub open spec fn version_ops(self, f: Features) -> Seq<CsrOp> {
        (if f.privileged_version.rank() >= PrivilegedVersion::Version1_11.rank() {
            seq![CsrOp::Write(Csr::Mcountinhibit, (u64::MAX - BASE_COUNTERS) as u64)]
        } else {
            seq![]
        }) + (if f.privileged_version.rank() >= PrivilegedVersion::Version1_12.rank() {
            seq![CsrOp::SetBits(Csr::Menvcfg, environment(f.extensions[Extension::Sstc.place()]))]
        } else {
            seq![]
        }) + (if f.privileged_version.rank() >= PrivilegedVersion::Version1_12.rank()
            && self.has_mstateen0 {
            seq![
                CsrOp::Write(
                    Csr::Mstateen0,
                    self.stateen0(f.extensions[Extension::Smaia.place()]),
                ),
            ]
        } else {
            seq![]
        })
    }

    /// The accesses that set a hart up, in order.
    pub open spec fn ops(self, f: Features) -> Seq<CsrOp> {
        self.status_ops() + self.delegation_ops() + self.fault_ops() + self.version_ops(f)
            + seq![CsrOp::TrapVector]
    }
}

/// The features of the environment that are switched on.
pub open spec fn environment(sstc: bool) -> u64 {
    let base = ENVCFG_PBMTE | ENVCFG_CBIE_INVALIDATE | ENVCFG_CBCFE | ENVCFG_CBZE;
    if sstc {
        ENVCFG_STCE | base
    } else {
        base
    }
}

impl HartSetup {
    /// Adds the accesses that switch on floating-point and vector state.
    fn push_status(&self, ops: &mut Vec<CsrOp>)
        ensures
            final(ops)@ == old(ops)@ + self.status_ops(),
    {
        let mut status: u64 = self.mstatus;
        if has_extension(self.misa, MISA_F) || has_extension(self.misa, MISA_D) {
            status = status | MSTATUS_FS;
        }
        if has_extension(self.misa, MISA_V) {
            status = status | MSTATUS_VS;
        }
        if status != self.mstatus {
            ops.push(CsrOp::Write(Csr::Mstatus, status));
        }
        assert(ops@ =~= old(ops)@ + self.status_ops());
    }

    /// Adds the accesses that delegate interrupts and exceptions and open the counters.
    fn push_delegation(&self, ops: &mut Vec<CsrOp>)
        ensures
            final(ops)@ == old(ops)@ + self.delegation_ops(),
    {
        ops.push(CsrOp::Write(Csr::Mideleg, SUPERVISOR_INTERRUPTS));
        ops.push(CsrOp::Write(Csr::Medeleg, u64::MAX));
        ops.push(CsrOp::Write(Csr::Mcounteren, u64::MAX));
        ops.push(CsrOp::Write(Csr::Scounteren, BASE_COUNTERS));
        ops.push(CsrOp::ClearBits(Csr::Medeleg, SUPERVISOR_ENV_CALL));
        ops.push(CsrOp::ClearBits(Csr::Medeleg, LOAD_MISALIGNED));
        ops.push(CsrOp::ClearBits(Csr::Medeleg, STORE_MISALIGNED));
        ops.push(CsrOp::ClearBits(Csr::Medeleg, ILLEGAL_INSTRUCTION));
        assert(ops@ =~= old(ops)@ + self.delegation_ops());
    }

    /// Adds the accesses that keep access faults with the firmware.
    fn push_faults(&self, ops: &mut Vec<CsrOp>)
        ensures
            final(ops)@ == old(ops)@ + self.fault_ops(),
    {
        if self.is_k3 {
            ops.push(CsrOp::ClearBits(Csr::Medeleg, LOAD_FAULT));
            ops.push(CsrOp::ClearBits(Csr::Medeleg, STORE_FAULT));
        }
        assert(ops@ =~= old(ops)@ + self.fault_ops());
    }

    /// Adds the accesses that depend on the version of the architecture.
    fn push_version(&self, features: &HartFeatures, ops: &mut Vec<CsrOp>)
        ensures
            final(ops)@ == old(ops)@ + self.version_ops(features@),
    {
        let version = features.privileged_version();
        if version.since_1_11() {
            ops.push(CsrOp::Write(Csr::Mcountinhibit, u64::MAX - BASE_COUNTERS));
        }
        if version.since_1_12() {
            let base: u64 = ENVCFG_PBMTE | ENVCFG_CBIE_INVALIDATE | ENVCFG_CBCFE | ENVCFG_CBZE;
            if features.has(Extension::Sstc) {
                ops.push(CsrOp::SetBits(Csr::Menvcfg, ENVCFG_STCE | base));
            } else {
                ops.push(CsrOp::SetBits(Csr::Menvcfg, base));
            }
            if self.has_mstateen0 {
                let mut stateen0: u64 = STATEEN_STATEN | STATEEN_CONTEXT | STATEEN_HSENVCFG;
                if self.aia_active && features.has(Extension::Smaia) {
                    stateen0 = stateen0 | (STATEEN_AIA | STATEEN_IMSIC | STATEEN_SVSLCT);
                }
                ops.push(CsrOp::Write(Csr::Mstateen0, stateen0));
            }
        }
        assert(ops@ =~= old(ops)@ + self.version_ops(features@));
    }
}

/// Says how a hart's delegation and trap registers are set up for the hand-over to the supervisor.
///
/// All interrupts and exceptions of the supervisor are delegated to it, but for its own calls,
/// misaligned accesses and illegal instructions, which the firmware services, and on one platform
/// access faults. What newer versions of the architecture offer is switched on.
pub fn configure_delegation_and_trap(
    setup: &HartSetup,
    features: &HartFeatures,
) -> (ops: Vec<CsrOp>)
    ensures
        ops@ == setup.ops(features@),
{
    let mut ops: Vec<CsrOp> = Vec::new();
    setup.push_status(&mut ops);
    setup.push_delegation(&mut ops);
    setup.push_faults(&mut ops);
    setup.push_version(features, &mut ops);
    ops.push(CsrOp::TrapVector);
    assert(ops@ =~= setup.ops(features@));
    ops
}

/// What a register that held `value` holds after some accesses, if it keeps what is written.
pub open spec fn value_after(csr: Csr, value: u64, ops: Seq<CsrOp>) -> u64
    decreases ops.len(),
{
    if ops.len() == 0 {
        value
    } else {
        let before = value_after(csr, value, ops.drop_last());
        match ops.last() {
            CsrOp::Write(c, v) => if c == csr {
                v
            } else {
                before
            },
            CsrOp::SetBits(c, bits) => if c == csr {
                before | bits
            } else {
                before
            },
            CsrOp::ClearBits(c, bits) => if c == csr {
                before & !bits
            } else {
                before
            },
            CsrOp::TrapVector => before,
        }
    }
}

/// Accesses one after the other.
proof fn value_after_concat(csr: Csr, value: u64, a: Seq<CsrOp>, b: Seq<CsrOp>)
    ensures
        value_after(csr, value, a + b) == value_after(csr, value_after(csr, value, a), b),
    decreases b.len(),
{
    if b.len() == 0 {
        assert(a + b =~= a);
    } else {
        assert((a + b).drop_last() =~= a + b.drop_last());
        value_after_concat(csr, value, a, b.drop_last());
    }
}

/// What a register holds after the set-up, piece by piece.
proof fn value_after_setup(csr: Csr, value: u64, setup: HartSetup, f: Features)
    ensures
        value_after(csr, value, setup.ops(f)) == {
            let v1 = value_after(csr, value, setup.status_ops());
            let v2 = value_after(csr, v1, setup.delegation_ops());
            let v3 = value_after(csr, v2, setup.fault_ops());
            value_after(csr, v3, setup.version_ops(f))
        },
{
    let a = setup.status_ops();
    let b = setup.delegation_ops();
    let c = setup.fault_ops();
    let d = setup.version_ops(f);
    value_after_concat(csr, value, a + b + c + d, seq![CsrOp::TrapVector]);
    value_after_concat(csr, value, a + b + c, d);
    value_after_concat(csr, value, a + b, c);
    value_after_concat(csr, value, a, b);
    reveal_with_fuel(value_after, 2);
}

/// What a register holds after one more access.
spec fn applied(csr: Csr, value: u64, op: CsrOp) -> u64 {
    match op {
        CsrOp::Write(c, v) => if c == csr {
            v
        } else {
            value
        },
        CsrOp::SetBits(c, bits) => if c == csr {
            value | bits
        } else {
            value
        },
        CsrOp::ClearBits(c, bits) => if c == csr {
            value & !bits
        } else {
            value
        },
        CsrOp::TrapVector => value,
    }
}

/// What a register holds after at most one access.
proof fn value_after_one(csr: Csr, value: u64, op: CsrOp)
    ensures
        value_after(csr, value, Seq::empty()) == value,
        value_after(csr, value, seq![op]) == applied(csr, value, op),
{
    reveal_with_fuel(value_after, 2);
    assert(seq![op].drop_last() =~= Seq::empty());
}

/// What a register holds after two accesses.
proof fn value_after_two(csr: Csr, value: u64, a: CsrOp, b: CsrOp)
    ensures
        value_after(csr, value, seq![a, b]) == applied(csr, applied(csr, value, a), b),
{
    value_after_one(csr, value, a);
    value_after_one(csr, applied(csr, value, a), b);
    value_after_concat(csr, value, seq![a], seq![b]);
    assert(seq![a] + seq![b] =~= seq![a, b]);
}

/// What a register holds after the machine status has been set up.
proof fn status_value(csr: Csr, value: u64, setup: HartSetup)
    ensures
        csr != Csr::Mstatus ==> value_after(csr, value, setup.status_ops()) == value,
        value_after(Csr::Mstatus, setup.mstatus, setup.status_ops()) == setup.status(),
{
    let op = CsrOp::Write(Csr::Mstatus, setup.status());
    value_after_one(csr, value, op);
    value_after_one(Csr::Mstatus, setup.mstatus, op);
    assert(setup.status_ops() =~= if setup.status() != setup.mstatus {
        seq![op]
    } else {
        Seq::empty()
    });
}

/// The exceptions that are delegated before access faults are taken back.
spec fn base_exceptions() -> u64 {
    u64::MAX & !SUPERVISOR_ENV_CALL & !LOAD_MISALIGNED & !STORE_MISALIGNED & !ILLEGAL_INSTRUCTION
}

/// What a register holds after interrupts and exceptions have been delegated.
proof fn delegation_value(csr: Csr, value: u64, setup: HartSetup)
    ensures
        value_after(csr, value, setup.delegation_ops()) == match csr {
            Csr::Mideleg => SUPERVISOR_INTERRUPTS,
            Csr::Medeleg => base_exceptions(),
            Csr::Mcounteren => u64::MAX,
            Csr::Scounteren => BASE_COUNTERS,
            _ => value,
        },
{
    let a = CsrOp::Write(Csr::Mideleg, SUPERVISOR_INTERRUPTS);
    let b = CsrOp::Write(Csr::Medeleg, u64::MAX);
    let c = CsrOp::Write(Csr::Mcounteren, u64::MAX);
    let d = CsrOp::Write(Csr::Scounteren, BASE_COUNTERS);
    let e = CsrOp::ClearBits(Csr::Medeleg, SUPERVISOR_ENV_CALL);
    let f = CsrOp::ClearBits(Csr::Medeleg, LOAD_MISALIGNED);
    let g = CsrOp::ClearBits(Csr::Medeleg, STORE_MISALIGNED);
    let h = CsrOp::ClearBits(Csr::Medeleg, ILLEGAL_INSTRUCTION);
    let v1 = applied(csr, applied(csr, value, a), b);
    let v2 = applied(csr, applied(csr, v1, c), d);
    let v3 = applied(csr, applied(csr, v2, e), f);
    value_after_two(csr, value, a, b);
    value_after_two(csr, v1, c, d);
    value_after_two(csr, v2, e, f);
    value_after_two(csr, v3, g, h);
    value_after_concat(csr, value, seq![a, b], seq![c, d]);
    value_after_concat(csr, value, seq![a, b] + seq![c, d], seq![e, f]);
    value_after_concat(csr, value, seq![a, b] + seq![c, d] + seq![e, f], seq![g, h]);
    assert(setup.delegation_ops() =~= seq![a, b] + seq![c, d] + seq![e, f] + seq![g, h]);
}

/// What a register holds after access faults have been taken back.
proof fn fault_value(csr: Csr, value: u64, setup: HartSetup)
    ensures
        value_after(csr, value, setup.fault_ops()) == if csr == Csr::Medeleg && setup.is_k3 {
            value & !LOAD_FAULT & !STORE_FAULT
        } else {
            value
        },
{
    let a = CsrOp::ClearBits(Csr::Medeleg, LOAD_FAULT);
    let b = CsrOp::ClearBits(Csr::Medeleg, STORE_FAULT);
    value_after_two(csr, value, a, b);
    value_after_one(csr, value, a);
    assert(setup.fault_ops() =~= if setup.is_k3 {
        seq![a, b]
    } else {
        Seq::empty()
    });
}

/// What a register holds after what a version of the architecture offers has been set up.
proof fn version_value(csr: Csr, value: u64, setup: HartSetup, f: Features)
    ensures
        value_after(csr, value, setup.version_ops(f)) == if csr == Csr::Mcountinhibit
            && f.privileged_version.rank() >= PrivilegedVersion::Version1_11.rank() {
            (u64::MAX - BASE_COUNTERS) as u64
        } else if csr == Csr::Menvcfg && f.privileged_version.rank()
            >= PrivilegedVersion::Version1_12.rank() {
            value | environment(f.extensions[Extension::Sstc.place()])
        } else if csr == Csr::Mstateen0 && f.privileged_version.rank()
            >= PrivilegedVersion::Version1_12.rank() && setup.has_mstateen0 {
            setup.stateen0(f.extensions[Extension::Smaia.place()])
        } else {
            value
        },
{
    let rank = f.privileged_version.rank();
    let x = CsrOp::Write(Csr::Mcountinhibit, (u64::MAX - BASE_COUNTERS) as u64);
    let y = CsrOp::SetBits(Csr::Menvcfg, environment(f.extensions[Extension::Sstc.place()]));
    let z = CsrOp::Write(Csr::Mstateen0, setup.stateen0(f.extensions[Extension::Smaia.place()]));
    let a = if rank >= PrivilegedVersion::Version1_11.rank() {
        seq![x]
    } else {
        Seq::empty()
    };
    let b = if rank >= PrivilegedVersion::Version1_12.rank() {
        seq![y]
    } else {
        Seq::empty()
    };
    let c = if rank >= PrivilegedVersion::Version1_12.rank() && setup.has_mstateen0 {
        seq![z]
    } else {
        Seq::empty()
    };
    let v1 = value_after(csr, value, a);
    let v2 = value_after(csr, v1, b);
    value_after_one(csr, value, x);
    value_after_one(csr, v1, y);
    value_after_one(csr, v2, z);
    value_after_concat(csr, value, a, b);
    value_after_concat(csr, value, a + b, c);
    assert(setup.version_ops(f) =~= a + b + c);
}

/// After the set-up exactly those exceptions stay with the firmware that it services: supervisor
/// calls, misaligned accesses, illegal instructions and, on one platform, access faults.
pub proof fn exceptions_delegated(setup: HartSetup, f: Features, value: u64, i: u64)
    requires
        i < 64,
    ensures
        (value_after(Csr::Medeleg, value, setup.ops(f)) >> i) & 1 == if i == 2 || i == 4 || i == 6
            || i == 9 || setup.is_k3 && (i == 5 || i == 7) {
            0
        } else {
            1u64
        },
{
    value_after_setup(Csr::Medeleg, value, setup, f);
    status_value(Csr::Medeleg, value, setup);
    delegation_value(Csr::Medeleg, value, setup);
    fault_value(Csr::Medeleg, base_exceptions(), setup);
    let all = 0xffff_ffff_ffff_ffffu64 & !0x200u64 & !0x10u64 & !0x40u64 & !0x4u64;
    let v3 = value_after(Csr::Medeleg, base_exceptions(), setup.fault_ops());
    version_value(Csr::Medeleg, v3, setup, f);
    let k3 = setup.is_k3;
    assert((v3 >> i) & 1 == if i == 2 || i == 4 || i == 6 || i == 9 || k3 && (i == 5 || i == 7) {
        0
    } else {
        1u64
    }) by (bit_vector)
        requires
            i < 64,
            all == 0xffff_ffff_ffff_ffffu64 & !0x200u64 & !0x10u64 & !0x40u64 & !0x4u64,
            v3 == if k3 {
                all & !0x20u64 & !0x80u64
            } else {
                all
            },
    ;
}

/// What a register other than that of delegated exceptions holds after the set-up, by the piece of
/// the set-up that it belongs to.
proof fn register_value(csr: Csr, value: u64, setup: HartSetup, f: Features)
    requires
        csr != Csr::Medeleg,
        csr == Csr::Mstatus ==> value == setup.mstatus,
    ensures
        value_after(csr, value, setup.ops(f)) == match csr {
            Csr::Mstatus => setup.status(),
            Csr::Mideleg | Csr::Mcounteren | Csr::Scounteren => value_after(
                csr,
                value,
                setup.delegation_ops(),
            ),
            _ => value_after(csr, value, setup.version_ops(f)),
        },
        csr == Csr::Mideleg ==> value_after(csr, value, setup.ops(f)) == SUPERVISOR_INTERRUPTS,
        csr == Csr::Mcounteren ==> value_after(csr, value, setup.ops(f)) == u64::MAX,
        csr == Csr::Scounteren ==> value_after(csr, value, setup.ops(f)) == BASE_COUNTERS,
{
    value_after_setup(csr, value, setup, f);
    status_value(csr, value, setup);
    let v1 = value_after(csr, value, setup.status_ops());
    delegation_value(csr, v1, setup);
    delegation_value(csr, value, setup);
    let v2 = value_after(csr, v1, setup.delegation_ops());
    fault_value(csr, v2, setup);
    version_value(csr, v2, setup, f);
}

/// What the other registers hold after the set-up, whatever they held before: those that a version
/// of the architecture does not have are left alone.
pub proof fn registers_set_up(setup: HartSetup, f: Features, value: u64)
    ensures
        value_after(Csr::Mstatus, setup.mstatus, setup.ops(f)) == setup.status(),
        value_after(Csr::Mideleg, value, setup.ops(f)) == SUPERVISOR_INTERRUPTS,
        value_after(Csr::Mcounteren, value, setup.ops(f)) == u64::MAX,
        value_after(Csr::Scounteren, value, setup.ops(f)) == BASE_COUNTERS,
        value_after(Csr::Mcountinhibit, value, setup.ops(f)) == if f.privileged_version.rank()
            >= PrivilegedVersion::Version1_11.rank() {
            (u64::MAX - BASE_COUNTERS) as u64
        } else {
            value
        },
        value_after(Csr::Menvcfg, value, setup.ops(f)) == if f.privileged_version.rank()
            >= PrivilegedVersion::Version1_12.rank() {
            value | environment(f.extensions[Extension::Sstc.place()])
        } else {
            value
        },
        value_after(Csr::Mstateen0, value, setup.ops(f)) == if f.privileged_version.rank()
            >= PrivilegedVersion::Version1_12.rank() && setup.has_mstateen0 {
            setup.stateen0(f.extensions[Extension::Smaia.place()])
        } else {
            value
        },
{
    register_value(Csr::Mstatus, setup.mstatus, setup, f);
    register_value(Csr::Mideleg, value, setup, f);
    register_value(Csr::Mcounteren, value, setup, f);
    register_value(Csr::Scounteren, value, setup, f);
    register_value(Csr::Mcountinhibit, value, setup, f);
    register_value(Csr::Menvcfg, value, setup, f);
    register_value(Csr::Mstateen0, value, setup, f);
    version_value(Csr::Mcountinhibit, value, setup, f);
    version_value(Csr::Menvcfg, value, setup, f);
    version_value(Csr::Mstateen0, value, setup, f);
}

/// What one more access does to a bit of a register: a write replaces it, setting and clearing
/// change only the bits named, and an access to another register or to the trap vector changes
/// nothing.
pub proof fn access_effect(csr: Csr, value: u64, ops: Seq<CsrOp>, op: CsrOp, i: u64)
    requires
        i < 64,
    ensures
        ({
            let before = value_after(csr, value, ops);
            let after = value_after(csr, value, ops.push(op));
            &&& op matches CsrOp::Write(c, v) ==> after == if c == csr {
                v
            } else {
                before
            }
            &&& op matches CsrOp::SetBits(c, bits) ==> (after >> i) & 1 == if c == csr && (bits
                >> i) & 1 == 1 {
                1
            } else {
                (before >> i) & 1
            }
            &&& op matches CsrOp::ClearBits(c, bits) ==> (after >> i) & 1 == if c == csr && (bits
                >> i) & 1 == 1 {
                0
            } else {
                (before >> i) & 1
            }
            &&& op is TrapVector ==> after == before
        }),
{
    assert(ops.push(op).drop_last() =~= ops);
    let v = value_after(csr, value, ops);
    let bits = match op {
        CsrOp::SetBits(_, b) => b,
        CsrOp::ClearBits(_, b) => b,
        _ => 0,
    };
    assert((((v | bits) >> i) & 1 == if (bits >> i) & 1 == 1 {
        1
    } else {
        (v >> i) & 1
    }) && (((v & !bits) >> i) & 1 == if (bits >> i) & 1 == 1 {
        0
    } else {
        (v >> i) & 1
    })) by (bit_vector)
        requires
            i < 64,
    ;
}

/// The machine status after the set-up, bit by bit: the floating-point state is dirty if the
/// instruction-set register shows single or double precision, the vector state if it shows vectors,
/// and every other bit is as it was.
pub proof fn status_bits(setup: HartSetup, f: Features, i: u64)
    requires
        i < 64,
    ensures
        ({
            let after = value_after(Csr::Mstatus, setup.mstatus, setup.ops(f));
            let float = (setup.misa >> 5) & 1 == 1 || (setup.misa >> 3) & 1 == 1;
            let vector = (setup.misa >> 21) & 1 == 1;
            (after >> i) & 1 == if float && (i == 13 || i == 14) || vector && (i == 9 || i == 10) {
                1
            } else {
                (setup.mstatus >> i) & 1
            }
        }),
{
    registers_set_up(setup, f, 0);
    let m = setup.mstatus;
    assert(((m | 0x6000) >> i) & 1 == (if i == 13 || i == 14 {
        1
    } else {
        (m >> i) & 1
    }) && ((m | 0x600) >> i) & 1 == (if i == 9 || i == 10 {
        1
    } else {
        (m >> i) & 1
    }) && (((m | 0x6000) | 0x600) >> i) & 1 == (if i == 13 || i == 14 || i == 9 || i == 10 {
        1
    } else {
        (m >> i) & 1
    })) by (bit_vector)
        requires
            i < 64,
    ;
}

/// The interrupts delegated and the counters opened after the set-up, bit by bit: the supervisor
/// gets its software, timer and external interrupt and may read every counter, the user may read
/// the first three, and since version 1.11 all others stand still.
pub proof fn delegated_bits(setup: HartSetup, f: Features, value: u64, i: u64)
    requires
        i < 64,
    ensures
        (value_after(Csr::Mideleg, value, setup.ops(f)) >> i) & 1 == if i == 1 || i == 5 || i == 9 {
            1
        } else {
            0u64
        },
        (value_after(Csr::Mcounteren, value, setup.ops(f)) >> i) & 1 == 1,
        (value_after(Csr::Scounteren, value, setup.ops(f)) >> i) & 1 == if i < 3 {
            1
        } else {
            0u64
        },
        f.privileged_version == PrivilegedVersion::Version1_11 || f.privileged_version
            == PrivilegedVersion::Version1_12 ==> (value_after(
            Csr::Mcountinhibit,
            value,
            setup.ops(f),
        ) >> i) & 1 == if i < 3 {
            0
        } else {
            1u64
        },
        f.privileged_version == PrivilegedVersion::Version1_10 || f.privileged_version
            == PrivilegedVersion::Unknown ==> value_after(Csr::Mcountinhibit, value, setup.ops(f))
            == value,
{
    registers_set_up(setup, f, value);
    assert((0x222u64 >> i) & 1 == (if i == 1 || i == 5 || i == 9 {
        1u64
    } else {
        0
    }) && (0xffff_ffff_ffff_ffffu64 >> i) & 1 == 1 && (7u64 >> i) & 1 == (if i < 3 {
        1u64
    } else {
        0
    }) && (0xffff_ffff_ffff_fff8u64 >> i) & 1 == (if i < 3 {
        0u64
    } else {
        1
    })) by (bit_vector)
        requires
            i < 64,
    ;
}

/// The supervisor's environment after the set-up, bit by bit. Since version 1.12 page-based memory
/// types and the cache-block operations are switched on, and the supervisor's timer comparison
/// where the hart has it; every other bit is as it was.
pub proof fn environment_bits(setup: HartSetup, f: Features, value: u64, i: u64)
    requires
        i < 64,
    ensures
        ({
            let after = value_after(Csr::Menvcfg, value, setup.ops(f));
            (after >> i) & 1 == if f.privileged_version == PrivilegedVersion::Version1_12 && (4 <= i
                <= 7 || i == 62 || i == 63 && f.extensions[0]) {
                1
            } else {
                (value >> i) & 1
            }
        }),
{
    registers_set_up(setup, f, value);
    let base = ENVCFG_PBMTE | ENVCFG_CBIE_INVALIDATE | ENVCFG_CBCFE | ENVCFG_CBZE;
    assert(((value | base) >> i) & 1 == (if 4 <= i <= 7 || i == 62 {
        1
    } else {
        (value >> i) & 1
    }) && ((value | (0x8000_0000_0000_0000 | base)) >> i) & 1 == (if 4 <= i <= 7 || i == 62 || i
        == 63 {
        1
    } else {
        (value >> i) & 1
    })) by (bit_vector)
        requires
            i < 64,
            base == 0x4000_0000_0000_0000u64 | 0x30 | 0x40 | 0x80,
    ;
}

/// The state that the supervisor may access after the set-up, bit by bit, since version 1.12 on a
/// hart with the register: its own state-enable registers, its environment and its context, and
/// with the advanced interrupt architecture that of its interrupts. The register is left alone
/// otherwise.
pub proof fn state_bits(setup: HartSetup, f: Features, value: u64, i: u64)
    requires
        i < 64,
    ensures
        ({
            let after = value_after(Csr::Mstateen0, value, setup.ops(f));
            let there = f.privileged_version == PrivilegedVersion::Version1_12
                && setup.has_mstateen0;
            &&& there ==> (after >> i) & 1 == if i == 57 || i == 62 || i == 63 || setup.aia_active
                && f.extensions[2] && 58 <= i <= 60 {
                1
            } else {
                0u64
            }
            &&& !there ==> after == value
        }),
{
    registers_set_up(setup, f, value);
    let base = STATEEN_STATEN | STATEEN_CONTEXT | STATEEN_HSENVCFG;
    let aia = STATEEN_AIA | STATEEN_IMSIC | STATEEN_SVSLCT;
    assert((base >> i) & 1 == (if i == 57 || i == 62 || i == 63 {
        1u64
    } else {
        0
    }) && ((base | aia) >> i) & 1 == (if i == 57 || i == 62 || i == 63 || 58 <= i <= 60 {
        1u64
    } else {
        0
    })) by (bit_vector)
        requires
            i < 64,
            base == 0x8000_0000_0000_0000u64 | 0x0200_0000_0000_0000 | 0x4000_0000_0000_0000,
            aia == 0x0800_0000_0000_0000u64 | 0x0400_0000_0000_0000 | 0x1000_0000_0000_0000,
    ;
}

/// The trap vector is set once, and last: until then traps go where they went.
pub proof fn trap_vector_last(setup: HartSetup, f: Features, i: int)
    requires
        0 <= i < setup.ops(f).len(),
    ensures
        setup.ops(f)[i] is TrapVector <==> i == setup.ops(f).len() - 1,
{
}

} // verus!
