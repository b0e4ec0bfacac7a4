//! System suspend extension.
use vstd::prelude::*;

use crate::binary::{SbiError, SbiRet};
use crate::sbi::hart_state::{NON_RETENTIVE, STOPPED};
use crate::sbi::hsm::{HsmCell, Mode, NextStage, SbiHsm, SuspendCall};

verus! {

/// The only sleep type: the system's state stays in memory.
pub const SUSPEND_TO_RAM: u32 = 0;

/// What a request to suspend the system leads to.
#[derive(Clone, Copy, PartialEq, Eq, Structural, Debug)]
pub enum SuspendDecision {
    /// Return to the supervisor.
    Return(SbiRet),
    /// Run the platform's own suspend sequence.
    Platform,
    /// Suspend the calling hart, losing its registers.
    Hart(SuspendCall),
}

/// Why a hart, from the `from`-th on, keeps the system from being suspended, if one does: another
/// enabled hart is not stopped, or has no cell. The first such hart decides.
pub open spec fn blocked(
    enabled: Seq<bool>,
    cells: Seq<HsmCell<NextStage>>,
    current: int,
    from: int,
) -> Option<SbiError>
    decreases enabled.len() - from,
{
    if from < 0 || enabled.len() <= from {
        None
    } else if enabled[from] && from != current && cells.len() <= from {
        Some(SbiError::Failed)
    } else if enabled[from] && from != current && cells[from]@.visible() != STOPPED {
        Some(SbiError::Denied)
    } else {
        blocked(enabled, cells, current, from + 1)
    }
}

/// What a request to suspend the system leads to.
pub open spec fn suspend_decision(
    sleep_type: u32,
    resume_addr: usize,
    opaque: usize,
    prev_mode: Mode,
    enabled: Option<Seq<bool>>,
    cells: Seq<HsmCell<NextStage>>,
    current: int,
    is_k3: bool,
    has_hsm: bool,
) -> SuspendDecision {
    if sleep_type != SUSPEND_TO_RAM {
        SuspendDecision::Return(SbiRet::err(SbiError::InvalidParam))
    } else if prev_mode == Mode::Machine {
        SuspendDecision::Return(SbiRet::err(SbiError::Failed))
    } else {
        match enabled {
            None => SuspendDecision::Return(SbiRet::err(SbiError::Failed)),
            Some(table) => match blocked(table, cells, current, 0) {
                Some(e) => SuspendDecision::Return(SbiRet::err(e)),
                None => if is_k3 {
                    SuspendDecision::Platform
                } else if has_hsm {
                    SuspendDecision::Hart(
                        SuspendCall {
                            suspend_type: NON_RETENTIVE,
                            resume_addr,
                            opaque,
                            done: 0,
                        },
                    )
                } else {
                    SuspendDecision::Return(SbiRet::err(SbiError::NotSupported))
                },
            },
        }
    }
}

/// Whether another hart keeps the system from being suspended.
fn check_harts(
    enabled: &[bool],
    cells: &[HsmCell<NextStage>],
    current: usize,
) -> (r: Result<(), SbiRet>)
    ensures
        match blocked(enabled@, cells@, current as int, 0) {
            Some(e) => r == Err::<(), SbiRet>(SbiRet::err(e)),
            None => r is Ok,
        },
{
    let mut hartid: usize = 0;
    while hartid < enabled.len()
        invariant
            hartid <= enabled@.len(),
            blocked(enabled@, cells@, current as int, 0) == blocked(
                enabled@,
                cells@,
                current as int,
                hartid as int,
            ),
        decreases enabled@.len() - hartid,
    {
        if enabled[hartid] && hartid != current {
            if hartid >= cells.len() {
                return Err(SbiRet::failed());
            }
            if cells[hartid].visible_status() != STOPPED {
                return Err(SbiRet::denied());
            }
        }
        hartid += 1;
    }
    Ok(())
}

/// System suspend extension.
pub struct SbiSuspend;

impl SbiSuspend {
    /// Decides what a request to suspend the system leads to. All other enabled harts must be
    /// stopped, and the request must come from supervisor or user mode.
    pub fn system_suspend(
        &self,
        sleep_type: u32,
        resume_addr: usize,
        opaque: usize,
        prev_mode: Mode,
        enabled: Option<&[bool]>,
        cells: &[HsmCell<NextStage>],
        current: usize,
        is_k3: bool,
        hsm: Option<&SbiHsm>,
    ) -> (d: SuspendDecision)
        ensures
            d == suspend_decision(
                sleep_type,
                resume_addr,
                opaque,
                prev_mode,
                match enabled {
                    Some(table) => Some(table@),
                    None => None,
                },
                cells@,
                current as int,
                is_k3,
                hsm is Some,
            ),
    {
        if sleep_type != SUSPEND_TO_RAM {
            return SuspendDecision::Return(SbiRet::invalid_param());
        }
        if prev_mode != Mode::Supervisor && prev_mode != Mode::User {
            return SuspendDecision::Return(SbiRet::failed());
        }
        let table = match enabled {
            Some(table) => table,
            None => return SuspendDecision::Return(SbiRet::failed()),
        };
        match check_harts(table, cells, current) {
            Ok(()) => {},
            Err(r) => return SuspendDecision::Return(r),
        }
        if is_k3 {
            return SuspendDecision::Platform;
        }
        match hsm {
            Some(hsm) => match hsm.hart_suspend(NON_RETENTIVE, resume_addr, opaque) {
                Ok(call) => SuspendDecision::Hart(call),
                Err(r) => SuspendDecision::Return(r),
            },
            None => SuspendDecision::Return(SbiRet::not_supported()),
        }
    }

    /// Goes on with the platform's own sequence: `quiet` tells whether no interrupt was pending.
    /// With one pending the request fails; otherwise it is entered, and this is what is returned
    /// after it.
    pub fn platform_suspend(&self, quiet: bool) -> (r: Result<SbiRet, SbiRet>)
        ensures
            r == if quiet {
                Ok(SbiRet::ok(0))
            } else {
                Err(SbiRet::err(SbiError::Failed))
            },
    {
        if quiet {
            Ok(SbiRet::success(0))
        } else {
            Err(SbiRet::failed())
        }
    }
}

/// The system is suspended only if every other enabled hart is stopped.
pub proof fn suspend_needs_stopped_harts(
    enabled: Seq<bool>,
    cells: Seq<HsmCell<NextStage>>,
    current: int,
    from: int,
)
    requires
        0 <= from,
    ensures
        blocked(enabled, cells, current, from) is None <==> forall|i: int|
            from <= i < enabled.len() && #[trigger] enabled[i] && i != current ==> i < cells.len()
                && cells[i]@.visible() == STOPPED,
    decreases enabled.len() - from,
{
    if from < enabled.len() {
        suspend_needs_stopped_harts(enabled, cells, current, from + 1);
    }
}

/// The system is suspended exactly if suspend-to-memory is asked for from below machine mode and
/// every other enabled hart is stopped: by the platform on a K3, and elsewhere by suspending the
/// calling hart, which resumes where it was told to. Otherwise the supervisor is told why not.
pub proof fn suspend_decided(
    sleep_type: u32,
    resume_addr: usize,
    opaque: usize,
    prev_mode: Mode,
    enabled: Option<Seq<bool>>,
    cells: Seq<HsmCell<NextStage>>,
    current: int,
    is_k3: bool,
    has_hsm: bool,
)
    ensures
        ({
            let d = suspend_decision(
                sleep_type,
                resume_addr,
                opaque,
                prev_mode,
                enabled,
                cells,
                current,
                is_k3,
                has_hsm,
            );
            let asked = sleep_type == 0 && prev_mode != Mode::Machine && enabled is Some;
            let alone = forall|i: int|
                0 <= i < enabled->0.len() && #[trigger] enabled->0[i] && i != current ==> i
                    < cells.len() && cells[i]@.visible() == 1;
            let celled = enabled->0.len() <= cells.len();
            &&& d is Platform <==> asked && alone && is_k3
            &&& d is Hart <==> asked && alone && !is_k3 && has_hsm
            &&& d matches SuspendDecision::Hart(call) ==> call.suspend_type == 0x8000_0000
                && call.resume_addr == resume_addr && call.opaque == opaque && call.done == 0
            &&& d matches SuspendDecision::Return(r) ==> r.error != 0 && r.value == 0
            &&& sleep_type != 0 ==> d == SuspendDecision::Return(
                SbiRet::err(SbiError::InvalidParam),
            )
            &&& sleep_type == 0 && !asked ==> d == SuspendDecision::Return(
                SbiRet::err(SbiError::Failed),
            )
            &&& asked && !alone && celled ==> d == SuspendDecision::Return(
                SbiRet::err(SbiError::Denied),
            )
            &&& asked && alone && !is_k3 && !has_hsm ==> d == SuspendDecision::Return(
                SbiRet::err(SbiError::NotSupported),
            )
        }),
{
    if let Some(table) = enabled {
        suspend_needs_stopped_harts(table, cells, current, 0);
        if table.len() <= cells.len() {
            blocked_by_state(table, cells, current, 0);
        }
    }
}

/// Where every hart has a cell, only a hart that is not stopped keeps the system from being
/// suspended.
proof fn blocked_by_state(
    enabled: Seq<bool>,
    cells: Seq<HsmCell<NextStage>>,
    current: int,
    from: int,
)
    requires
        enabled.len() <= cells.len(),
        0 <= from,
    ensures
        blocked(enabled, cells, current, from) matches Some(e) ==> e == SbiError::Denied,
    decreases enabled.len() - from,
{
    if from < enabled.len() {
        blocked_by_state(enabled, cells, current, from + 1);
    }
}

} // verus!
