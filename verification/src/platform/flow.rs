//! Course of a hart through the firmware.
use vstd::prelude::*;

use crate::sbi::hart_state::STOPPED;
use crate::sbi::hsm::{
    harts, init_secondary_hsm_cells, Hart, HsmCell, Mode, NextStage, StartPoll,
};

verus! {

/// What a hart does in the firmware.
#[derive(Clone, Copy, PartialEq, Eq, Structural, Debug)]
pub enum Role {
    /// It initializes the board.
    Boot,
    /// It joins once the board is initialized.
    Secondary,
}

/// A step of a hart's course.
#[derive(Clone, Copy, PartialEq, Eq, Structural, Debug)]
pub enum FlowStep {
    /// Set the heap up.
    InitHeap,
    /// Initialize the board.
    InitBoard,
    /// Take a pending start out of the hart's cell.
    TakePending,
    /// Detect the hart's features.
    DetectFeatures,
    /// Set the trap stack and the hart's cell up anew.
    PrepareForTrap,
    /// Put a pending start back.
    RestorePending,
    /// Run the per-hart set-up of the system on chip.
    SocInit,
    /// Wait for the board to be initialized.
    WaitUntilReady,
    /// Protect the firmware's memory.
    SetPmp,
    /// Check that the hart supports the mode of its next stage.
    CheckPrivilege(Mode),
    /// Publish the table of enabled harts.
    RefreshCpus,
    /// Hand the device tree to the next stage, and the next stage to the hart's cell.
    StartNext,
    /// Set the cells of the other harts up.
    InitSecondaryCells,
    /// Clear interrupts from other harts.
    ClearIpis,
    /// Set the hart's interrupt files up.
    InitAia,
    /// Set delegation and traps up.
    ConfigureDelegation,
}

/// The role of a hart. One that was woken by a start request enters without the boot information
/// by which the boot hart is told, so that the pending start decides.
pub open spec fn role_of(is_boot_hart: bool, woken: bool) -> Role {
    if is_boot_hart && !woken {
        Role::Boot
    } else {
        Role::Secondary
    }
}

/// The role of a hart.
pub fn elect(is_boot_hart: bool, woken: bool) -> (r: Role)
    ensures
        r == role_of(is_boot_hart, woken),
{
    if is_boot_hart && !woken {
        Role::Boot
    } else {
        Role::Secondary
    }
}

/// The steps that open the firmware's services to the supervisor.
pub open spec fn service_steps() -> Seq<FlowStep> {
    seq![FlowStep::ClearIpis, FlowStep::InitAia, FlowStep::ConfigureDelegation]
}

/// The course of the boot hart, whose next stage runs in `mode`.
pub open spec fn boot_steps(mode: Mode) -> Seq<FlowStep> {
    seq![
        FlowStep::InitHeap,
        FlowStep::InitBoard,
        FlowStep::SetPmp,
        FlowStep::DetectFeatures,
        FlowStep::PrepareForTrap,
        FlowStep::CheckPrivilege(mode),
        FlowStep::RefreshCpus,
        FlowStep::StartNext,
        FlowStep::InitSecondaryCells,
    ] + service_steps()
}

/// The course of a secondary hart. One that was woken enters supervisor mode; any other enters the
/// mode that its boot information says.
pub open spec fn secondary_steps(woken: bool, mode: Mode) -> Seq<FlowStep> {
    seq![FlowStep::TakePending, FlowStep::DetectFeatures, FlowStep::PrepareForTrap] + (if woken {
        seq![FlowStep::RestorePending]
    } else {
        seq![]
    }) + seq![
        FlowStep::SocInit,
        FlowStep::WaitUntilReady,
        FlowStep::SocInit,
        FlowStep::SetPmp,
        FlowStep::CheckPrivilege(
            if woken {
                Mode::Supervisor
            } else {
                mode
            },
        ),
        FlowStep::RefreshCpus,
    ] + service_steps()
}

/// Appends the steps that open the firmware's services to the supervisor.
fn enable_supervisor_services(steps: &mut Vec<FlowStep>)
    ensures
        final(steps)@ == old(steps)@ + service_steps(),
{
    steps.push(FlowStep::ClearIpis);
    steps.push(FlowStep::InitAia);
    steps.push(FlowStep::ConfigureDelegation);
    assert(steps@ =~= old(steps)@ + service_steps());
}

/// Says what the boot hart does.
pub fn boot_hart(mode: Mode) -> (steps: Vec<FlowStep>)
    ensures
        steps@ == boot_steps(mode),
{
    let mut steps: Vec<FlowStep> = Vec::new();
    steps.push(FlowStep::InitHeap);
    steps.push(FlowStep::InitBoard);
    steps.push(FlowStep::SetPmp);
    steps.push(FlowStep::DetectFeatures);
    steps.push(FlowStep::PrepareForTrap);
    steps.push(FlowStep::CheckPrivilege(mode));
    steps.push(FlowStep::RefreshCpus);
    steps.push(FlowStep::StartNext);
    steps.push(FlowStep::InitSecondaryCells);
    enable_supervisor_services(&mut steps);
    assert(steps@ =~= boot_steps(mode));
    steps
}

/// Says what a secondary hart does.
pub fn secondary_hart(woken: bool, mode: Mode) -> (steps: Vec<FlowStep>)
    ensures
        steps@ == secondary_steps(woken, mode),
{
    let mut steps: Vec<FlowStep> = Vec::new();
    steps.push(FlowStep::TakePending);
    steps.push(FlowStep::DetectFeatures);
    steps.push(FlowStep::PrepareForTrap);
    if woken {
        steps.push(FlowStep::RestorePending);
    }
    steps.push(FlowStep::SocInit);
    steps.push(FlowStep::WaitUntilReady);
    steps.push(FlowStep::SocInit);
    steps.push(FlowStep::SetPmp);
    let checked = if woken {
        Mode::Supervisor
    } else {
        mode
    };
    steps.push(FlowStep::CheckPrivilege(checked));
    steps.push(FlowStep::RefreshCpus);
    enable_supervisor_services(&mut steps);
    assert(steps@ =~= secondary_steps(woken, mode));
    steps
}

/// The boot hart's next stage, with the device tree that it gets.
pub open spec fn boot_stage_of(
    next: NextStage,
    passthrough: bool,
    fdt: usize,
    patched: usize,
) -> NextStage {
    NextStage {
        opaque: if passthrough {
            fdt
        } else {
            patched
        },
        ..next
    }
}

/// Whether the boot hart's next stage was started, and the cells afterwards.
pub open spec fn boot_started(
    before: Seq<Hart<NextStage>>,
    hart: usize,
    next: NextStage,
) -> (bool, Seq<Hart<NextStage>>) {
    let own = before[hart as int].handed(STOPPED, next);
    (
        own.0,
        Seq::new(
            before.len(),
            |i: int|
                if i == hart {
                    own.1
                } else {
                    Hart::stopped()
                },
        ),
    )
}

/// The boot hart's next stage, with the device tree that it gets: the one the firmware was given,
/// or a copy that the firmware has adapted.
pub fn boot_stage(next: NextStage, passthrough: bool, fdt: usize, patched: usize) -> (s: NextStage)
    ensures
        s == boot_stage_of(next, passthrough, fdt, patched),
{
    let opaque: usize = if passthrough {
        fdt
    } else {
        patched
    };
    NextStage { start_addr: next.start_addr, opaque, next_mode: next.next_mode }
}

/// Starts the boot hart's next stage and sets the cells of the other harts up.
pub fn start_boot_stage(
    hart: usize,
    next: NextStage,
    cells: &mut Vec<HsmCell<NextStage>>,
) -> (started:
    bool)
    requires
        hart < old(cells)@.len(),
    ensures
        (started, harts(final(cells)@)) == boot_started(harts(old(cells)@), hart, next),
{
    let started = cells[hart].remote().start(next);
    let ghost own = harts(old(cells)@)[hart as int].handed(STOPPED, next).1;
    assert(harts(cells@) =~= harts(old(cells)@).update(hart as int, own));
    init_secondary_hsm_cells(hart, cells);
    assert(harts(cells@) =~= boot_started(harts(old(cells)@), hart, next).1);
    started
}

/// A woken hart's pending start is taken before its cell is set up anew and put back right after,
/// and a secondary hart's caches are set up before it waits for the boot hart.
pub proof fn secondary_order(mode: Mode)
    ensures
        secondary_steps(true, mode)[0] == FlowStep::TakePending,
        secondary_steps(true, mode)[2] == FlowStep::PrepareForTrap,
        secondary_steps(true, mode)[3] == FlowStep::RestorePending,
        secondary_steps(true, mode)[4] == FlowStep::SocInit,
        secondary_steps(true, mode)[5] == FlowStep::WaitUntilReady,
        secondary_steps(false, mode)[3] == FlowStep::SocInit,
        secondary_steps(false, mode)[4] == FlowStep::WaitUntilReady,
        !secondary_steps(false, mode).contains(FlowStep::RestorePending),
{
}

/// Every hart opens its services last, after its mode has been checked and the table of enabled
/// harts has been published.
pub proof fn services_last(woken: bool, mode: Mode)
    ensures
        ({
            let b = boot_steps(mode);
            let s = secondary_steps(woken, mode);
            &&& b.skip(b.len() - 3) == service_steps()
            &&& s.skip(s.len() - 3) == service_steps()
            &&& s[s.len() - 4] == FlowStep::RefreshCpus
            &&& s[s.len() - 5] is CheckPrivilege
        }),
{
    let b = boot_steps(mode);
    let s = secondary_steps(woken, mode);
    assert(b.skip(b.len() - 3) =~= service_steps());
    assert(s.skip(s.len() - 3) =~= service_steps());
}

/// A hart initializes the board exactly if it is the boot hart and was not woken by a start
/// request.
pub proof fn boot_elected(is_boot_hart: bool, woken: bool)
    ensures
        role_of(is_boot_hart, woken) is Boot <==> is_boot_hart && !woken,
{
}

/// The order of the boot hart's steps: there is a heap before anything is initialized and a board
/// before its memory is protected, the features of the hart are known before it is set up for
/// traps, its mode is checked before the table of enabled harts is published, and it hands its own
/// next stage over before it sets up the cells of the others.
pub proof fn boot_order(mode: Mode)
    ensures
        ({
            let b = boot_steps(mode);
            &&& b.len() == 12
            &&& b[0] is InitHeap
            &&& b[1] is InitBoard
            &&& b[2] is SetPmp
            &&& b[3] is DetectFeatures
            &&& b[4] is PrepareForTrap
            &&& b[5] == FlowStep::CheckPrivilege(mode)
            &&& b[6] is RefreshCpus
            &&& b[7] is StartNext
            &&& b[8] is InitSecondaryCells
            &&& b[9] is ClearIpis
            &&& b[10] is InitAia
            &&& b[11] is ConfigureDelegation
        }),
{
}

/// What a secondary hart checks and waits for: it looks for the mode of its next stage, which is
/// supervisor mode for one that was woken, protects memory only once the board is there, and runs
/// the set-up of the system on chip before it waits and again after.
pub proof fn secondary_checks(woken: bool, mode: Mode)
    ensures
        ({
            let s = secondary_steps(woken, mode);
            let k = if woken {
                4int
            } else {
                3
            };
            &&& s.len() == k + 9
            &&& s[0] is TakePending
            &&& s[1] is DetectFeatures
            &&& s[2] is PrepareForTrap
            &&& woken ==> s[3] is RestorePending
            &&& s[k] is SocInit
            &&& s[k + 1] is WaitUntilReady
            &&& s[k + 2] is SocInit
            &&& s[k + 3] is SetPmp
            &&& s[k + 4] == FlowStep::CheckPrivilege(
                if woken {
                    Mode::Supervisor
                } else {
                    mode
                },
            )
            &&& s[k + 5] is RefreshCpus
            &&& s[k + 6] is ClearIpis
            &&& s[k + 7] is InitAia
            &&& s[k + 8] is ConfigureDelegation
        }),
{
}

/// The boot hart's next stage starts where it was to start and in the mode it was to start in; only
/// the device tree that it is handed depends on whether the firmware adapts it.
pub proof fn boot_stage_kept(next: NextStage, passthrough: bool, fdt: usize, patched: usize)
    ensures
        ({
            let s = boot_stage_of(next, passthrough, fdt, patched);
            &&& s.start_addr == next.start_addr
            &&& s.next_mode == next.next_mode
            &&& passthrough ==> s.opaque == fdt
            &&& !passthrough ==> s.opaque == patched
        }),
{
}

/// A boot hart whose cell is stopped finds its next stage there when it looks for it, and all other
/// harts are stopped and can be started.
pub proof fn boot_hart_started(before: Seq<Hart<NextStage>>, hart: usize, next: NextStage, i: int)
    requires
        hart < before.len(),
        0 <= i < before.len(),
    ensures
        ({
            let (started, after) = boot_started(before, hart, next);
            &&& started <==> before[hart as int].status == 1
            &&& started ==> after[hart as int].polled().0 == StartPoll::Started(next)
            &&& !started ==> after[hart as int] == before[hart as int]
            &&& after.len() == before.len()
            &&& i != hart ==> after[i].status == 1 && after[i].inner is None
        }),
{
}

} // verus!
