use prototyper::binary::SbiRet;
use prototyper::platform::flow::{boot_hart, boot_stage, elect, secondary_hart, start_boot_stage, FlowStep, Role};
use prototyper::sbi::hart_state;
use prototyper::sbi::hsm::{
    hart_enabled, init_secondary_hsm_cells, HsmAction, HsmCell, Mode, NextStage, SbiHsm, StartPoll, Wake,
};
use prototyper::sbi::suspend::{SbiSuspend, SuspendDecision};
use sbi_spec::binary::SbiRet as SpecRet;

fn same(r: SbiRet, expected: SpecRet<usize>) {
    assert_eq!(r.error, expected.error);
    assert_eq!(r.value, expected.value);
}

fn cells(n: usize) -> Vec<HsmCell<NextStage>> {
    (0..n).map(|_| HsmCell::new()).collect()
}

fn stage(start_addr: usize) -> NextStage {
    NextStage { start_addr, opaque: 7, next_mode: Mode::Supervisor }
}

#[test]
fn states_are_those_of_the_interface() {
    assert_eq!(hart_state::STARTED, sbi_spec::hsm::hart_state::STARTED);
    assert_eq!(hart_state::STOPPED, sbi_spec::hsm::hart_state::STOPPED);
    assert_eq!(hart_state::START_PENDING, sbi_spec::hsm::hart_state::START_PENDING);
    assert_eq!(hart_state::STOP_PENDING, sbi_spec::hsm::hart_state::STOP_PENDING);
    assert_eq!(hart_state::SUSPENDED, sbi_spec::hsm::hart_state::SUSPENDED);
    assert_eq!(hart_state::RETENTIVE, sbi_spec::hsm::suspend_type::RETENTIVE);
    assert_eq!(hart_state::NON_RETENTIVE, sbi_spec::hsm::suspend_type::NON_RETENTIVE);
}

#[test]
fn started_hart_gets_its_data_once() {
    let mut c: HsmCell<u32> = HsmCell::new();
    assert_eq!(c.local().start(), Err(hart_state::STOPPED));
    assert!(!c.local().has_pending());
    assert!(c.remote().start(5));
    assert!(c.local().has_pending());
    assert!(!c.remote().start(6));
    assert!(!c.remote().resume(6));
    assert_eq!(c.remote().get_status(), hart_state::START_PENDING);
    assert_eq!(c.local().start(), Ok(5));
    assert_eq!(c.remote().get_status(), hart_state::STARTED);
    assert_eq!(c.local().start(), Err(hart_state::STARTED));
}

#[test]
fn claimed_cell_keeps_others_out() {
    let mut c: HsmCell<u32> = HsmCell::new();
    assert!(c.remote().claim(hart_state::STOPPED));
    assert!(!c.remote().claim(hart_state::STOPPED));
    assert_eq!(c.remote().raw_status(), usize::MAX);
    assert_eq!(c.remote().get_status(), hart_state::START_PENDING);
    assert!(matches!(c.local().poll_start(), StartPoll::Wait));
    c.remote().publish(8);
    assert!(matches!(c.local().poll_start(), StartPoll::Started(8)));
    assert!(matches!(c.local().poll_start(), StartPoll::NotPending(hart_state::STARTED)));
}

#[test]
fn pending_start_survives_a_new_cell() {
    let mut c: HsmCell<u32> = HsmCell::new();
    assert_eq!(c.local().take_pending(), None);
    c.remote().start(9);
    let pending = c.local().take_pending();
    assert_eq!(pending, Some(9));
    assert_eq!(c.remote().raw_status(), hart_state::STOPPED);
    let mut fresh: HsmCell<u32> = HsmCell::new();
    fresh.local().restore_pending(pending.unwrap());
    assert_eq!(fresh.local().start(), Ok(9));
}

#[test]
fn suspended_hart_can_be_resumed() {
    let mut c: HsmCell<u32> = HsmCell::new();
    assert!(!c.remote().allow_ipi());
    c.local().resume();
    assert!(c.remote().allow_ipi());
    assert!(!c.remote().resume(1));
    c.local().suspend();
    assert!(c.remote().allow_ipi());
    assert!(!c.remote().start(1));
    assert!(c.remote().resume(1));
    assert!(!c.remote().allow_ipi());
    assert_eq!(c.local().start(), Ok(1));
    c.local().stop();
    assert_eq!(c.visible_status(), hart_state::STOPPED);
}

#[test]
fn hart_is_started() {
    let mut c = cells(3);
    let enabled = [true, true, false, true];
    let r = SbiHsm.hart_start(1, 0x8020_0000, 7, &enabled, false, &mut c);
    same(r.ret, SpecRet::success(0));
    assert_eq!(r.wake, Some(Wake::Msip(1)));
    let r = SbiHsm.hart_start(1, 0, 0, &enabled, false, &mut c);
    same(r.ret, SpecRet::already_available());
    assert_eq!(r.wake, None);
    assert_eq!(c[1].local().start(), Ok(stage(0x8020_0000)));
    let r = SbiHsm.hart_start(0, 1, 2, &enabled, true, &mut c);
    assert_eq!(r.wake, Some(Wake::Pmu(0)));
    // Disabled, not in the table, without a cell.
    same(SbiHsm.hart_start(2, 0, 0, &enabled, false, &mut c).ret, SpecRet::invalid_param());
    same(SbiHsm.hart_start(9, 0, 0, &enabled, false, &mut c).ret, SpecRet::invalid_param());
    same(SbiHsm.hart_start(3, 0, 0, &enabled, false, &mut c).ret, SpecRet::invalid_param());
    assert!(hart_enabled(&enabled, 3));
    assert!(!hart_enabled(&enabled, 4));
}

#[test]
fn status_of_a_hart() {
    let mut c = cells(2);
    let enabled = [true, true, true];
    same(SbiHsm.hart_get_status(1, &enabled, &c), SpecRet::success(hart_state::STOPPED));
    c[1].remote().claim(hart_state::STOPPED);
    same(SbiHsm.hart_get_status(1, &enabled, &c), SpecRet::success(hart_state::START_PENDING));
    same(SbiHsm.hart_get_status(2, &enabled, &c), SpecRet::invalid_param());
    same(SbiHsm.hart_get_status(1, &[true], &c), SpecRet::invalid_param());
}

#[test]
fn hart_is_stopped() {
    let mut c = cells(2);
    c[1].local().resume();
    let actions = SbiHsm.hart_stop(1, false, &mut c);
    assert_eq!(c[1].visible_status(), hart_state::STOPPED);
    assert_eq!(actions[..2], [HsmAction::DisableMsoft, HsmAction::Wfi]);
    assert!(matches!(actions[2], HsmAction::Return(r) if r.error == 0));
    let actions = SbiHsm.hart_stop(1, true, &mut c);
    assert_eq!(actions[0], HsmAction::Shutdown(1));
    assert_eq!(actions.len(), 4);
}

#[test]
fn retentive_suspend_returns() {
    let mut c = cells(2);
    c[1].local().resume();
    let mut call = SbiHsm.hart_suspend(hart_state::RETENTIVE, 1, 2).unwrap();
    let mut seen = Vec::new();
    for _ in 0..3 {
        seen.push(call.next(1, &mut c));
        assert_eq!(c[1].visible_status(), hart_state::STARTED);
    }
    seen.push(call.next(1, &mut c));
    assert_eq!(c[1].visible_status(), hart_state::SUSPENDED);
    seen.push(call.next(1, &mut c));
    assert_eq!(
        seen,
        vec![
            HsmAction::HandleIpi,
            HsmAction::ClearMsip(1),
            HsmAction::EnableMsoft,
            HsmAction::Wfi,
            HsmAction::HandleIpi
        ]
    );
    match call.next(1, &mut c) {
        HsmAction::Return(r) => same(r, SpecRet::success(0)),
        _ => panic!("the suspend goes on"),
    }
    assert_eq!(c[1].visible_status(), hart_state::STARTED);
}

#[test]
fn non_retentive_suspend_boots() {
    let mut c = cells(2);
    let mut call = SbiHsm.hart_suspend(hart_state::NON_RETENTIVE, 0x9000, 7).unwrap();
    for _ in 0..5 {
        call.next(1, &mut c);
    }
    assert_eq!(call.next(1, &mut c), HsmAction::Boot);
    assert_eq!(c[1].local().start(), Ok(stage(0x9000)));
    // Something else has taken the hart out of the suspended state.
    match call.next(1, &mut c) {
        HsmAction::Return(r) => same(r, SpecRet::failed()),
        _ => panic!("the suspend goes on"),
    }
    same(SbiHsm.hart_suspend(1, 0, 0).unwrap_err(), SpecRet::invalid_param());
}

#[test]
fn secondary_cells_are_set_up() {
    let mut c = cells(3);
    for cell in c.iter_mut() {
        cell.local().suspend();
    }
    init_secondary_hsm_cells(1, &mut c);
    assert_eq!(c[0].visible_status(), hart_state::STOPPED);
    assert_eq!(c[1].visible_status(), hart_state::SUSPENDED);
    assert_eq!(c[2].visible_status(), hart_state::STOPPED);
}

fn suspend(
    sleep_type: u32,
    mode: Mode,
    enabled: Option<&[bool]>,
    c: &[HsmCell<NextStage>],
    is_k3: bool,
    hsm: Option<&SbiHsm>,
) -> SuspendDecision {
    SbiSuspend.system_suspend(sleep_type, 0x9000, 7, mode, enabled, c, 0, is_k3, hsm)
}

fn returned(d: SuspendDecision) -> SbiRet {
    match d {
        SuspendDecision::Return(r) => r,
        _ => panic!("the suspend goes on"),
    }
}

#[test]
fn system_is_suspended() {
    let mut c = cells(2);
    c[0].local().resume();
    let on: &[bool] = &[true, true];
    let hsm = SbiHsm;
    let s = Mode::Supervisor;
    same(returned(suspend(1, s, Some(on), &c, false, Some(&hsm))), SpecRet::invalid_param());
    same(returned(suspend(0, Mode::Machine, Some(on), &c, false, Some(&hsm))), SpecRet::failed());
    same(returned(suspend(0, s, None, &c, false, Some(&hsm))), SpecRet::failed());
    same(
        returned(suspend(0, s, Some(&[true, true, true]), &c, false, Some(&hsm))),
        SpecRet::failed(),
    );
    same(returned(suspend(0, s, Some(on), &c, false, None)), SpecRet::not_supported());
    assert_eq!(suspend(0, s, Some(on), &c, true, None), SuspendDecision::Platform);
    match suspend(0, Mode::User, Some(on), &c, false, Some(&hsm)) {
        SuspendDecision::Hart(call) => {
            assert_eq!(call.suspend_type, hart_state::NON_RETENTIVE);
            assert_eq!(call.resume_addr, 0x9000);
            assert_eq!(call.opaque, 7);
        }
        _ => panic!("the hart is not suspended"),
    }
    c[1].local().resume();
    same(returned(suspend(0, s, Some(on), &c, false, Some(&hsm))), SpecRet::denied());
    assert!(matches!(
        suspend(0, s, Some(&[true, false]), &c, false, Some(&hsm)),
        SuspendDecision::Hart(_)
    ));
    same(SbiSuspend.platform_suspend(true).unwrap(), SpecRet::success(0));
    same(SbiSuspend.platform_suspend(false).unwrap_err(), SpecRet::failed());
}

#[test]
fn roles_are_elected() {
    assert_eq!(elect(true, false), Role::Boot);
    assert_eq!(elect(true, true), Role::Secondary);
    assert_eq!(elect(false, false), Role::Secondary);
    assert_eq!(elect(false, true), Role::Secondary);
}

#[test]
fn courses_of_harts() {
    let b = boot_hart(Mode::Supervisor);
    assert_eq!(b.len(), 12);
    assert_eq!(b[0], FlowStep::InitHeap);
    assert_eq!(b[5], FlowStep::CheckPrivilege(Mode::Supervisor));
    let woken = secondary_hart(true, Mode::User);
    assert_eq!(woken[3], FlowStep::RestorePending);
    assert_eq!(woken[8], FlowStep::CheckPrivilege(Mode::Supervisor));
    assert_eq!(woken.len(), 13);
    let cold = secondary_hart(false, Mode::User);
    assert_eq!(cold[7], FlowStep::CheckPrivilege(Mode::User));
    assert_eq!(cold.len(), 12);
    assert_eq!(cold[11], FlowStep::ConfigureDelegation);
}

#[test]
fn boot_stage_is_started() {
    let next = boot_stage(stage(0x8020_0000), false, 1, 2);
    assert_eq!(next.opaque, 2);
    assert_eq!(boot_stage(stage(0), true, 1, 2).opaque, 1);
    let mut c = cells(3);
    c[2].local().suspend();
    assert!(start_boot_stage(1, next, &mut c));
    assert_eq!(c[2].visible_status(), hart_state::STOPPED);
    assert_eq!(c[1].local().start(), Ok(next));
    assert!(!start_boot_stage(1, next, &mut c));
}
