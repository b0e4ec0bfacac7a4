//! Hart state management.
//!
//! Each hart has a cell with its state and, while a start is pending, the stage that it is to
//! enter. Another hart starts it in two moves: it claims the cell, which only one can, and then
//! publishes the stage.
use vstd::prelude::*;

use crate::binary::{SbiError, SbiRet};
use crate::bytes::least;
use crate::sbi::hart_state::{
    NON_RETENTIVE, RETENTIVE, STARTED, START_PENDING, START_PENDING_EXT, STOPPED, SUSPENDED,
};

verus! {

/// Privilege mode of a hart.
#[derive(Clone, Copy, PartialEq, Eq, Structural, Debug)]
pub enum Mode {
    /// Machine mode.
    Machine,
    /// Supervisor mode.
    Supervisor,
    /// User mode.
    User,
}

/// The stage that a hart enters after the firmware.
#[derive(Clone, Copy, PartialEq, Eq, Structural, Debug)]
pub struct NextStage {
    /// Address of the first instruction.
    pub start_addr: usize,
    /// Argument that the stage gets.
    pub opaque: usize,
    /// Privilege mode of the stage.
    pub next_mode: Mode,
}

/// Content of a hart's cell.
pub struct Hart<T> {
    /// State of the hart.
    pub status: usize,
    /// Data for a pending start.
    pub inner: Option<T>,
}

impl<T> Hart<T> {
    /// A pending start has its data.
    pub open spec fn wf(self) -> bool {
        self.status == START_PENDING ==> self.inner is Some
    }

    /// A start is pending, published or not.
    pub open spec fn pending(self) -> bool {
        self.status == START_PENDING || self.status == START_PENDING_EXT
    }

    /// The cell after a start with `t` has been published.
    pub open spec fn published(self, t: T) -> Hart<T> {
        Hart { status: START_PENDING, inner: Some(t) }
    }

    /// The hart can receive interrupts from other harts.
    pub open spec fn reachable(self) -> bool {
        self.status == STARTED || self.status == SUSPENDED
    }

    /// The state as the supervisor sees it.
    pub open spec fn visible(self) -> usize {
        if self.status == START_PENDING_EXT {
            START_PENDING
        } else {
            self.status
        }
    }

    /// The cell of a stopped hart.
    pub open spec fn stopped() -> Hart<T> {
        Hart { status: STOPPED, inner: None }
    }

    /// Another hart claims the cell in state `from`: whether it could, and the cell afterwards.
    pub open spec fn claimed(self, from: usize) -> (bool, Hart<T>) {
        if self.status == from {
            (true, Hart { status: START_PENDING_EXT, ..self })
        } else {
            (false, self)
        }
    }

    /// Another hart hands the data `t` to a hart in state `from`: whether it could, and the cell
    /// afterwards.
    pub open spec fn handed(self, from: usize, t: T) -> (bool, Hart<T>) {
        if self.status == from {
            (true, self.published(t))
        } else {
            (false, self)
        }
    }

    /// The hart looks for a pending start: what it finds, and the cell afterwards.
    pub open spec fn polled(self) -> (StartPoll<T>, Hart<T>) {
        if self.status == START_PENDING {
            (StartPoll::Started(self.inner->0), Hart { status: STARTED, inner: None })
        } else if self.status == START_PENDING_EXT {
            (StartPoll::Wait, self)
        } else {
            (StartPoll::NotPending(self.status), self)
        }
    }

    /// The hart takes the data of a pending start: the data, and the cell afterwards.
    pub open spec fn stripped(self) -> (Option<T>, Hart<T>) {
        if self.pending() {
            (self.inner, Hart::stopped())
        } else {
            (None, self)
        }
    }

    /// A stopped hart that is started enters with the data it was given, exactly once.
    pub proof fn start_delivers(self, t: T)
        requires
            self.status == STOPPED,
        ensures
            self.handed(STOPPED, t).0,
            self.handed(STOPPED, t).1.polled().0 == StartPoll::Started(t),
            self.handed(STOPPED, t).1.polled().1.polled().0 == StartPoll::<T>::NotPending(STARTED),
    {
    }

    /// A hart is started once: a second start, or a resume, is refused and changes nothing.
    pub proof fn start_excludes(self, t: T, other: T)
        requires
            self.status == STOPPED,
        ensures
            ({
                let after = self.handed(STOPPED, t).1;
                after.handed(STOPPED, other) == (false, after) && after.handed(
                    SUSPENDED,
                    other,
                ) == (
                    false,
                    after,
                )
            }),
    {
    }

    /// While a cell is claimed, no other hart can claim it, and the hart itself waits.
    pub proof fn claim_excludes(self, from: usize, other: usize)
        requires
            self.claimed(from).0,
            other == STOPPED || other == SUSPENDED,
        ensures
            ({
                let after = self.claimed(from).1;
                &&& after.claimed(other) == (false, after)
                &&& after.polled() == (StartPoll::<T>::Wait, after)
                &&& after.visible() == START_PENDING
            }),
    {
    }

    /// A pending start survives that the hart's cell is set up anew, if its data are taken before
    /// and put back afterwards.
    pub proof fn pending_survives(self)
        requires
            self.wf(),
            self.status == START_PENDING,
        ensures
            self.stripped().0 is Some,
            self.stripped().1 == Hart::<T>::stopped(),
            Hart::<T>::stopped().published(self.stripped().0->0) == self,
    {
    }

    /// Every operation keeps a pending start together with its data.
    pub proof fn operations_keep_wf(self, from: usize, t: T)
        requires
            self.wf(),
            from == STOPPED || from == SUSPENDED,
        ensures
            Hart::<T>::stopped().wf(),
            self.claimed(from).1.wf(),
            self.published(t).wf(),
            self.handed(from, t).1.wf(),
            self.polled().1.wf(),
            self.stripped().1.wf(),
            (Hart { status: STOPPED, ..self }).wf(),
            (Hart { status: SUSPENDED, ..self }).wf(),
            (Hart { status: STARTED, ..self }).wf(),
    {
    }
}

/// State of a hart, shared between harts.
pub struct HsmCell<T> {
    status: usize,
    inner: Option<T>,
}

impl<T> View for HsmCell<T> {
    type V = Hart<T>;

    closed spec fn view(&self) -> Hart<T> {
        Hart { status: self.status, inner: self.inner }
    }
}

impl<T> HsmCell<T> {
    /// Creates the cell of a stopped hart.
    pub fn new() -> (c: HsmCell<T>)
        ensures
            c@ == Hart::<T>::stopped(),
    {
        HsmCell { status: STOPPED, inner: None }
    }

    /// The cell as the hart that it belongs to sees it.
    pub fn local(&mut self) -> (l: LocalHsmCell<'_, T>)
        ensures
            *l.0 == *old(self),
            *final(l.0) == *final(self),
    {
        LocalHsmCell(self)
    }

    /// The cell as other harts see it.
    pub fn remote(&mut self) -> (l: RemoteHsmCell<'_, T>)
        ensures
            *l.0 == *old(self),
            *final(l.0) == *final(self),
    {
        RemoteHsmCell(self)
    }

    /// The state as the supervisor sees it.
    pub fn visible_status(&self) -> (s: usize)
        ensures
            s == self@.visible(),
    {
        if self.status == START_PENDING_EXT {
            START_PENDING
        } else {
            self.status
        }
    }
}

/// What a hart finds when it looks for a pending start.
pub enum StartPoll<T> {
    /// The start was published: the hart runs, with these data.
    Started(T),
    /// The cell has been claimed, but its data are still being written.
    Wait,
    /// No start is pending; this is the state.
    NotPending(usize),
}

/// View of a cell for the hart that it belongs to.
pub struct LocalHsmCell<'a, T>(pub &'a mut HsmCell<T>);

impl<'a, T> LocalHsmCell<'a, T> {
    /// Looks once for a pending start, and starts if it is published.
    pub fn poll_start(&mut self) -> (r: StartPoll<T>)
        requires
            old(self).0@.wf(),
        ensures
            *final(final(self).0) == *final(old(self).0),
            (r, final(self).0@) == old(self).0@.polled(),
    {
        if self.0.status == START_PENDING {
            self.0.status = STARTED;
            match self.0.inner.take() {
                Some(t) => StartPoll::Started(t),
                None => StartPoll::Wait,
            }
        } else if self.0.status == START_PENDING_EXT {
            StartPoll::Wait
        } else {
            StartPoll::NotPending(self.0.status)
        }
    }

    /// Starts the hart if a start is pending, and returns its data; otherwise returns the state.
    pub fn start(&mut self) -> (r: Result<T, usize>)
        requires
            old(self).0@.wf(),
            old(self).0@.status != START_PENDING_EXT,
        ensures
            *final(final(self).0) == *final(old(self).0),
            final(self).0@ == old(self).0@.polled().1,
            r == match old(self).0@.polled().0 {
                StartPoll::Started(t) => Ok::<T, usize>(t),
                _ => Err(old(self).0@.status),
            },
    {
        match self.poll_start() {
            StartPoll::Started(t) => Ok(t),
            StartPoll::Wait => Err(START_PENDING_EXT),
            StartPoll::NotPending(s) => Err(s),
        }
    }

    /// Marks the hart as stopped.
    pub fn stop(&mut self)
        ensures
            *final(final(self).0) == *final(old(self).0),
            final(self).0@ == (Hart { status: STOPPED, ..old(self).0@ }),
    {
        self.0.status = STOPPED;
    }

    /// Marks the hart as suspended.
    pub fn suspend(&mut self)
        ensures
            *final(final(self).0) == *final(old(self).0),
            final(self).0@ == (Hart { status: SUSPENDED, ..old(self).0@ }),
    {
        self.0.status = SUSPENDED;
    }

    /// Marks the hart as started.
    pub fn resume(&mut self)
        ensures
            *final(final(self).0) == *final(old(self).0),
            final(self).0@ == (Hart { status: STARTED, ..old(self).0@ }),
    {
        self.0.status = STARTED;
    }

    /// Takes the data of a pending start, and leaves the hart stopped.
    pub fn take_pending(&mut self) -> (r: Option<T>)
        ensures
            *final(final(self).0) == *final(old(self).0),
            (r, final(self).0@) == old(self).0@.stripped(),
    {
        if self.0.status == START_PENDING || self.0.status == START_PENDING_EXT {
            let pending = self.0.inner.take();
            self.0.status = STOPPED;
            pending
        } else {
            None
        }
    }

    /// Whether a start is pending.
    pub fn has_pending(&self) -> (b: bool)
        ensures
            b == old(self.0)@.pending(),
    {
        self.0.status == START_PENDING || self.0.status == START_PENDING_EXT
    }

    /// Puts the data of a pending start back.
    pub fn restore_pending(&mut self, t: T)
        ensures
            *final(final(self).0) == *final(old(self).0),
            final(self).0@ == old(self).0@.published(t),
    {
        self.0.inner = Some(t);
        self.0.status = START_PENDING;
    }
}

/// View of a cell for other harts.
pub struct RemoteHsmCell<'a, T>(pub &'a mut HsmCell<T>);

impl<'a, T> RemoteHsmCell<'a, T> {
    /// Claims the cell of a hart that is in state `from`, so that no other hart can.
    pub fn claim(&mut self, from: usize) -> (b: bool)
        ensures
            *final(final(self).0) == *final(old(self).0),
            (b, final(self).0@) == old(self).0@.claimed(from),
    {
        if self.0.status == from {
            self.0.status = START_PENDING_EXT;
            true
        } else {
            false
        }
    }

    /// Publishes the data of a start on a claimed cell.
    pub fn publish(&mut self, t: T)
        ensures
            *final(final(self).0) == *final(old(self).0),
            final(self).0@ == old(self).0@.published(t),
    {
        self.0.inner = Some(t);
        self.0.status = START_PENDING;
    }

    /// Starts a stopped hart with the given data; returns whether it was stopped.
    pub fn start(&mut self, t: T) -> (b: bool)
        ensures
            *final(final(self).0) == *final(old(self).0),
            (b, final(self).0@) == old(self).0@.handed(STOPPED, t),
    {
        if self.claim(STOPPED) {
            self.publish(t);
            true
        } else {
            false
        }
    }

    /// Resumes a suspended hart with the given data; returns whether it was suspended.
    pub fn resume(&mut self, t: T) -> (b: bool)
        ensures
            *final(final(self).0) == *final(old(self).0),
            (b, final(self).0@) == old(self).0@.handed(SUSPENDED, t),
    {
        if self.claim(SUSPENDED) {
            self.publish(t);
            true
        } else {
            false
        }
    }

    /// The state as the supervisor sees it.
    pub fn get_status(&self) -> (s: usize)
        ensures
            s == old(self.0)@.visible(),
    {
        self.0.visible_status()
    }

    /// The state word as it is stored.
    pub fn raw_status(&self) -> (s: usize)
        ensures
            s == old(self.0)@.status,
    {
        self.0.status
    }

    /// Whether the hart can receive interrupts from other harts: it must be started or suspended.
    pub fn allow_ipi(&self) -> (b: bool)
        ensures
            b == old(self.0)@.reachable(),
    {
        self.0.status == STARTED || self.0.status == SUSPENDED
    }
}

/// How a started hart is woken.
#[derive(Clone, Copy, PartialEq, Eq, Structural, Debug)]
pub enum Wake {
    /// Through the wake-up register of the power-management unit: the hart may be powered down and
    /// starts at its warm entry.
    Pmu(usize),
    /// By a software interrupt.
    Msip(usize),
}

/// Outcome of a request to start a hart.
#[derive(Clone, Copy, PartialEq, Eq, Structural, Debug)]
pub struct StartOutcome {
    /// What the supervisor gets.
    pub ret: SbiRet,
    /// How the hart is woken, if it was started.
    pub wake: Option<Wake>,
}

/// What the firmware does next on behalf of a hart.
#[derive(Clone, Copy, PartialEq, Eq, Structural, Debug)]
pub enum HsmAction {
    /// Handle pending requests of other harts.
    HandleIpi,
    /// Clear the hart's software interrupt.
    ClearMsip(usize),
    /// Let software interrupts wake the hart.
    EnableMsoft,
    /// Keep software interrupts from waking the hart.
    DisableMsoft,
    /// Power the hart down.
    Shutdown(usize),
    /// Wait for an interrupt.
    Wfi,
    /// Set the hart's context up anew and enter the stage in its cell.
    Boot,
    /// Return to the supervisor.
    Return(SbiRet),
}

/// The contents of all cells.
pub open spec fn harts(cells: Seq<HsmCell<NextStage>>) -> Seq<Hart<NextStage>> {
    cells.map_values(|c: HsmCell<NextStage>| c@)
}

/// The hart is in the table of enabled harts and enabled.
pub open spec fn is_enabled(enabled: Seq<bool>, hart: int) -> bool {
    0 <= hart < enabled.len() && enabled[hart]
}

/// The supervisor stage at an address.
pub open spec fn supervisor_stage(start_addr: usize, opaque: usize) -> NextStage {
    NextStage { start_addr, opaque, next_mode: Mode::Supervisor }
}

/// Outcome of a request to start a hart, and the cells afterwards.
pub open spec fn hart_started(
    harts: Seq<Hart<NextStage>>,
    enabled: Seq<bool>,
    is_k3: bool,
    hartid: usize,
    stage: NextStage,
) -> (StartOutcome, Seq<Hart<NextStage>>) {
    if !is_enabled(enabled, hartid as int) || hartid >= harts.len() {
        (StartOutcome { ret: SbiRet::err(SbiError::InvalidParam), wake: None }, harts)
    } else if harts[hartid as int].status != STOPPED {
        (StartOutcome { ret: SbiRet::err(SbiError::AlreadyAvailable), wake: None }, harts)
    } else {
        (
            StartOutcome {
                ret: SbiRet::ok(0),
                wake: Some(
                    if is_k3 {
                        Wake::Pmu(hartid)
                    } else {
                        Wake::Msip(hartid)
                    },
                ),
            },
            harts.update(hartid as int, harts[hartid as int].published(stage)),
        )
    }
}

/// What resuming a suspended hart at a stage leads to, and the cells afterwards.
pub open spec fn hart_resumed(harts: Seq<Hart<NextStage>>, hartid: usize, stage: NextStage) -> (
    HsmAction,
    Seq<Hart<NextStage>>,
) {
    if hartid >= harts.len() || harts[hartid as int].status != SUSPENDED {
        (HsmAction::Return(SbiRet::err(SbiError::Failed)), harts)
    } else {
        (HsmAction::Boot, harts.update(hartid as int, harts[hartid as int].published(stage)))
    }
}

/// What follows when a hart is stopped, in order: it is powered down where the platform can, no
/// software interrupt may wake it, and it waits.
pub open spec fn stop_actions(hart: usize, is_k3: bool) -> Seq<HsmAction> {
    if is_k3 {
        seq![
            HsmAction::Shutdown(hart),
            HsmAction::DisableMsoft,
            HsmAction::Wfi,
            HsmAction::Return(SbiRet::ok(0)),
        ]
    } else {
        seq![HsmAction::DisableMsoft, HsmAction::Wfi, HsmAction::Return(SbiRet::ok(0))]
    }
}

/// The cells once a hart has been stopped.
pub open spec fn hart_stopped(harts: Seq<Hart<NextStage>>, hart: int) -> Seq<Hart<NextStage>> {
    harts.update(hart, Hart { status: STOPPED, ..harts[hart] })
}

/// What the supervisor is told of a hart's state.
pub open spec fn status_told(
    harts: Seq<Hart<NextStage>>,
    enabled: Seq<bool>,
    hartid: usize,
) -> SbiRet {
    if !is_enabled(enabled, hartid as int) || hartid >= harts.len() {
        SbiRet::err(SbiError::InvalidParam)
    } else {
        SbiRet::ok(harts[hartid as int].visible())
    }
}

/// The suspend that a request begins, if it asks for one of the two ways there are.
pub open spec fn suspend_begun(suspend_type: u32, resume_addr: usize, opaque: usize) -> Result<
    SuspendCall,
    SbiRet,
> {
    if suspend_type == RETENTIVE || suspend_type == NON_RETENTIVE {
        Ok(SuspendCall { suspend_type, resume_addr, opaque, done: 0 })
    } else {
        Err(SbiRet::err(SbiError::InvalidParam))
    }
}

/// The cells once those of all harts but the boot hart have been set up anew.
pub open spec fn secondaries_reset(harts: Seq<Hart<NextStage>>, boot_hart: usize) -> Seq<
    Hart<NextStage>,
> {
    Seq::new(
        harts.len(),
        |i: int|
            if i == boot_hart {
                harts[i]
            } else {
                Hart::stopped()
            },
    )
}

/// Whether the hart is enabled.
pub fn hart_enabled(enabled: &[bool], hart: usize) -> (b: bool)
    ensures
        b == is_enabled(enabled@, hart as int),
{
    hart < enabled.len() && enabled[hart]
}

/// Hart state management extension.
pub struct SbiHsm;

impl SbiHsm {
    /// Starts a stopped hart at an address in supervisor mode.
    pub fn hart_start(
        &self,
        hartid: usize,
        start_addr: usize,
        opaque: usize,
        enabled: &[bool],
        is_k3: bool,
        cells: &mut Vec<HsmCell<NextStage>>,
    ) -> (r: StartOutcome)
        ensures
            (r, harts(final(cells)@)) == hart_started(
                harts(old(cells)@),
                enabled@,
                is_k3,
                hartid,
                supervisor_stage(start_addr, opaque),
            ),
    {
        if !hart_enabled(enabled, hartid) || hartid >= cells.len() {
            return StartOutcome { ret: SbiRet::invalid_param(), wake: None };
        }
        let next = NextStage { start_addr, opaque, next_mode: Mode::Supervisor };
        let started = cells[hartid].remote().start(next);
        assert(harts(cells@) =~= hart_started(
            harts(old(cells)@),
            enabled@,
            is_k3,
            hartid,
            next,
        ).1);
        if started {
            StartOutcome {
                ret: SbiRet::success(0),
                wake: Some(
                    if is_k3 {
                        Wake::Pmu(hartid)
                    } else {
                        Wake::Msip(hartid)
                    },
                ),
            }
        } else {
            StartOutcome { ret: SbiRet::already_available(), wake: None }
        }
    }

    /// Stops the calling hart: marks it as stopped and says what follows, in order.
    pub fn hart_stop(
        &self,
        hart: usize,
        is_k3: bool,
        cells: &mut Vec<HsmCell<NextStage>>,
    ) -> (r: Vec<
        HsmAction,
    >)
        requires
            hart < old(cells)@.len(),
        ensures
            harts(final(cells)@) == hart_stopped(harts(old(cells)@), hart as int),
            r@ == stop_actions(hart, is_k3),
    {
        cells[hart].local().stop();
        assert(harts(cells@) =~= harts(old(cells)@).update(
            hart as int,
            Hart { status: STOPPED, ..harts(old(cells)@)[hart as int] },
        ));
        let mut actions: Vec<HsmAction> = Vec::new();
        if is_k3 {
            actions.push(HsmAction::Shutdown(hart));
        }
        actions.push(HsmAction::DisableMsoft);
        actions.push(HsmAction::Wfi);
        actions.push(HsmAction::Return(SbiRet::success(0)));
        actions
    }

    /// State of a hart as the supervisor sees it.
    pub fn hart_get_status(
        &self,
        hartid: usize,
        enabled: &[bool],
        cells: &[HsmCell<NextStage>],
    ) -> (r:
        SbiRet)
        ensures
            r == status_told(harts(cells@), enabled@, hartid),
    {
        if !hart_enabled(enabled, hartid) || hartid >= cells.len() {
            return SbiRet::invalid_param();
        }
        SbiRet::success(cells[hartid].visible_status())
    }

    /// Begins to suspend the calling hart; only the two default ways are known.
    pub fn hart_suspend(&self, suspend_type: u32, resume_addr: usize, opaque: usize) -> (r: Result<
        SuspendCall,
        SbiRet,
    >)
        ensures
            r == suspend_begun(suspend_type, resume_addr, opaque),
    {
        if suspend_type != RETENTIVE && suspend_type != NON_RETENTIVE {
            return Err(SbiRet::invalid_param());
        }
        Ok(SuspendCall { suspend_type, resume_addr, opaque, done: 0 })
    }

    /// Resumes a suspended hart at a stage, after a suspend that lost its registers.
    fn hart_resume(
        hartid: usize,
        resume_addr: usize,
        opaque: usize,
        cells: &mut Vec<HsmCell<NextStage>>,
    ) -> (r: HsmAction)
        ensures
            (r, harts(final(cells)@)) == hart_resumed(
                harts(old(cells)@),
                hartid,
                supervisor_stage(resume_addr, opaque),
            ),
    {
        if hartid >= cells.len() {
            return HsmAction::Return(SbiRet::failed());
        }
        let next = NextStage { start_addr: resume_addr, opaque, next_mode: Mode::Supervisor };
        let resumed = cells[hartid].remote().resume(next);
        assert(harts(cells@) =~= hart_resumed(harts(old(cells)@), hartid, next).1);
        if resumed {
            HsmAction::Boot
        } else {
            HsmAction::Return(SbiRet::failed())
        }
    }
}

/// A suspend of the calling hart that is under way.
#[derive(Clone, Copy, PartialEq, Eq, Structural, Debug)]
pub struct SuspendCall {
    /// Way of suspending.
    pub suspend_type: u32,
    /// Address to resume at, if the registers are lost.
    pub resume_addr: usize,
    /// Argument of the stage to resume at.
    pub opaque: usize,
    /// Number of actions that have been handed out.
    pub done: u8,
}

impl SuspendCall {
    /// The next action of the suspend, and the cells once it is due.
    pub open spec fn action(self, hart: usize, harts: Seq<Hart<NextStage>>) -> (
        HsmAction,
        Seq<Hart<NextStage>>,
    ) {
        let own = harts[hart as int];
        if self.done == 0 {
            (HsmAction::HandleIpi, harts)
        } else if self.done == 1 {
            (HsmAction::ClearMsip(hart), harts)
        } else if self.done == 2 {
            (HsmAction::EnableMsoft, harts)
        } else if self.done == 3 {
            (HsmAction::Wfi, harts.update(hart as int, Hart { status: SUSPENDED, ..own }))
        } else if self.done == 4 {
            (HsmAction::HandleIpi, harts)
        } else if self.suspend_type == RETENTIVE {
            (
                HsmAction::Return(SbiRet::ok(0)),
                harts.update(hart as int, Hart { status: STARTED, ..own }),
            )
        } else if self.suspend_type == NON_RETENTIVE {
            hart_resumed(harts, hart, supervisor_stage(self.resume_addr, self.opaque))
        } else {
            (HsmAction::Return(SbiRet::err(SbiError::InvalidParam)), harts)
        }
    }

    /// The suspend after its next action.
    pub open spec fn advanced(self) -> SuspendCall {
        SuspendCall { done: least(self.done + 1, 5) as u8, ..self }
    }

    /// Says what follows: before the hart waits it is marked as suspended, and after it has woken
    /// it is marked as started or handed to the stage to resume at.
    pub fn next(&mut self, hart: usize, cells: &mut Vec<HsmCell<NextStage>>) -> (r: HsmAction)
        requires
            hart < old(cells)@.len(),
        ensures
            (r, harts(final(cells)@)) == old(self).action(hart, harts(old(cells)@)),
            *final(self) == old(self).advanced(),
    {
        let done: u8 = self.done;
        if done < 5 {
            self.done = done + 1;
        } else {
            self.done = 5;
        }
        let ghost before = harts(cells@);
        if done == 0 {
            HsmAction::HandleIpi
        } else if done == 1 {
            HsmAction::ClearMsip(hart)
        } else if done == 2 {
            HsmAction::EnableMsoft
        } else if done == 3 {
            cells[hart].local().suspend();
            assert(harts(cells@) =~= old(self).action(hart, before).1);
            HsmAction::Wfi
        } else if done == 4 {
            HsmAction::HandleIpi
        } else if self.suspend_type == RETENTIVE {
            cells[hart].local().resume();
            assert(harts(cells@) =~= old(self).action(hart, before).1);
            HsmAction::Return(SbiRet::success(0))
        } else if self.suspend_type == NON_RETENTIVE {
            SbiHsm::hart_resume(hart, self.resume_addr, self.opaque, cells)
        } else {
            HsmAction::Return(SbiRet::invalid_param())
        }
    }
}

/// Sets the cells of all harts but the boot hart up anew, so that each can be started: harts that
/// were parked before the firmware ran left undefined contents behind.
pub fn init_secondary_hsm_cells(boot_hart: usize, cells: &mut Vec<HsmCell<NextStage>>)
    ensures
        harts(final(cells)@) == secondaries_reset(harts(old(cells)@), boot_hart),
{
    let mut i: usize = 0;
    while i < cells.len()
        invariant
            i <= cells@.len() == old(cells)@.len(),
            forall|j: int|
                0 <= j < cells@.len() ==> #[trigger] cells@[j]@ == if j < i && j != boot_hart {
                    Hart::stopped()
                } else {
                    old(cells)@[j]@
                },
        decreases cells@.len() - i,
    {
        if i != boot_hart {
            cells[i] = HsmCell::new();
        }
        i += 1;
    }
    assert(harts(cells@) =~= secondaries_reset(harts(old(cells)@), boot_hart));
}

/// Once the cells have been set up, every enabled secondary hart can be started.
pub proof fn secondaries_startable(
    before: Seq<Hart<NextStage>>,
    boot_hart: usize,
    enabled: Seq<bool>,
    is_k3: bool,
    hartid: usize,
    stage: NextStage,
)
    requires
        hartid < before.len(),
        hartid != boot_hart,
        is_enabled(enabled, hartid as int),
    ensures
        ({
            let fresh = secondaries_reset(before, boot_hart);
            let (outcome, after) = hart_started(fresh, enabled, is_k3, hartid, stage);
            &&& outcome.ret == SbiRet::ok(0)
            &&& outcome.wake is Some
            &&& after[hartid as int].polled().0 == StartPoll::Started(stage)
        }),
{
}

impl SuspendCall {
    /// The suspend and the cells after `n` actions.
    pub open spec fn after(self, hart: usize, harts: Seq<Hart<NextStage>>, n: nat) -> (
        SuspendCall,
        Seq<Hart<NextStage>>,
    )
        decreases n,
    {
        if n == 0 {
            (self, harts)
        } else {
            let (call, cells) = self.after(hart, harts, (n - 1) as nat);
            (call.advanced(), call.action(hart, cells).1)
        }
    }

    /// A suspend that keeps the registers returns success and leaves the hart started; one that
    /// loses them leaves the stage to resume at in the hart's cell and enters it. Neither touches
    /// another hart's cell.
    pub proof fn suspend_completes(self, hart: usize, harts: Seq<Hart<NextStage>>)
        requires
            self.done == 0,
            self.suspend_type == RETENTIVE || self.suspend_type == NON_RETENTIVE,
            hart < harts.len(),
        ensures
            ({
                let (call, cells) = self.after(hart, harts, 5);
                let (last, end) = call.action(hart, cells);
                let own = harts[hart as int];
                &&& cells == harts.update(hart as int, Hart { status: SUSPENDED, ..own })
                &&& self.suspend_type == RETENTIVE ==> last == HsmAction::Return(SbiRet::ok(0))
                    && end == harts.update(hart as int, Hart { status: STARTED, ..own })
                &&& self.suspend_type == NON_RETENTIVE ==> last == HsmAction::Boot && end
                    == harts.update(
                    hart as int,
                    own.published(supervisor_stage(self.resume_addr, self.opaque)),
                )
            }),
    {
        reveal_with_fuel(SuspendCall::after, 6);
        let (call, cells) = self.after(hart, harts, 5);
        let own = harts[hart as int];
        let end = call.action(hart, cells).1;
        if self.suspend_type == RETENTIVE {
            assert(end =~= harts.update(hart as int, Hart { status: STARTED, ..own }));
        } else {
            assert(end =~= harts.update(
                hart as int,
                own.published(supervisor_stage(self.resume_addr, self.opaque)),
            ));
        }
    }
}

/// A start succeeds exactly if the hart is enabled, has a cell and is stopped. The hart that is
/// woken is then the hart whose cell received the stage: by a software interrupt off a K3, by the
/// power-management unit on one. No other cell changes, and a start that is refused changes nothing
/// and wakes nobody.
pub proof fn start_wakes_its_hart(
    before: Seq<Hart<NextStage>>,
    enabled: Seq<bool>,
    is_k3: bool,
    hartid: usize,
    start_addr: usize,
    opaque: usize,
)
    ensures
        ({
            let (outcome, after) = hart_started(
                before,
                enabled,
                is_k3,
                hartid,
                supervisor_stage(start_addr, opaque),
            );
            let h = hartid as int;
            let known = h < enabled.len() && enabled[h] && h < before.len();
            let startable = known && before[h].status == 1;
            &&& outcome.ret.error == 0 <==> startable
            &&& startable ==> {
                &&& outcome.ret.value == 0
                &&& outcome.wake is Some
                &&& outcome.wake->0 matches Wake::Msip(woken) ==> woken == hartid && !is_k3
                &&& outcome.wake->0 matches Wake::Pmu(woken) ==> woken == hartid && is_k3
                &&& after[h].status == 2
                &&& after[h].inner is Some
                &&& after[h].inner->0.start_addr == start_addr
                &&& after[h].inner->0.opaque == opaque
                &&& after[h].inner->0.next_mode == Mode::Supervisor
            }
            &&& !startable ==> outcome.wake is None && after == before
            &&& !known ==> outcome.ret == SbiRet::err(SbiError::InvalidParam)
            &&& known && !startable ==> outcome.ret == SbiRet::err(SbiError::AlreadyAvailable)
            &&& after.len() == before.len()
            &&& forall|i: int| 0 <= i < before.len() && i != h ==> after[i] == before[i]
        }),
{
}

/// A hart that is stopped waits without being woken by software interrupts and returns success when
/// it goes on. It is powered down first on a K3, itself and no other, and never elsewhere.
pub proof fn stop_order(hart: usize, is_k3: bool)
    ensures
        ({
            let actions = stop_actions(hart, is_k3);
            let n = actions.len() as int;
            &&& n == if is_k3 {
                4int
            } else {
                3
            }
            &&& actions[n - 3] == HsmAction::DisableMsoft
            &&& actions[n - 2] == HsmAction::Wfi
            &&& actions[n - 1] matches HsmAction::Return(r) && r.error == 0 && r.value == 0
            &&& is_k3 ==> actions[0] == HsmAction::Shutdown(hart)
        }),
{
}

impl<T> Hart<T> {
    /// The supervisor sees the state as it is stored, but never that a cell has only been claimed:
    /// it sees a pending start then.
    pub proof fn visible_state(self)
        ensures
            self.visible() == 2 <==> self.status == 2 || self.status == usize::MAX,
            self.status != usize::MAX ==> self.visible() == self.status,
    {
    }

    /// How each operation moves the state: started is zero, stopped one, pending two and suspended
    /// four, and a claimed cell has all bits set.
    pub proof fn state_numbers(self, t: T)
        ensures
            Hart::<T>::stopped().status == 1,
            Hart::<T>::stopped().inner is None,
            self.published(t).status == 2,
            self.published(t).inner == Some(t),
            self.claimed(1).0 <==> self.status == 1,
            self.claimed(1).0 ==> self.claimed(1).1.status == usize::MAX && self.claimed(1).1.inner
                == self.inner,
            self.handed(4, t).0 <==> self.status == 4,
            self.handed(4, t).0 ==> self.handed(4, t).1 == self.published(t),
            !self.handed(4, t).0 ==> self.handed(4, t).1 == self,
            self.status == 2 ==> self.polled().1.status == 0 && self.polled().1.inner is None
                && self.polled().0 == StartPoll::Started(self.inner->0),
            self.status != 2 ==> self.polled().1 == self,
            self.pending() <==> self.status == 2 || self.status == usize::MAX,
            self.pending() ==> self.stripped().0 == self.inner && self.stripped().1.status == 1
                && self.stripped().1.inner is None,
            !self.pending() ==> self.stripped().0 is None && self.stripped().1 == self,
    {
    }
}

/// A resume hands a suspended hart the supervisor stage at the address to resume at, and enters it.
/// For any other hart it fails and changes nothing; no other cell is touched.
pub proof fn resume_enters_its_stage(
    before: Seq<Hart<NextStage>>,
    hartid: usize,
    resume_addr: usize,
    opaque: usize,
)
    ensures
        ({
            let (action, after) = hart_resumed(
                before,
                hartid,
                supervisor_stage(resume_addr, opaque),
            );
            let h = hartid as int;
            let asleep = h < before.len() && before[h].status == 4;
            &&& asleep ==> action == HsmAction::Boot && after[h].status == 2 && after[h].inner
                == Some(NextStage { start_addr: resume_addr, opaque, next_mode: Mode::Supervisor })
            &&& !asleep ==> action == HsmAction::Return(SbiRet::err(SbiError::Failed)) && after
                == before
            &&& after.len() == before.len()
            &&& forall|i: int| 0 <= i < before.len() && i != h ==> after[i] == before[i]
        }),
{
}

impl SuspendCall {
    /// The order of a suspend: pending requests are handled, the hart's own software interrupt is
    /// cleared and let through, the hart is marked as suspended and waits, and requests are handled
    /// again. Until it waits its cell stays as it was.
    pub proof fn suspend_order(self, hart: usize, harts: Seq<Hart<NextStage>>)
        requires
            self.done == 0,
            hart < harts.len(),
        ensures
            ({
                let a0 = self.after(hart, harts, 0);
                let a1 = self.after(hart, harts, 1);
                let a2 = self.after(hart, harts, 2);
                let a3 = self.after(hart, harts, 3);
                let a4 = self.after(hart, harts, 4);
                &&& a0.0.action(hart, a0.1) == (HsmAction::HandleIpi, harts)
                &&& a1.0.action(hart, a1.1) == (HsmAction::ClearMsip(hart), harts)
                &&& a2.0.action(hart, a2.1) == (HsmAction::EnableMsoft, harts)
                &&& a3.1 == harts
                &&& a3.0.action(hart, a3.1).0 == HsmAction::Wfi
                &&& a4.1[hart as int].status == 4
                &&& a4.0.action(hart, a4.1) == (HsmAction::HandleIpi, a4.1)
            }),
    {
        reveal_with_fuel(SuspendCall::after, 5);
    }

    /// A suspend keeps how and where it is to end.
    pub proof fn suspend_keeps_request(self)
        ensures
            self.advanced().suspend_type == self.suspend_type,
            self.advanced().resume_addr == self.resume_addr,
            self.advanced().opaque == self.opaque,
            self.done < 5 ==> self.advanced().done == self.done + 1,
    {
    }
}

/// What the supervisor is told follows what is done to a hart: after a start it is told that one is
/// pending, once the hart has looked for it that the hart is started, and after a stop that the
/// hart is stopped. Of a hart that is not enabled or has no cell it is told nothing.
pub proof fn status_follows(
    before: Seq<Hart<NextStage>>,
    enabled: Seq<bool>,
    is_k3: bool,
    hartid: usize,
    stage: NextStage,
)
    ensures
        ({
            let h = hartid as int;
            let known = h < enabled.len() && enabled[h] && h < before.len();
            let (outcome, started) = hart_started(before, enabled, is_k3, hartid, stage);
            let running = started.update(h, started[h].polled().1);
            let stopped = hart_stopped(before, h);
            &&& !known ==> status_told(before, enabled, hartid) == SbiRet::err(
                SbiError::InvalidParam,
            )
            &&& known ==> status_told(before, enabled, hartid).error == 0
            &&& known && before[h].status <= 4 ==> status_told(before, enabled, hartid).value
                == before[h].status
            &&& outcome.ret.error == 0 ==> status_told(started, enabled, hartid) == SbiRet::ok(2)
                && status_told(running, enabled, hartid) == SbiRet::ok(0)
            &&& known ==> status_told(stopped, enabled, hartid) == SbiRet::ok(1)
        }),
{
}

/// A hart that has been stopped can be started again, and finds the new stage; no other hart's cell
/// is touched by the stop.
pub proof fn stopped_startable(
    before: Seq<Hart<NextStage>>,
    enabled: Seq<bool>,
    is_k3: bool,
    hartid: usize,
    stage: NextStage,
)
    requires
        hartid < before.len(),
        hartid < enabled.len(),
        enabled[hartid as int],
    ensures
        ({
            let h = hartid as int;
            let stopped = hart_stopped(before, h);
            let (outcome, after) = hart_started(stopped, enabled, is_k3, hartid, stage);
            &&& outcome.ret == SbiRet::ok(0)
            &&& after[h].polled().0 == StartPoll::Started(stage)
            &&& stopped.len() == before.len()
            &&& forall|i: int| 0 <= i < before.len() && i != h ==> stopped[i] == before[i]
        }),
{
}

/// Only two ways of suspending a hart are known, and the suspend that is begun is the one that was
/// asked for.
pub proof fn suspend_ways(suspend_type: u32, resume_addr: usize, opaque: usize)
    ensures
        ({
            let r = suspend_begun(suspend_type, resume_addr, opaque);
            &&& r is Ok <==> suspend_type == 0 || suspend_type == 0x8000_0000
            &&& r matches Ok(call) ==> call.suspend_type == suspend_type && call.resume_addr
                == resume_addr && call.opaque == opaque && call.done == 0
            &&& r matches Err(e) ==> e == SbiRet::err(SbiError::InvalidParam)
        }),
{
}

impl SuspendCall {
    /// How a suspend ends: a hart that keeps its registers is told of success and is started; one
    /// that loses them enters supervisor mode at the address that it gave.
    pub proof fn suspend_ends(self, hart: usize, harts: Seq<Hart<NextStage>>)
        requires
            self.done == 0,
            hart < harts.len(),
        ensures
            ({
                let (call, cells) = self.after(hart, harts, 5);
                let (last, end) = call.action(hart, cells);
                let own = end[hart as int];
                &&& self.suspend_type == 0 ==> last == HsmAction::Return(SbiRet::ok(0))
                    && own.status == 0
                &&& self.suspend_type == 0x8000_0000 ==> last == HsmAction::Boot
                    && own.polled().0 == StartPoll::Started(
                    NextStage {
                        start_addr: self.resume_addr,
                        opaque: self.opaque,
                        next_mode: Mode::Supervisor,
                    },
                )
                &&& end.len() == harts.len()
                &&& forall|i: int| 0 <= i < harts.len() && i != hart ==> end[i] == harts[i]
            }),
    {
        reveal_with_fuel(SuspendCall::after, 6);
    }
}

/// When the cells of the secondary harts are set up, the boot hart's stays and all others are
/// stopped and hold nothing.
pub proof fn secondaries_stopped(before: Seq<Hart<NextStage>>, boot_hart: usize, i: int)
    requires
        0 <= i < before.len(),
    ensures
        ({
            let after = secondaries_reset(before, boot_hart);
            &&& after.len() == before.len()
            &&& i == boot_hart ==> after[i] == before[i]
            &&& i != boot_hart ==> after[i].status == 1 && after[i].inner is None
        }),
{
}

impl<T> Hart<T> {
    /// Interrupts from other harts reach a hart that runs or sleeps, and none that is stopped or
    /// about to start.
    pub proof fn interrupts_reach(self)
        ensures
            self.reachable() <==> self.status == 0 || self.status == 4,
            self.pending() ==> !self.reachable(),
            !Hart::<T>::stopped().reachable(),
    {
    }
}

} // verus!
