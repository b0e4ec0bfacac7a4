//! System reset.
use vstd::prelude::*;

use crate::binary::{SbiError, SbiRet};
use crate::bytes::{u32_le, u32_to_le_bytes};
use crate::rpmi::mailbox::{Mailbox, RpmiMailbox};
use crate::rpmi::message::MessageType;
use crate::rpmi::servicegroup;

verus! {

/// Reset type: power the system down.
pub const RESET_TYPE_SHUTDOWN: u32 = 0;

/// Reset type: reboot with all parts powered off in between.
pub const RESET_TYPE_COLD_REBOOT: u32 = 1;

/// Reset type: reboot the harts only.
pub const RESET_TYPE_WARM_REBOOT: u32 = 2;

/// Reset reason: none.
pub const RESET_REASON_NO_REASON: u32 = 0;

/// Reset reason: the system failed.
pub const RESET_REASON_SYSTEM_FAILURE: u32 = 1;

/// Service of the system-reset group that performs a reset.
pub const SERVICE_SYSTEM_RESET: u8 = 3;

/// Type of a reset that the platform performs: shut down.
pub const SYSRST_SHUTDOWN: u8 = 0;

/// Type of a reset that the platform performs: cold reboot.
pub const SYSRST_COLD_REBOOT: u8 = 1;

/// A device that resets the system. The system is expected to go down after each request.
pub trait ResetDevice: Sized {
    /// The device can take a request.
    open spec fn ready(self) -> bool {
        true
    }

    /// What `fail` does.
    open spec fn fail_post(pre: Self, code: u16, post: Self) -> bool {
        true
    }

    /// What `pass` does.
    open spec fn pass_post(pre: Self, post: Self) -> bool {
        true
    }

    /// What `reset` does.
    open spec fn reset_post(pre: Self, post: Self) -> bool {
        true
    }

    /// Powers the system down and reports a failure.
    fn fail(&mut self, code: u16)
        requires
            old(self).ready(),
        ensures
            Self::fail_post(*old(self), code, *final(self)),
    ;

    /// Powers the system down.
    fn pass(&mut self)
        requires
            old(self).ready(),
        ensures
            Self::pass_post(*old(self), *final(self)),
    ;

    /// Reboots the system.
    fn reset(&mut self)
        requires
            old(self).ready(),
        ensures
            Self::reset_post(*old(self), *final(self)),
    ;
}

/// Reset device that asks the platform management processor, if there is a mailbox to do so.
pub struct RpmiResetWrap {
    /// The mailbox.
    pub mailbox: Option<RpmiMailbox>,
}

/// The mailbox after a reset of the given type has been asked for.
pub open spec fn reset_asked(m: Mailbox, reset_type: u8) -> Mailbox {
    m.submitted(
        servicegroup::SYSTEM_RESET,
        SERVICE_SYSTEM_RESET,
        MessageType::PostedRequest,
        u32_le(reset_type as u32),
    )
}

/// A reset of the given type has been asked for, once, if there is a mailbox.
pub open spec fn asks(pre: Option<Mailbox>, reset_type: u8, post: Option<Mailbox>) -> bool {
    match pre {
        Some(m) => post == Some(reset_asked(m, reset_type)),
        None => post is None,
    }
}

impl RpmiResetWrap {
    /// The mailbox's state.
    pub open spec fn state(self) -> Option<Mailbox> {
        match self.mailbox {
            Some(m) => Some(m@),
            None => None,
        }
    }

    /// Asks for a reset of the given type; whether the request fits is of no account.
    fn do_reset(&mut self, reset_type: u8)
        requires
            old(self).state() matches Some(m) ==> m.wf(),
        ensures
            asks(old(self).state(), reset_type, final(self).state()),
    {
        match &mut self.mailbox {
            Some(m) => {
                let req = u32_to_le_bytes(reset_type as u32);
                let _ = m.posted_request(
                    servicegroup::SYSTEM_RESET,
                    SERVICE_SYSTEM_RESET,
                    req.as_slice(),
                );
            },
            None => {},
        }
    }
}

impl ResetDevice for RpmiResetWrap {
    open spec fn ready(self) -> bool {
        self.state() matches Some(m) ==> m.wf()
    }

    open spec fn fail_post(pre: Self, code: u16, post: Self) -> bool {
        asks(pre.state(), SYSRST_SHUTDOWN, post.state())
    }

    open spec fn pass_post(pre: Self, post: Self) -> bool {
        asks(pre.state(), SYSRST_SHUTDOWN, post.state())
    }

    open spec fn reset_post(pre: Self, post: Self) -> bool {
        asks(pre.state(), SYSRST_COLD_REBOOT, post.state())
    }

    fn fail(&mut self, code: u16) {
        self.do_reset(SYSRST_SHUTDOWN)
    }

    fn pass(&mut self) {
        self.do_reset(SYSRST_SHUTDOWN)
    }

    fn reset(&mut self) {
        self.do_reset(SYSRST_COLD_REBOOT)
    }
}

/// What a device is asked for.
pub enum ResetRequest {
    /// Power down and report a failure.
    Fail(u16),
    /// Power down.
    Pass,
    /// Reboot.
    Reset,
}

/// What the device is asked for, if the reset type is known. A reason that is neither none nor a
/// failure is reported as a failure with its low 16 bits as code.
pub open spec fn reset_request(reset_type: u32, reset_reason: u32) -> Option<ResetRequest> {
    if reset_type == RESET_TYPE_SHUTDOWN {
        if reset_reason == RESET_REASON_NO_REASON {
            Some(ResetRequest::Pass)
        } else if reset_reason == RESET_REASON_SYSTEM_FAILURE {
            Some(ResetRequest::Fail(u16::MAX))
        } else {
            Some(ResetRequest::Fail((reset_reason % 65536) as u16))
        }
    } else if reset_type == RESET_TYPE_COLD_REBOOT || reset_type == RESET_TYPE_WARM_REBOOT {
        Some(ResetRequest::Reset)
    } else {
        None
    }
}

/// System reset extension.
pub struct SbiReset<D: ResetDevice> {
    /// The device that resets the system.
    pub reset_dev: D,
}

impl<D: ResetDevice> SbiReset<D> {
    /// Creates the extension over a device.
    pub fn new(reset_dev: D) -> (s: SbiReset<D>)
        ensures
            s.reset_dev == reset_dev,
    {
        SbiReset { reset_dev }
    }

    /// Powers the system down and reports a failure with code zero.
    pub fn fail(&mut self)
        requires
            old(self).reset_dev.ready(),
        ensures
            D::fail_post(old(self).reset_dev, 0, final(self).reset_dev),
    {
        self.reset_dev.fail(0);
    }

    /// Resets the system. A value is returned only if the reset type is not known; otherwise the
    /// device has been asked, and the system goes down.
    pub fn system_reset(&mut self, reset_type: u32, reset_reason: u32) -> (r: Option<SbiRet>)
        requires
            reset_request(reset_type, reset_reason) is Some ==> old(self).reset_dev.ready(),
        ensures
            match reset_request(reset_type, reset_reason) {
                Some(ResetRequest::Fail(code)) => r is None && D::fail_post(
                    old(self).reset_dev,
                    code,
                    final(self).reset_dev,
                ),
                Some(ResetRequest::Pass) => r is None && D::pass_post(
                    old(self).reset_dev,
                    final(self).reset_dev,
                ),
                Some(ResetRequest::Reset) => r is None && D::reset_post(
                    old(self).reset_dev,
                    final(self).reset_dev,
                ),
                None => r == Some(SbiRet::err(SbiError::InvalidParam)) && final(self).reset_dev
                    == old(self).reset_dev,
            },
    {
        match reset_type {
            0 => {
                match reset_reason {
                    0 => self.reset_dev.pass(),
                    1 => self.reset_dev.fail(u16::MAX),
                    value => self.reset_dev.fail((value % 65536) as u16),
                }
                None
            },
            1 | 2 => {
                self.reset_dev.reset();
                None
            },
            _ => Some(SbiRet::invalid_param()),
        }
    }
}

/// Asks the reset device, if there is one, to report a failure; returns whether there was one.
/// Without one nothing is left but to stand still.
pub fn fail<D: ResetDevice>(reset: Option<&mut SbiReset<D>>) -> (asked: bool)
    requires
        reset matches Some(s) ==> s.reset_dev.ready(),
    ensures
        asked == reset is Some,
        reset matches Some(s) ==> D::fail_post(s.reset_dev, 0, final(s).reset_dev),
{
    match reset {
        Some(s) => {
            s.fail();
            true
        },
        None => false,
    }
}

/// The ways to reset the system that a board offers.
#[derive(Clone, Copy, Debug)]
pub struct ResetFacts {
    /// Address of a test device.
    pub reset: Option<usize>,
    /// Bus address and device address of a power-management chip.
    pub pmic_reset: Option<(usize, u8)>,
    /// The platform management processor performs resets.
    pub rpmi_reset: bool,
}

/// The device that a board is reset by.
#[derive(Clone, Copy, PartialEq, Eq, Structural, Debug)]
pub enum ResetChoice {
    /// The test device at an address.
    TestDevice(usize),
    /// The power-management chip at a bus and a device address.
    Pmic(usize, u8),
    /// The platform management processor.
    Rpmi,
}

/// The device that a board is reset by, if it offers one: a test device comes before a chip, and a
/// chip before the management processor.
pub open spec fn reset_choice(board: ResetFacts) -> Option<ResetChoice> {
    match board.reset {
        Some(base) => Some(ResetChoice::TestDevice(base)),
        None => match board.pmic_reset {
            Some((bus, dev)) => Some(ResetChoice::Pmic(bus, dev)),
            None => if board.rpmi_reset {
                Some(ResetChoice::Rpmi)
            } else {
                None
            },
        },
    }
}

/// Chooses the device that a board is reset by.
pub fn init(board: &ResetFacts) -> (r: Option<ResetChoice>)
    ensures
        r == reset_choice(*board),
{
    if let Some(base) = board.reset {
        Some(ResetChoice::TestDevice(base))
    } else if let Some((i2c_base, pmic_addr)) = board.pmic_reset {
        Some(ResetChoice::Pmic(i2c_base, pmic_addr))
    } else if board.rpmi_reset {
        Some(ResetChoice::Rpmi)
    } else {
        None
    }
}

/// What a reset type and a reason ask of the device: type zero powers down, and reports a failure
/// unless the reason is zero; its code has all bits set for a system failure and is the low half of
/// any other reason. Types one and two reboot, and there are no others.
pub proof fn reset_types(reset_type: u32, reset_reason: u32)
    ensures
        ({
            let q = reset_request(reset_type, reset_reason);
            &&& q is None <==> reset_type > 2
            &&& (q matches Some(ResetRequest::Reset)) <==> reset_type == 1 || reset_type == 2
            &&& (q matches Some(ResetRequest::Pass)) <==> reset_type == 0 && reset_reason == 0
            &&& q matches Some(ResetRequest::Fail(code)) ==> reset_type == 0 && reset_reason != 0
                && if reset_reason == 1 {
                code == 0xffff
            } else {
                (reset_reason - code) % 0x1_0000 == 0
            }
            &&& reset_type == 0 && reset_reason != 0 ==> q is Some && q->0 is Fail
        }),
{
}

/// A reset reaches the platform as a posted request to service three of service group three, whose
/// four bytes of data are the type: zero to power down, whether or not that is a failure, and one
/// to reboot.
pub proof fn reset_reaches_platform(pre: RpmiResetWrap, code: u16, post: RpmiResetWrap)
    requires
        pre.state() matches Some(m) && m.wf() && m.rings[0].wf() && m.accepts(4),
    ensures
        ({
            let before = pre.state()->0.rings[0].pending();
            let queue = post.state()->0.rings[0].pending();
            let msg = queue.last();
            let fail = RpmiResetWrap::fail_post(pre, code, post);
            let pass = RpmiResetWrap::pass_post(pre, post);
            let reset = RpmiResetWrap::reset_post(pre, post);
            &&& fail || pass || reset ==> {
                &&& post.state() is Some
                &&& queue.len() == before.len() + 1
                &&& msg[0] == 3 && msg[1] == 0 && msg[2] == 3 && msg[3] == 1
                &&& msg[4] == 4 && msg[5] == 0
                &&& msg[9] == 0 && msg[10] == 0 && msg[11] == 0
            }
            &&& fail || pass ==> msg[8] == 0
            &&& reset ==> msg[8] == 1
        }),
{
    let m = pre.state()->0;
    let down = u32_le(0);
    let again = u32_le(1);
    m.request_on_wire(3, 3, MessageType::PostedRequest, down);
    m.request_on_wire(3, 3, MessageType::PostedRequest, again);
    let d = m.submitted(3, 3, MessageType::PostedRequest, down).rings[0].pending().last();
    let a = m.submitted(3, 3, MessageType::PostedRequest, again).rings[0].pending().last();
    assert(d[8] == d.subrange(8, 12)[0] && d[9] == d.subrange(8, 12)[1] && d[10] == d.subrange(
        8,
        12,
    )[2] && d[11] == d.subrange(8, 12)[3]);
    assert(a[8] == a.subrange(8, 12)[0] && a[9] == a.subrange(8, 12)[1] && a[10] == a.subrange(
        8,
        12,
    )[2] && a[11] == a.subrange(8, 12)[3]);
}

/// Without a mailbox a reset leaves nothing behind.
pub proof fn reset_without_mailbox(pre: RpmiResetWrap, code: u16, post: RpmiResetWrap)
    requires
        pre.state() is None,
        RpmiResetWrap::fail_post(pre, code, post) || RpmiResetWrap::pass_post(pre, post)
            || RpmiResetWrap::reset_post(pre, post),
    ensures
        post.state() is None,
{
}

/// Which device a board is reset by: the management processor only if there is neither a test
/// device nor a chip, and a chip only if there is no test device; at the addresses of the board.
pub proof fn reset_preference(board: ResetFacts)
    ensures
        ({
            let c = reset_choice(board);
            &&& c is None <==> board.reset is None && board.pmic_reset is None && !board.rpmi_reset
            &&& board.reset is Some ==> c == Some(ResetChoice::TestDevice(board.reset->0))
            &&& board.reset is None ==> (board.pmic_reset matches Some((bus, dev)) ==> c == Some(
                ResetChoice::Pmic(bus, dev),
            ))
            &&& (c matches Some(ResetChoice::Rpmi)) <==> board.reset is None && board.pmic_reset
                is None && board.rpmi_reset
        }),
{
}

} // verus!
