//! Performance-control extension: forwards register accesses to the platform management processor.
use vstd::prelude::*;

use crate::binary::{SbiError, SbiRet};
use crate::bytes::{read_u32, u32_at, zeroes};
use crate::rpmi::cppc::{CppcProbeReq, CppcReadReq, CppcWriteReq};
use crate::rpmi::cppc_service;
use crate::rpmi::mailbox::RpmiMailbox;
use crate::rpmi::message::Error;
use crate::rpmi::servicegroup;
use crate::rpmi::smq::SmqQueue;
use crate::sbi::rpmi_status::{rpmi_error_to_sbi, sbi_of_rpmi};

verus! {

/// A hart's identifier as requests carry it: its low 32 bits.
pub open spec fn hart_word(hart: usize) -> u32 {
    (hart as int % 0x1_0000_0000) as u32
}

/// What a request returns to the supervisor, where a successful one returns `value`.
pub open spec fn access_ret(reply: Result<(Error, usize), ()>, value: usize) -> SbiRet {
    match reply {
        Ok((status, _)) => if status == Error::Success {
            SbiRet::ok(value)
        } else {
            sbi_of_rpmi(status)
        },
        Err(()) => SbiRet::err(SbiError::Timeout),
    }
}

/// Reports a request whose success returns `value`.
pub fn finish_access(reply: Result<(Error, usize), ()>, value: u32) -> (r: SbiRet)
    ensures
        r == access_ret(reply, value as usize),
{
    match reply {
        Ok((status, _)) => if status == Error::Success {
            SbiRet::success(value as usize)
        } else {
            rpmi_error_to_sbi(status)
        },
        Err(()) => SbiRet::timeout(),
    }
}

/// A hart's identifier as requests carry it.
pub fn hart_to_word(hart: usize) -> (w: u32)
    ensures
        w == hart_word(hart),
{
    (hart as u64 % 0x1_0000_0000) as u32
}

/// Access to a register.
#[derive(Clone, Copy, PartialEq, Eq, Structural, Debug)]
pub enum CppcAccess {
    /// Asks for its width.
    Probe,
    /// Reads its lower half.
    Read,
    /// Reads its upper half.
    ReadHi,
    /// Writes it.
    Write(u64),
}

impl CppcAccess {
    /// The service that performs the access.
    pub open spec fn spec_service(self) -> u8 {
        match self {
            CppcAccess::Probe => cppc_service::PROBE_REG,
            CppcAccess::Read => cppc_service::READ_REG,
            CppcAccess::ReadHi => cppc_service::READ_REG,
            CppcAccess::Write(_) => cppc_service::WRITE_REG,
        }
    }

    /// The request's bytes on the wire.
    pub open spec fn wire(self, hart: usize, reg_id: u32) -> Seq<u8> {
        let hart_id = hart_word(hart);
        match self {
            CppcAccess::Probe => (CppcProbeReq { hart_id, reg_id }).wire(),
            CppcAccess::Read => (CppcReadReq { hart_id, reg_id }).wire(),
            CppcAccess::ReadHi => (CppcReadReq { hart_id, reg_id }).wire(),
            CppcAccess::Write(val) => CppcWriteReq::of_value(hart_id, reg_id, val).wire(),
        }
    }

    /// Size of the response in bytes.
    pub open spec fn spec_room(self) -> usize {
        match self {
            CppcAccess::Probe => 8,
            CppcAccess::Read => 12,
            CppcAccess::ReadHi => 12,
            CppcAccess::Write(_) => 4,
        }
    }

    /// What a successful response returns to the supervisor.
    pub open spec fn result(self, resp: Seq<u8>) -> u32 {
        match self {
            CppcAccess::Probe => u32_at(resp, 4),
            CppcAccess::Read => u32_at(resp, 4),
            CppcAccess::ReadHi => u32_at(resp, 8),
            CppcAccess::Write(_) => 0,
        }
    }

    /// The service that performs the access.
    pub fn service(self) -> (s: u8)
        ensures
            s == self.spec_service(),
    {
        match self {
            CppcAccess::Probe => cppc_service::PROBE_REG,
            CppcAccess::Read => cppc_service::READ_REG,
            CppcAccess::ReadHi => cppc_service::READ_REG,
            CppcAccess::Write(_) => cppc_service::WRITE_REG,
        }
    }

    /// The request's bytes on the wire.
    pub fn request(self, hart: usize, reg_id: u32) -> (b: Vec<u8>)
        ensures
            b@ == self.wire(hart, reg_id),
    {
        let hart_id: u32 = hart_to_word(hart);
        match self {
            CppcAccess::Probe => CppcProbeReq { hart_id, reg_id }.to_bytes(),
            CppcAccess::Read => CppcReadReq { hart_id, reg_id }.to_bytes(),
            CppcAccess::ReadHi => CppcReadReq { hart_id, reg_id }.to_bytes(),
            CppcAccess::Write(val) => CppcWriteReq::new(hart_id, reg_id, val).to_bytes(),
        }
    }

    /// Size of the response in bytes.
    pub fn room(self) -> (n: usize)
        ensures
            n == self.spec_room(),
    {
        match self {
            CppcAccess::Probe => 8,
            CppcAccess::Read => 12,
            CppcAccess::ReadHi => 12,
            CppcAccess::Write(_) => 4,
        }
    }

    /// Reports the outcome of the access to the supervisor.
    pub fn finish(self, reply: Result<(Error, usize), ()>, resp: &[u8]) -> (r: SbiRet)
        requires
            resp@.len() == self.spec_room(),
        ensures
            r == access_ret(reply, self.result(resp@) as usize),
    {
        let value: u32 = match self {
            CppcAccess::Probe => read_u32(resp, 4),
            CppcAccess::Read => read_u32(resp, 4),
            CppcAccess::ReadHi => read_u32(resp, 8),
            CppcAccess::Write(_) => 0,
        };
        finish_access(reply, value)
    }
}

/// Performance-control extension.
pub struct SbiCppc;

impl SbiCppc {
    /// Performs an access through a mailbox.
    fn access(
        &self,
        access: CppcAccess,
        hart: usize,
        reg_id: u32,
        m: &mut RpmiMailbox,
        acks: &[SmqQueue],
    ) -> (r: SbiRet)
        requires
            old(m)@.wf(),
            old(m)@.acks_readable(acks@),
        ensures
            ({
                let done = old(m)@.requested(
                    servicegroup::CPPC,
                    access.spec_service(),
                    access.wire(hart, reg_id),
                    zeroes(access.spec_room() as nat),
                    acks@,
                );
                &&& r == access_ret(done.reply, access.result(done.resp) as usize)
                &&& final(m)@ == done.mailbox
            }),
    {
        let req = access.request(hart, reg_id);
        let mut resp: Vec<u8> = vec![0u8; access.room()];
        assert(resp@ =~= zeroes(access.spec_room() as nat));
        let reply = m.normal_request_with_status(
            servicegroup::CPPC,
            access.service(),
            req.as_slice(),
            resp.as_mut_slice(),
            acks,
        );
        access.finish(reply, resp.as_slice())
    }

    /// Width of a register in bits; without a mailbox no register is implemented.
    pub fn probe(
        &self,
        hart: usize,
        reg_id: u32,
        mailbox: Option<&mut RpmiMailbox>,
        acks: &[SmqQueue],
    ) -> (r: SbiRet)
        requires
            mailbox matches Some(m) ==> m@.wf() && m@.acks_readable(acks@),
        ensures
            match mailbox {
                None => r == SbiRet::ok(0),
                Some(m) => {
                    let done = m@.requested(
                        servicegroup::CPPC,
                        cppc_service::PROBE_REG,
                        (CppcProbeReq { hart_id: hart_word(hart), reg_id }).wire(),
                        zeroes(8),
                        acks@,
                    );
                    &&& r == access_ret(done.reply, u32_at(done.resp, 4) as usize)
                    &&& final(m)@ == done.mailbox
                },
            },
    {
        match mailbox {
            None => SbiRet::success(0),
            Some(m) => self.access(CppcAccess::Probe, hart, reg_id, m, acks),
        }
    }

    /// Lower half of a register.
    pub fn read(
        &self,
        hart: usize,
        reg_id: u32,
        mailbox: Option<&mut RpmiMailbox>,
        acks: &[SmqQueue],
    ) -> (r: SbiRet)
        requires
            mailbox matches Some(m) ==> m@.wf() && m@.acks_readable(acks@),
        ensures
            match mailbox {
                None => r == SbiRet::err(SbiError::NotSupported),
                Some(m) => {
                    let done = m@.requested(
                        servicegroup::CPPC,
                        cppc_service::READ_REG,
                        (CppcReadReq { hart_id: hart_word(hart), reg_id }).wire(),
                        zeroes(12),
                        acks@,
                    );
                    &&& r == access_ret(done.reply, u32_at(done.resp, 4) as usize)
                    &&& final(m)@ == done.mailbox
                },
            },
    {
        match mailbox {
            None => SbiRet::not_supported(),
            Some(m) => self.access(CppcAccess::Read, hart, reg_id, m, acks),
        }
    }

    /// Upper half of a register.
    pub fn read_hi(
        &self,
        hart: usize,
        reg_id: u32,
        mailbox: Option<&mut RpmiMailbox>,
        acks: &[SmqQueue],
    ) -> (r: SbiRet)
        requires
            mailbox matches Some(m) ==> m@.wf() && m@.acks_readable(acks@),
        ensures
            match mailbox {
                None => r == SbiRet::err(SbiError::NotSupported),
                Some(m) => {
                    let done = m@.requested(
                        servicegroup::CPPC,
                        cppc_service::READ_REG,
                        (CppcReadReq { hart_id: hart_word(hart), reg_id }).wire(),
                        zeroes(12),
                        acks@,
                    );
                    &&& r == access_ret(done.reply, u32_at(done.resp, 8) as usize)
                    &&& final(m)@ == done.mailbox
                },
            },
    {
        match mailbox {
            None => SbiRet::not_supported(),
            Some(m) => self.access(CppcAccess::ReadHi, hart, reg_id, m, acks),
        }
    }

    /// Writes a register.
    pub fn write(
        &self,
        hart: usize,
        reg_id: u32,
        val: u64,
        mailbox: Option<&mut RpmiMailbox>,
        acks: &[SmqQueue],
    ) -> (r: SbiRet)
        requires
            mailbox matches Some(m) ==> m@.wf() && m@.acks_readable(acks@),
        ensures
            match mailbox {
                None => r == SbiRet::err(SbiError::NotSupported),
                Some(m) => {
                    let done = m@.requested(
                        servicegroup::CPPC,
                        cppc_service::WRITE_REG,
                        CppcWriteReq::of_value(hart_word(hart), reg_id, val).wire(),
                        zeroes(4),
                        acks@,
                    );
                    &&& r == access_ret(done.reply, 0)
                    &&& final(m)@ == done.mailbox
                },
            },
    {
        match mailbox {
            None => SbiRet::not_supported(),
            Some(m) => self.access(CppcAccess::Write(val), hart, reg_id, m, acks),
        }
    }
}

impl CppcAccess {
    /// What a request for an access carries: the low 32 bits of the hart's identifier, the register
    /// and, for a write, the value, lower half first. Both halves of a register are asked for in
    /// the same way.
    pub proof fn access_on_wire(self, hart: usize, reg_id: u32)
        ensures
            ({
                let b = self.wire(hart, reg_id);
                &&& b.len() == if self is Write {
                    16int
                } else {
                    8
                }
                &&& 0 <= u32_at(b, 0) < 0x1_0000_0000
                &&& (hart - u32_at(b, 0)) % 0x1_0000_0000 == 0
                &&& u32_at(b, 4) == reg_id
                &&& self matches CppcAccess::Write(val) ==> u32_at(b, 8) + 0x1_0000_0000 * u32_at(
                    b,
                    12,
                ) == val
                &&& self.spec_service() == match self {
                    CppcAccess::Probe => 2u8,
                    CppcAccess::Read => 3,
                    CppcAccess::ReadHi => 3,
                    CppcAccess::Write(_) => 4,
                }
            }),
    {
        crate::bytes::u32_roundtrip(hart_word(hart));
        crate::bytes::u32_roundtrip(reg_id);
        if let CppcAccess::Write(val) = self {
            CppcWriteReq::value_on_wire(hart_word(hart), reg_id, val);
        }
    }

    /// The halves that are read make up the value that the response carries after its status word,
    /// and a width is the word after the status. A write returns nothing.
    pub proof fn halves_make_value(resp: Seq<u8>, val: u64, access: CppcAccess)
        requires
            resp.len() == 12,
            resp[4] + 0x100 * resp[5] + 0x1_0000 * resp[6] + 0x100_0000 * resp[7] + 0x1_0000_0000
                * resp[8] + 0x100_0000_0000 * resp[9] + 0x1_0000_0000_0000 * resp[10]
                + 0x100_0000_0000_0000 * resp[11] == val,
        ensures
            CppcAccess::Read.result(resp) + 0x1_0000_0000 * CppcAccess::ReadHi.result(resp) == val,
            CppcAccess::Probe.result(resp) == val % 0x1_0000_0000,
            access is Write ==> access.result(resp) == 0,
    {
        let lo = u32_at(resp, 4);
        let hi = u32_at(resp, 8);
        crate::bytes::number_at(resp, 4);
        crate::bytes::number_at(resp, 8);
        assert(lo + 0x1_0000_0000 * hi == val);
        assert((lo + 0x1_0000_0000 * hi) % 0x1_0000_0000 == lo) by (nonlinear_arith)
            requires
                0 <= lo < 0x1_0000_0000,
        ;
    }

    /// A response has room for its status word and what is returned: one word for a width, two for
    /// a value, none for a write.
    pub proof fn response_room(self)
        ensures
            self is Probe ==> self.spec_room() == 8,
            self is Read || self is ReadHi ==> self.spec_room() == 12,
            self is Write ==> self.spec_room() == 4,
    {
    }
}

/// What an access reports: its value if the management processor reports success, the error that
/// stands for its status if it reports another, and a timeout if it reports nothing.
pub proof fn access_reported(reply: Result<(Error, usize), ()>, value: usize)
    ensures
        ({
            let r = access_ret(reply, value);
            &&& r.error == 0 <==> (reply matches Ok(answer) && answer.0 == Error::Success)
            &&& r.error == 0 ==> r.value == value
            &&& r.error != 0 ==> r.value == 0
            &&& reply is Err ==> r.error + 12 == usize::MAX + 1
            &&& reply matches Ok((status, _)) ==> status != Error::Success ==> r == sbi_of_rpmi(
                status,
            )
        }),
{
}

} // verus!
