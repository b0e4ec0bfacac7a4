//! Requests of the collaborative-processor-performance-control service group.
use vstd::prelude::*;

use crate::bytes::{u32_at, u32_le, write_u32};

verus! {

/// Asks for the width of a register.
#[derive(Clone, Copy, PartialEq, Eq, Structural, Debug)]
pub struct CppcProbeReq {
    /// Hart identifier.
    pub hart_id: u32,
    /// Register identifier.
    pub reg_id: u32,
}

/// Asks for the value of a register.
#[derive(Clone, Copy, PartialEq, Eq, Structural, Debug)]
pub struct CppcReadReq {
    /// Hart identifier.
    pub hart_id: u32,
    /// Register identifier.
    pub reg_id: u32,
}

/// Asks for a register to be written.
#[derive(Clone, Copy, PartialEq, Eq, Structural, Debug)]
pub struct CppcWriteReq {
    /// Hart identifier.
    pub hart_id: u32,
    /// Register identifier.
    pub reg_id: u32,
    /// Lower half of the value.
    pub data_lo: u32,
    /// Upper half of the value.
    pub data_hi: u32,
}

impl CppcProbeReq {
    /// The request's bytes on the wire.
    pub open spec fn wire(self) -> Seq<u8> {
        u32_le(self.hart_id) + u32_le(self.reg_id)
    }

    /// The request's bytes on the wire.
    pub fn to_bytes(&self) -> (b: Vec<u8>)
        ensures
            b@ == self.wire(),
    {
        let mut b: Vec<u8> = vec![0u8; 8];
        let s = b.as_mut_slice();
        write_u32(s, 0, self.hart_id);
        write_u32(s, 4, self.reg_id);
        assert(b@ =~= self.wire());
        b
    }
}

impl CppcReadReq {
    /// The request's bytes on the wire.
    pub open spec fn wire(self) -> Seq<u8> {
        u32_le(self.hart_id) + u32_le(self.reg_id)
    }

    /// The request's bytes on the wire.
    pub fn to_bytes(&self) -> (b: Vec<u8>)
        ensures
            b@ == self.wire(),
    {
        let mut b: Vec<u8> = vec![0u8; 8];
        let s = b.as_mut_slice();
        write_u32(s, 0, self.hart_id);
        write_u32(s, 4, self.reg_id);
        assert(b@ =~= self.wire());
        b
    }
}

impl CppcWriteReq {
    /// The request that writes `val` to a register.
    pub open spec fn of_value(hart_id: u32, reg_id: u32, val: u64) -> CppcWriteReq {
        CppcWriteReq {
            hart_id,
            reg_id,
            data_lo: (val % 0x1_0000_0000) as u32,
            data_hi: (val / 0x1_0000_0000) as u32,
        }
    }

    /// The request's bytes on the wire.
    pub open spec fn wire(self) -> Seq<u8> {
        u32_le(self.hart_id) + u32_le(self.reg_id) + u32_le(self.data_lo) + u32_le(self.data_hi)
    }

    /// Creates the request that writes `val` to a register.
    pub fn new(hart_id: u32, reg_id: u32, val: u64) -> (q: CppcWriteReq)
        ensures
            q == CppcWriteReq::of_value(hart_id, reg_id, val),
    {
        CppcWriteReq {
            hart_id,
            reg_id,
            data_lo: (val % 0x1_0000_0000) as u32,
            data_hi: (val / 0x1_0000_0000) as u32,
        }
    }

    /// The request's bytes on the wire.
    pub fn to_bytes(&self) -> (b: Vec<u8>)
        ensures
            b@ == self.wire(),
    {
        let mut b: Vec<u8> = vec![0u8; 16];
        let s = b.as_mut_slice();
        write_u32(s, 0, self.hart_id);
        write_u32(s, 4, self.reg_id);
        write_u32(s, 8, self.data_lo);
        write_u32(s, 12, self.data_hi);
        assert(b@ =~= self.wire());
        b
    }

    /// The two halves on the wire make up the value that is written.
    pub proof fn value_on_wire(hart_id: u32, reg_id: u32, val: u64)
        ensures
            ({
                let b = CppcWriteReq::of_value(hart_id, reg_id, val).wire();
                &&& u32_at(b, 0) == hart_id
                &&& u32_at(b, 4) == reg_id
                &&& u32_at(b, 8) + 0x1_0000_0000 * u32_at(b, 12) == val
            }),
    {
        let q = CppcWriteReq::of_value(hart_id, reg_id, val);
        crate::bytes::u32_roundtrip(hart_id);
        crate::bytes::u32_roundtrip(reg_id);
        crate::bytes::u32_roundtrip(q.data_lo);
        crate::bytes::u32_roundtrip(q.data_hi);
    }
}

} // verus!
