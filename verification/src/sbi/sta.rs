//! Steal-time accounting.
//!
//! Each hart can share memory into which the firmware writes how long the hart was withheld.
use vstd::prelude::*;

use crate::binary::{SbiRet, SharedPtr};
use crate::bytes::{u32_le, write_u32, zeroes};
use crate::sbi::nacl::{shmem_outcome, ShmemOutcome, ZeroFill};

verus! {

/// Size of the shared structure in bytes.
pub const STEAL_TIME_SIZE: usize = 64;

/// The shared structure: the time in nanoseconds, whether the hart was preempted, and zeroes.
pub open spec fn steal_time(steal_ns: u64, preempted: bool) -> Seq<u8> {
    u32_le((steal_ns % 0x1_0000_0000) as u32) + u32_le((steal_ns / 0x1_0000_0000) as u32) + u32_le(
        if preempted {
            1
        } else {
            0
        },
    ) + zeroes(52)
}

/// Steal-time accounting extension: the address of the memory that each hart shares, zero while it
/// shares none.
pub struct SbiSta {
    shmem: Vec<usize>,
}

impl View for SbiSta {
    type V = Seq<usize>;

    closed spec fn view(&self) -> Seq<usize> {
        self.shmem@
    }
}

/// What a hart's request to set shared memory leads to.
pub open spec fn sta_outcome(shmem: SharedPtr, flags: usize, writable: bool) -> ShmemOutcome {
    shmem_outcome(shmem, flags, STEAL_TIME_SIZE as int, STEAL_TIME_SIZE, writable)
}

/// The addresses after a hart's request to set shared memory.
pub open spec fn shmem_after(
    table: Seq<usize>,
    hart: int,
    shmem: SharedPtr,
    flags: usize,
    writable: bool,
) -> Seq<usize> {
    if flags == 0 && shmem.all_ones() {
        table.update(hart, 0)
    } else {
        match sta_outcome(shmem, flags, writable).zeroed {
            Some(z) => table.update(hart, z.addr),
            None => table,
        }
    }
}

impl SbiSta {
    /// Creates the extension for a number of harts, none of which shares memory.
    pub fn new(num_harts: usize) -> (s: SbiSta)
        ensures
            s@ == Seq::new(num_harts as nat, |i: int| 0usize),
    {
        let shmem: Vec<usize> = vec![0usize; num_harts];
        assert(shmem@ =~= Seq::new(num_harts as nat, |i: int| 0usize));
        SbiSta { shmem }
    }

    /// Reports the steal time of a hart: the address and the bytes that are written there, if the
    /// hart shares memory.
    pub fn report_steal_time(&self, hartid: usize, steal_ns: u64, preempted: bool) -> (r: Option<
        (usize, Vec<u8>),
    >)
        requires
            hartid < self@.len(),
        ensures
            if self@[hartid as int] == 0 {
                r is None
            } else {
                &&& r matches Some((addr, bytes))
                &&& addr == self@[hartid as int]
                &&& bytes@ == steal_time(steal_ns, preempted)
            },
    {
        let base: usize = self.shmem[hartid];
        if base == 0 {
            return None;
        }
        let mut bytes: Vec<u8> = vec![0u8; STEAL_TIME_SIZE];
        let out = bytes.as_mut_slice();
        write_u32(out, 0, (steal_ns % 0x1_0000_0000) as u32);
        write_u32(out, 4, (steal_ns / 0x1_0000_0000) as u32);
        write_u32(
            out,
            8,
            if preempted {
                1
            } else {
                0
            },
        );
        assert(bytes@ =~= steal_time(steal_ns, preempted));
        Some((base, bytes))
    }

    /// Sets the memory that a hart shares. Flags are reserved; a pointer of all ones switches
    /// reporting off; any other must be aligned to 64 bytes and writable by the supervisor, and the
    /// structure is filled with zeroes.
    pub fn set_shmem(&mut self, hart: usize, shmem: SharedPtr, flags: usize, writable: bool) -> (r:
        ShmemOutcome)
        requires
            hart < old(self)@.len(),
        ensures
            r == sta_outcome(shmem, flags, writable),
            final(self)@ == shmem_after(old(self)@, hart as int, shmem, flags, writable),
    {
        let lo: usize = shmem.phys_addr_lo;
        let hi: usize = shmem.phys_addr_hi;
        assert(lo & 0x3f == lo % 64) by (bit_vector);
        if flags != 0 {
            return ShmemOutcome { ret: SbiRet::invalid_param(), zeroed: None };
        }
        if shmem.is_all_ones() {
            self.shmem[hart] = 0;
            return ShmemOutcome { ret: SbiRet::success(0), zeroed: None };
        }
        if lo & 0x3f != 0 || hi != 0 {
            return ShmemOutcome { ret: SbiRet::invalid_param(), zeroed: None };
        }
        if !writable {
            return ShmemOutcome { ret: SbiRet::invalid_address(), zeroed: None };
        }
        self.shmem[hart] = lo;
        ShmemOutcome {
            ret: SbiRet::success(0),
            zeroed: Some(ZeroFill { addr: lo, len: STEAL_TIME_SIZE }),
        }
    }
}

/// Every address that is recorded is aligned, and a request touches no other hart's address.
pub proof fn addresses_sound(
    table: Seq<usize>,
    hart: int,
    shmem: SharedPtr,
    flags: usize,
    writable: bool,
)
    requires
        0 <= hart < table.len(),
        forall|i: int| 0 <= i < table.len() ==> #[trigger] table[i] % STEAL_TIME_SIZE == 0,
    ensures
        ({
            let after = shmem_after(table, hart, shmem, flags, writable);
            &&& after.len() == table.len()
            &&& forall|i: int| 0 <= i < table.len() ==> #[trigger] after[i] % STEAL_TIME_SIZE == 0
            &&& forall|i: int| 0 <= i < table.len() && i != hart ==> after[i] == table[i]
        }),
{
}

/// The shared structure has 64 bytes: the time as one number, least significant byte first, a word
/// that is one if the hart was preempted and zero if not, and nothing else.
pub proof fn steal_time_layout(steal_ns: u64, preempted: bool)
    ensures
        ({
            let b = steal_time(steal_ns, preempted);
            &&& b.len() == 64
            &&& b[0] + 0x100 * b[1] + 0x1_0000 * b[2] + 0x100_0000 * b[3] + 0x1_0000_0000 * b[4]
                + 0x100_0000_0000 * b[5] + 0x1_0000_0000_0000 * b[6] + 0x100_0000_0000_0000 * b[7]
                == steal_ns
            &&& b[8] == if preempted {
                1int
            } else {
                0
            }
            &&& forall|i: int| 9 <= i < 64 ==> #[trigger] b[i] == 0
        }),
{
    let lo = (steal_ns % 0x1_0000_0000) as u32;
    let hi = (steal_ns / 0x1_0000_0000) as u32;
    crate::bytes::digits(0, lo);
    crate::bytes::digits(0, hi);
}

/// The address that a hart's requests leave recorded is the one that it was last told to share, or
/// zero if it was told to share none; a refused request leaves it alone. Memory is set at multiples
/// of 64, 64 bytes of it are filled with zeroes, and no other hart's address changes.
pub proof fn shmem_recorded(
    table: Seq<usize>,
    hart: int,
    shmem: SharedPtr,
    flags: usize,
    writable: bool,
)
    requires
        0 <= hart < table.len(),
    ensures
        ({
            let r = sta_outcome(shmem, flags, writable);
            let after = shmem_after(table, hart, shmem, flags, writable);
            let off = shmem.phys_addr_lo == usize::MAX && shmem.phys_addr_hi == usize::MAX;
            &&& r.ret.error == 0 <==> flags == 0 && (off || shmem.phys_addr_lo % 64 == 0
                && shmem.phys_addr_hi == 0 && writable)
            &&& after.len() == table.len()
            &&& r.ret.error != 0 ==> after == table
            &&& r.ret.error == 0 && off ==> after[hart] == 0
            &&& r.ret.error == 0 && !off ==> after[hart] == shmem.phys_addr_lo
            &&& r.zeroed matches Some(z) ==> z.addr == shmem.phys_addr_lo && z.len == 64
            &&& forall|i: int| 0 <= i < table.len() && i != hart ==> after[i] == table[i]
        }),
{
}

} // verus!
