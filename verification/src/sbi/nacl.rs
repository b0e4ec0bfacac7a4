//! Nested acceleration.
//!
//! The hart implements the hypervisor extension itself, so that no feature is available and the
//! extension reports itself as missing. The protocol is served nevertheless.
use vstd::prelude::*;

use crate::binary::{SbiError, SbiRet, SharedPtr};

verus! {

/// Size of the shared memory on a hart with 64-bit registers.
pub const NACL_SHMEM_SIZE: usize = 12288;

/// Memory that is filled with zeroes.
#[derive(Clone, Copy, PartialEq, Eq, Structural, Debug)]
pub struct ZeroFill {
    /// First address.
    pub addr: usize,
    /// Number of bytes.
    pub len: usize,
}

/// Outcome of a request to set shared memory.
#[derive(Clone, Copy, PartialEq, Eq, Structural, Debug)]
pub struct ShmemOutcome {
    /// What the supervisor gets.
    pub ret: SbiRet,
    /// The memory that is filled with zeroes before that, if any is.
    pub zeroed: Option<ZeroFill>,
}

/// What a request to set `size` bytes of shared memory leads to, where the address must be a
/// multiple of `align` and `writable` tells whether the supervisor may write the memory.
pub open spec fn shmem_outcome(
    shmem: SharedPtr,
    flags: usize,
    align: int,
    size: usize,
    writable: bool,
) -> ShmemOutcome {
    if flags != 0 {
        ShmemOutcome { ret: SbiRet::err(SbiError::InvalidParam), zeroed: None }
    } else if shmem.all_ones() {
        ShmemOutcome { ret: SbiRet::ok(0), zeroed: None }
    } else if shmem.phys_addr_lo as int % align != 0 || shmem.phys_addr_hi != 0 {
        ShmemOutcome { ret: SbiRet::err(SbiError::InvalidParam), zeroed: None }
    } else if !writable {
        ShmemOutcome { ret: SbiRet::err(SbiError::InvalidAddress), zeroed: None }
    } else {
        ShmemOutcome {
            ret: SbiRet::ok(0),
            zeroed: Some(ZeroFill { addr: shmem.phys_addr_lo, len: size }),
        }
    }
}

/// Nested acceleration extension.
pub struct SbiNacl;

impl SbiNacl {
    /// Whether a feature is available: none is.
    pub fn probe_feature(&self, _feature_id: u32) -> (r: SbiRet)
        ensures
            r == SbiRet::ok(0),
    {
        SbiRet::success(0)
    }

    /// Sets the shared memory. Flags are reserved; a pointer of all ones switches the memory off;
    /// any other must be aligned to a page and writable by the supervisor, and the memory is filled
    /// with zeroes.
    pub fn set_shmem(&self, shmem: SharedPtr, flags: usize, writable: bool) -> (r: ShmemOutcome)
        ensures
            r == shmem_outcome(shmem, flags, 4096, NACL_SHMEM_SIZE, writable),
    {
        let lo: usize = shmem.phys_addr_lo;
        let hi: usize = shmem.phys_addr_hi;
        assert(lo & 0xfff == lo % 4096) by (bit_vector);
        if flags != 0 {
            return ShmemOutcome { ret: SbiRet::invalid_param(), zeroed: None };
        }
        if shmem.is_all_ones() {
            return ShmemOutcome { ret: SbiRet::success(0), zeroed: None };
        }
        if lo & 0xfff != 0 || hi != 0 {
            return ShmemOutcome { ret: SbiRet::invalid_param(), zeroed: None };
        }
        if !writable {
            return ShmemOutcome { ret: SbiRet::invalid_address(), zeroed: None };
        }
        ShmemOutcome {
            ret: SbiRet::success(0),
            zeroed: Some(ZeroFill { addr: lo, len: NACL_SHMEM_SIZE }),
        }
    }

    /// Synchronises a register: not available.
    pub fn sync_csr(&self, _csr_num: usize) -> (r: SbiRet)
        ensures
            r == SbiRet::err(SbiError::NotSupported),
    {
        SbiRet::not_supported()
    }

    /// Synchronises fences: not available.
    pub fn sync_hfence(&self, _entry_index: usize) -> (r: SbiRet)
        ensures
            r == SbiRet::err(SbiError::NotSupported),
    {
        SbiRet::not_supported()
    }

    /// Synchronises a return from a trap: not available.
    pub fn sync_sret(&self) -> (r: SbiRet)
        ensures
            r == SbiRet::err(SbiError::NotSupported),
    {
        SbiRet::not_supported()
    }

    /// Whether the extension is there: it is not.
    pub fn _rustsbi_probe(&self) -> (n: usize)
        ensures
            n == 0,
    {
        0
    }
}

/// Memory is filled with zeroes only if the supervisor may write it and it is aligned, and exactly
/// when the request sets a memory and succeeds; it is the whole memory then.
pub proof fn zeroed_only_if_allowed(
    shmem: SharedPtr,
    flags: usize,
    align: int,
    size: usize,
    writable: bool,
)
    requires
        0 < align,
    ensures
        ({
            let r = shmem_outcome(shmem, flags, align, size, writable);
            &&& r.zeroed is Some <==> r.ret == SbiRet::ok(0) && !shmem.all_ones()
            &&& r.zeroed matches Some(z) ==> writable && z.addr == shmem.phys_addr_lo && z.len
                == size && z.addr as int % align == 0
        }),
{
}

/// When shared memory is set, and why not. Flags must be clear; a pointer with all bits set
/// switches the memory off and is not looked at further; the upper half must be clear and the lower
/// one aligned, and the supervisor must be allowed to write.
pub proof fn shmem_reasons(
    shmem: SharedPtr,
    flags: usize,
    align: int,
    size: usize,
    writable: bool,
)
    requires
        0 < align,
    ensures
        ({
            let r = shmem_outcome(shmem, flags, align, size, writable);
            let off = shmem.phys_addr_lo == usize::MAX && shmem.phys_addr_hi == usize::MAX;
            let sound = shmem.phys_addr_hi == 0 && shmem.phys_addr_lo as int % align == 0;
            &&& r.ret.error == 0 <==> flags == 0 && (off || sound && writable)
            &&& r.ret.error == 0 ==> r.ret.value == 0
            &&& flags != 0 || !off && !sound ==> r.ret == SbiRet::err(SbiError::InvalidParam)
            &&& flags == 0 && !off && sound && !writable ==> r.ret == SbiRet::err(
                SbiError::InvalidAddress,
            )
            &&& off || r.ret.error != 0 ==> r.zeroed is None
            &&& !off && r.ret.error == 0 ==> r.zeroed == Some(
                ZeroFill { addr: shmem.phys_addr_lo, len: size },
            )
        }),
{
}

/// The memory that nested acceleration shares is three pages long.
pub proof fn three_pages()
    ensures
        NACL_SHMEM_SIZE == 3 * 4096,
{
}

} // verus!
