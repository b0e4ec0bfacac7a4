//! Values that cross the supervisor binary interface: return values, shared-memory pointers and
//! trigger masks.
use vstd::prelude::*;

verus! {

/// Standard error of a call.
#[derive(Clone, Copy, PartialEq, Eq, Structural, Debug)]
pub enum SbiError {
    /// The call failed for unknown reasons.
    Failed,
    /// The target does not support the call.
    NotSupported,
    /// A parameter is invalid.
    InvalidParam,
    /// The call is not allowed.
    Denied,
    /// An address is invalid.
    InvalidAddress,
    /// The resource is already available.
    AlreadyAvailable,
    /// No shared memory is set up.
    NoShmem,
    /// The target is in the wrong state.
    InvalidState,
    /// A range is bad.
    BadRange,
    /// The call timed out.
    Timeout,
    /// Input or output failed.
    Io,
}

impl SbiError {
    /// The error's number: the error register holds its negative.
    pub open spec fn code(self) -> int {
        match self {
            SbiError::Failed => 1,
            SbiError::NotSupported => 2,
            SbiError::InvalidParam => 3,
            SbiError::Denied => 4,
            SbiError::InvalidAddress => 5,
            SbiError::AlreadyAvailable => 6,
            SbiError::NoShmem => 9,
            SbiError::InvalidState => 10,
            SbiError::BadRange => 11,
            SbiError::Timeout => 12,
            SbiError::Io => 13,
        }
    }
}

/// Return value of a call: the contents of the error and the value register.
#[derive(Clone, Copy, PartialEq, Eq, Structural, Debug)]
pub struct SbiRet {
    /// Error number; zero if the call succeeded.
    pub error: usize,
    /// Result value.
    pub value: usize,
}

impl SbiRet {
    /// A call succeeded with this value.
    pub open spec fn ok(value: usize) -> SbiRet {
        SbiRet { error: 0, value }
    }

    /// A call failed: the error register holds the error's number, negated in two's complement.
    pub open spec fn err(e: SbiError) -> SbiRet {
        SbiRet { error: (usize::MAX + 1 - e.code()) as usize, value: 0 }
    }

    /// A call succeeded.
    pub open spec fn succeeded(self) -> bool {
        self.error == 0
    }

    /// A failed call is told from a successful one, and two errors from each other.
    pub proof fn errors_distinct(a: SbiError, b: SbiError, value: usize)
        ensures
            SbiRet::err(a) != SbiRet::ok(value),
            SbiRet::err(a) == SbiRet::err(b) ==> a == b,
    {
    }

    /// Builds a successful return value.
    ///
    /// Trusted: `sbi_spec::binary::SbiRet::success` puts zero into the error register and its
    /// argument into the value register.
    #[verifier::external_body]
    pub(crate) fn success(value: usize) -> (r: SbiRet)
        ensures
            r == SbiRet::ok(value),
    {
        let r = sbi_spec::binary::SbiRet::<usize>::success(value);
        SbiRet { error: r.error, value: r.value }
    }

    /// Builds the return value that says: the call failed for unknown reasons.
    ///
    /// Trusted: `sbi_spec::binary::SbiRet::failed` puts the error's negated number into
    /// the error register and zero into the value register.
    #[verifier::external_body]
    pub(crate) fn failed() -> (r: SbiRet)
        ensures
            r == SbiRet::err(SbiError::Failed),
    {
        let r = sbi_spec::binary::SbiRet::<usize>::failed();
        SbiRet { error: r.error, value: r.value }
    }

    /// Builds the return value that says: the target does not support the call.
    ///
    /// Trusted: `sbi_spec::binary::SbiRet::not_supported` puts the error's negated number into
    /// the error register and zero into the value register.
    #[verifier::external_body]
    pub(crate) fn not_supported() -> (r: SbiRet)
        ensures
            r == SbiRet::err(SbiError::NotSupported),
    {
        let r = sbi_spec::binary::SbiRet::<usize>::not_supported();
        SbiRet { error: r.error, value: r.value }
    }

    /// Builds the return value that says: a parameter is invalid.
    ///
    /// Trusted: `sbi_spec::binary::SbiRet::invalid_param` puts the error's negated number into
    /// the error register and zero into the value register.
    #[verifier::external_body]
    pub(crate) fn invalid_param() -> (r: SbiRet)
        ensures
            r == SbiRet::err(SbiError::InvalidParam),
    {
        let r = sbi_spec::binary::SbiRet::<usize>::invalid_param();
        SbiRet { error: r.error, value: r.value }
    }

    /// Builds the return value that says: the call is not allowed.
    ///
    /// Trusted: `sbi_spec::binary::SbiRet::denied` puts the error's negated number into
    /// the error register and zero into the value register.
    #[verifier::external_body]
    pub(crate) fn denied() -> (r: SbiRet)
        ensures
            r == SbiRet::err(SbiError::Denied),
    {
        let r = sbi_spec::binary::SbiRet::<usize>::denied();
        SbiRet { error: r.error, value: r.value }
    }

    /// Builds the return value that says: an address is invalid.
    ///
    /// Trusted: `sbi_spec::binary::SbiRet::invalid_address` puts the error's negated number into
    /// the error register and zero into the value register.
    #[verifier::external_body]
    pub(crate) fn invalid_address() -> (r: SbiRet)
        ensures
            r == SbiRet::err(SbiError::InvalidAddress),
    {
        let r = sbi_spec::binary::SbiRet::<usize>::invalid_address();
        SbiRet { error: r.error, value: r.value }
    }

    /// Builds the return value that says: the resource is already available.
    ///
    /// Trusted: `sbi_spec::binary::SbiRet::already_available` puts the error's negated number into
    /// the error register and zero into the value register.
    #[verifier::external_body]
    pub(crate) fn already_available() -> (r: SbiRet)
        ensures
            r == SbiRet::err(SbiError::AlreadyAvailable),
    {
        let r = sbi_spec::binary::SbiRet::<usize>::already_available();
        SbiRet { error: r.error, value: r.value }
    }

    /// Builds the return value that says: no shared memory is set up.
    ///
    /// Trusted: `sbi_spec::binary::SbiRet::no_shmem` puts the error's negated number into
    /// the error register and zero into the value register.
    #[verifier::external_body]
    pub(crate) fn no_shmem() -> (r: SbiRet)
        ensures
            r == SbiRet::err(SbiError::NoShmem),
    {
        let r = sbi_spec::binary::SbiRet::<usize>::no_shmem();
        SbiRet { error: r.error, value: r.value }
    }

    /// Builds the return value that says: the target is in the wrong state.
    ///
    /// Trusted: `sbi_spec::binary::SbiRet::invalid_state` puts the error's negated number into
    /// the error register and zero into the value register.
    #[verifier::external_body]
    pub(crate) fn invalid_state() -> (r: SbiRet)
        ensures
            r == SbiRet::err(SbiError::InvalidState),
    {
        let r = sbi_spec::binary::SbiRet::<usize>::invalid_state();
        SbiRet { error: r.error, value: r.value }
    }

    /// Builds the return value that says: a range is bad.
    ///
    /// Trusted: `sbi_spec::binary::SbiRet::bad_range` puts the error's negated number into
    /// the error register and zero into the value register.
    #[verifier::external_body]
    pub(crate) fn bad_range() -> (r: SbiRet)
        ensures
            r == SbiRet::err(SbiError::BadRange),
    {
        let r = sbi_spec::binary::SbiRet::<usize>::bad_range();
        SbiRet { error: r.error, value: r.value }
    }

    /// Builds the return value that says: the call timed out.
    ///
    /// Trusted: `sbi_spec::binary::SbiRet::timeout` puts the error's negated number into
    /// the error register and zero into the value register.
    #[verifier::external_body]
    pub(crate) fn timeout() -> (r: SbiRet)
        ensures
            r == SbiRet::err(SbiError::Timeout),
    {
        let r = sbi_spec::binary::SbiRet::<usize>::timeout();
        SbiRet { error: r.error, value: r.value }
    }

    /// Builds the return value that says: input or output failed.
    ///
    /// Trusted: `sbi_spec::binary::SbiRet::io` puts the error's negated number into
    /// the error register and zero into the value register.
    #[verifier::external_body]
    pub(crate) fn io() -> (r: SbiRet)
        ensures
            r == SbiRet::err(SbiError::Io),
    {
        let r = sbi_spec::binary::SbiRet::<usize>::io();
        SbiRet { error: r.error, value: r.value }
    }
}

/// Pointer into memory that the supervisor shares, given by the halves of its physical address.
#[derive(Clone, Copy, PartialEq, Eq, Structural, Debug)]
pub struct SharedPtr {
    /// Lower half of the physical address.
    pub phys_addr_lo: usize,
    /// Upper half of the physical address.
    pub phys_addr_hi: usize,
}

impl SharedPtr {
    /// All address bits are set, which asks for shared memory to be switched off.
    pub open spec fn all_ones(self) -> bool {
        self.phys_addr_lo == usize::MAX && self.phys_addr_hi == usize::MAX
    }

    /// Creates a pointer from the halves of its address.
    pub fn new(phys_addr_lo: usize, phys_addr_hi: usize) -> (p: SharedPtr)
        ensures
            p == (SharedPtr { phys_addr_lo, phys_addr_hi }),
    {
        SharedPtr { phys_addr_lo, phys_addr_hi }
    }

    /// Whether all address bits are set.
    pub fn is_all_ones(&self) -> (b: bool)
        ensures
            b == self.all_ones(),
    {
        self.phys_addr_lo == usize::MAX && self.phys_addr_hi == usize::MAX
    }
}

/// A set of debug triggers: a mask, relative to a base index.
#[derive(Clone, Copy, PartialEq, Eq, Structural, Debug)]
pub struct TriggerMask {
    /// Index of the trigger that the lowest bit stands for.
    pub trig_idx_base: usize,
    /// One bit per trigger.
    pub trig_idx_mask: usize,
}

impl SbiRet {
    /// The error register holds the error's number as a negative one: together with the number it
    /// makes up one more than the greatest value of a register. The value register is clear.
    pub proof fn error_numbers(e: SbiError)
        ensures
            SbiRet::err(e).value == 0,
            SbiRet::err(e).error + (match e {
                SbiError::Failed => 1int,
                SbiError::NotSupported => 2,
                SbiError::InvalidParam => 3,
                SbiError::Denied => 4,
                SbiError::InvalidAddress => 5,
                SbiError::AlreadyAvailable => 6,
                SbiError::NoShmem => 9,
                SbiError::InvalidState => 10,
                SbiError::BadRange => 11,
                SbiError::Timeout => 12,
                SbiError::Io => 13,
            }) == usize::MAX + 1,
    {
    }

    /// A call that succeeds leaves the error register clear and returns its value.
    pub proof fn success_registers(value: usize)
        ensures
            SbiRet::ok(value).error == 0,
            SbiRet::ok(value).value == value,
    {
    }
}

impl SharedPtr {
    /// A pointer asks for shared memory to be switched off only if neither half has a clear bit.
    pub proof fn off_needs_both_halves(self)
        ensures
            self.all_ones() <==> self.phys_addr_lo + self.phys_addr_hi == 2 * usize::MAX,
    {
    }
}

} // verus!
