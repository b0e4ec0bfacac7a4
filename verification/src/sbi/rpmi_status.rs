//! Conversion of platform-management statuses into SBI return values.
use vstd::prelude::*;

use crate::binary::{SbiError, SbiRet};
use crate::rpmi::message::Error;

verus! {

/// The return value that reports a status to the supervisor.
pub open spec fn sbi_of_rpmi(e: Error) -> SbiRet {
    match e {
        Error::Success => SbiRet::ok(0),
        Error::Failed => SbiRet::err(SbiError::Failed),
        Error::NotSupported => SbiRet::err(SbiError::NotSupported),
        Error::InvalidParam => SbiRet::err(SbiError::InvalidParam),
        Error::Denied => SbiRet::err(SbiError::Denied),
        Error::InvalidAddr => SbiRet::err(SbiError::InvalidAddress),
        Error::Already => SbiRet::err(SbiError::AlreadyAvailable),
        Error::Extension => SbiRet::err(SbiError::Failed),
        Error::HwFault => SbiRet::err(SbiError::Io),
        Error::Busy => SbiRet::err(SbiError::Failed),
        Error::InvalidState => SbiRet::err(SbiError::InvalidState),
        Error::BadRange => SbiRet::err(SbiError::BadRange),
        Error::Timeout => SbiRet::err(SbiError::Timeout),
        Error::Io => SbiRet::err(SbiError::Io),
        Error::NoData => SbiRet::err(SbiError::Failed),
    }
}

/// Converts a status into a return value.
pub fn rpmi_error_to_sbi(e: Error) -> (r: SbiRet)
    ensures
        r == sbi_of_rpmi(e),
{
    match e {
        Error::Success => SbiRet::success(0),
        Error::Failed => SbiRet::failed(),
        Error::NotSupported => SbiRet::not_supported(),
        Error::InvalidParam => SbiRet::invalid_param(),
        Error::Denied => SbiRet::denied(),
        Error::InvalidAddr => SbiRet::invalid_address(),
        Error::Already => SbiRet::already_available(),
        Error::Extension => SbiRet::failed(),
        Error::HwFault => SbiRet::io(),
        Error::Busy => SbiRet::failed(),
        Error::InvalidState => SbiRet::invalid_state(),
        Error::BadRange => SbiRet::bad_range(),
        Error::Timeout => SbiRet::timeout(),
        Error::Io => SbiRet::io(),
        Error::NoData => SbiRet::failed(),
    }
}

/// Only success is reported as success.
pub proof fn only_success_succeeds(e: Error)
    ensures
        sbi_of_rpmi(e).succeeded() <==> e == Error::Success,
{
}

/// A status is reported under its own number where the two interfaces share it. A hardware fault is
/// reported as a failure of input or output, and any other status as a plain failure.
pub proof fn numbers_kept(e: Error)
    ensures
        ({
            let n = -e.status();
            let r = sbi_of_rpmi(e);
            &&& r.value == 0
            &&& n == 0 ==> r.error == 0
            &&& 1 <= n <= 6 || 10 <= n <= 13 ==> r.error + n == usize::MAX + 1
            &&& n == 8 ==> r.error + 13 == usize::MAX + 1
            &&& n == 7 || n == 9 || n == 14 ==> r.error == usize::MAX
        }),
{
}

} // verus!
