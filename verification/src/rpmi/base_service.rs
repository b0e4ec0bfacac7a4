//! Services of the RPMI Base service group.
use vstd::prelude::*;

verus! {

/// Base service: enable a notification.
pub const ENABLE_NOTIFICATION: u8 = 0x01;

/// Base service: implementation version.
pub const GET_IMPLEMENTATION_VERSION: u8 = 0x02;

/// Base service: version of the RPMI specification.
pub const GET_SPEC_VERSION: u8 = 0x04;

/// Base service: platform information string.
pub const GET_PLATFORM_INFO: u8 = 0x05;

/// Base service: probe a service group.
pub const PROBE_SERVICE_GROUP: u8 = 0x06;

/// The numbers by which the services are asked for.
pub proof fn service_numbers()
    ensures
        ENABLE_NOTIFICATION == 1,
        GET_IMPLEMENTATION_VERSION == 2,
        GET_SPEC_VERSION == 4,
        GET_PLATFORM_INFO == 5,
        PROBE_SERVICE_GROUP == 6,
{
}

} // verus!
