//! Identifiers of the four queues of a mailbox.
use vstd::prelude::*;

verus! {

/// Requests of the application processor.
pub const A2P_REQ: usize = 0;

/// Acknowledgements of the platform management processor.
pub const P2A_ACK: usize = 1;

/// Requests and notifications of the platform management processor.
pub const P2A_REQ: usize = 2;

/// Acknowledgements of the application processor.
pub const A2P_ACK: usize = 3;

/// Number of queues.
pub const MAX_COUNT: usize = 4;

/// Requests to the management processor come first, then its acknowledgements, its requests and the
/// acknowledgements to it.
pub proof fn queue_order()
    ensures
        A2P_REQ == 0,
        P2A_ACK == 1,
        P2A_REQ == 2,
        A2P_ACK == 3,
        MAX_COUNT == 4,
{
}

} // verus!
