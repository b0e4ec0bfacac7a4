//! Clients of the service groups.
use vstd::prelude::*;
use vstd::slice::slice_subrange;

use crate::bytes::{copy_bytes, least, read_u32, splice, u32_at, u32_le, u32_to_le_bytes, zeroes};
use crate::rpmi::base_service;
use crate::rpmi::mailbox::RpmiMailbox;
use crate::rpmi::message::Error;
use crate::rpmi::servicegroup;
use crate::rpmi::smq::SmqQueue;

verus! {

/// The error of a request, if it has one: a failure of the transport counts as a timeout, and so
/// does every status but success as that status.
pub open spec fn request_error(reply: Result<(Error, usize), ()>) -> Option<Error> {
    match reply {
        Err(()) => Some(Error::Timeout),
        Ok((status, _)) => if status == Error::Success {
            None
        } else {
            Some(status)
        },
    }
}

/// The two words that follow the status word of a response.
pub open spec fn two_words(reply: Result<(Error, usize), ()>, resp: Seq<u8>) -> Result<
    (u32, u32),
    Error,
> {
    match request_error(reply) {
        Some(e) => Err(e),
        None => Ok((u32_at(resp, 4), u32_at(resp, 8))),
    }
}

/// The second of the two words.
pub open spec fn second_word(
    reply: Result<(Error, usize), ()>,
    resp: Seq<u8>,
) -> Result<u32, Error> {
    match two_words(reply, resp) {
        Ok((_, second)) => Ok(second),
        Err(e) => Err(e),
    }
}

/// Turns the outcome of a request into its error, if it has one.
pub fn check_reply(reply: Result<(Error, usize), ()>) -> (r: Result<(), Error>)
    ensures
        match request_error(reply) {
            Some(e) => r == Err::<(), Error>(e),
            None => r is Ok,
        },
{
    match reply {
        Err(()) => Err(Error::Timeout),
        Ok((status, _)) => if status == Error::Success {
            Ok(())
        } else {
            Err(status)
        },
    }
}

/// Decodes a response of two words.
pub fn decode_two_words(reply: Result<(Error, usize), ()>, resp: &[u8]) -> (r: Result<
    (u32, u32),
    Error,
>)
    requires
        resp@.len() >= 12,
    ensures
        r == two_words(reply, resp@),
{
    match check_reply(reply) {
        Ok(()) => Ok((read_u32(resp, 4), read_u32(resp, 8))),
        Err(e) => Err(e),
    }
}

/// Number of bytes of platform information that a response puts into a buffer of `room` bytes: the
/// length that it names, cut off at what the buffer and the response hold.
pub open spec fn info_len(resp: Seq<u8>, room: nat) -> int {
    least(u32_at(resp, 4) as int, least(room as int, resp.len() - 8))
}

/// The platform information that a response carries for a buffer of `room` bytes.
pub open spec fn platform_info(
    reply: Result<(Error, usize), ()>,
    resp: Seq<u8>,
    room: nat,
) -> Result<
    Seq<u8>,
    Error,
> {
    match request_error(reply) {
        Some(e) => Err(e),
        None => Ok(resp.subrange(8, 8 + info_len(resp, room))),
    }
}

/// Decodes a response of platform information into `buf`, cut off at what the buffer and the
/// response hold, and returns the part that was filled.
pub fn decode_platform_info<'b>(
    reply: Result<(Error, usize), ()>,
    resp: &[u8],
    buf: &'b mut [u8],
) -> (r: Result<&'b [u8], Error>)
    requires
        resp@.len() >= 8,
    ensures
        match platform_info(reply, resp@, old(buf)@.len()) {
            Ok(info) => {
                &&& r is Ok
                &&& r->Ok_0@ == info
                &&& final(buf)@ == splice(old(buf)@, 0, info)
            },
            Err(e) => r == Err::<&[u8], Error>(e) && final(buf)@ == old(buf)@,
        },
{
    match check_reply(reply) {
        Ok(()) => {
            let len: u32 = read_u32(resp, 4);
            let room: usize = buf.len();
            let held: usize = resp.len() - 8;
            let most: usize = if room <= held {
                room
            } else {
                held
            };
            let n: usize = if len as u64 <= most as u64 {
                len as usize
            } else {
                most
            };
            copy_bytes(resp, 8, buf, 0, n);
            let filled = slice_subrange(buf, 0, n);
            assert(filled@ =~= platform_info(reply, resp@, room as nat)->Ok_0);
            Ok(filled)
        },
        Err(e) => Err(e),
    }
}

/// Client of the base service group, which probes the other groups and queries the platform.
pub struct BaseClient<'a> {
    /// The mailbox that the client sends through.
    pub mailbox: &'a mut RpmiMailbox,
}

impl<'a> BaseClient<'a> {
    /// Creates a client over a mailbox.
    pub fn new(mailbox: &'a mut RpmiMailbox) -> (c: BaseClient<'a>)
        ensures
            *c.mailbox == *old(mailbox),
            *final(c.mailbox) == *final(mailbox),
    {
        BaseClient { mailbox }
    }

    /// Sends a request of one word and decodes the two words of its response.
    fn get_two_u32(&mut self, service_id: u8, inarg: u32, acks: &[SmqQueue]) -> (r: Result<
        (u32, u32),
        Error,
    >)
        requires
            old(self).mailbox@.wf(),
            old(self).mailbox@.acks_readable(acks@),
        ensures
            ({
                let done = old(self).mailbox@.requested(
                    servicegroup::BASE,
                    service_id,
                    u32_le(inarg),
                    zeroes(12),
                    acks@,
                );
                &&& r == two_words(done.reply, done.resp)
                &&& final(self).mailbox@ == done.mailbox
            }),
            *final(final(self).mailbox) == *final(old(self).mailbox),
    {
        let mut resp: Vec<u8> = vec![0u8; 12];
        assert(resp@ =~= zeroes(12));
        let req = u32_to_le_bytes(inarg);
        let reply = self.mailbox.normal_request_with_status(
            servicegroup::BASE,
            service_id,
            req.as_slice(),
            resp.as_mut_slice(),
            acks,
        );
        decode_two_words(reply, resp.as_slice())
    }

    /// Probes a service group and returns its version; fails when the group is not supported.
    pub fn probe_service_group(
        &mut self,
        group_id: u16,
        acks: &[SmqQueue],
    ) -> (r: Result<u32, Error>)
        requires
            old(self).mailbox@.wf(),
            old(self).mailbox@.acks_readable(acks@),
        ensures
            ({
                let done = old(self).mailbox@.requested(
                    servicegroup::BASE,
                    base_service::PROBE_SERVICE_GROUP,
                    u32_le(group_id as u32),
                    zeroes(12),
                    acks@,
                );
                &&& r == second_word(done.reply, done.resp)
                &&& final(self).mailbox@ == done.mailbox
            }),
            *final(final(self).mailbox) == *final(old(self).mailbox),
    {
        match self.get_two_u32(base_service::PROBE_SERVICE_GROUP, group_id as u32, acks) {
            Ok((_, second)) => Ok(second),
            Err(e) => Err(e),
        }
    }

    /// The version of the protocol that the platform implements.
    pub fn get_spec_version(&mut self, acks: &[SmqQueue]) -> (r: Result<u32, Error>)
        requires
            old(self).mailbox@.wf(),
            old(self).mailbox@.acks_readable(acks@),
        ensures
            ({
                let done = old(self).mailbox@.requested(
                    servicegroup::BASE,
                    base_service::GET_SPEC_VERSION,
                    u32_le(0),
                    zeroes(12),
                    acks@,
                );
                &&& r == second_word(done.reply, done.resp)
                &&& final(self).mailbox@ == done.mailbox
            }),
            *final(final(self).mailbox) == *final(old(self).mailbox),
    {
        match self.get_two_u32(base_service::GET_SPEC_VERSION, 0, acks) {
            Ok((_, second)) => Ok(second),
            Err(e) => Err(e),
        }
    }

    /// The version of the management processor's firmware.
    pub fn get_implementation_version(&mut self, acks: &[SmqQueue]) -> (r: Result<u32, Error>)
        requires
            old(self).mailbox@.wf(),
            old(self).mailbox@.acks_readable(acks@),
        ensures
            ({
                let done = old(self).mailbox@.requested(
                    servicegroup::BASE,
                    base_service::GET_IMPLEMENTATION_VERSION,
                    u32_le(0),
                    zeroes(12),
                    acks@,
                );
                &&& r == second_word(done.reply, done.resp)
                &&& final(self).mailbox@ == done.mailbox
            }),
            *final(final(self).mailbox) == *final(old(self).mailbox),
    {
        match self.get_two_u32(base_service::GET_IMPLEMENTATION_VERSION, 0, acks) {
            Ok((_, second)) => Ok(second),
            Err(e) => Err(e),
        }
    }

    /// Fetches the platform information into `buf`, cut off at what the buffer and the response
    /// hold, and returns the part that was filled.
    pub fn get_platform_info<'b>(&mut self, buf: &'b mut [u8], acks: &[SmqQueue]) -> (r: Result<
        &'b [u8],
        Error,
    >)
        requires
            old(self).mailbox@.wf(),
            old(self).mailbox@.acks_readable(acks@),
        ensures
            ({
                let done = old(self).mailbox@.requested(
                    servicegroup::BASE,
                    base_service::GET_PLATFORM_INFO,
                    Seq::empty(),
                    zeroes(256),
                    acks@,
                );
                &&& final(self).mailbox@ == done.mailbox
                &&& match platform_info(done.reply, done.resp, old(buf)@.len()) {
                    Ok(info) => {
                        &&& r is Ok
                        &&& r->Ok_0@ == info
                        &&& final(buf)@ == splice(old(buf)@, 0, info)
                    },
                    Err(e) => r == Err::<&[u8], Error>(e) && final(buf)@ == old(buf)@,
                }
            }),
            *final(final(self).mailbox) == *final(old(self).mailbox),
    {
        let mut resp: Vec<u8> = vec![0u8; 256];
        let req: Vec<u8> = Vec::new();
        assert(resp@ =~= zeroes(256));
        let reply = self.mailbox.normal_request_with_status(
            servicegroup::BASE,
            base_service::GET_PLATFORM_INFO,
            req.as_slice(),
            resp.as_mut_slice(),
            acks,
        );
        decode_platform_info(reply, resp.as_slice(), buf)
    }

    /// Enables the notification of an event of the base service group.
    pub fn enable_notification(
        &mut self,
        event_id: u32,
        acks: &[SmqQueue],
    ) -> (r: Result<(), Error>)
        requires
            old(self).mailbox@.wf(),
            old(self).mailbox@.acks_readable(acks@),
        ensures
            ({
                let done = old(self).mailbox@.requested(
                    servicegroup::BASE,
                    base_service::ENABLE_NOTIFICATION,
                    u32_le(event_id),
                    zeroes(4),
                    acks@,
                );
                &&& match request_error(done.reply) {
                    Some(e) => r == Err::<(), Error>(e),
                    None => r is Ok,
                }
                &&& final(self).mailbox@ == done.mailbox
            }),
            *final(final(self).mailbox) == *final(old(self).mailbox),
    {
        let mut resp: Vec<u8> = vec![0u8; 4];
        assert(resp@ =~= zeroes(4));
        let req = u32_to_le_bytes(event_id);
        let reply = self.mailbox.normal_request_with_status(
            servicegroup::BASE,
            base_service::ENABLE_NOTIFICATION,
            req.as_slice(),
            resp.as_mut_slice(),
            acks,
        );
        check_reply(reply)
    }
}

/// A request succeeds only if the management processor answers and reports success. No answer is a
/// timeout, and any other status is the error itself.
pub proof fn errors_told(reply: Result<(Error, usize), ()>)
    ensures
        request_error(reply) is None <==> (reply matches Ok(answer) && answer.0 == Error::Success),
        reply is Err ==> request_error(reply) == Some(Error::Timeout),
        reply matches Ok((status, _)) ==> status != Error::Success ==> request_error(reply) == Some(
            status,
        ),
{
}

/// The words of a successful response are those after its status word, in order, and the second is
/// what a version is reported in.
pub proof fn words_told(reply: Result<(Error, usize), ()>, resp: Seq<u8>)
    requires
        resp.len() == 12,
    ensures
        two_words(reply, resp) is Ok <==> request_error(reply) is None,
        two_words(reply, resp) matches Ok((first, second)) ==> {
            &&& first == resp[4] + 0x100 * resp[5] + 0x1_0000 * resp[6] + 0x100_0000 * resp[7]
            &&& second == resp[8] + 0x100 * resp[9] + 0x1_0000 * resp[10] + 0x100_0000 * resp[11]
            &&& second_word(reply, resp) == Ok::<u32, Error>(second)
        },
        two_words(reply, resp) matches Err(e) ==> request_error(reply) == Some(e) && second_word(
            reply,
            resp,
        ) == Err::<u32, Error>(e),
{
}

/// Platform information is the bytes after the status and the length, as many as the length says,
/// unless the buffer or the response ends before; nothing is left out that all three hold.
pub proof fn info_told(reply: Result<(Error, usize), ()>, resp: Seq<u8>, room: nat)
    requires
        resp.len() >= 8,
    ensures
        platform_info(reply, resp, room) is Ok <==> request_error(reply) is None,
        platform_info(reply, resp, room) matches Err(e) ==> request_error(reply) == Some(e),
        platform_info(reply, resp, room) matches Ok(info) ==> {
            let named = resp[4] + 0x100 * resp[5] + 0x1_0000 * resp[6] + 0x100_0000 * resp[7];
            &&& info.len() <= named
            &&& info.len() <= room
            &&& info.len() + 8 <= resp.len()
            &&& info.len() == named || info.len() == room || info.len() + 8 == resp.len()
            &&& forall|i: int| 0 <= i < info.len() ==> #[trigger] info[i] == resp[8 + i]
        },
{
}

} // verus!
