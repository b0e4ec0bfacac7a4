//! Message proxy extension: forwards supervisor messages to the platform management processor.
//!
//! Each channel stands for one service group: the channel's identifier is the group's, and a
//! message's identifier is the service's. Requests and responses travel through a page of memory
//! that each hart shares for itself.
use vstd::prelude::*;
use vstd::slice::slice_subrange;

use crate::binary::{SbiError, SbiRet, SharedPtr};
use crate::bytes::{copy_bytes, least, splice, u32_at, u32_le, write_u32, zeroes};
use crate::rpmi::mailbox::{Mailbox, RpmiMailbox, RPMI_DEF_RX_TIMEOUT, RPMI_DEF_TX_TIMEOUT};
use crate::rpmi::message::{Error, MessageHeader, MessageType, RPMI_MSG_HDR_SIZE};
use crate::rpmi::queue_idx::{MAX_COUNT, P2A_REQ};
use crate::rpmi::servicegroup;
use crate::rpmi::smq::{Ring, Selector, SmqQueue};
use crate::sbi::rpmi_status::{rpmi_error_to_sbi, sbi_of_rpmi};

verus! {

/// Size of the page that a hart shares.
pub const SHMEM_SIZE: usize = 4096;

/// Version of the message protocol, reported for every channel.
pub const RPMI_PROTOCOL_VERSION: u32 = 0x0001_0000;

/// Identifier of the protocol's implementation.
pub const RPMI_IMPL_ID: u32 = 0;

/// Version of the protocol's implementation.
pub const RPMI_IMPL_VERSION: u32 = 1;

/// Greatest length of a message's data: what a slot of 256 bytes leaves beside the header.
pub const RPMI_MAX_DATA_LEN: u32 = 248;

/// Identifier of the message protocol.
pub const RPMI_MSGPROTO_ID: u32 = 0;

/// What a channel can do: send with and without response, report notifications and the state of
/// events.
pub const CHANNEL_CAPABILITY: u32 = 0b11_1100;

/// Attribute that switches the events-state reports of a channel.
pub const EVENTS_STATE_CONTROL: u32 = 11;

/// Attribute that switches the message-signalled interrupts of a channel.
pub const MSI_CONTROL: u32 = 7;

/// The attribute can be written.
pub open spec fn is_writable(attr: int) -> bool {
    attr == EVENTS_STATE_CONTROL || attr == MSI_CONTROL
}

/// First attribute that belongs to the message protocol.
pub const MSGPROTO_ATTR_START: u32 = 0x8000_0000;

/// The channels: the service groups that are open to the supervisor.
pub open spec fn channels() -> Seq<u16> {
    seq![
        servicegroup::BASE,
        servicegroup::SYSTEM_RESET,
        servicegroup::SYSTEM_SUSPEND,
        servicegroup::HSM,
        servicegroup::CPPC,
        servicegroup::VOLTAGE,
        servicegroup::CLOCK,
        servicegroup::DOMAIN,
        servicegroup::RTC,
        servicegroup::PWRKEY,
    ]
}

/// A channel with this identifier exists.
pub open spec fn is_channel_id(channel_id: u32) -> bool {
    exists|i: int| 0 <= i < channels().len() && #[trigger] channels()[i] == channel_id
}

/// Value of a channel's attribute, if there is such an attribute.
pub open spec fn attribute(channel_id: u32, attr: int) -> Option<u32> {
    if attr == 0 {
        Some(RPMI_MSGPROTO_ID)
    } else if attr == 1 {
        Some(RPMI_PROTOCOL_VERSION)
    } else if attr == 2 {
        Some(RPMI_MAX_DATA_LEN)
    } else if attr == 3 {
        Some(RPMI_DEF_TX_TIMEOUT)
    } else if attr == 4 {
        Some(RPMI_DEF_RX_TIMEOUT)
    } else if attr == 5 {
        Some(CHANNEL_CAPABILITY)
    } else if 6 <= attr <= 11 {
        Some(0)
    } else if attr == MSGPROTO_ATTR_START {
        Some(channel_id)
    } else if attr == MSGPROTO_ATTR_START + 1 {
        Some(0x0001_0000)
    } else if attr == MSGPROTO_ATTR_START + 2 {
        Some(RPMI_IMPL_ID)
    } else if attr == MSGPROTO_ATTR_START + 3 {
        Some(RPMI_IMPL_VERSION)
    } else {
        None
    }
}

/// How many of the attributes from `base` on exist without a gap, `count` at most.
pub open spec fn attributes_found(channel_id: u32, base: int, count: nat) -> nat
    decreases count,
{
    if count == 0 {
        0
    } else {
        let before = attributes_found(channel_id, base, (count - 1) as nat);
        if before == count - 1 && attribute(channel_id, base + before) is Some {
            count
        } else {
            before
        }
    }
}

/// How many of them are read into `room` bytes: those before the first gap, as far as they fit.
pub open spec fn attributes_read(channel_id: u32, base: int, count: nat, room: nat) -> nat {
    least(attributes_found(channel_id, base, count) as int, (room / 4) as int) as nat
}

/// The bytes of the first `n` attributes from `base` on.
pub open spec fn attribute_bytes(channel_id: u32, base: int, n: nat) -> Seq<u8>
    decreases n,
{
    if n == 0 {
        Seq::empty()
    } else {
        attribute_bytes(channel_id, base, (n - 1) as nat) + u32_le(
            attribute(channel_id, base + n - 1)->0,
        )
    }
}

/// The bytes of a list of channel identifiers, one word each.
pub open spec fn id_bytes(ids: Seq<u16>) -> Seq<u8>
    decreases ids.len(),
{
    if ids.len() == 0 {
        Seq::empty()
    } else {
        id_bytes(ids.drop_last()) + u32_le(ids.last() as u32)
    }
}

/// What the list of channels from `start` on writes to the shared page: the number of identifiers
/// that remain, the number that is returned, and those.
pub open spec fn channel_list(start: int) -> Seq<u8> {
    u32_le(0) + u32_le((channels().len() - start) as u32) + id_bytes(channels().skip(start))
}

/// The service that a message goes to.
pub open spec fn service_of(message_id: u32) -> u8 {
    (message_id % 256) as u8
}

/// What a message with response returns to the supervisor.
pub open spec fn response_ret(reply: Result<(Error, usize), ()>) -> SbiRet {
    match reply {
        Ok((status, len)) => if status == Error::Success {
            SbiRet::ok(len)
        } else {
            sbi_of_rpmi(status)
        },
        Err(()) => SbiRet::err(SbiError::Timeout),
    }
}

/// The shared page after a message with response: a successful response, status word first, is
/// written to its start.
pub open spec fn response_page(
    reply: Result<(Error, usize), ()>,
    resp: Seq<u8>,
    page: Seq<u8>,
) -> Seq<u8> {
    match reply {
        Ok((status, len)) => if status == Error::Success {
            splice(page, 0, resp.take(len as int))
        } else {
            page
        },
        Err(()) => page,
    }
}

/// The events state: none remains, `returned` are returned, none was lost, and a reserved word.
pub open spec fn events_state(returned: u32) -> Seq<u8> {
    u32_le(0) + u32_le(returned) + u32_le(0) + u32_le(0)
}

/// The shared page after a notification: the events state, which says that one is returned, and
/// the notification's payload.
pub open spec fn notification_page(page: Seq<u8>, payload: Seq<u8>) -> Seq<u8> {
    splice(page, 0, events_state(1) + payload)
}

/// The shared page when no notification is pending: the events state, which says that none is
/// returned.
pub open spec fn no_notification_page(page: Seq<u8>) -> Seq<u8> {
    splice(page, 0, events_state(0))
}

/// The shared pages after a hart's request to set its own, and what the request returns.
pub open spec fn page_set(
    pages: Seq<usize>,
    hart: int,
    shmem: SharedPtr,
    flags: usize,
) -> (Seq<usize>, SbiRet) {
    let lo = shmem.phys_addr_lo;
    if flags % 4 != 0 {
        (pages, SbiRet::err(SbiError::InvalidParam))
    } else if shmem.all_ones() {
        (pages.update(hart, 0), SbiRet::ok(0))
    } else if lo % 4096 != 0 {
        (pages, SbiRet::err(SbiError::InvalidParam))
    } else {
        (pages.update(hart, lo), SbiRet::ok(0))
    }
}

/// What a request for the list of channels from `start` on leaves in the page, and what it returns,
/// where the hart shares the page at `shared`.
pub open spec fn channels_answered(shared: usize, start: int, page: Seq<u8>) -> (Seq<u8>, SbiRet) {
    if shared == 0 {
        (page, SbiRet::err(SbiError::NoShmem))
    } else if start > channels().len() {
        (page, SbiRet::err(SbiError::InvalidParam))
    } else {
        (splice(page, 0, channel_list(start)), SbiRet::ok(0))
    }
}

/// What a request for attributes leaves in the page, and what it returns, where the hart shares the
/// page at `shared`.
pub open spec fn attributes_answered(
    shared: usize,
    channel_id: u32,
    base: int,
    count: nat,
    page: Seq<u8>,
) -> (Seq<u8>, SbiRet) {
    if !is_channel_id(channel_id) {
        (page, SbiRet::err(SbiError::NotSupported))
    } else if count == 0 {
        (page, SbiRet::err(SbiError::InvalidParam))
    } else if shared == 0 {
        (page, SbiRet::err(SbiError::NoShmem))
    } else {
        let n = attributes_found(channel_id, base, count);
        (
            splice(page, 0, attribute_bytes(channel_id, base, n)),
            if n == count {
                SbiRet::ok(0)
            } else {
                SbiRet::err(SbiError::BadRange)
            },
        )
    }
}

/// What a request to write attributes returns.
pub open spec fn write_ret(channel_id: u32, base: int, count: int) -> SbiRet {
    if !is_channel_id(channel_id) {
        SbiRet::err(SbiError::NotSupported)
    } else if count == 0 {
        SbiRet::err(SbiError::InvalidParam)
    } else if forall|a: int| base <= a < base + count ==> #[trigger] is_writable(a) {
        SbiRet::ok(0)
    } else {
        SbiRet::err(SbiError::Denied)
    }
}

/// The channels in order.
fn channel_ids() -> (ids: [u16; 10])
    ensures
        ids@ == channels(),
{
    let ids = [
        servicegroup::BASE,
        servicegroup::SYSTEM_RESET,
        servicegroup::SYSTEM_SUSPEND,
        servicegroup::HSM,
        servicegroup::CPPC,
        servicegroup::VOLTAGE,
        servicegroup::CLOCK,
        servicegroup::DOMAIN,
        servicegroup::RTC,
        servicegroup::PWRKEY,
    ];
    assert(ids@ =~= channels());
    ids
}

/// Whether a channel with this identifier exists.
pub fn is_channel(channel_id: u32) -> (b: bool)
    ensures
        b == is_channel_id(channel_id),
{
    let ids = channel_ids();
    let mut i: usize = 0;
    while i < 10
        invariant
            i <= 10,
            ids@ == channels(),
            forall|j: int| 0 <= j < i ==> #[trigger] channels()[j] != channel_id,
        decreases 10 - i,
    {
        if ids[i] as u32 == channel_id {
            assert(channels()[i as int] == channel_id);
            return true;
        }
        i += 1;
    }
    false
}

/// Value of a channel's attribute, if there is such an attribute.
fn attribute_value(channel_id: u32, attr: u32) -> (v: Option<u32>)
    ensures
        v == attribute(channel_id, attr as int),
{
    match attr {
        0 => Some(RPMI_MSGPROTO_ID),
        1 => Some(RPMI_PROTOCOL_VERSION),
        2 => Some(RPMI_MAX_DATA_LEN),
        3 => Some(RPMI_DEF_TX_TIMEOUT),
        4 => Some(RPMI_DEF_RX_TIMEOUT),
        5 => Some(CHANNEL_CAPABILITY),
        6 => Some(0),
        7 => Some(0),
        8 => Some(0),
        9 => Some(0),
        10 => Some(0),
        11 => Some(0),
        0x8000_0000 => Some(channel_id),
        0x8000_0001 => Some(0x0001_0000),
        0x8000_0002 => Some(RPMI_IMPL_ID),
        0x8000_0003 => Some(RPMI_IMPL_VERSION),
        _ => None,
    }
}

/// The attributes that exist are those before the first gap.
proof fn found_bounds(channel_id: u32, base: int, count: nat)
    requires
        0 <= base,
    ensures
        attributes_found(channel_id, base, count) <= count,
        ({
            let n = attributes_found(channel_id, base, count);
            n == 0 || base + n <= 12 || MSGPROTO_ATTR_START <= base && base + n
                <= MSGPROTO_ATTR_START + 4
        }),
    decreases count,
{
    if count > 0 {
        found_bounds(channel_id, base, (count - 1) as nat);
    }
}

/// Attributes are four bytes each.
proof fn attribute_bytes_len(channel_id: u32, base: int, n: nat)
    ensures
        attribute_bytes(channel_id, base, n).len() == 4 * n,
    decreases n,
{
    if n > 0 {
        attribute_bytes_len(channel_id, base, (n - 1) as nat);
    }
}

/// Once an attribute is missing, asking for more finds no more.
proof fn found_stops(channel_id: u32, base: int, i: nat, count: nat)
    requires
        i < count,
        attributes_found(channel_id, base, i) == i,
        attribute(channel_id, base + i) is None,
    ensures
        attributes_found(channel_id, base, count) == i,
    decreases count,
{
    if count > i + 1 {
        found_stops(channel_id, base, i, (count - 1) as nat);
    }
}

/// Asking for more attributes finds no fewer.
proof fn found_grows(channel_id: u32, base: int, i: nat, count: nat)
    requires
        i <= count,
    ensures
        attributes_found(channel_id, base, i) <= attributes_found(channel_id, base, count),
    decreases count,
{
    if i < count {
        found_grows(channel_id, base, i, (count - 1) as nat);
    }
}

/// All attributes of a range are found exactly if each of them exists.
pub proof fn attributes_complete(channel_id: u32, base: int, count: nat)
    requires
        0 <= base,
    ensures
        attributes_found(channel_id, base, count) == count <==> forall|i: int|
            0 <= i < count ==> (#[trigger] attribute(channel_id, base + i)) is Some,
    decreases count,
{
    if count > 0 {
        let n = (count - 1) as nat;
        attributes_complete(channel_id, base, n);
        found_bounds(channel_id, base, n);
        assert(attribute(channel_id, base + n) == attribute(channel_id, base + (count - 1)));
    }
}

/// The word at each place of a list of attributes is the attribute's value.
pub proof fn attributes_listed(channel_id: u32, base: int, n: nat, i: int)
    requires
        0 <= i < n,
        0 <= base,
        attributes_found(channel_id, base, n) == n,
    ensures
        attribute(channel_id, base + i) == Some(
            u32_at(attribute_bytes(channel_id, base, n), 4 * i),
        ),
    decreases n,
{
    found_bounds(channel_id, base, (n - 1) as nat);
    attribute_bytes_len(channel_id, base, (n - 1) as nat);
    crate::bytes::u32_roundtrip(attribute(channel_id, base + n - 1)->0);
    if i < n - 1 {
        attributes_listed(channel_id, base, (n - 1) as nat, i);
    }
}

/// The word at each place of a list of identifiers is the identifier.
proof fn ids_listed(ids: Seq<u16>, i: int)
    requires
        0 <= i < ids.len(),
    ensures
        id_bytes(ids).len() == 4 * ids.len(),
        u32_at(id_bytes(ids), 4 * i) == ids[i],
    decreases ids.len(),
{
    reveal_with_fuel(id_bytes, 2);
    crate::bytes::u32_roundtrip(ids.last() as u32);
    if ids.len() > 1 {
        ids_listed(ids.drop_last(), if i < ids.len() - 1 {
            i
        } else {
            0
        });
    }
}

/// A list of channels is complete: none remains, and each channel from `start` on is in its place.
pub proof fn channels_listed(start: int, i: int)
    requires
        0 <= start <= i < channels().len(),
    ensures
        u32_at(channel_list(start), 0) == 0,
        u32_at(channel_list(start), 4) == channels().len() - start,
        u32_at(channel_list(start), 8 + 4 * (i - start)) == channels()[i],
{
    crate::bytes::u32_roundtrip(0);
    crate::bytes::u32_roundtrip((channels().len() - start) as u32);
    ids_listed(channels().skip(start), i - start);
}

/// Writes attributes to the start of `out`, up to the first one that does not exist or does not
/// fit, and returns whether all have been written.
fn read_channel_attrs(channel_id: u32, base: u32, count: u32, out: &mut [u8]) -> (b: bool)
    ensures
        ({
            let n = attributes_read(channel_id, base as int, count as nat, old(out)@.len());
            &&& b == (n == count)
            &&& final(out)@ == splice(old(out)@, 0, attribute_bytes(channel_id, base as int, n))
        }),
{
    let room: usize = out.len();
    let mut i: u32 = 0;
    assert(out@ =~= splice(out@, 0, attribute_bytes(channel_id, base as int, 0)));
    while i < count
        invariant
            i <= count,
            4 * i <= room == out@.len(),
            attributes_found(channel_id, base as int, i as nat) == i,
            out@ == splice(old(out)@, 0, attribute_bytes(channel_id, base as int, i as nat)),
            old(out)@.len() == out@.len(),
        decreases count - i,
    {
        proof {
            found_bounds(channel_id, base as int, i as nat);
            attribute_bytes_len(channel_id, base as int, i as nat);
        }
        match attribute_value(channel_id, base + i) {
            Some(value) => {
                proof {
                    assert(attributes_found(channel_id, base as int, (i + 1) as nat) == i + 1);
                    found_bounds(channel_id, base as int, (i + 1) as nat);
                    found_grows(channel_id, base as int, i as nat, count as nat);
                }
                let off: usize = (i * 4) as usize;
                if room < 4 || off > room - 4 {
                    return false;
                }
                write_u32(out, off, value);
            },
            None => {
                proof {
                    found_stops(channel_id, base as int, i as nat, count as nat);
                }
                return false;
            },
        }
        i += 1;
        assert(out@ =~= splice(
            old(out)@,
            0,
            attribute_bytes(channel_id, base as int, i as nat),
        ));
    }
    true
}

/// Writes the events state to the start of the shared page.
fn write_events_state(page: &mut [u8], returned: u32)
    requires
        16 <= old(page)@.len(),
    ensures
        final(page)@ == splice(old(page)@, 0, events_state(returned)),
{
    write_u32(page, 0, 0);
    write_u32(page, 4, returned);
    write_u32(page, 8, 0);
    write_u32(page, 12, 0);
    assert(page@ =~= splice(old(page)@, 0, events_state(returned)));
}

/// The events state that a request for notifications leaves in the page reads as it was meant:
/// none remains or was lost, and the number returned.
pub proof fn events_state_read(page: Seq<u8>, payload: Seq<u8>)
    requires
        16 + payload.len() <= page.len(),
    ensures
        u32_at(notification_page(page, payload), 0) == 0,
        u32_at(notification_page(page, payload), 4) == 1,
        u32_at(notification_page(page, payload), 8) == 0,
        u32_at(notification_page(page, payload), 12) == 0,
        notification_page(page, payload).subrange(16, 16int + payload.len()) == payload,
        u32_at(no_notification_page(page), 0) == 0,
        u32_at(no_notification_page(page), 4) == 0,
        u32_at(no_notification_page(page), 8) == 0,
        u32_at(no_notification_page(page), 12) == 0,
        no_notification_page(page).skip(16) == page.skip(16),
{
    crate::bytes::u32_roundtrip(0);
    crate::bytes::u32_roundtrip(1);
    assert(notification_page(page, payload).subrange(16, 16int + payload.len()) =~= payload);
    assert(no_notification_page(page).skip(16) =~= page.skip(16));
}

/// A message that the management processor answers with success, where the answer is there at the
/// `i`-th poll and not before, puts the whole answer, status word first, at the start of the page,
/// and returns its length.
pub proof fn answer_reaches_page(
    m: Mailbox,
    channel_id: u32,
    message_id: u32,
    page: Seq<u8>,
    len: int,
    acks: Seq<SmqQueue>,
    i: int,
    ring: Ring,
    header: MessageHeader,
    data: Seq<u8>,
)
    requires
        0 <= len <= 248,
        page.len() == 4096,
        m.accepts(len as nat),
        0 <= i < acks.len(),
        i < 500,
        acks[i]@ == ring.sent(header, data),
        forall|j: int|
            0 <= j < i ==> (#[trigger] acks[j])@.find(Selector::Token(header.token), 0) is None,
        ring.wf(),
        !ring.is_full(),
        4 <= data.len() <= 248,
        data.len() <= ring.slot_size - 8,
        header.datalen == data.len(),
        header.token == m.next_token(),
        ring.find(Selector::Token(header.token), 0) is None,
        u32_at(data, 0) == 0,
    ensures
        ({
            let done = m.requested(
                channel_id as u16,
                service_of(message_id),
                page.take(len),
                zeroes(248),
                acks,
            );
            &&& response_ret(done.reply) == SbiRet::ok(data.len() as usize)
            &&& response_page(done.reply, done.resp, page) == splice(page, 0, data)
        }),
{
    let room = zeroes(RPMI_MAX_DATA_LEN as nat);
    m.request_answered(
        channel_id as u16,
        service_of(message_id),
        page.take(len),
        room,
        acks,
        i,
        ring,
        header,
        data,
    );
    let n = data.len() as int;
    assert(splice(room, 0, data.take(n)).take(n) =~= data);
}

/// Message proxy: the address of the page that each hart shares, zero while it shares none.
pub struct SbiMpxy {
    shmem: Vec<usize>,
}

impl View for SbiMpxy {
    type V = Seq<usize>;

    closed spec fn view(&self) -> Seq<usize> {
        self.shmem@
    }
}

impl SbiMpxy {
    /// Why a message on a channel is refused before it reaches the mailbox, if it is.
    pub open spec fn refused(
        self,
        hart: int,
        channel_id: u32,
        len: int,
        has_mailbox: bool,
    ) -> Option<
        SbiError,
    > {
        if !is_channel_id(channel_id) {
            Some(SbiError::NotSupported)
        } else if len > RPMI_MAX_DATA_LEN {
            Some(SbiError::InvalidParam)
        } else if self@[hart] == 0 {
            Some(SbiError::NoShmem)
        } else if !has_mailbox {
            Some(SbiError::NotSupported)
        } else {
            None
        }
    }

    /// Creates the extension for a number of harts, none of which shares a page.
    pub fn new(num_harts: usize) -> (m: SbiMpxy)
        ensures
            m@ == Seq::new(num_harts as nat, |i: int| 0usize),
    {
        let shmem: Vec<usize> = vec![0usize; num_harts];
        assert(shmem@ =~= Seq::new(num_harts as nat, |i: int| 0usize));
        SbiMpxy { shmem }
    }

    /// Address of the page that a hart shares, or zero.
    pub fn shmem_hart(&self, hart: usize) -> (addr: usize)
        requires
            hart < self@.len(),
        ensures
            addr == self@[hart as int],
    {
        self.shmem[hart]
    }

    /// Size of the page that a hart shares.
    pub fn get_shmem_size(&self) -> (n: usize)
        ensures
            n == SHMEM_SIZE,
    {
        SHMEM_SIZE
    }

    /// Sets the page that a hart shares.
    ///
    /// Only the mode that overwrites the page is supported, so the two low flags must be clear. A
    /// pointer of all ones switches sharing off; any other must be aligned to a page.
    pub fn set_shmem(&mut self, hart: usize, shmem: SharedPtr, flags: usize) -> (r: SbiRet)
        requires
            hart < old(self)@.len(),
        ensures
            (final(self)@, r) == page_set(old(self)@, hart as int, shmem, flags),
    {
        let lo: usize = shmem.phys_addr_lo;
        assert(flags & 0b11 == flags % 4) by (bit_vector);
        assert(lo & 0xfff == lo % 4096) by (bit_vector);
        if flags & 0b11 != 0 {
            return SbiRet::invalid_param();
        }
        if shmem.is_all_ones() {
            self.shmem[hart] = 0;
            return SbiRet::success(0);
        }
        if lo & 0xfff != 0 {
            return SbiRet::invalid_param();
        }
        self.shmem[hart] = lo;
        SbiRet::success(0)
    }

    /// Lists the channels, from the `start_index`-th on, in the shared page.
    ///
    /// The page gets the number of identifiers that remain after those returned, the number
    /// returned, and the identifiers. An index beyond the last channel is refused; the index just
    /// after it is not, and returns none.
    pub fn get_channel_ids(&self, hart: usize, start_index: u32, page: &mut [u8]) -> (r: SbiRet)
        requires
            hart < self@.len(),
            old(page)@.len() == SHMEM_SIZE,
        ensures
            (final(page)@, r) == channels_answered(
                self@[hart as int],
                start_index as int,
                old(page)@,
            ),
    {
        if self.shmem[hart] == 0 {
            return SbiRet::no_shmem();
        }
        let ids = channel_ids();
        let count: u32 = 10;
        if start_index > count {
            return SbiRet::invalid_param();
        }
        let max_ids: u32 = (SHMEM_SIZE / 4 - 2) as u32;
        let left: u32 = count - start_index;
        let returned: u32 = if left <= max_ids {
            left
        } else {
            max_ids
        };
        let remaining: u32 = count - (start_index + returned);
        let ghost head = u32_le(0) + u32_le(returned);
        let ghost tail = channels().skip(start_index as int);
        write_u32(page, 0, remaining);
        write_u32(page, 4, returned);
        assert(page@ =~= splice(old(page)@, 0, head + id_bytes(tail.take(0))));
        let mut i: u32 = 0;
        while i < returned
            invariant
                i <= returned,
                start_index + returned == count == 10,
                ids@ == channels(),
                tail == channels().skip(start_index as int),
                head == u32_le(0) + u32_le(returned),
                old(page)@.len() == SHMEM_SIZE,
                page@ == splice(old(page)@, 0, head + id_bytes(tail.take(i as int))),
                id_bytes(tail.take(i as int)).len() == 4 * i,
            decreases returned - i,
        {
            let id: u16 = ids[(start_index + i) as usize];
            write_u32(page, 8 + i as usize * 4, id as u32);
            assert(tail.take(i + 1).drop_last() =~= tail.take(i as int));
            assert(tail.take(i + 1).last() == id);
            i += 1;
            assert(page@ =~= splice(old(page)@, 0, head + id_bytes(tail.take(i as int))));
        }
        assert(tail.take(returned as int) =~= tail);
        SbiRet::success(0)
    }

    /// Writes attributes of a channel to the shared page.
    pub fn read_attributes(
        &self,
        hart: usize,
        channel_id: u32,
        base_attribute_id: u32,
        attribute_count: u32,
        page: &mut [u8],
    ) -> (r: SbiRet)
        requires
            hart < self@.len(),
            old(page)@.len() == SHMEM_SIZE,
        ensures
            (final(page)@, r) == attributes_answered(
                self@[hart as int],
                channel_id,
                base_attribute_id as int,
                attribute_count as nat,
                old(page)@,
            ),
    {
        if !is_channel(channel_id) {
            return SbiRet::not_supported();
        }
        if attribute_count == 0 {
            return SbiRet::invalid_param();
        }
        if self.shmem[hart] == 0 {
            return SbiRet::no_shmem();
        }
        proof {
            found_bounds(channel_id, base_attribute_id as int, attribute_count as nat);
        }
        if !read_channel_attrs(channel_id, base_attribute_id, attribute_count, page) {
            return SbiRet::bad_range();
        }
        SbiRet::success(0)
    }

    /// Writes attributes of a channel: those that control events-state reports and interrupts can
    /// be written, to no effect; all others are read-only, and a range that holds one of them is
    /// denied.
    pub fn write_attributes(
        &self,
        channel_id: u32,
        base_attribute_id: u32,
        attribute_count: u32,
    ) -> (r:
        SbiRet)
        ensures
            r == write_ret(channel_id, base_attribute_id as int, attribute_count as int),
    {
        if !is_channel(channel_id) {
            return SbiRet::not_supported();
        }
        if attribute_count == 0 {
            return SbiRet::invalid_param();
        }
        // No two attributes that can be written lie next to each other.
        if attribute_count == 1 && (base_attribute_id == EVENTS_STATE_CONTROL || base_attribute_id
            == MSI_CONTROL) {
            return SbiRet::success(0);
        }
        assert(!is_writable(base_attribute_id as int) || !is_writable(base_attribute_id + 1));
        SbiRet::denied()
    }

    /// Checks a message on a channel before it is sent; the error is what the supervisor gets.
    pub fn check_message(
        &self,
        hart: usize,
        channel_id: u32,
        message_data_len: usize,
        has_mailbox: bool,
    ) -> (r: Result<(), SbiRet>)
        requires
            hart < self@.len(),
        ensures
            match self.refused(hart as int, channel_id, message_data_len as int, has_mailbox) {
                Some(e) => r == Err::<(), SbiRet>(SbiRet::err(e)),
                None => r is Ok,
            },
    {
        if !is_channel(channel_id) {
            return Err(SbiRet::not_supported());
        }
        if message_data_len > RPMI_MAX_DATA_LEN as usize {
            return Err(SbiRet::invalid_param());
        }
        if self.shmem[hart] == 0 {
            return Err(SbiRet::no_shmem());
        }
        if !has_mailbox {
            return Err(SbiRet::not_supported());
        }
        Ok(())
    }

    /// Hands a response to the supervisor: a successful one is written to the start of the shared
    /// page, status word first, and its length is returned.
    pub fn finish_response(
        reply: Result<(Error, usize), ()>,
        resp: &[u8],
        page: &mut [u8],
    ) -> (r: SbiRet)
        requires
            resp@.len() <= old(page)@.len(),
            reply matches Ok((_, len)) ==> len <= resp@.len(),
        ensures
            r == response_ret(reply),
            final(page)@ == response_page(reply, resp@, old(page)@),
    {
        match reply {
            Ok((status, len)) => {
                if status == Error::Success {
                    copy_bytes(resp, 0, page, 0, len);
                    SbiRet::success(len)
                } else {
                    rpmi_error_to_sbi(status)
                }
            },
            Err(()) => SbiRet::timeout(),
        }
    }

    /// Sends the message in the shared page on a channel and waits for the response.
    ///
    /// `acks` is the queue of acknowledgements as it stands at each poll.
    pub fn send_message_with_response(
        &self,
        hart: usize,
        channel_id: u32,
        message_id: u32,
        message_data_len: usize,
        page: &mut [u8],
        mailbox: Option<&mut RpmiMailbox>,
        acks: &[SmqQueue],
    ) -> (r: SbiRet)
        requires
            hart < self@.len(),
            old(page)@.len() == SHMEM_SIZE,
            self.refused(hart as int, channel_id, message_data_len as int, mailbox is Some) is None
                ==> {
                let m = mailbox->0;
                m@.wf() && m@.acks_readable(acks@)
            },
        ensures
            match self.refused(
                hart as int,
                channel_id,
                message_data_len as int,
                mailbox is Some,
            ) {
                Some(e) => {
                    &&& r == SbiRet::err(e)
                    &&& final(page)@ == old(page)@
                    &&& mailbox matches Some(m) ==> final(m)@ == m@
                },
                None => {
                    let m = mailbox->0;
                    let done = m@.requested(
                        channel_id as u16,
                        service_of(message_id),
                        old(page)@.take(message_data_len as int),
                        zeroes(RPMI_MAX_DATA_LEN as nat),
                        acks@,
                    );
                    &&& r == response_ret(done.reply)
                    &&& final(page)@ == response_page(done.reply, done.resp, old(page)@)
                    &&& final(m)@ == done.mailbox
                },
            },
    {
        match self.check_message(hart, channel_id, message_data_len, mailbox.is_some()) {
            Ok(()) => {},
            Err(r) => return r,
        }
        match mailbox {
            Some(m) => {
                let service_id: u8 = (message_id % 256) as u8;
                let mut resp: Vec<u8> = vec![0u8; RPMI_MAX_DATA_LEN as usize];
                assert(resp@ =~= zeroes(RPMI_MAX_DATA_LEN as nat));
                let req = slice_subrange(page, 0, message_data_len);
                assert(req@ =~= old(page)@.take(message_data_len as int));
                let reply = m.normal_request_with_status(
                    channel_id as u16,
                    service_id,
                    req,
                    resp.as_mut_slice(),
                    acks,
                );
                SbiMpxy::finish_response(reply, resp.as_slice(), page)
            },
            None => SbiRet::not_supported(),
        }
    }

    /// Sends the message in the shared page on a channel without waiting for a response.
    pub fn send_message_without_response(
        &self,
        hart: usize,
        channel_id: u32,
        message_id: u32,
        message_data_len: usize,
        page: &[u8],
        mailbox: Option<&mut RpmiMailbox>,
    ) -> (r: SbiRet)
        requires
            hart < self@.len(),
            page@.len() == SHMEM_SIZE,
            self.refused(hart as int, channel_id, message_data_len as int, mailbox is Some) is None
                ==> {
                let m = mailbox->0;
                m@.wf()
            },
        ensures
            match self.refused(
                hart as int,
                channel_id,
                message_data_len as int,
                mailbox is Some,
            ) {
                Some(e) => {
                    &&& r == SbiRet::err(e)
                    &&& mailbox matches Some(m) ==> final(m)@ == m@
                },
                None => {
                    let m = mailbox->0;
                    &&& r == if m@.accepts(message_data_len as nat) {
                        SbiRet::ok(0)
                    } else {
                        SbiRet::err(SbiError::Timeout)
                    }
                    &&& final(m)@ == m@.submitted(
                        channel_id as u16,
                        service_of(message_id),
                        MessageType::PostedRequest,
                        page@.take(message_data_len as int),
                    )
                },
            },
    {
        match self.check_message(hart, channel_id, message_data_len, mailbox.is_some()) {
            Ok(()) => {},
            Err(r) => return r,
        }
        match mailbox {
            Some(m) => {
                let service_id: u8 = (message_id % 256) as u8;
                let req = slice_subrange(page, 0, message_data_len);
                assert(req@ =~= page@.take(message_data_len as int));
                match m.posted_request(channel_id as u16, service_id, req) {
                    Ok(()) => SbiRet::success(0),
                    Err(()) => SbiRet::timeout(),
                }
            },
            None => SbiRet::not_supported(),
        }
    }

    /// Fetches one pending notification of a channel into the shared page.
    ///
    /// The page gets the events state, which says that one notification is returned and none
    /// remains or was lost, and the notification's payload after it. With none pending the events
    /// state says that none is returned, the rest of the page stays as it is, and zero is returned.
    pub fn get_notification_events(
        &self,
        hart: usize,
        channel_id: u32,
        page: &mut [u8],
        mailbox: Option<&mut RpmiMailbox>,
    ) -> (r: SbiRet)
        requires
            hart < self@.len(),
            old(page)@.len() == SHMEM_SIZE,
            self.refused(hart as int, channel_id, 0, mailbox is Some) is None ==> {
                let m = mailbox->0;
                m@.rings.len() == MAX_COUNT && m@.rings[P2A_REQ as int].readable(
                    Mailbox::notification(channel_id as u16, 0xff),
                    RPMI_MAX_DATA_LEN as int,
                )
            },
        ensures
            match self.refused(hart as int, channel_id, 0, mailbox is Some) {
                Some(e) => {
                    &&& r == SbiRet::err(e)
                    &&& final(page)@ == old(page)@
                    &&& mailbox matches Some(m) ==> final(m)@ == m@
                },
                None => {
                    let m = mailbox->0;
                    let ring = m@.rings[P2A_REQ as int];
                    let sel = Mailbox::notification(channel_id as u16, 0xff);
                    match ring.find(sel, 0) {
                        Some(k) => {
                            let payload = ring.payload(k, RPMI_MAX_DATA_LEN as int);
                            &&& r == SbiRet::ok(payload.len() as usize)
                            &&& final(page)@ == notification_page(old(page)@, payload)
                            &&& final(m)@ == (Mailbox {
                                rings: m@.rings.update(P2A_REQ as int, ring.taken(k)),
                                ..m@
                            })
                        },
                        None => {
                            &&& r == SbiRet::ok(0)
                            &&& final(page)@ == no_notification_page(old(page)@)
                            &&& final(m)@ == m@
                        },
                    }
                },
            },
    {
        match self.check_message(hart, channel_id, 0, mailbox.is_some()) {
            Ok(()) => {},
            Err(r) => return r,
        }
        match mailbox {
            Some(m) => {
                let mut buf: Vec<u8> = vec![0u8; RPMI_MAX_DATA_LEN as usize];
                let ghost before = m@;
                let ghost sel = Mailbox::notification(channel_id as u16, 0xff);
                match m.receive_notification(channel_id as u16, 0xff, buf.as_mut_slice()) {
                    Ok(n) => {
                        write_events_state(page, 1);
                        copy_bytes(buf.as_slice(), 0, page, 0x10, n);
                        proof {
                            let ring = before.rings[P2A_REQ as int];
                            ring.find_is_first(sel, 0);
                            let k = ring.find(sel, 0)->0;
                            let payload = ring.payload(k, RPMI_MAX_DATA_LEN as int);
                            assert(payload.len() == n);
                            assert(page@ =~= notification_page(old(page)@, payload));
                        }
                        SbiRet::success(n)
                    },
                    Err(()) => {
                        assert(m@ =~= before);
                        write_events_state(page, 0);
                        SbiRet::success(0)
                    },
                }
            },
            None => SbiRet::not_supported(),
        }
    }
}

/// A hart's request to set its page succeeds exactly if the two low flags are clear and the pointer
/// is aligned to a page or has all bits set. The page recorded is then the one asked for, or none;
/// a refused request records nothing, and no request touches another hart's page.
pub proof fn page_recorded(pages: Seq<usize>, hart: int, shmem: SharedPtr, flags: usize)
    requires
        0 <= hart < pages.len(),
    ensures
        ({
            let (after, r) = page_set(pages, hart, shmem, flags);
            let off = shmem.phys_addr_lo == usize::MAX && shmem.phys_addr_hi == usize::MAX;
            let ok = flags % 4 == 0 && (off || shmem.phys_addr_lo % 4096 == 0);
            &&& ok ==> r == SbiRet::ok(0)
            &&& !ok ==> r == SbiRet::err(SbiError::InvalidParam) && after == pages
            &&& ok && off ==> after[hart] == 0
            &&& ok && !off ==> after[hart] == shmem.phys_addr_lo
            &&& after.len() == pages.len()
            &&& forall|i: int| 0 <= i < pages.len() && i != hart ==> after[i] == pages[i]
        }),
{
}

/// Which channels exist: those of the base, reset, suspend, hart, performance, voltage, clock and
/// power-domain groups and the vendor's two. They are listed in ascending order, so that none is
/// listed twice.
pub proof fn channel_numbers(channel_id: u32)
    ensures
        is_channel_id(channel_id) <==> channel_id == 1 || 3 <= channel_id <= 9 || channel_id == 14
            || channel_id == 15,
        channels().len() == 10,
        forall|i: int, j: int| 0 <= i < j < 10 ==> channels()[i] < channels()[j],
        forall|i: int| 0 <= i < 10 ==> is_channel_id((#[trigger] channels()[i]) as u32),
{
    let c = channels();
    assert(c[0] == 1 && c[1] == 3 && c[2] == 4 && c[3] == 5 && c[4] == 6 && c[5] == 7 && c[6] == 8
        && c[7] == 9 && c[8] == 14 && c[9] == 15);
}

/// The attributes of a channel. Those of the proxy say that messages follow version 1.0 of the
/// protocol, hold 248 bytes at most and are waited for 500 polls; neither interrupts nor events are
/// switched on. Those of the protocol name the service group, which is the channel itself, its
/// version and that of the implementation. There are no others.
pub proof fn attribute_values(channel_id: u32, attr: int)
    ensures
        attribute(channel_id, attr) is Some <==> 0 <= attr <= 11 || 0x8000_0000 <= attr
            <= 0x8000_0003,
        attr == 0 ==> attribute(channel_id, attr) == Some(0u32),
        attr == 1 ==> attribute(channel_id, attr) == Some(0x1_0000u32),
        attr == 2 ==> attribute(channel_id, attr) == Some(248u32),
        attr == 3 || attr == 4 ==> attribute(channel_id, attr) == Some(500u32),
        attr == 5 ==> attribute(channel_id, attr) == Some(60u32),
        6 <= attr <= 11 ==> attribute(channel_id, attr) == Some(0u32),
        attr == 0x8000_0000 ==> attribute(channel_id, attr) == Some(channel_id),
        attr == 0x8000_0001 ==> attribute(channel_id, attr) == Some(0x1_0000u32),
        attr == 0x8000_0002 ==> attribute(channel_id, attr) == Some(0u32),
        attr == 0x8000_0003 ==> attribute(channel_id, attr) == Some(1u32),
{
}

/// Only the attributes that control interrupts and events-state reports can be written.
pub proof fn writable_attributes(attr: int)
    ensures
        is_writable(attr) <==> attr == 7 || attr == 11,
{
}

/// How many attributes a request finds: as many as it asks for, unless one of them does not exist;
/// then those before it.
pub proof fn attributes_until_gap(channel_id: u32, base: int, count: nat)
    requires
        0 <= base,
    ensures
        ({
            let n = attributes_found(channel_id, base, count);
            let last = if base <= 11 {
                12int
            } else {
                0x8000_0004
            };
            &&& base <= 11 || 0x8000_0000 <= base <= 0x8000_0003 ==> n == if base + count <= last {
                count as int
            } else {
                last - base
            }
            &&& 12 <= base < 0x8000_0000 || 0x8000_0003 < base ==> n == 0
        }),
    decreases count,
{
    if count > 0 {
        attributes_until_gap(channel_id, base, (count - 1) as nat);
    }
}

/// The service that a message goes to is the low byte of its identifier.
pub proof fn service_is_low_byte(message_id: u32)
    ensures
        (message_id - service_of(message_id)) % 256 == 0,
{
}

impl SbiMpxy {
    /// A message reaches the mailbox exactly if its channel exists, it holds 248 bytes at most, the
    /// hart shares a page and there is a mailbox; the first of these that fails, in this order, is
    /// what the supervisor is told.
    pub proof fn message_refused(
        self,
        hart: int,
        channel_id: u32,
        len: int,
        has_mailbox: bool,
    )
        ensures
            ({
                let known = channel_id == 1 || 3 <= channel_id <= 9 || channel_id == 14
                    || channel_id == 15;
                let r = self.refused(hart, channel_id, len, has_mailbox);
                &&& r is None <==> known && len <= 248 && self@[hart] != 0 && has_mailbox
                &&& !known ==> r == Some(SbiError::NotSupported)
                &&& known && len > 248 ==> r == Some(SbiError::InvalidParam)
                &&& known && len <= 248 && self@[hart] == 0 ==> r == Some(SbiError::NoShmem)
                &&& known && len <= 248 && self@[hart] != 0 && !has_mailbox ==> r == Some(
                    SbiError::NotSupported,
                )
            }),
    {
        channel_numbers(channel_id);
    }
}

/// A message that is forwarded is the last in the request queue, with or without a response: it
/// names the channel as its service group and the low byte of the message's identifier as its
/// service, and carries the first bytes of the page, as many as the message has. One without
/// response is posted, so that none is sent.
pub proof fn message_forwarded(
    m: Mailbox,
    channel_id: u32,
    message_id: u32,
    page: Seq<u8>,
    len: int,
    acks: Seq<SmqQueue>,
)
    requires
        m.wf(),
        m.rings[0].wf(),
        0 <= len <= 248,
        page.len() == 4096,
        m.accepts(len as nat),
        channel_id < 0x1_0000,
    ensures
        ({
            let posted = m.submitted(
                channel_id as u16,
                service_of(message_id),
                MessageType::PostedRequest,
                page.take(len),
            );
            let waited = m.requested(
                channel_id as u16,
                service_of(message_id),
                page.take(len),
                zeroes(248),
                acks,
            ).mailbox;
            let a = posted.rings[0].pending().last();
            let b = waited.rings[0].pending().last();
            &&& posted.rings[0].pending().len() == m.rings[0].pending().len() + 1
            &&& waited.rings[0].pending().len() == m.rings[0].pending().len() + 1
            &&& a[0] + 256 * a[1] == channel_id && b[0] + 256 * b[1] == channel_id
            &&& a[2] == message_id % 256 && b[2] == message_id % 256
            &&& a[3] == 1 && b[3] == 0
            &&& a[4] + 256 * a[5] == len && b[4] + 256 * b[5] == len
            &&& a.subrange(8, 8 + len) == page.take(len)
            &&& b.subrange(8, 8 + len) == page.take(len)
        }),
{
    let (group, service, req) = (channel_id as u16, service_of(message_id), page.take(len));
    m.request_on_wire(group, service, MessageType::PostedRequest, req);
    m.request_on_wire(group, service, MessageType::NormalRequest, req);
    m.request_sends_once(group, service, req, zeroes(248), acks, 0, Seq::empty());
}

/// What becomes of the page: a successful response is copied to its start, as much as was received,
/// and its length is returned; everything behind it stays. Any other outcome leaves the page alone
/// and is an error.
pub proof fn response_reported(
    reply: Result<(Error, usize), ()>,
    resp: Seq<u8>,
    page: Seq<u8>,
    i: int,
)
    requires
        resp.len() <= page.len(),
        reply matches Ok((_, len)) ==> len <= resp.len(),
        0 <= i < page.len(),
    ensures
        ({
            let r = response_ret(reply);
            let after = response_page(reply, resp, page);
            &&& after.len() == page.len()
            &&& r.error == 0 <==> (reply matches Ok(answer) && answer.0 == Error::Success)
            &&& r.error == 0 ==> r.value == reply->Ok_0.1
            &&& r.error == 0 && i < r.value ==> after[i] == resp[i]
            &&& r.error == 0 && i >= r.value ==> after[i] == page[i]
            &&& r.error != 0 ==> r.value == 0 && after == page
            &&& reply is Err ==> r == SbiRet::err(SbiError::Timeout)
            &&& reply matches Ok((status, _)) ==> status != Error::Success ==> r == sbi_of_rpmi(
                status,
            )
        }),
{
}

/// Beyond the notification's payload the page stays as it was.
pub proof fn notification_frame(page: Seq<u8>, payload: Seq<u8>)
    requires
        16 + payload.len() <= page.len(),
    ensures
        notification_page(page, payload).len() == page.len(),
        notification_page(page, payload).skip(16int + payload.len()) == page.skip(
            16int + payload.len(),
        ),
        no_notification_page(page).len() == page.len(),
{
    assert(notification_page(page, payload).skip(16int + payload.len()) =~= page.skip(
        16int + payload.len(),
    ));
}

/// Attributes of a channel are written only one at a time, and only the two that control interrupts
/// and events-state reports.
pub proof fn attributes_written(channel_id: u32, base: int, count: int)
    requires
        0 <= base,
        0 <= count,
    ensures
        ({
            let r = write_ret(channel_id, base, count);
            let known = channel_id == 1 || 3 <= channel_id <= 9 || channel_id == 14 || channel_id
                == 15;
            &&& r == SbiRet::ok(0) <==> known && count == 1 && (base == 7 || base == 11)
            &&& !known ==> r == SbiRet::err(SbiError::NotSupported)
            &&& known && count == 0 ==> r == SbiRet::err(SbiError::InvalidParam)
            &&& known && count > 0 && r != SbiRet::ok(0) ==> r == SbiRet::err(SbiError::Denied)
        }),
{
    channel_numbers(channel_id);
    if count > 0 {
        assert(is_writable(base) ==> base == 7 || base == 11);
        if count > 1 {
            assert(!is_writable(base) || !is_writable(base + 1));
        }
    }
}

/// What the supervisor reads in the page once it has asked for the channels: none remains, the
/// number of those from the index on, and each of them in its place. Nothing behind the list
/// changes; a request that is refused changes nothing at all.
pub proof fn channels_reported(shared: usize, start: int, page: Seq<u8>, i: int)
    requires
        page.len() == 4096,
        0 <= start,
    ensures
        ({
            let (after, r) = channels_answered(shared, start, page);
            let ok = shared != 0 && start <= 10;
            &&& r == SbiRet::ok(0) <==> ok
            &&& shared == 0 ==> r == SbiRet::err(SbiError::NoShmem)
            &&& shared != 0 && start > 10 ==> r == SbiRet::err(SbiError::InvalidParam)
            &&& !ok ==> after == page
            &&& after.len() == 4096
            &&& ok ==> u32_at(after, 0) == 0 && u32_at(after, 4) == 10 - start
            &&& ok && start <= i < 10 ==> u32_at(after, 8 + 4 * (i - start)) == channels()[i]
            &&& ok && 8 + 4 * (10 - start) <= i < 4096 ==> after[i] == page[i]
        }),
{
    if shared != 0 && start <= 10 {
        let list = channel_list(start);
        let after = splice(page, 0, list);
        let tail = channels().skip(start);
        crate::bytes::u32_roundtrip(0);
        crate::bytes::u32_roundtrip((10 - start) as u32);
        id_bytes_len(tail);
        if start <= i < 10 {
            channels_listed(start, i);
            let off = 8 + 4 * (i - start);
            assert(after[off] == list[off] && after[off + 1] == list[off + 1] && after[off + 2]
                == list[off + 2] && after[off + 3] == list[off + 3]);
        }
    }
}

/// Identifiers take one word each.
proof fn id_bytes_len(ids: Seq<u16>)
    ensures
        id_bytes(ids).len() == 4 * ids.len(),
    decreases ids.len(),
{
    if ids.len() > 0 {
        id_bytes_len(ids.drop_last());
    }
}

/// What the supervisor reads in the page once it has asked for attributes: the value of each that
/// was found, in its place. It is told of success exactly if all that it asked for exist. A request
/// that is refused changes nothing, and none changes what lies behind the attributes found.
pub proof fn attributes_reported(
    shared: usize,
    channel_id: u32,
    base: int,
    count: nat,
    page: Seq<u8>,
    i: int,
)
    requires
        page.len() == 4096,
        0 <= base,
        0 <= i,
    ensures
        ({
            let (after, r) = attributes_answered(shared, channel_id, base, count, page);
            let known = channel_id == 1 || 3 <= channel_id <= 9 || channel_id == 14 || channel_id
                == 15;
            let n = attributes_found(channel_id, base, count);
            let served = known && count > 0 && shared != 0;
            &&& !known ==> r == SbiRet::err(SbiError::NotSupported)
            &&& known && count == 0 ==> r == SbiRet::err(SbiError::InvalidParam)
            &&& known && count > 0 && shared == 0 ==> r == SbiRet::err(SbiError::NoShmem)
            &&& !served ==> after == page
            &&& served ==> (r == SbiRet::ok(0) <==> forall|k: int|
                0 <= k < count ==> (#[trigger] attribute(channel_id, base + k)) is Some)
            &&& served && r != SbiRet::ok(0) ==> r == SbiRet::err(SbiError::BadRange)
            &&& after.len() == 4096
            &&& served && i < n ==> attribute(channel_id, base + i) == Some(u32_at(after, 4 * i))
            &&& served && 4 * n <= i < 4096 ==> after[i] == page[i]
        }),
{
    channel_numbers(channel_id);
    let n = attributes_found(channel_id, base, count);
    found_bounds(channel_id, base, count);
    attributes_complete(channel_id, base, count);
    attribute_bytes_len(channel_id, base, n);
    attributes_until_gap(channel_id, base, count);
    attributes_until_gap(channel_id, base, n);
    assert(attributes_found(channel_id, base, n) == n);
    if i < n {
        attributes_listed(channel_id, base, n, i);
        let list = attribute_bytes(channel_id, base, n);
        let after = splice(page, 0, list);
        let off = 4 * i;
        assert(after[off] == list[off] && after[off + 1] == list[off + 1] && after[off + 2]
            == list[off + 2] && after[off + 3] == list[off + 3]);
    }
}

} // verus!
