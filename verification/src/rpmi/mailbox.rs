//! Mailbox controller over the four shared-memory queues.
//!
//! Offers the two request patterns of the protocol: a normal request, which waits for an
//! acknowledgement, and a posted request, which does not; and the receipt of notifications.
use vstd::prelude::*;

use crate::bytes::{copy_bytes, least, read_u32, splice, u32_at, zeroes};
use crate::rpmi::message::{
    Error, MessageHeader, MessageType, RPMI_MSG_HDR_SIZE, RPMI_MSG_TOKEN_MASK,
};
use crate::rpmi::queue_idx::{A2P_REQ, MAX_COUNT, P2A_ACK, P2A_REQ};
use crate::rpmi::smq::{Le32, Ring, Selector, SmqQueue};

verus! {

/// Default time to send a message, in milliseconds.
pub const RPMI_DEF_TX_TIMEOUT: u32 = 500;

/// Default time to wait for an acknowledgement: milliseconds of a timed wait, polls of a counted
/// one.
pub const RPMI_DEF_RX_TIMEOUT: u32 = 500;

/// Ticks of the machine timer per second.
pub const MTIME_FREQ_HZ: u64 = 24_000_000;

/// Size of the buffer that an acknowledgement is received into.
pub const RX_SIZE: usize = 256;

/// Doorbell register by which the management processor is notified.
pub struct Doorbell {
    addr: usize,
    reg: Le32,
}

impl Doorbell {
    /// Address of the register.
    pub closed spec fn spec_addr(self) -> usize {
        self.addr
    }

    /// Value of the register.
    pub closed spec fn value(self) -> u32 {
        self.reg@
    }

    /// The register at `addr`, which holds `reg`.
    pub fn new(addr: usize, reg: Le32) -> (d: Doorbell)
        ensures
            d.spec_addr() == addr,
            d.value() == reg@,
    {
        Doorbell { addr, reg }
    }
}

/// What a mailbox holds.
#[verifier::ext_equal]
pub struct Mailbox {
    /// Size of one queue slot in bytes.
    pub slot_size: usize,
    /// The four queues, in the order of their indices.
    pub rings: Seq<Ring>,
    /// Address and value of the doorbell register.
    pub doorbell: Option<(usize, u32)>,
    /// The token that was handed out last.
    pub token: u16,
}

impl Mailbox {
    /// The queue of requests can be sent to.
    pub open spec fn wf(self) -> bool {
        &&& self.rings.len() == MAX_COUNT
        &&& self.rings[A2P_REQ as int].sendable()
    }

    /// The token that is handed out next. After the last one the first follows; zero is skipped.
    pub open spec fn next_token(self) -> u16 {
        if self.token < RPMI_MSG_TOKEN_MASK {
            (self.token + 1) as u16
        } else {
            1
        }
    }

    /// The token that the `n`-th request from now on carries, counted from one.
    pub open spec fn nth_token(self, n: int) -> u16 {
        ((self.token + n - 1) % (RPMI_MSG_TOKEN_MASK as int) + 1) as u16
    }

    /// Header of the request that is sent next.
    pub open spec fn header(
        self,
        group: u16,
        service: u8,
        kind: MessageType,
        len: nat,
    ) -> MessageHeader {
        MessageHeader {
            servicegroup_id: group,
            service_id: service,
            flags: kind.code(),
            datalen: (len % 65536) as u16,
            token: self.next_token(),
        }
    }

    /// A request of `len` bytes fits into the request queue.
    pub open spec fn accepts(self, len: nat) -> bool {
        let ring = self.rings[A2P_REQ as int];
        !ring.is_full() && len <= ring.slot_size - RPMI_MSG_HDR_SIZE
    }

    /// The mailbox after a request has been submitted. The token is used up in any case; the
    /// message is sent, and the doorbell rung, if it fits.
    pub open spec fn submitted(
        self,
        group: u16,
        service: u8,
        kind: MessageType,
        req: Seq<u8>,
    ) -> Mailbox {
        let numbered = Mailbox { token: self.next_token(), ..self };
        if self.accepts(req.len()) {
            Mailbox {
                rings: self.rings.update(
                    A2P_REQ as int,
                    self.rings[A2P_REQ as int].sent(
                        self.header(group, service, kind, req.len()),
                        req,
                    ),
                ),
                doorbell: match self.doorbell {
                    Some((addr, _)) => Some((addr, 1)),
                    None => None,
                },
                ..numbered
            }
        } else {
            numbered
        }
    }

    /// The notifications of a service.
    pub open spec fn notification(group: u16, service: u8) -> Selector {
        Selector::Id {
            servicegroup_id: group,
            service_id: service,
            msg_type: MessageType::Notification.code(),
        }
    }

    /// Every poll for the next token finds a queue that can be read.
    pub open spec fn acks_readable(self, acks: Seq<SmqQueue>) -> bool {
        let wanted = Selector::Token(self.next_token());
        &&& acks.len() == 0 ==> self.rings[P2A_ACK as int].readable(wanted, RX_SIZE as int)
        &&& forall|i: int| 0 <= i < acks.len() ==> (#[trigger] acks[i])@.readable(
            wanted,
            RX_SIZE as int,
        )
    }

    /// What a normal request does, with a response buffer that holds `room` and the queue of
    /// acknowledgements as observed at each poll.
    pub open spec fn requested(
        self,
        group: u16,
        service: u8,
        req: Seq<u8>,
        room: Seq<u8>,
        acks: Seq<SmqQueue>,
    ) -> Exchange {
        let sent = self.submitted(group, service, MessageType::NormalRequest, req);
        let held = self.rings[P2A_ACK as int];
        let token = self.next_token();
        if room.len() < 4 {
            Exchange { mailbox: self, resp: room, reply: Err(()) }
        } else if !self.accepts(req.len()) {
            Exchange { mailbox: sent, resp: room, reply: Err(()) }
        } else {
            match first_ack(held, acks, token, 0) {
                Some(i) => {
                    let got = look(seen(held, acks, i), token, room);
                    Exchange {
                        mailbox: sent.with_acks(got.acks),
                        resp: got.resp,
                        reply: Ok(got.reply->0),
                    }
                },
                None => Exchange {
                    mailbox: sent.with_acks(seen(held, acks, RPMI_DEF_RX_TIMEOUT - 1)),
                    resp: room,
                    reply: Err(()),
                },
            }
        }
    }

    /// Every look of a timed wait finds a queue that can be read.
    pub open spec fn polls_readable(self, polls: Seq<Poll>) -> bool {
        let wanted = Selector::Token(self.next_token());
        forall|i: int|
            0 <= i < polls.len() ==> (#[trigger] polls[i]).acks@.readable(wanted, RX_SIZE as int)
    }

    /// What a normal request with a timed wait does, which starts at the tick `start`.
    pub open spec fn requested_timed(
        self,
        group: u16,
        service: u8,
        req: Seq<u8>,
        room: Seq<u8>,
        start: u64,
        polls: Seq<Poll>,
    ) -> Exchange {
        let sent = self.submitted(group, service, MessageType::NormalRequest, req);
        let token = self.next_token();
        if room.len() < 4 {
            Exchange { mailbox: self, resp: room, reply: Err(()) }
        } else if !self.accepts(req.len()) || polls.len() == 0 {
            Exchange { mailbox: sent, resp: room, reply: Err(()) }
        } else {
            let end = last_look(polls, token, start + rx_ticks(), 0);
            let got = look(polls[end].acks@, token, room);
            Exchange {
                mailbox: sent.with_acks(got.acks),
                resp: got.resp,
                reply: match got.reply {
                    Some(reply) => Ok(reply),
                    None => Err(()),
                },
            }
        }
    }

    /// The mailbox with another queue of acknowledgements.
    pub open spec fn with_acks(self, acks: Ring) -> Mailbox {
        Mailbox { rings: self.rings.update(P2A_ACK as int, acks), ..self }
    }
}

/// Outcome of a normal request.
pub struct Exchange {
    /// The mailbox afterwards.
    pub mailbox: Mailbox,
    /// The response buffer afterwards.
    pub resp: Seq<u8>,
    /// Status and length of the acknowledgement, or a failure of the transport.
    pub reply: Result<(Error, usize), ()>,
}

/// An acknowledgement's payload, as the receive buffer holds it.
pub open spec fn ack_payload(ring: Ring, k: int) -> Seq<u8> {
    splice(zeroes(RX_SIZE as nat), 0, ring.payload(k, RX_SIZE as int))
}

/// The number that a 32-bit word stands for in two's complement.
pub open spec fn signed(word: u32) -> int {
    if word < 0x8000_0000 {
        word as int
    } else {
        word - 0x1_0000_0000
    }
}

/// The status that an acknowledgement starts with.
pub open spec fn ack_status(rx: Seq<u8>) -> Error {
    Error::of_status(signed(u32_at(rx, 0)))
}

/// What one look at the queue of acknowledgements brings.
pub struct Look {
    /// The queue afterwards.
    pub acks: Ring,
    /// The response buffer afterwards.
    pub resp: Seq<u8>,
    /// Status and length of the acknowledgement, if it was there.
    pub reply: Option<(Error, usize)>,
}

/// Looks for the acknowledgement that carries `token`, with a response buffer that holds `room`.
pub open spec fn look(ring: Ring, token: u16, room: Seq<u8>) -> Look {
    match ring.find(Selector::Token(token), 0) {
        Some(k) => {
            let n = least(ring.payload_len(k, RX_SIZE as int), room.len() as int);
            Look {
                acks: ring.taken(k),
                resp: splice(room, 0, ack_payload(ring, k).take(n)),
                reply: Some((ack_status(ack_payload(ring, k)), n as usize)),
            }
        },
        None => Look { acks: ring, resp: room, reply: None },
    }
}

/// The queue of acknowledgements that the `i`-th poll sees: the `i`-th one observed, or the last
/// one when there are no more; with none observed, the one that the mailbox held.
pub open spec fn seen(held: Ring, acks: Seq<SmqQueue>, i: int) -> Ring {
    if acks.len() == 0 {
        held
    } else if i < acks.len() {
        acks[i]@
    } else {
        acks.last()@
    }
}

/// The first poll, from the `from`-th on, that sees an acknowledgement with the token.
pub open spec fn first_ack(held: Ring, acks: Seq<SmqQueue>, token: u16, from: int) -> Option<int>
    decreases RPMI_DEF_RX_TIMEOUT - from,
{
    if from >= RPMI_DEF_RX_TIMEOUT {
        None
    } else if seen(held, acks, from).find(Selector::Token(token), 0) is Some {
        Some(from)
    } else {
        first_ack(held, acks, token, from + 1)
    }
}

/// One look at the queue of acknowledgements in a timed wait.
pub struct Poll {
    /// The queue as it was observed.
    pub acks: SmqQueue,
    /// Tick of the machine timer after the look.
    pub now: u64,
}

/// The look at which a timed wait ends, from the `from`-th on: the first that sees the
/// acknowledgement or comes to the deadline, or else the last one there is.
pub open spec fn last_look(polls: Seq<Poll>, token: u16, deadline: int, from: int) -> int
    decreases polls.len() - from,
{
    if from + 1 >= polls.len() || polls[from].acks@.find(Selector::Token(token), 0) is Some
        || polls[from].now >= deadline {
        from
    } else {
        last_look(polls, token, deadline, from + 1)
    }
}

/// Length of a timed wait in ticks of the machine timer.
pub open spec fn rx_ticks() -> int {
    RPMI_DEF_RX_TIMEOUT * MTIME_FREQ_HZ / 1000
}

/// Reads a word as a number in two's complement.
fn to_signed(word: u32) -> (x: i32)
    ensures
        x == signed(word),
{
    if word < 0x8000_0000 {
        word as i32
    } else {
        (word - 0x8000_0000) as i32 + i32::MIN
    }
}

/// Tick of the machine timer at which a wait that starts at `now` ends.
pub fn rx_deadline(now: u64) -> (deadline: u64)
    requires
        now + rx_ticks() <= u64::MAX,
    ensures
        deadline == now + rx_ticks(),
{
    now + RPMI_DEF_RX_TIMEOUT as u64 * MTIME_FREQ_HZ / 1000
}

/// Whether a wait that ends at `deadline` is over at `now`.
pub fn rx_expired(now: u64, deadline: u64) -> (b: bool)
    ensures
        b == (now >= deadline),
{
    now >= deadline
}

impl Mailbox {
    /// A token is never zero and never the one before it: after the last one the first follows.
    pub proof fn token_moves(self)
        ensures
            self.next_token() != 0,
            self.next_token() != self.token,
            self.next_token() == if self.token == 0xffff {
                1
            } else {
                self.token + 1
            },
    {
    }

    /// Each request carries the token that is its turn, whether or not it fits.
    pub proof fn tokens_in_turn(
        self,
        group: u16,
        service: u8,
        kind: MessageType,
        req: Seq<u8>,
        n: int,
    )
        requires
            1 <= n,
        ensures
            self.next_token() == self.nth_token(1),
            self.submitted(group, service, kind, req).token == self.next_token(),
            self.submitted(group, service, kind, req).nth_token(n) == self.nth_token(n + 1),
    {
    }

    /// No request carries token zero, and two requests carry the same token only if as many lie
    /// between them as there are tokens.
    pub proof fn tokens_fresh(self, i: int, j: int)
        requires
            1 <= i < j,
        ensures
            self.nth_token(i) != 0,
            self.nth_token(i) == self.nth_token(j) ==> (j - i) % 0xffff == 0,
    {
    }

    /// A submitted request leaves the other queues and the slot size alone, and the queue of
    /// requests can still be sent to.
    pub proof fn submitted_frame(self, group: u16, service: u8, kind: MessageType, req: Seq<u8>)
        requires
            self.wf(),
        ensures
            self.submitted(group, service, kind, req).wf(),
            self.submitted(group, service, kind, req).slot_size == self.slot_size,
            forall|i: int|
                0 <= i < MAX_COUNT && i != A2P_REQ ==> self.submitted(
                    group,
                    service,
                    kind,
                    req,
                ).rings[i] == self.rings[i],
    {
    }
}

/// The poll that `first_ack` names is the first one that sees the acknowledgement.
pub proof fn first_ack_is_first(held: Ring, acks: Seq<SmqQueue>, token: u16, from: int)
    requires
        0 <= from,
    ensures
        match first_ack(held, acks, token, from) {
            Some(i) => {
                &&& from <= i < RPMI_DEF_RX_TIMEOUT
                &&& seen(held, acks, i).find(Selector::Token(token), 0) is Some
                &&& forall|j: int|
                    from <= j < i ==> (#[trigger] seen(held, acks, j)).find(
                        Selector::Token(token),
                        0,
                    ) is None
            },
            None => forall|j: int|
                from <= j < RPMI_DEF_RX_TIMEOUT ==> (#[trigger] seen(held, acks, j)).find(
                    Selector::Token(token),
                    0,
                ) is None,
        },
    decreases RPMI_DEF_RX_TIMEOUT - from,
{
    if from < RPMI_DEF_RX_TIMEOUT && seen(held, acks, from).find(
        Selector::Token(token),
        0,
    ) is None {
        first_ack_is_first(held, acks, token, from + 1);
    }
}

/// What the management processor acknowledges is what the requester gets: the status word and the
/// payload, cut off at the size of the requester's buffer.
pub proof fn reply_reaches_requester(
    ring: Ring,
    header: MessageHeader,
    data: Seq<u8>,
    room: Seq<u8>,
)
    requires
        ring.wf(),
        !ring.is_full(),
        4 <= data.len() <= 256,
        data.len() <= ring.slot_size - RPMI_MSG_HDR_SIZE,
        header.datalen == data.len(),
        ring.find(Selector::Token(header.token), 0) is None,
    ensures
        ({
            let n = least(data.len() as int, room.len() as int);
            let got = look(ring.sent(header, data), header.token, room);
            &&& got.reply == Some((Error::of_status(signed(u32_at(data, 0))), n as usize))
            &&& got.resp == splice(room, 0, data.take(n))
        }),
{
    let sel = Selector::Token(header.token);
    header.bytes_roundtrip(Seq::empty());
    assert(header.to_bytes() + Seq::<u8>::empty() =~= header.to_bytes());
    ring.send_receive(header, data, sel, RX_SIZE as int);
    let rx = ack_payload(ring.sent(header, data), ring.count());
    assert(data.take(data.len() as int) =~= data);
    let n = least(data.len() as int, room.len() as int);
    assert(rx.take(n) =~= data.take(n));
    assert(u32_at(rx, 0) == u32_at(data, 0));
}

/// A timed wait ends at the first look that sees the acknowledgement or comes to the deadline.
pub proof fn last_look_is_first(polls: Seq<Poll>, token: u16, deadline: int, from: int)
    requires
        0 <= from < polls.len(),
    ensures
        ({
            let end = last_look(polls, token, deadline, from);
            &&& from <= end < polls.len()
            &&& forall|j: int|
                from <= j < end ==> (#[trigger] polls[j]).acks@.find(Selector::Token(token), 0)
                    is None && polls[j].now < deadline
            &&& end + 1 < polls.len() ==> polls[end].acks@.find(Selector::Token(token), 0) is Some
                || polls[end].now >= deadline
        }),
    decreases polls.len() - from,
{
    if from + 1 < polls.len() && polls[from].acks@.find(Selector::Token(token), 0) is None
        && polls[from].now < deadline {
        last_look_is_first(polls, token, deadline, from + 1);
    }
}

impl Mailbox {
    /// A request that fits, and whose acknowledgement is there at the `i`-th poll and not before,
    /// is answered with the status and the payload that the management processor sent.
    pub proof fn request_answered(
        self,
        group: u16,
        service: u8,
        req: Seq<u8>,
        room: Seq<u8>,
        acks: Seq<SmqQueue>,
        i: int,
        ring: Ring,
        header: MessageHeader,
        data: Seq<u8>,
    )
        requires
            self.accepts(req.len()),
            4 <= room.len(),
            0 <= i < acks.len(),
            i < 500,
            acks[i]@ == ring.sent(header, data),
            forall|j: int|
                0 <= j < i ==> (#[trigger] acks[j])@.find(Selector::Token(header.token), 0) is None,
            ring.wf(),
            !ring.is_full(),
            4 <= data.len() <= 256,
            data.len() <= ring.slot_size - RPMI_MSG_HDR_SIZE,
            header.datalen == data.len(),
            header.token == self.next_token(),
            ring.find(Selector::Token(header.token), 0) is None,
        ensures
            ({
                let done = self.requested(group, service, req, room, acks);
                let n = least(data.len() as int, room.len() as int);
                &&& done.reply == Ok::<(Error, usize), ()>(
                    (Error::of_status(signed(u32_at(data, 0))), n as usize),
                )
                &&& done.resp == splice(room, 0, data.take(n))
            }),
    {
        let held = self.rings[P2A_ACK as int];
        let sel = Selector::Token(header.token);
        header.bytes_roundtrip(Seq::empty());
        assert(header.to_bytes() + Seq::<u8>::empty() =~= header.to_bytes());
        ring.send_receive(header, data, sel, RX_SIZE as int);
        reply_reaches_requester(ring, header, data, room);
        assert(seen(held, acks, i) == ring.sent(header, data));
        first_ack_is_first(held, acks, self.next_token(), 0);
        assert(first_ack(held, acks, self.next_token(), 0) == Some(i));
    }
}

impl Mailbox {
    /// A request is accepted exactly if the request queue has a slot to spare and the request fits
    /// into a slot beside the eight bytes of the header.
    pub proof fn accepted_if_it_fits(self, len: nat)
        requires
            self.rings[0].wf(),
        ensures
            self.accepts(len) <==> self.rings[0].pending().len() < self.rings[0].num_slots - 1 && 8
                + len <= self.rings[0].slot_size,
    {
        self.rings[0].capacity();
    }

    /// A request that is accepted is the last message in the request queue. Its header names the
    /// group, the service, the kind, the number of bytes of the request and the request's token,
    /// and the bytes of the request follow. The messages before it stay, and the doorbell is rung.
    pub proof fn request_on_wire(self, group: u16, service: u8, kind: MessageType, req: Seq<u8>)
        requires
            self.wf(),
            self.rings[0].wf(),
            self.accepts(req.len()),
            req.len() <= 0xffff,
        ensures
            ({
                let after = self.submitted(group, service, kind, req);
                let sent = after.rings[0].pending();
                let msg = sent.last();
                &&& sent.len() == self.rings[0].pending().len() + 1
                &&& sent.drop_last() == self.rings[0].pending()
                &&& msg[0] + 256 * msg[1] == group
                &&& msg[2] == service
                &&& msg[3] == match kind {
                    MessageType::NormalRequest => 0u8,
                    MessageType::PostedRequest => 1,
                    MessageType::Acknowledgement => 2,
                    MessageType::Notification => 3,
                }
                &&& msg[4] + 256 * msg[5] == req.len()
                &&& msg[6] + 256 * msg[7] == after.token
                &&& msg.len() == self.rings[0].slot_size >= 8 + req.len()
                &&& msg.subrange(8, 8int + req.len()) == req
                &&& self.doorbell is None ==> after.doorbell is None
                &&& self.doorbell matches Some((addr, _)) ==> after.doorbell == Some((addr, 1u32))
            }),
    {
        let ring = self.rings[0];
        let header = self.header(group, service, kind, req.len());
        ring.sent_appends(header, req);
        header.header_on_wire();
        kind.numbers();
        let start = ring.tail * ring.slot_size;
        let msg = splice(ring.slot(ring.tail), 0, header.to_bytes() + req);
        assert(0 <= start && start + ring.slot_size <= ring.mem.len()) by {
            assert(0 <= ring.tail * ring.slot_size && ring.tail * ring.slot_size + ring.slot_size
                <= ring.num_slots * ring.slot_size) by (nonlinear_arith)
                requires
                    0 <= ring.tail < ring.num_slots,
                    0 <= ring.slot_size,
            ;
        }
        assert(msg.subrange(8, 8int + req.len()) =~= req);
        let sent = ring.sent(header, req).pending();
        assert(sent.drop_last() =~= ring.pending());
        assert(self.submitted(group, service, kind, req).rings[0] == ring.sent(header, req));
    }

    /// A receiver that asks the request queue for a request's token gets exactly the request.
    pub proof fn request_received(
        self,
        group: u16,
        service: u8,
        kind: MessageType,
        req: Seq<u8>,
        room: int,
    )
        requires
            self.wf(),
            self.rings[0].wf(),
            self.accepts(req.len()),
            req.len() <= 0xffff,
            req.len() <= room,
            self.rings[0].find(Selector::Token(self.next_token()), 0) is None,
        ensures
            ({
                let after = self.submitted(group, service, kind, req);
                after.rings[0].delivers(after.token, req, room)
            }),
    {
        let ring = self.rings[0];
        let header = self.header(group, service, kind, req.len());
        let sel = Selector::Token(self.next_token());
        header.bytes_roundtrip(Seq::empty());
        assert(header.to_bytes() + Seq::<u8>::empty() =~= header.to_bytes());
        ring.send_receive(header, req, sel, room);
        assert(req.take(req.len() as int) =~= req);
        ring.sent_appends(header, req);
        assert(self.submitted(group, service, kind, req).rings[0] == ring.sent(header, req));
    }

    /// A request that does not fit leaves the queues and the doorbell alone; its token is used up.
    pub proof fn refused_request(self, group: u16, service: u8, kind: MessageType, req: Seq<u8>)
        requires
            !self.accepts(req.len()),
        ensures
            ({
                let after = self.submitted(group, service, kind, req);
                &&& after.rings == self.rings
                &&& after.doorbell == self.doorbell
                &&& after.slot_size == self.slot_size
                &&& after.token == self.next_token()
            }),
    {
    }

    /// A normal request with a buffer for the status sends exactly one message, as a normal
    /// request, whatever comes of it, and touches no queue but that of requests and that of
    /// acknowledgements. With a smaller buffer nothing is done at all.
    pub proof fn request_sends_once(
        self,
        group: u16,
        service: u8,
        req: Seq<u8>,
        room: Seq<u8>,
        acks: Seq<SmqQueue>,
        start: u64,
        polls: Seq<Poll>,
    )
        requires
            self.rings.len() == 4,
        ensures
            ({
                let sent = self.submitted(group, service, MessageType::NormalRequest, req);
                let counted = self.requested(group, service, req, room, acks);
                let timed = self.requested_timed(group, service, req, room, start, polls);
                &&& room.len() >= 4 ==> counted.mailbox.same_but_acks(sent)
                    && timed.mailbox.same_but_acks(sent)
                &&& room.len() >= 4 && !self.accepts(req.len()) ==> counted.reply is Err
                    && counted.mailbox == sent && counted.resp == room && timed.reply is Err
                    && timed.mailbox == sent && timed.resp == room
                &&& room.len() < 4 ==> counted.mailbox == self && counted.resp == room
                    && counted.reply is Err && timed.mailbox == self && timed.resp == room
                    && timed.reply is Err
            }),
    {
    }

    /// Two mailboxes differ at most in their queue of acknowledgements.
    pub open spec fn same_but_acks(self, other: Mailbox) -> bool {
        &&& self.slot_size == other.slot_size
        &&& self.doorbell == other.doorbell
        &&& self.token == other.token
        &&& self.rings.len() == other.rings.len()
        &&& self.rings[0] == other.rings[0]
        &&& self.rings[2] == other.rings[2]
        &&& self.rings[3] == other.rings[3]
    }

    /// A counted wait gives up after five hundred polls without the acknowledgement, and leaves the
    /// buffer alone.
    pub proof fn unanswered_request_fails(
        self,
        group: u16,
        service: u8,
        req: Seq<u8>,
        room: Seq<u8>,
        acks: Seq<SmqQueue>,
    )
        requires
            500 <= acks.len(),
            forall|j: int|
                0 <= j < 500 ==> (#[trigger] acks[j])@.find(
                    Selector::Token(self.next_token()),
                    0,
                ) is None,
        ensures
            self.requested(group, service, req, room, acks).reply is Err,
            self.requested(group, service, req, room, acks).resp == room,
    {
        first_ack_is_first(self.rings[P2A_ACK as int], acks, self.next_token(), 0);
    }

    /// A timed wait gives up at the first look without the acknowledgement that comes half a second
    /// of the 24 MHz timer, or later, after the wait began, and leaves the buffer alone.
    pub proof fn late_answer_fails(
        self,
        group: u16,
        service: u8,
        req: Seq<u8>,
        room: Seq<u8>,
        start: u64,
        polls: Seq<Poll>,
        i: int,
    )
        requires
            0 <= i < polls.len(),
            polls[i].now >= start + 12_000_000,
            forall|j: int|
                0 <= j <= i ==> (#[trigger] polls[j]).acks@.find(
                    Selector::Token(self.next_token()),
                    0,
                ) is None,
        ensures
            self.requested_timed(group, service, req, room, start, polls).reply is Err,
            self.requested_timed(group, service, req, room, start, polls).resp == room,
    {
        last_look_is_first(polls, self.next_token(), start + rx_ticks(), 0);
        let end = last_look(polls, self.next_token(), start + rx_ticks(), 0);
        if i < end {
            assert(polls[i].now < start + rx_ticks());
        }
    }

    /// A timed wait that has not come to half a second answers the request with the status and the
    /// payload that the management processor sent.
    pub proof fn timed_request_answered(
        self,
        group: u16,
        service: u8,
        req: Seq<u8>,
        room: Seq<u8>,
        start: u64,
        polls: Seq<Poll>,
        i: int,
        ring: Ring,
        header: MessageHeader,
        data: Seq<u8>,
    )
        requires
            self.accepts(req.len()),
            4 <= room.len(),
            0 <= i < polls.len(),
            polls[i].acks@ == ring.sent(header, data),
            forall|j: int|
                0 <= j < i ==> (#[trigger] polls[j]).acks@.find(Selector::Token(header.token), 0)
                    is None && polls[j].now < start + 12_000_000,
            ring.wf(),
            !ring.is_full(),
            4 <= data.len() <= 256,
            data.len() <= ring.slot_size - 8,
            header.datalen == data.len(),
            header.token == self.next_token(),
            ring.find(Selector::Token(header.token), 0) is None,
        ensures
            ({
                let done = self.requested_timed(group, service, req, room, start, polls);
                let n = least(data.len() as int, room.len() as int);
                &&& done.reply == Ok::<(Error, usize), ()>(
                    (Error::of_status(signed(u32_at(data, 0))), n as usize),
                )
                &&& done.resp == splice(room, 0, data.take(n))
            }),
    {
        let sel = Selector::Token(header.token);
        header.bytes_roundtrip(Seq::empty());
        assert(header.to_bytes() + Seq::<u8>::empty() =~= header.to_bytes());
        ring.send_receive(header, data, sel, RX_SIZE as int);
        reply_reaches_requester(ring, header, data, room);
        last_look_is_first(polls, self.next_token(), start + rx_ticks(), 0);
        let end = last_look(polls, self.next_token(), start + rx_ticks(), 0);
        if end < i {
            assert(polls[end].acks@.find(sel, 0) is None);
        }
    }

    /// A notification of a service group is a message whose first two bytes hold the group, whose
    /// third byte holds the service, unless any will do, and whose type is three.
    pub proof fn notification_selects(group: u16, service: u8, msg: Seq<u8>)
        ensures
            Mailbox::notification(group, service).accepts(msg) <==> msg[0] + 256 * msg[1] == group
                && (service == 255 || msg[2] == service) && msg[3] % 8 == 3,
    {
        Selector::by_id(group, service, 3, msg);
    }
}

impl Mailbox {
    /// An acknowledgement that answers a request leaves the queue, and the others stay in it.
    pub proof fn answer_consumed(
        self,
        group: u16,
        service: u8,
        req: Seq<u8>,
        room: Seq<u8>,
        acks: Seq<SmqQueue>,
        i: int,
        ring: Ring,
        header: MessageHeader,
        data: Seq<u8>,
    )
        requires
            self.rings.len() == 4,
            self.accepts(req.len()),
            4 <= room.len(),
            0 <= i < acks.len(),
            i < 500,
            acks[i]@ == ring.sent(header, data),
            forall|j: int|
                0 <= j < i ==> (#[trigger] acks[j])@.find(Selector::Token(header.token), 0) is None,
            ring.wf(),
            !ring.is_full(),
            4 <= data.len() <= 256,
            data.len() <= ring.slot_size - 8,
            header.datalen == data.len(),
            header.token == self.next_token(),
            ring.find(Selector::Token(header.token), 0) is None,
        ensures
            ({
                let left = self.requested(group, service, req, room, acks).mailbox.rings[1];
                &&& left.pending().len() == ring.pending().len()
                &&& left.pending().to_multiset() =~= ring.pending().to_multiset()
                &&& left.find(Selector::Token(header.token), 0) is None
            }),
    {
        broadcast use vstd::seq_lib::group_to_multiset_ensures;

        let held = self.rings[P2A_ACK as int];
        let sel = Selector::Token(header.token);
        let after = ring.sent(header, data);
        let k = ring.count();
        header.bytes_roundtrip(Seq::empty());
        assert(header.to_bytes() + Seq::<u8>::empty() =~= header.to_bytes());
        ring.send_receive(header, data, sel, RX_SIZE as int);
        ring.sent_appends(header, data);
        assert(seen(held, acks, i) == after);
        first_ack_is_first(held, acks, self.next_token(), 0);
        assert(first_ack(held, acks, self.next_token(), 0) == Some(i));
        let left = self.requested(group, service, req, room, acks).mailbox.rings[1];
        assert(left == after.taken(k));
        after.taken_removes(k);
        after.taken_multiset(k);
        let p = ring.pending();
        let msg = after.pending()[k];
        assert(after.pending() =~= p.push(msg));
        assert(p.push(msg).to_multiset() =~= p.to_multiset().insert(msg));
        assert(p.to_multiset().insert(msg).remove(msg) =~= p.to_multiset());
        ring.find_is_first(sel, 0);
        left.find_is_first(sel, 0);
        assert forall|j: int| 0 <= j < left.count() implies !sel.accepts(
            #[trigger] left.pending()[j],
        ) by {
            let m = left.pending()[j];
            assert(left.pending().contains(m));
            assert(left.pending().to_multiset().count(m) > 0);
            assert(p.to_multiset().count(m) > 0);
            assert(p.contains(m));
            let x = choose|x: int| 0 <= x < p.len() && p[x] == m;
            assert(!sel.accepts(ring.pending()[x]));
        }
    }

    /// A request that is never answered leaves the queue of acknowledgements as it was last seen.
    pub proof fn unanswered_keeps_acks(
        self,
        group: u16,
        service: u8,
        req: Seq<u8>,
        room: Seq<u8>,
        acks: Seq<SmqQueue>,
    )
        requires
            self.rings.len() == 4,
            self.accepts(req.len()),
            4 <= room.len(),
            500 <= acks.len(),
            forall|j: int|
                0 <= j < 500 ==> (#[trigger] acks[j])@.find(
                    Selector::Token(self.next_token()),
                    0,
                ) is None,
        ensures
            self.requested(group, service, req, room, acks).mailbox.rings[1] == acks[499]@,
    {
        first_ack_is_first(self.rings[P2A_ACK as int], acks, self.next_token(), 0);
    }
}

/// What each poll sees: what was observed for it, or what was observed last when there was nothing
/// new, or what the mailbox held if nothing was ever observed.
pub proof fn polls_see(held: Ring, acks: Seq<SmqQueue>, i: int)
    requires
        0 <= i,
    ensures
        i < acks.len() ==> seen(held, acks, i) == acks[i]@,
        0 < acks.len() <= i ==> seen(held, acks, i) == seen(held, acks, acks.len() - 1),
        acks.len() == 0 ==> seen(held, acks, i) == held,
{
}

impl Mailbox {
    /// A request to which no observed queue holds an answer fails, however few were observed.
    pub proof fn no_answer_fails(
        self,
        group: u16,
        service: u8,
        req: Seq<u8>,
        room: Seq<u8>,
        acks: Seq<SmqQueue>,
    )
        requires
            acks.len() == 0 ==> self.rings[1].find(Selector::Token(self.next_token()), 0) is None,
            forall|j: int|
                0 <= j < acks.len() ==> (#[trigger] acks[j])@.find(
                    Selector::Token(self.next_token()),
                    0,
                ) is None,
        ensures
            self.requested(group, service, req, room, acks).reply is Err,
            self.requested(group, service, req, room, acks).resp == room,
    {
        first_ack_is_first(self.rings[P2A_ACK as int], acks, self.next_token(), 0);
        if let Some(i) = first_ack(self.rings[P2A_ACK as int], acks, self.next_token(), 0) {
            if acks.len() > 0 {
                let k = if i < acks.len() {
                    i
                } else {
                    acks.len() - 1
                };
                assert(acks[k]@.find(Selector::Token(self.next_token()), 0) is None);
            }
        }
    }
}

/// A word and the number that it stands for differ by a multiple of the words there are, and half
/// of the numbers are negative.
pub proof fn signed_range(word: u32)
    ensures
        -0x8000_0000 <= signed(word) < 0x8000_0000,
        (word - signed(word)) % 0x1_0000_0000 == 0,
{
}

/// Mailbox controller: four ring queues and an optional doorbell register by which the management
/// processor is notified.
pub struct RpmiMailbox {
    slot_size: usize,
    queues: [SmqQueue; 4],
    doorbell: Option<Doorbell>,
    next_token: u16,
}

impl View for RpmiMailbox {
    type V = Mailbox;

    closed spec fn view(&self) -> Mailbox {
        Mailbox {
            slot_size: self.slot_size,
            rings: self.queues@.map_values(|q: SmqQueue| q@),
            doorbell: match self.doorbell {
                Some(d) => Some((d.spec_addr(), d.value())),
                None => None,
            },
            token: self.next_token,
        }
    }
}

impl RpmiMailbox {
    /// Creates a mailbox controller.
    pub fn new(
        slot_size: usize,
        queues: [SmqQueue; 4],
        doorbell: Option<Doorbell>,
    ) -> (m: RpmiMailbox)
        ensures
            m@ == (Mailbox {
                slot_size,
                rings: queues@.map_values(|q: SmqQueue| q@),
                doorbell: match doorbell {
                    Some(d) => Some((d.spec_addr(), d.value())),
                    None => None,
                },
                token: 1,
            }),
    {
        RpmiMailbox { slot_size, queues, doorbell, next_token: 1 }
    }

    /// Hands out the next message token.
    pub fn alloc_token(&mut self) -> (token: u16)
        ensures
            token == old(self)@.next_token(),
            final(self)@ == (Mailbox { token, ..old(self)@ }),
    {
        if self.next_token < RPMI_MSG_TOKEN_MASK {
            self.next_token = self.next_token + 1;
        } else {
            self.next_token = 1;
        }
        self.next_token
    }

    /// Sends a request of the given kind and returns its token, or fails if it does not fit.
    fn submit(&mut self, servicegroup_id: u16, service_id: u8, kind: MessageType, req: &[u8]) -> (r:
        Result<u16, ()>)
        requires
            old(self)@.wf(),
        ensures
            r is Ok <==> old(self)@.accepts(req@.len()),
            r is Ok ==> r->Ok_0 == old(self)@.next_token(),
            final(self)@ == old(self)@.submitted(servicegroup_id, service_id, kind, req@),
    {
        let token: u16 = self.alloc_token();
        let len: usize = req.len();
        let header = MessageHeader::new(
            servicegroup_id,
            service_id,
            kind,
            (len % 65536) as u16,
            token,
        );
        let doorbell = match &mut self.doorbell {
            Some(d) => Some(&mut d.reg),
            None => None,
        };
        let sent = self.queues[A2P_REQ].send(&header, req, doorbell);
        assert(self@.rings =~= old(self)@.submitted(servicegroup_id, service_id, kind, req@).rings);
        match sent {
            Ok(()) => Ok(token),
            Err(()) => Err(()),
        }
    }

    /// Sends a normal request and returns the token that its acknowledgement will carry. Fails if
    /// the request queue is full or the request is too large.
    pub fn begin_request(&mut self, servicegroup_id: u16, service_id: u8, req: &[u8]) -> (r: Result<
        u16,
        (),
    >)
        requires
            old(self)@.wf(),
        ensures
            r is Ok <==> old(self)@.accepts(req@.len()),
            r is Ok ==> r->Ok_0 == old(self)@.next_token(),
            final(self)@ == old(self)@.submitted(
                servicegroup_id,
                service_id,
                MessageType::NormalRequest,
                req@,
            ),
    {
        self.submit(servicegroup_id, service_id, MessageType::NormalRequest, req)
    }

    /// Takes over a queue as it was observed in shared memory.
    pub fn observe(&mut self, index: usize, queue: SmqQueue)
        requires
            index < MAX_COUNT,
        ensures
            final(self)@ == (Mailbox {
                rings: old(self)@.rings.update(index as int, queue@),
                ..old(self)@
            }),
    {
        self.queues[index] = queue;
        assert(self@.rings =~= old(self)@.rings.update(index as int, queue@));
    }

    /// Looks for the acknowledgement that carries `token`. If it is there, its payload is copied
    /// into `resp`, and its status and the number of bytes copied are returned.
    pub fn poll_ack(&mut self, token: u16, resp: &mut [u8]) -> (r: Option<(Error, usize)>)
        requires
            old(self)@.rings.len() == MAX_COUNT,
            old(self)@.rings[P2A_ACK as int].readable(Selector::Token(token), RX_SIZE as int),
        ensures
            ({
                let got = look(old(self)@.rings[P2A_ACK as int], token, old(resp)@);
                &&& r == got.reply
                &&& final(resp)@ == got.resp
                &&& final(self)@ == old(self)@.with_acks(got.acks)
            }),
    {
        let mut rx: Vec<u8> = vec![0u8; RX_SIZE];
        let ghost ring = self@.rings[P2A_ACK as int];
        assert(rx@ =~= zeroes(RX_SIZE as nat));
        let received = self.queues[P2A_ACK].receive(token, rx.as_mut_slice());
        assert(self@.rings =~= old(self)@.rings.update(
            P2A_ACK as int,
            self@.rings[P2A_ACK as int],
        ));
        match received {
            Ok(n) => {
                let status: i32 = to_signed(read_u32(rx.as_slice(), 0));
                let room: usize = resp.len();
                let copy: usize = if n <= room {
                    n
                } else {
                    room
                };
                copy_bytes(rx.as_slice(), 0, resp, 0, copy);
                Some((Error::from_status(status), copy))
            },
            Err(()) => None,
        }
    }

    /// One look of a timed wait. Returns the outcome of the request if the wait ends with it: the
    /// acknowledgement was there, or the deadline has come.
    pub fn poll_timed(&mut self, token: u16, deadline: u64, poll: &Poll, resp: &mut [u8]) -> (r:
        Option<Result<(Error, usize), ()>>)
        requires
            old(self)@.rings.len() == MAX_COUNT,
            poll.acks@.readable(Selector::Token(token), RX_SIZE as int),
        ensures
            ({
                let got = look(poll.acks@, token, old(resp)@);
                &&& r == match got.reply {
                    Some(reply) => Some(Ok::<(Error, usize), ()>(reply)),
                    None => if poll.now >= deadline {
                        Some(Err(()))
                    } else {
                        None
                    },
                }
                &&& final(resp)@ == got.resp
                &&& final(self)@ == old(self)@.with_acks(got.acks)
            }),
    {
        self.observe(P2A_ACK, poll.acks.snapshot());
        let found = self.poll_ack(token, resp);
        assert(self@ =~= old(self)@.with_acks(look(poll.acks@, token, old(resp)@).acks));
        match found {
            Some(reply) => Some(Ok(reply)),
            None => if rx_expired(poll.now, deadline) {
                Some(Err(()))
            } else {
                None
            },
        }
    }

    /// Performs a normal request: sends it and waits for its acknowledgement.
    ///
    /// `acks` is the queue of acknowledgements as it stands at each poll; when there are fewer
    /// than there are polls, the last one stays. The acknowledgement's payload, status word
    /// first, is copied into `resp`, and the status and the number of bytes copied are returned.
    /// Fails when `resp` cannot hold a status, when the request does not fit into the queue, and
    /// when no acknowledgement comes.
    pub fn normal_request_with_status(
        &mut self,
        servicegroup_id: u16,
        service_id: u8,
        req: &[u8],
        resp: &mut [u8],
        acks: &[SmqQueue],
    ) -> (r: Result<(Error, usize), ()>)
        requires
            old(self)@.wf(),
            old(self)@.acks_readable(acks@),
        ensures
            ({
                let done = old(self)@.requested(
                    servicegroup_id,
                    service_id,
                    req@,
                    old(resp)@,
                    acks@,
                );
                &&& r == done.reply
                &&& final(resp)@ == done.resp
                &&& final(self)@ == done.mailbox
            }),
            r matches Ok((_, n)) ==> n <= old(resp)@.len(),
    {
        let room: usize = resp.len();
        if room < 4 {
            return Err(());
        }
        let token: u16 = match self.begin_request(servicegroup_id, service_id, req) {
            Ok(token) => token,
            Err(()) => return Err(()),
        };
        let ghost begun = self@;
        let ghost held = begun.rings[P2A_ACK as int];
        let mut i: u32 = 0;
        while i < RPMI_DEF_RX_TIMEOUT
            invariant
                i <= RPMI_DEF_RX_TIMEOUT,
                begun.wf(),
                held == begun.rings[P2A_ACK as int],
                held == old(self)@.rings[P2A_ACK as int],
                begun == old(self)@.submitted(
                    servicegroup_id,
                    service_id,
                    MessageType::NormalRequest,
                    req@,
                ),
                old(self)@.accepts(req@.len()),
                token == old(self)@.next_token(),
                old(self)@.acks_readable(acks@),
                old(self)@.wf(),
                old(resp)@.len() >= 4,
                resp@ == old(resp)@,
                self@ == if i == 0 {
                    begun
                } else {
                    begun.with_acks(seen(held, acks@, i - 1))
                },
                first_ack(held, acks@, token, 0) == first_ack(held, acks@, token, i as int),
            decreases RPMI_DEF_RX_TIMEOUT - i,
        {
            let at: usize = i as usize;
            if at < acks.len() {
                self.observe(P2A_ACK, acks[at].snapshot());
            }
            assert(self@ =~= begun.with_acks(seen(held, acks@, i as int)));
            if let Some(reply) = self.poll_ack(token, resp) {
                assert(self@ =~= begun.with_acks(
                    look(seen(held, acks@, i as int), token, old(resp)@).acks,
                ));
                return Ok(reply);
            }
            i += 1;
        }
        Err(())
    }

    /// Performs a normal request with a timed wait, which starts at the tick `start`.
    ///
    /// `polls` is what is observed in turn. The wait ends with the first observation that sees the
    /// acknowledgement or comes to the deadline, or when there are no more. Fails as the counted
    /// wait does.
    pub fn normal_request_timed(
        &mut self,
        servicegroup_id: u16,
        service_id: u8,
        req: &[u8],
        resp: &mut [u8],
        start: u64,
        polls: &[Poll],
    ) -> (r: Result<(Error, usize), ()>)
        requires
            old(self)@.wf(),
            old(self)@.polls_readable(polls@),
            start + rx_ticks() <= u64::MAX,
        ensures
            ({
                let done = old(self)@.requested_timed(
                    servicegroup_id,
                    service_id,
                    req@,
                    old(resp)@,
                    start,
                    polls@,
                );
                &&& r == done.reply
                &&& final(resp)@ == done.resp
                &&& final(self)@ == done.mailbox
            }),
            r matches Ok((_, n)) ==> n <= old(resp)@.len(),
    {
        let room: usize = resp.len();
        if room < 4 {
            return Err(());
        }
        let token: u16 = match self.begin_request(servicegroup_id, service_id, req) {
            Ok(token) => token,
            Err(()) => return Err(()),
        };
        let deadline: u64 = rx_deadline(start);
        let ghost begun = self@;
        let mut i: usize = 0;
        while i < polls.len()
            invariant
                i <= polls@.len(),
                begun.wf(),
                begun == old(self)@.submitted(
                    servicegroup_id,
                    service_id,
                    MessageType::NormalRequest,
                    req@,
                ),
                old(self)@.wf(),
                old(self)@.accepts(req@.len()),
                old(self)@.polls_readable(polls@),
                token == old(self)@.next_token(),
                deadline == start + rx_ticks(),
                old(resp)@.len() >= 4,
                resp@ == old(resp)@,
                self@ == if i == 0 {
                    begun
                } else {
                    begun.with_acks(polls@[i - 1].acks@)
                },
                i > 0 ==> polls@[i - 1].acks@.find(Selector::Token(token), 0) is None,
                last_look(polls@, token, deadline as int, 0) == last_look(
                    polls@,
                    token,
                    deadline as int,
                    if i < polls@.len() || i == 0 {
                        i as int
                    } else {
                        i - 1
                    },
                ),
            decreases polls@.len() - i,
        {
            let ended = self.poll_timed(token, deadline, &polls[i], resp);
            assert(self@ =~= begun.with_acks(
                look(polls@[i as int].acks@, token, old(resp)@).acks,
            ));
            if let Some(r) = ended {
                return r;
            }
            i += 1;
        }
        Err(())
    }

    /// Performs a posted request: sends it and returns at once. Fails if the request queue is full
    /// or the request is too large.
    pub fn posted_request(
        &mut self,
        servicegroup_id: u16,
        service_id: u8,
        req: &[u8],
    ) -> (r: Result<
        (),
        (),
    >)
        requires
            old(self)@.wf(),
        ensures
            r is Ok <==> old(self)@.accepts(req@.len()),
            final(self)@ == old(self)@.submitted(
                servicegroup_id,
                service_id,
                MessageType::PostedRequest,
                req@,
            ),
    {
        match self.submit(servicegroup_id, service_id, MessageType::PostedRequest, req) {
            Ok(_) => Ok(()),
            Err(()) => Err(()),
        }
    }

    /// Receives a notification of the management processor.
    ///
    /// Notifications carry no token: they are matched by service group, service (`0xff` stands for
    /// any) and type. The payload is copied into `out`, and the number of bytes copied is returned.
    /// Fails when no such notification is pending.
    pub fn receive_notification(
        &mut self,
        servicegroup_id: u16,
        service_id: u8,
        out: &mut [u8],
    ) -> (r:
        Result<usize, ()>)
        requires
            old(self)@.rings.len() == MAX_COUNT,
            old(self)@.rings[P2A_REQ as int].readable(
                Mailbox::notification(servicegroup_id, service_id),
                old(out)@.len() as int,
            ),
        ensures
            old(self)@.rings[P2A_REQ as int].taking(
                Mailbox::notification(servicegroup_id, service_id),
                old(out)@,
                final(self)@.rings[P2A_REQ as int],
                final(out)@,
                r,
            ),
            final(self)@ == (Mailbox {
                rings: old(self)@.rings.update(
                    P2A_REQ as int,
                    final(self)@.rings[P2A_REQ as int],
                ),
                ..old(self)@
            }),
    {
        let r = self.queues[P2A_REQ].receive_by_message_id(
            servicegroup_id,
            service_id,
            MessageType::Notification.bits(),
            out,
        );
        assert(self@.rings =~= old(self)@.rings.update(
            P2A_REQ as int,
            self@.rings[P2A_REQ as int],
        ));
        r
    }

    /// Size of one queue slot in bytes.
    pub fn slot_size(&self) -> (n: usize)
        ensures
            n == self@.slot_size,
    {
        self.slot_size
    }

    /// Address of the doorbell register, or zero if there is none.
    pub fn doorbell_addr(&self) -> (addr: usize)
        ensures
            addr == match self@.doorbell {
                Some((addr, _)) => addr,
                None => 0,
            },
    {
        match &self.doorbell {
            Some(d) => d.addr,
            None => 0,
        }
    }

    /// Whether the queue of requests can be sent to.
    pub fn can_request(&self) -> (b: bool)
        ensures
            b == self@.wf(),
    {
        self.queues[A2P_REQ].can_send()
    }

    /// One of the queues.
    pub fn queue(&self, index: usize) -> (q: &SmqQueue)
        requires
            index < MAX_COUNT,
        ensures
            q@ == self@.rings[index as int],
    {
        &self.queues[index]
    }
}

} // verus!
