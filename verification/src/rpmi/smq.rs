//! Shared-memory queues: rings of fixed-size slots that carry RPMI messages.
//!
//! The head index is written by the reader of a queue and the tail index by its writer. A queue
//! whose head and tail agree is empty; one slot always stays free, so that a full queue differs
//! from an empty one.
use vstd::prelude::*;

use crate::bytes::{copy_bytes, least, read_u16, splice, u32_at, u32_le, write_u16};
use crate::rpmi::message::{MessageHeader, RPMI_MSG_HDR_SIZE, RPMI_MSG_TYPE_MASK};

verus! {

/// A 32-bit word of shared memory, stored little-endian.
#[derive(Clone, Copy)]
pub struct Le32 {
    bytes: [u8; 4],
}

impl View for Le32 {
    type V = u32;

    closed spec fn view(&self) -> u32 {
        u32_at(self.bytes@, 0)
    }
}

impl Le32 {
    /// A word that holds `value`.
    pub fn new(value: u32) -> (w: Le32)
        ensures
            w@ == value,
    {
        let mut w = Le32 { bytes: [0, 0, 0, 0] };
        w.write(value);
        w
    }

    /// The word's bytes in memory.
    pub closed spec fn spec_bytes(self) -> Seq<u8> {
        self.bytes@
    }

    /// The word whose bytes in memory are those given.
    pub fn from_bytes(bytes: [u8; 4]) -> (w: Le32)
        ensures
            w.spec_bytes() == bytes@,
            w@ == u32_at(bytes@, 0),
    {
        Le32 { bytes }
    }

    /// The word's bytes in memory, least significant first.
    pub fn to_bytes(&self) -> (bytes: [u8; 4])
        ensures
            bytes@ == u32_le(self@),
    {
        proof {
            crate::bytes::u32_bytes_roundtrip(self.bytes@, 0);
            assert(self.bytes@.subrange(0, 4) =~= self.bytes@);
        }
        self.bytes
    }

    /// Reads the value in little-endian order.
    pub fn read(&self) -> (value: u32)
        ensures
            value == self@,
    {
        self.bytes[0] as u32 + 256 * (self.bytes[1] as u32) + 65536 * (self.bytes[2] as u32)
            + 16777216 * (self.bytes[3] as u32)
    }

    /// Writes the value in little-endian order.
    pub fn write(&mut self, value: u32)
        ensures
            final(self)@ == value,
            final(self).spec_bytes() == u32_le(value),
    {
        self.bytes =
        [
            (value % 256) as u8,
            (value / 256 % 256) as u8,
            (value / 65536 % 256) as u8,
            (value / 16777216) as u8,
        ];
        assert(self.bytes@ =~= u32_le(value));
        proof {
            crate::bytes::u32_roundtrip(value);
        }
    }
}

/// Which message of a queue a reader wants.
#[derive(Clone, Copy)]
pub enum Selector {
    /// The message that carries this token.
    Token(u16),
    /// A message of this service group, service and type; service `0xff` stands for any.
    Id { servicegroup_id: u16, service_id: u8, msg_type: u8 },
}

impl Selector {
    /// Whether the reader wants `msg`.
    pub open spec fn accepts(self, msg: Seq<u8>) -> bool {
        let h = MessageHeader::of_bytes(msg);
        match self {
            Selector::Token(token) => h.token == token,
            Selector::Id { servicegroup_id, service_id, msg_type } => {
                &&& h.servicegroup_id == servicegroup_id
                &&& service_id == 0xff || h.service_id == service_id
                &&& h.flags & RPMI_MSG_TYPE_MASK == msg_type
            },
        }
    }
}

/// What a queue holds: its indices and its slot memory.
pub struct Ring {
    /// Index of the slot that is read next.
    pub head: int,
    /// Index of the slot that is written next.
    pub tail: int,
    /// The bytes of all slots.
    pub mem: Seq<u8>,
    /// Size of one slot in bytes.
    pub slot_size: int,
    /// Number of slots.
    pub num_slots: int,
}

impl Ring {
    /// The geometry is sound and both indices name a slot.
    pub open spec fn wf(self) -> bool {
        &&& 0 < self.num_slots
        &&& RPMI_MSG_HDR_SIZE <= self.slot_size
        &&& self.num_slots * self.slot_size <= self.mem.len()
        &&& 0 <= self.head < self.num_slots
        &&& 0 <= self.tail < self.num_slots
    }

    /// A message can be sent, if there is room: the geometry is sound and the tail index names a
    /// slot.
    pub open spec fn sendable(self) -> bool {
        &&& RPMI_MSG_HDR_SIZE <= self.slot_size
        &&& self.num_slots * self.slot_size <= self.mem.len()
        &&& 0 <= self.tail < self.num_slots <= u32::MAX
    }

    /// The index after `i`, around the ring.
    pub open spec fn next(self, i: int) -> int {
        if i + 1 < self.num_slots {
            i + 1
        } else {
            0
        }
    }

    /// Number of messages in the queue.
    pub open spec fn count(self) -> int {
        if self.head <= self.tail {
            self.tail - self.head
        } else {
            self.tail + self.num_slots - self.head
        }
    }

    /// The slot that holds the `k`-th message, counted from the head.
    pub open spec fn at(self, k: int) -> int {
        if self.head + k < self.num_slots {
            self.head + k
        } else {
            self.head + k - self.num_slots
        }
    }

    /// The bytes of slot `i`.
    pub open spec fn slot(self, i: int) -> Seq<u8> {
        self.mem.subrange(i * self.slot_size, i * self.slot_size + self.slot_size)
    }

    /// The messages in the queue, oldest first.
    pub open spec fn pending(self) -> Seq<Seq<u8>> {
        Seq::new(self.count() as nat, |k: int| self.slot(self.at(k)))
    }

    /// No message is in the queue.
    pub open spec fn is_empty(self) -> bool {
        self.head == self.tail
    }

    /// No further message fits.
    pub open spec fn is_full(self) -> bool {
        self.next(self.tail) == self.head
    }

    /// The first message at or after the `from`-th one that `sel` accepts.
    pub open spec fn find(self, sel: Selector, from: int) -> Option<int>
        decreases self.count() - from,
    {
        if from < 0 || self.count() <= from {
            None
        } else if sel.accepts(self.pending()[from]) {
            Some(from)
        } else {
            self.find(sel, from + 1)
        }
    }

    /// The ring after a message has been written to the tail slot.
    pub open spec fn sent(self, header: MessageHeader, data: Seq<u8>) -> Ring {
        Ring {
            mem: splice(self.mem, self.tail * self.slot_size, header.to_bytes() + data),
            tail: self.next(self.tail),
            ..self
        }
    }

    /// The slot memory with slots `i` and `j` exchanged.
    pub open spec fn swapped(self, i: int, j: int) -> Seq<u8> {
        splice(
            splice(self.mem, i * self.slot_size, self.slot(j)),
            j * self.slot_size,
            self.slot(i),
        )
    }

    /// The ring after the `k`-th message has been moved to the head slot and read.
    pub open spec fn taken(self, k: int) -> Ring {
        Ring {
            mem: self.swapped(self.head, self.at(k)),
            head: self.next(self.head),
            ..self
        }
    }

    /// Number of payload bytes that reading the `k`-th message into `room` bytes copies.
    pub open spec fn payload_len(self, k: int, room: int) -> int {
        let len = MessageHeader::of_bytes(self.pending()[k]).datalen as int;
        if len <= room {
            len
        } else {
            room
        }
    }

    /// The payload bytes that reading the `k`-th message into `room` bytes copies: those that
    /// follow the header in the head slot, once the message has been moved there.
    pub open spec fn payload(self, k: int, room: int) -> Seq<u8> {
        let start = self.head * self.slot_size + RPMI_MSG_HDR_SIZE;
        self.taken(k).mem.subrange(start, start + self.payload_len(k, room))
    }

    /// The payload that reading the `k`-th message copies lies in the slot memory.
    pub open spec fn payload_fits(self, k: int, room: int) -> bool {
        self.head * self.slot_size + RPMI_MSG_HDR_SIZE + self.payload_len(k, room)
            <= self.mem.len()
    }

    /// The first message that `sel` accepts can be read into a buffer of `room` bytes. An empty
    /// queue can always be read.
    pub open spec fn readable(self, sel: Selector, room: int) -> bool {
        !self.is_empty() ==> {
            &&& self.wf()
            &&& self.num_slots <= u32::MAX
            &&& self.find(sel, 0) matches Some(k) ==> self.payload_fits(k, room)
        }
    }

    /// What reading the first message that `sel` accepts does: `r` and the ring and the buffer
    /// afterwards, where the buffer held `room` before.
    pub open spec fn taking(
        self,
        sel: Selector,
        room: Seq<u8>,
        ring: Ring,
        out: Seq<u8>,
        r: Result<usize, ()>,
    ) -> bool {
        match self.find(sel, 0) {
            Some(k) => {
                &&& r is Ok
                &&& r->Ok_0 == self.payload_len(k, room.len() as int)
                &&& ring == self.taken(k)
                &&& out == splice(room, 0, self.payload(k, room.len() as int))
            },
            None => {
                &&& r is Err
                &&& ring == self
                &&& out == room
            },
        }
    }
}

/// A slot lies in the slot memory.
proof fn slot_bounds(i: int, n: int, size: int, len: int)
    requires
        0 <= i < n,
        0 <= size,
        n * size <= len,
    ensures
        0 <= i * size,
        i * size + size <= len,
{
    assert(0 <= i * size && i * size + size <= n * size) by (nonlinear_arith)
        requires
            0 <= i < n,
            0 <= size,
    ;
}

/// Distinct slots do not overlap.
proof fn slots_apart(i: int, j: int, size: int)
    requires
        i < j,
        0 <= size,
    ensures
        i * size + size <= j * size,
{
    assert(i * size + size <= j * size) by (nonlinear_arith)
        requires
            i < j,
            0 <= size,
    ;
}

impl Ring {
    /// `find` yields the first accepted message at or after `from`, and nothing if there is none.
    pub proof fn find_is_first(self, sel: Selector, from: int)
        requires
            0 <= from,
        ensures
            match self.find(sel, from) {
                Some(k) => {
                    &&& from <= k < self.count()
                    &&& sel.accepts(self.pending()[k])
                    &&& forall|j: int| from <= j < k ==> !sel.accepts(#[trigger] self.pending()[j])
                },
                None => forall|j: int|
                    from <= j < self.count() ==> !sel.accepts(#[trigger] self.pending()[j]),
            },
        decreases self.count() - from,
    {
        if from < self.count() && !sel.accepts(self.pending()[from]) {
            self.find_is_first(sel, from + 1);
        }
    }

    /// After a message has been moved to the head slot, that slot holds it.
    proof fn taken_head(self, k: int)
        requires
            self.wf(),
            0 <= k < self.count(),
        ensures
            self.taken(k).slot(self.head) == self.pending()[k],
    {
        let pos = self.at(k);
        slot_bounds(self.head, self.num_slots, self.slot_size, self.mem.len() as int);
        slot_bounds(pos, self.num_slots, self.slot_size, self.mem.len() as int);
        if self.head < pos {
            slots_apart(self.head, pos, self.slot_size);
        } else if pos < self.head {
            slots_apart(pos, self.head, self.slot_size);
        }
        assert(self.taken(k).slot(self.head) =~= self.slot(pos));
    }

    /// A queue of `n` slots is full when it holds `n - 1` messages, and empty when it holds none.
    pub proof fn capacity(self)
        requires
            self.wf(),
        ensures
            0 <= self.count() < self.num_slots,
            self.is_full() <==> self.count() == self.num_slots - 1,
            self.is_empty() <==> self.count() == 0,
    {
    }
}

impl Ring {
    /// Sending appends the message: the older ones keep their content and order.
    pub proof fn sent_appends(self, header: MessageHeader, data: Seq<u8>)
        requires
            self.wf(),
            !self.is_full(),
            data.len() <= self.slot_size - RPMI_MSG_HDR_SIZE,
        ensures
            self.sent(header, data).wf(),
            self.sent(header, data).pending() == self.pending().push(
                splice(self.slot(self.tail), 0, header.to_bytes() + data),
            ),
    {
        let after = self.sent(header, data);
        let msg = splice(self.slot(self.tail), 0, header.to_bytes() + data);
        slot_bounds(self.tail, self.num_slots, self.slot_size, self.mem.len() as int);
        assert(header.to_bytes().len() == RPMI_MSG_HDR_SIZE);
        assert forall|k: int| 0 <= k < after.count() implies after.pending()[k]
            == self.pending().push(msg)[k] by {
            let pos = self.at(k);
            slot_bounds(pos, self.num_slots, self.slot_size, self.mem.len() as int);
            if pos < self.tail {
                slots_apart(pos, self.tail, self.slot_size);
            } else if self.tail < pos {
                slots_apart(self.tail, pos, self.slot_size);
            }
            assert(after.slot(pos) =~= if pos == self.tail {
                msg
            } else {
                self.slot(pos)
            });
        }
        assert(after.pending() =~= self.pending().push(msg));
    }

    /// Reading removes exactly one message: the one read leaves, the oldest takes its place, and
    /// all others keep their content and order.
    pub proof fn taken_removes(self, k: int)
        requires
            self.wf(),
            0 <= k < self.count(),
        ensures
            self.taken(k).wf(),
            self.taken(k).pending() == self.pending().update(k, self.pending()[0]).drop_first(),
    {
        let after = self.taken(k);
        let pos = self.at(k);
        let rest = self.pending().update(k, self.pending()[0]).drop_first();
        slot_bounds(self.head, self.num_slots, self.slot_size, self.mem.len() as int);
        slot_bounds(pos, self.num_slots, self.slot_size, self.mem.len() as int);
        assert forall|j: int| 0 <= j < after.count() implies after.pending()[j] == rest[j] by {
            let at = self.at(j + 1);
            slot_bounds(at, self.num_slots, self.slot_size, self.mem.len() as int);
            if at < pos {
                slots_apart(at, pos, self.slot_size);
            } else if pos < at {
                slots_apart(pos, at, self.slot_size);
            }
            if at < self.head {
                slots_apart(at, self.head, self.slot_size);
            } else {
                slots_apart(self.head, at, self.slot_size);
            }
            assert(after.slot(at) =~= if at == pos {
                self.slot(self.head)
            } else {
                self.slot(at)
            });
        }
        assert(after.pending() =~= rest);
    }

    /// As a collection, the messages after a read are those before it without the one read.
    pub proof fn taken_multiset(self, k: int)
        requires
            self.wf(),
            0 <= k < self.count(),
        ensures
            self.taken(k).pending().to_multiset() =~= self.pending().to_multiset().remove(
                self.pending()[k],
            ),
    {
        broadcast use vstd::seq_lib::group_to_multiset_ensures;

        self.taken_removes(k);
        let p = self.pending();
        let moved = p.update(k, p[0]);
        assert(moved =~= seq![p[0]] + moved.drop_first());
        assert(p.remove(k).insert(k, p[0]) =~= moved);
        assert(moved.drop_first() =~= moved.remove(0));
    }

    /// The message that was sent last comes after the others and carries its header and data.
    proof fn sent_last(self, header: MessageHeader, data: Seq<u8>)
        requires
            self.wf(),
            !self.is_full(),
            data.len() <= self.slot_size - RPMI_MSG_HDR_SIZE,
        ensures
            ({
                let after = self.sent(header, data);
                &&& after.wf()
                &&& after.count() == self.count() + 1
                &&& carries(after.pending()[self.count()], header, data)
                &&& forall|p: int|
                    0 <= p < self.count() ==> #[trigger] after.pending()[p] == self.pending()[p]
            }),
    {
        let msg = splice(self.slot(self.tail), 0, header.to_bytes() + data);
        self.sent_appends(header, data);
        slot_bounds(self.tail, self.num_slots, self.slot_size, self.mem.len() as int);
        header.bytes_roundtrip(data);
        assert(MessageHeader::of_bytes(msg) == header);
        assert(msg.subrange(RPMI_MSG_HDR_SIZE as int, RPMI_MSG_HDR_SIZE + data.len()) =~= data);
    }

    /// Reading a message yields the data that it carries, cut off at the size of the buffer.
    proof fn carried_payload(self, k: int, header: MessageHeader, data: Seq<u8>, room: int)
        requires
            self.wf(),
            0 <= k < self.count(),
            carries(self.pending()[k], header, data),
            header.datalen == data.len(),
            0 <= room,
        ensures
            self.payload_fits(k, room),
            self.payload_len(k, room) == least(data.len() as int, room),
            self.payload(k, room) == data.take(least(data.len() as int, room)),
    {
        let n = least(data.len() as int, room);
        self.taken_head(k);
        slot_bounds(self.head, self.num_slots, self.slot_size, self.mem.len() as int);
        let moved = self.taken(k).slot(self.head);
        let carried = moved.subrange(RPMI_MSG_HDR_SIZE as int, RPMI_MSG_HDR_SIZE + data.len());
        assert(self.payload(k, room) =~= carried.take(n));
    }

    /// What was sent is what is received: once a message has been sent that a reader wants and
    /// none of the older ones is, the reader finds it, and gets the payload that was sent, cut off
    /// at the size of its buffer.
    pub proof fn send_receive(self, header: MessageHeader, data: Seq<u8>, sel: Selector, room: int)
        requires
            self.wf(),
            !self.is_full(),
            data.len() <= self.slot_size - RPMI_MSG_HDR_SIZE,
            header.datalen == data.len(),
            sel.accepts(header.to_bytes()),
            self.find(sel, 0) is None,
            0 <= room,
        ensures
            ({
                let after = self.sent(header, data);
                let n = if data.len() <= room {
                    data.len() as int
                } else {
                    room
                };
                &&& after.find(sel, 0) == Some(self.count())
                &&& after.payload_fits(self.count(), room)
                &&& after.payload_len(self.count(), room) == n
                &&& after.payload(self.count(), room) == data.take(n)
            }),
    {
        let after = self.sent(header, data);
        let k = self.count();
        self.sent_last(header, data);
        self.find_is_first(sel, 0);
        after.find_is_first(sel, 0);
        header.bytes_roundtrip(Seq::empty());
        assert(header.to_bytes() + Seq::<u8>::empty() =~= header.to_bytes());
        assert forall|j: int| 0 <= j < k implies !sel.accepts(#[trigger] after.pending()[j]) by {
            assert(after.pending()[j] == self.pending()[j]);
        }
        assert(after.find(sel, 0) == Some(k));
        after.carried_payload(k, header, data, room);
    }
}

/// A message starts with this header and these data.
spec fn carries(msg: Seq<u8>, header: MessageHeader, data: Seq<u8>) -> bool {
    &&& MessageHeader::of_bytes(msg) == header
    &&& RPMI_MSG_HDR_SIZE + data.len() <= msg.len()
    &&& msg.subrange(RPMI_MSG_HDR_SIZE as int, RPMI_MSG_HDR_SIZE + data.len()) == data
}

/// No two messages carry the same token.
pub open spec fn distinct_tokens(headers: Seq<MessageHeader>) -> bool {
    forall|i: int, j: int|
        0 <= i < j < headers.len() ==> (#[trigger] headers[i]).token != (
        #[trigger] headers[j]).token
}

/// `order` names each of `n` messages once.
pub open spec fn is_order(order: Seq<int>, n: nat) -> bool {
    &&& order.len() == n
    &&& order.no_duplicates()
    &&& forall|j: int| 0 <= j < n ==> 0 <= #[trigger] order[j] < n
}

/// The tokens of messages in the given order.
pub open spec fn tokens_of(headers: Seq<MessageHeader>, order: Seq<int>) -> Seq<u16> {
    Seq::new(order.len(), |j: int| headers[order[j]].token)
}

impl Ring {
    /// The ring after messages have been sent one after the other.
    pub open spec fn sent_all(self, headers: Seq<MessageHeader>, data: Seq<Seq<u8>>) -> Ring
        decreases headers.len(),
    {
        if headers.len() == 0 {
            self
        } else {
            self.sent_all(headers.drop_last(), data.drop_last()).sent(headers.last(), data.last())
        }
    }

    /// The ring after the messages with these tokens have been asked for, one after the other.
    pub open spec fn received_all(self, tokens: Seq<u16>) -> Ring
        decreases tokens.len(),
    {
        if tokens.len() == 0 {
            self
        } else {
            let before = self.received_all(tokens.drop_last());
            match before.find(Selector::Token(tokens.last()), 0) {
                Some(k) => before.taken(k),
                None => before,
            }
        }
    }

    /// Asking for the message with this token, with a buffer of `room` bytes, yields exactly
    /// `data`.
    pub open spec fn delivers(self, token: u16, data: Seq<u8>, room: int) -> bool {
        let sel = Selector::Token(token);
        &&& self.readable(sel, room)
        &&& self.find(sel, 0) matches Some(k) && self.payload_len(k, room) == data.len()
            && self.payload(k, room) == data
    }

    /// The messages in the queue are those that `ids` names, in this order.
    spec fn holds(self, headers: Seq<MessageHeader>, data: Seq<Seq<u8>>, ids: Seq<int>) -> bool {
        &&& self.wf()
        &&& self.num_slots <= u32::MAX
        &&& ids.len() == self.count()
        &&& ids.no_duplicates()
        &&& forall|p: int|
            #![trigger ids[p]]
            0 <= p < ids.len() ==> 0 <= ids[p] < headers.len() && carries(
                self.pending()[p],
                headers[ids[p]],
                data[ids[p]],
            )
    }

    /// Messages that have been sent into an empty queue are in it, in the order in which they were
    /// sent, and each one fitted.
    proof fn sent_all_holds(self, headers: Seq<MessageHeader>, data: Seq<Seq<u8>>)
        requires
            self.wf(),
            self.num_slots <= u32::MAX,
            self.is_empty(),
            headers.len() == data.len(),
            headers.len() < self.num_slots,
            forall|i: int|
                0 <= i < data.len() ==> (#[trigger] data[i]).len() <= self.slot_size
                    - RPMI_MSG_HDR_SIZE,
        ensures
            self.sent_all(headers, data).holds(
                headers,
                data,
                Seq::new(headers.len(), |i: int| i),
            ),
            self.sent_all(headers, data).num_slots == self.num_slots,
            self.sent_all(headers, data).slot_size == self.slot_size,
        decreases headers.len(),
    {
        let ids = Seq::new(headers.len(), |i: int| i);
        if headers.len() > 0 {
            let (hs, ds) = (headers.drop_last(), data.drop_last());
            let (h, d) = (headers.last(), data.last());
            let before = self.sent_all(hs, ds);
            let earlier = Seq::new(hs.len(), |i: int| i);
            assert forall|i: int| 0 <= i < ds.len() implies (#[trigger] ds[i]).len()
                <= self.slot_size - RPMI_MSG_HDR_SIZE by {
                assert(ds[i] == data[i]);
            }
            self.sent_all_holds(hs, ds);
            before.capacity();
            assert(d == data[data.len() - 1]);
            before.sent_last(h, d);
            let after = before.sent(h, d);
            assert forall|p: int| #![trigger ids[p]] 0 <= p < ids.len() implies carries(
                after.pending()[p],
                headers[ids[p]],
                data[ids[p]],
            ) by {
                if p < hs.len() {
                    assert(earlier[p] == p);
                    assert(after.pending()[p] == before.pending()[p]);
                    assert(hs[p] == headers[p] && ds[p] == data[p]);
                }
            }
        }
    }

    /// A message in the queue is found by its token and delivered, and the others stay.
    proof fn one_received(
        self,
        headers: Seq<MessageHeader>,
        data: Seq<Seq<u8>>,
        ids: Seq<int>,
        id: int,
    ) -> (rest: Seq<int>)
        requires
            self.holds(headers, data, ids),
            distinct_tokens(headers),
            ids.contains(id),
            headers[id].datalen == data[id].len(),
        ensures
            forall|room: int|
                data[id].len() <= room ==> #[trigger] self.delivers(
                    headers[id].token,
                    data[id],
                    room,
                ),
            self.received_all(seq![headers[id].token]).holds(headers, data, rest),
            rest.len() == ids.len() - 1,
            forall|other: int|
                ids.contains(other) && other != id ==> #[trigger] rest.contains(other),
    {
        let token = headers[id].token;
        let sel = Selector::Token(token);
        let at = ids.index_of(id);
        assert(ids[at] == id);
        self.find_is_first(sel, 0);
        assert(sel.accepts(self.pending()[at]));
        let k = self.find(sel, 0)->0;
        assert(ids[k] == id) by {
            assert(carries(self.pending()[k], headers[ids[k]], data[ids[k]]));
        }
        self.taken_removes(k);
        assert forall|room: int| data[id].len() <= room implies #[trigger] self.delivers(
            token,
            data[id],
            room,
        ) by {
            self.carried_payload(k, headers[id], data[id], room);
            assert(data[id].take(data[id].len() as int) =~= data[id]);
        }
        let rest = ids.update(k, ids[0]).drop_first();
        let after = self.taken(k);
        assert(self.received_all(seq![token]) == after) by {
            reveal_with_fuel(Ring::received_all, 2);
            assert(seq![token].drop_last() =~= Seq::empty());
        }
        assert forall|p: int| #![trigger rest[p]] 0 <= p < rest.len() implies 0 <= rest[p]
            < headers.len() && carries(after.pending()[p], headers[rest[p]], data[rest[p]]) by {
            if p + 1 == k {
                assert(rest[p] == ids[0]);
            } else {
                assert(rest[p] == ids[p + 1]);
            }
        }
        assert forall|other: int| ids.contains(other) && other != id implies
            #[trigger] rest.contains(other) by {
            let q = ids.index_of(other);
            if q == 0 {
                assert(rest[k - 1] == other);
            } else {
                assert(rest[q - 1] == other);
            }
        }
        rest
    }

    /// Where a message is delivered, receiving it returns the length of its payload and puts the
    /// payload at the start of the buffer; the rest of the buffer stays as it was.
    pub proof fn delivery(
        self,
        token: u16,
        data: Seq<u8>,
        room: Seq<u8>,
        ring: Ring,
        out: Seq<u8>,
        r: Result<usize, ()>,
    )
        requires
            self.delivers(token, data, room.len() as int),
            data.len() <= room.len(),
            self.taking(Selector::Token(token), room, ring, out, r),
        ensures
            r is Ok,
            r->Ok_0 == data.len(),
            out == data + room.skip(data.len() as int),
            ring == self.received_all(seq![token]),
    {
        assert(out =~= data + room.skip(data.len() as int));
        reveal_with_fuel(Ring::received_all, 2);
        assert(seq![token].drop_last() =~= Seq::empty());
    }

    /// Tokens that are asked for one after the other.
    proof fn received_all_push(self, tokens: Seq<u16>, token: u16)
        ensures
            self.received_all(tokens.push(token)) == self.received_all(tokens).received_all(
                seq![token],
            ),
    {
        reveal_with_fuel(Ring::received_all, 2);
        assert(tokens.push(token).drop_last() =~= tokens);
        assert(seq![token].drop_last() =~= Seq::empty());
    }

    /// After the first `j` messages have been asked for, the queue holds the others.
    proof fn some_received(
        self,
        headers: Seq<MessageHeader>,
        data: Seq<Seq<u8>>,
        order: Seq<int>,
        j: int,
    ) -> (ids: Seq<int>)
        requires
            self.holds(headers, data, Seq::new(headers.len(), |i: int| i)),
            distinct_tokens(headers),
            is_order(order, headers.len()),
            headers.len() == data.len(),
            forall|i: int| 0 <= i < data.len() ==> (#[trigger] headers[i]).datalen == data[i].len(),
            0 <= j <= order.len(),
        ensures
            self.received_all(tokens_of(headers, order).take(j)).holds(headers, data, ids),
            ids.len() == headers.len() - j,
            forall|i: int| j <= i < order.len() ==> ids.contains(#[trigger] order[i]),
        decreases j,
    {
        let tokens = tokens_of(headers, order);
        if j == 0 {
            let ids = Seq::new(headers.len(), |i: int| i);
            assert forall|i: int| 0 <= i < order.len() implies ids.contains(#[trigger] order[i]) by {
                assert(ids[order[i]] == order[i]);
            }
            assert(tokens.take(0) =~= Seq::empty());
            ids
        } else {
            let before = self.some_received(headers, data, order, j - 1);
            let ring = self.received_all(tokens.take(j - 1));
            let id = order[j - 1];
            let rest = ring.one_received(headers, data, before, id);
            assert(tokens.take(j) =~= tokens.take(j - 1).push(headers[id].token));
            self.received_all_push(tokens.take(j - 1), headers[id].token);
            assert forall|i: int| j <= i < order.len() implies rest.contains(
                #[trigger] order[i],
            ) by {
                assert(before.contains(order[i]));
                assert(order[i] != order[j - 1]);
            }
            rest
        }
    }

    /// Whatever has been sent into an empty queue can be received in any order: as long as the
    /// queue is not full every message fits, and asking once for each token, in any order, yields
    /// the payload that was sent under it. The queue is empty afterwards, and no reader finds
    /// anything more.
    pub proof fn all_received(
        self,
        headers: Seq<MessageHeader>,
        data: Seq<Seq<u8>>,
        order: Seq<int>,
    )
        requires
            self.wf(),
            self.num_slots <= u32::MAX,
            self.is_empty(),
            headers.len() == data.len(),
            headers.len() < self.num_slots,
            forall|i: int|
                0 <= i < data.len() ==> (#[trigger] data[i]).len() <= self.slot_size
                    - RPMI_MSG_HDR_SIZE,
            forall|i: int| 0 <= i < data.len() ==> (#[trigger] headers[i]).datalen == data[i].len(),
            distinct_tokens(headers),
            is_order(order, headers.len()),
        ensures
            ({
                let full = self.sent_all(headers, data);
                let tokens = tokens_of(headers, order);
                let end = full.received_all(tokens);
                &&& forall|i: int|
                    0 <= i < headers.len() ==> {
                        let ring = #[trigger] self.sent_all(headers.take(i), data.take(i));
                        ring.sendable() && !ring.is_full()
                    }
                &&& forall|j: int, room: int|
                    0 <= j < order.len() && data[order[j]].len() <= room
                        ==> #[trigger] full.received_all(tokens.take(j)).delivers(
                        tokens[j],
                        data[order[j]],
                        room,
                    )
                &&& end.is_empty()
                &&& forall|sel: Selector| #[trigger] end.find(sel, 0) is None
            }),
    {
        let full = self.sent_all(headers, data);
        let tokens = tokens_of(headers, order);
        let end = full.received_all(tokens);
        assert forall|i: int| 0 <= i < headers.len() implies ({
            let ring = #[trigger] self.sent_all(headers.take(i), data.take(i));
            ring.sendable() && !ring.is_full()
        }) by {
            assert forall|n: int| 0 <= n < i implies (#[trigger] data.take(i)[n]).len()
                <= self.slot_size - RPMI_MSG_HDR_SIZE by {
                assert(data.take(i)[n] == data[n]);
            }
            self.sent_all_holds(headers.take(i), data.take(i));
            self.sent_all(headers.take(i), data.take(i)).capacity();
        }
        self.sent_all_holds(headers, data);
        assert forall|j: int, room: int|
            0 <= j < order.len() && data[order[j]].len() <= room implies #[trigger] full.received_all(
            tokens.take(j),
        ).delivers(tokens[j], data[order[j]], room) by {
            let ids = full.some_received(headers, data, order, j);
            let _ = full.received_all(tokens.take(j)).one_received(headers, data, ids, order[j]);
        }
        let none = full.some_received(headers, data, order, order.len() as int);
        assert(tokens.take(order.len() as int) =~= tokens);
        end.capacity();
    }
}

/// The remainder of an index that has gone at most once around a ring.
proof fn around(i: int, n: int)
    requires
        0 <= i < 2 * n,
    ensures
        i % n == if i < n {
            i
        } else {
            i - n
        },
{
    if i < n {
        vstd::arithmetic::div_mod::lemma_small_mod(i as nat, n as nat);
    } else {
        vstd::arithmetic::div_mod::lemma_small_mod((i - n) as nat, n as nat);
        vstd::arithmetic::div_mod::lemma_mod_sub_multiples_vanish(i, n);
    }
}

impl Ring {
    /// Where messages lie in memory: there are as many as the tail is ahead of the head around the
    /// ring, and each fills the slot that is as far ahead of the head as its place.
    pub proof fn pending_where(self, k: int)
        requires
            self.wf(),
            0 <= k < self.pending().len(),
        ensures
            self.pending().len() == (self.tail + self.num_slots - self.head) % self.num_slots,
            ({
                let start = ((self.head + k) % self.num_slots) * self.slot_size;
                self.pending()[k] == self.mem.subrange(start, start + self.slot_size)
            }),
    {
        around(self.tail + self.num_slots - self.head, self.num_slots);
        around(self.head + k, self.num_slots);
    }

    /// What sending changes: the header and the data are put at the start of the slot that the tail
    /// names, and the tail moves on around the ring; everything else stays.
    pub proof fn sent_where(self, header: MessageHeader, data: Seq<u8>)
        requires
            self.sendable(),
            data.len() <= self.slot_size - 8,
        ensures
            ({
                let after = self.sent(header, data);
                let start = self.tail * self.slot_size;
                &&& after.mem.len() == self.mem.len()
                &&& after.mem.subrange(start, start + 8) == header.to_bytes()
                &&& after.mem.subrange(start + 8, start + 8 + data.len()) == data
                &&& after.mem.take(start) == self.mem.take(start)
                &&& after.mem.skip(start + 8 + data.len()) == self.mem.skip(
                    start + 8 + data.len(),
                )
                &&& after.tail == (self.tail + 1) % self.num_slots
                &&& after.head == self.head
                &&& after.slot_size == self.slot_size
                &&& after.num_slots == self.num_slots
            }),
    {
        let after = self.sent(header, data);
        let start = self.tail * self.slot_size;
        slot_bounds(self.tail, self.num_slots, self.slot_size, self.mem.len() as int);
        around(self.tail + 1, self.num_slots);
        assert(after.mem.subrange(start, start + 8) =~= header.to_bytes());
        assert(after.mem.subrange(start + 8, start + 8 + data.len()) =~= data);
        assert(after.mem.take(start) =~= self.mem.take(start));
        assert(after.mem.skip(start + 8 + data.len()) =~= self.mem.skip(start + 8 + data.len()));
    }

    /// What receiving changes: the head moves on around the ring, the oldest message is moved to
    /// the slot of the one that is read, and every slot that holds neither stays.
    pub proof fn taken_where(self, k: int, i: int)
        requires
            self.wf(),
            0 <= k < self.pending().len(),
            0 <= i < self.num_slots,
        ensures
            ({
                let after = self.taken(k);
                let read = (self.head + k) % self.num_slots;
                let start = i * self.slot_size;
                let slot = after.mem.subrange(start, start + self.slot_size);
                &&& after.head == (self.head + 1) % self.num_slots
                &&& after.tail == self.tail
                &&& after.slot_size == self.slot_size
                &&& after.num_slots == self.num_slots
                &&& after.mem.len() == self.mem.len()
                &&& i == read ==> slot == self.pending()[0]
                &&& i == self.head ==> slot == self.pending()[k]
                &&& i != read && i != self.head ==> slot == self.mem.subrange(
                    start,
                    start + self.slot_size,
                )
            }),
    {
        let after = self.taken(k);
        let read = self.at(k);
        let start = i * self.slot_size;
        around(self.head + 1, self.num_slots);
        around(self.head + k, self.num_slots);
        slot_bounds(i, self.num_slots, self.slot_size, self.mem.len() as int);
        slot_bounds(read, self.num_slots, self.slot_size, self.mem.len() as int);
        slot_bounds(self.head, self.num_slots, self.slot_size, self.mem.len() as int);
        if i < read {
            slots_apart(i, read, self.slot_size);
        } else if read < i {
            slots_apart(read, i, self.slot_size);
        }
        if i < self.head {
            slots_apart(i, self.head, self.slot_size);
        } else if self.head < i {
            slots_apart(self.head, i, self.slot_size);
        }
        assert(self.pending()[0] == self.slot(self.head));
        assert(after.slot(i) =~= if i == read {
            self.slot(self.head)
        } else if i == self.head {
            self.slot(read)
        } else {
            self.slot(i)
        });
    }
}

impl Selector {
    /// A message is wanted by its token if its last two header bytes hold the token.
    pub proof fn by_token(token: u16, msg: Seq<u8>)
        ensures
            Selector::Token(token).accepts(msg) <==> msg[6] + 256 * msg[7] == token,
    {
    }

    /// A message is wanted by its identifier if its first two bytes hold the service group, the
    /// third the service, unless any will do, and the three low bits of the fourth the type.
    pub proof fn by_id(servicegroup_id: u16, service_id: u8, msg_type: u8, msg: Seq<u8>)
        ensures
            (Selector::Id { servicegroup_id, service_id, msg_type }).accepts(msg) <==> msg[0] + 256
                * msg[1] == servicegroup_id && (service_id == 255 || msg[2] == service_id) && msg[3]
                % 8 == msg_type,
    {
        let flags = msg[3];
        assert(flags & 0x7 == flags % 8) by (bit_vector);
    }
}

/// A shared-memory queue of RPMI messages.
pub struct SmqQueue {
    head: Le32,
    tail: Le32,
    buffer: Vec<u8>,
    slot_size: usize,
    num_slots: usize,
}

impl View for SmqQueue {
    type V = Ring;

    closed spec fn view(&self) -> Ring {
        Ring {
            head: self.head@ as int,
            tail: self.tail@ as int,
            mem: self.buffer@,
            slot_size: self.slot_size as int,
            num_slots: self.num_slots as int,
        }
    }
}

impl SmqQueue {
    /// Creates a queue over the given indices and slot memory.
    pub fn new(head: Le32, tail: Le32, buffer: Vec<u8>, slot_size: usize, num_slots: usize) -> (q:
        SmqQueue)
        ensures
            q@ == (Ring {
                head: head@ as int,
                tail: tail@ as int,
                mem: buffer@,
                slot_size: slot_size as int,
                num_slots: num_slots as int,
            }),
    {
        SmqQueue { head, tail, buffer, slot_size, num_slots }
    }

    /// A queue with the same contents.
    pub fn snapshot(&self) -> (q: SmqQueue)
        ensures
            q@ == self@,
    {
        let buffer = self.buffer.clone();
        assert(buffer@ =~= self.buffer@);
        SmqQueue {
            head: self.head,
            tail: self.tail,
            buffer,
            slot_size: self.slot_size,
            num_slots: self.num_slots,
        }
    }

    /// The bytes of all slots.
    pub fn slots(&self) -> (b: &[u8])
        ensures
            b@ == self@.mem,
    {
        self.buffer.as_slice()
    }

    /// The head index.
    pub fn head(&self) -> (i: u32)
        ensures
            i == self@.head,
    {
        self.head.read()
    }

    /// The tail index.
    pub fn tail(&self) -> (i: u32)
        ensures
            i == self@.tail,
    {
        self.tail.read()
    }

    /// Whether the queue is full (`(tail + 1) % n == head`).
    pub fn is_full(&self) -> (b: bool)
        requires
            0 < self@.num_slots,
            self@.tail < self@.num_slots,
        ensures
            b == self@.is_full(),
    {
        let head: usize = self.head.read() as usize;
        let tail: usize = self.tail.read() as usize;
        self.following(tail) == head
    }

    /// Whether the queue is empty (`head == tail`).
    pub fn is_empty(&self) -> (b: bool)
        ensures
            b == self@.is_empty(),
    {
        self.head.read() == self.tail.read()
    }

    /// The index after `i`, around the ring.
    fn following(&self, i: usize) -> (j: usize)
        requires
            i < self@.num_slots,
        ensures
            j == self@.next(i as int),
            j < self@.num_slots,
    {
        if i + 1 < self.num_slots {
            i + 1
        } else {
            0
        }
    }

    /// Enqueues a message: writes it to the tail slot, publishes the tail index and rings the
    /// doorbell if there is one.
    ///
    /// Fails, and changes nothing, when the queue is full or the payload is larger than a slot
    /// leaves room for.
    pub fn send(&mut self, header: &MessageHeader, data: &[u8], doorbell: Option<&mut Le32>) -> (r:
        Result<(), ()>)
        requires
            old(self)@.sendable(),
        ensures
            r is Ok <==> !old(self)@.is_full() && data@.len() <= old(self)@.slot_size
                - RPMI_MSG_HDR_SIZE,
            r is Ok ==> final(self)@ == old(self)@.sent(*header, data@),
            r is Err ==> *final(self) == *old(self),
            doorbell matches Some(db) ==> final(db)@ == if r is Ok {
                1
            } else {
                db@
            },
    {
        if self.is_full() {
            return Err(());
        }
        if data.len() > self.slot_size - RPMI_MSG_HDR_SIZE {
            return Err(());
        }
        let tail: usize = self.tail.read() as usize;
        let len: usize = self.buffer.len();
        proof {
            slot_bounds(tail as int, self.num_slots as int, self.slot_size as int, len as int);
        }
        let start: usize = tail * self.slot_size;
        let slots = self.buffer.as_mut_slice();
        write_u16(slots, start, header.servicegroup_id);
        slots[start + 2] = header.service_id;
        slots[start + 3] = header.flags;
        write_u16(slots, start + 4, header.datalen);
        write_u16(slots, start + 6, header.token);
        copy_bytes(data, 0, slots, start + RPMI_MSG_HDR_SIZE, data.len());
        assert(self.buffer@ =~= old(self)@.sent(*header, data@).mem);
        let next: usize = self.following(tail);
        self.tail.write(next as u32);
        if let Some(db) = doorbell {
            db.write(1);
        }
        Ok(())
    }

    /// Whether a message can be sent, if there is room.
    pub fn can_send(&self) -> (b: bool)
        ensures
            b == self@.sendable(),
    {
        let tail: usize = self.tail.read() as usize;
        let len: usize = self.buffer.len();
        if tail >= self.num_slots || RPMI_MSG_HDR_SIZE > self.slot_size || self.num_slots
            > u32::MAX as usize {
            return false;
        }
        match self.num_slots.checked_mul(self.slot_size) {
            Some(total) => total <= len,
            None => false,
        }
    }

    /// Whether the geometry is sound and both indices name a slot.
    pub fn is_sound(&self) -> (b: bool)
        ensures
            b == self@.wf(),
    {
        let head: usize = self.head.read() as usize;
        let tail: usize = self.tail.read() as usize;
        let len: usize = self.buffer.len();
        if head >= self.num_slots || tail >= self.num_slots || RPMI_MSG_HDR_SIZE > self.slot_size {
            return false;
        }
        match self.num_slots.checked_mul(self.slot_size) {
            Some(total) => total <= len,
            None => false,
        }
    }

    /// Whether the message in slot `pos` is one that `sel` accepts.
    fn accepts_at(&self, sel: Selector, pos: usize) -> (b: bool)
        requires
            self@.wf(),
            pos < self@.num_slots,
        ensures
            b == sel.accepts(self@.slot(pos as int)),
    {
        let len: usize = self.buffer.len();
        proof {
            slot_bounds(pos as int, self.num_slots as int, self.slot_size as int, len as int);
        }
        let start: usize = pos * self.slot_size;
        let slots = self.buffer.as_slice();
        match sel {
            Selector::Token(token) => read_u16(slots, start + 6) == token,
            Selector::Id { servicegroup_id, service_id, msg_type } => {
                let sgid: u16 = read_u16(slots, start);
                let sid: u8 = slots[start + 2];
                let flags: u8 = slots[start + 3];
                let sid_match = service_id == 0xff || sid == service_id;
                sgid == servicegroup_id && sid_match && (flags & RPMI_MSG_TYPE_MASK) == msg_type
            },
        }
    }

    /// Exchanges the contents of slots `i` and `j`.
    fn swap_slots(&mut self, i: usize, j: usize)
        requires
            old(self)@.wf(),
            i < old(self)@.num_slots,
            j < old(self)@.num_slots,
            i != j,
        ensures
            final(self)@ == (Ring { mem: old(self)@.swapped(i as int, j as int), ..old(self)@ }),
    {
        let len: usize = self.buffer.len();
        let slot_size: usize = self.slot_size;
        proof {
            slot_bounds(i as int, self.num_slots as int, slot_size as int, len as int);
            slot_bounds(j as int, self.num_slots as int, slot_size as int, len as int);
            if i < j {
                slots_apart(i as int, j as int, slot_size as int);
            } else {
                slots_apart(j as int, i as int, slot_size as int);
            }
        }
        let from: usize = i * slot_size;
        let to: usize = j * slot_size;
        let ghost mem = self.buffer@;
        let mut b: usize = 0;
        while b < slot_size
            invariant
                b <= slot_size,
                from + slot_size <= len,
                to + slot_size <= len,
                from + slot_size <= to || to + slot_size <= from,
                len == mem.len(),
                mem == old(self).buffer@,
                self.buffer@ == splice(
                    splice(mem, from as int, mem.subrange(to as int, to + b)),
                    to as int,
                    mem.subrange(from as int, from + b),
                ),
                self.head == old(self).head,
                self.tail == old(self).tail,
                self.slot_size == old(self).slot_size,
                self.num_slots == old(self).num_slots,
            decreases slot_size - b,
        {
            let x: u8 = self.buffer[from + b];
            let y: u8 = self.buffer[to + b];
            self.buffer[from + b] = y;
            self.buffer[to + b] = x;
            b += 1;
            assert(self.buffer@ =~= splice(
                splice(mem, from as int, mem.subrange(to as int, to + b)),
                to as int,
                mem.subrange(from as int, from + b),
            ));
        }
    }

    /// The position in the queue, counted from the head, of the first message that `sel` accepts.
    pub fn locate(&self, sel: Selector) -> (r: Option<usize>)
        requires
            self@.wf(),
        ensures
            match self@.find(sel, 0) {
                Some(k) => r is Some && r->0 == k,
                None => r is None,
            },
    {
        if self.is_empty() {
            return None;
        }
        let tail: usize = self.tail.read() as usize;
        let mut pos: usize = self.head.read() as usize;
        let mut k: usize = 0;
        loop
            invariant
                self@.wf(),
                k < self@.count(),
                pos == self@.at(k as int),
                tail == self@.tail,
                self@.find(sel, 0) == self@.find(sel, k as int),
            decreases self@.count() - k,
        {
            if self.accepts_at(sel, pos) {
                return Some(k);
            }
            pos = self.following(pos);
            k += 1;
            if pos == tail {
                return None;
            }
        }
    }

    /// Whether the first message that `sel` accepts can be read into a buffer of `room` bytes.
    pub fn can_receive(&self, sel: Selector, room: usize) -> (b: bool)
        ensures
            b == self@.readable(sel, room as int),
    {
        if self.is_empty() {
            return true;
        }
        if !self.is_sound() || self.num_slots > u32::MAX as usize {
            return false;
        }
        proof {
            self@.find_is_first(sel, 0);
        }
        let k: usize = match self.locate(sel) {
            Some(k) => k,
            None => return true,
        };
        let head: usize = self.head.read() as usize;
        let len: usize = self.buffer.len();
        let pos: usize = self.slot_of(k);
        proof {
            slot_bounds(head as int, self.num_slots as int, self.slot_size as int, len as int);
            slot_bounds(pos as int, self.num_slots as int, self.slot_size as int, len as int);
        }
        let datalen: usize = read_u16(self.buffer.as_slice(), pos * self.slot_size + 4) as usize;
        let n: usize = if datalen <= room {
            datalen
        } else {
            room
        };
        n <= len - head * self.slot_size - RPMI_MSG_HDR_SIZE
    }

    /// The slot that holds the `k`-th message, counted from the head.
    fn slot_of(&self, k: usize) -> (pos: usize)
        requires
            self@.wf(),
            k < self@.count(),
        ensures
            pos == self@.at(k as int),
            pos < self@.num_slots,
    {
        let head: usize = self.head.read() as usize;
        if head < self.num_slots - k {
            head + k
        } else {
            k - (self.num_slots - head)
        }
    }

    /// Moves the first message that `sel` accepts to the head slot, copies its payload into `out`
    /// and advances the head index.
    fn take(&mut self, sel: Selector, out: &mut [u8]) -> (r: Result<usize, ()>)
        requires
            old(self)@.readable(sel, old(out)@.len() as int),
        ensures
            old(self)@.taking(sel, old(out)@, final(self)@, final(out)@, r),
            r is Err ==> *final(self) == *old(self),
    {
        if self.is_empty() {
            return Err(());
        }
        proof {
            self@.find_is_first(sel, 0);
        }
        let k: usize = match self.locate(sel) {
            Some(k) => k,
            None => return Err(()),
        };
        let head: usize = self.head.read() as usize;
        let room: usize = out.len();
        let len: usize = self.buffer.len();
        let pos: usize = self.slot_of(k);
        proof {
            slot_bounds(head as int, self.num_slots as int, self.slot_size as int, len as int);
            slot_bounds(pos as int, self.num_slots as int, self.slot_size as int, len as int);
        }
        if pos != head {
            self.swap_slots(head, pos);
        }
        assert(self.buffer@ =~= old(self)@.taken(k as int).mem);
        let start: usize = head * self.slot_size;
        let slots = self.buffer.as_slice();
        let datalen: usize = read_u16(slots, start + 4) as usize;
        proof {
            old(self)@.taken_head(k as int);
            let moved = old(self)@.taken(k as int).slot(head as int);
            assert(slots@[start + 4] == moved[4] && slots@[start + 5] == moved[5]);
        }
        let n: usize = if datalen <= room {
            datalen
        } else {
            room
        };
        copy_bytes(slots, start + RPMI_MSG_HDR_SIZE, out, 0, n);
        let next: usize = self.following(head);
        self.head.write(next as u32);
        Ok(n)
    }

    /// Dequeues the message that carries `token`.
    ///
    /// The message is moved to the head slot, its payload is copied into `out` and the head index
    /// advances. Returns the number of payload bytes copied. Fails, and changes nothing, when no
    /// message carries the token.
    pub fn receive(&mut self, token: u16, out: &mut [u8]) -> (r: Result<usize, ()>)
        requires
            old(self)@.readable(Selector::Token(token), old(out)@.len() as int),
        ensures
            old(self)@.taking(
                Selector::Token(token),
                old(out)@,
                final(self)@,
                final(out)@,
                r,
            ),
            r is Err ==> *final(self) == *old(self),
    {
        self.take(Selector::Token(token), out)
    }

    /// Dequeues a message by its identifier instead of its token: notifications carry none.
    ///
    /// A `service_id` of `0xff` stands for any service of the group. The message is moved to the
    /// head slot, its payload is copied into `out` and the head index advances. Returns the number
    /// of payload bytes copied. Fails, and changes nothing, when no message has the identifier.
    pub fn receive_by_message_id(
        &mut self,
        servicegroup_id: u16,
        service_id: u8,
        msg_type: u8,
        out: &mut [u8],
    ) -> (r: Result<usize, ()>)
        requires
            old(self)@.readable(
                Selector::Id { servicegroup_id, service_id, msg_type },
                old(out)@.len() as int,
            ),
        ensures
            old(self)@.taking(
                Selector::Id { servicegroup_id, service_id, msg_type },
                old(out)@,
                final(self)@,
                final(out)@,
                r,
            ),
            r is Err ==> *final(self) == *old(self),
    {
        self.take(Selector::Id { servicegroup_id, service_id, msg_type }, out)
    }
}

} // verus!
