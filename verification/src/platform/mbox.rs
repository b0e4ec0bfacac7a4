//! Shared-memory mailbox in the device tree.
//!
//! The mailbox's node gives the size of a slot and one region per queue, followed by the region of
//! the doorbell register. A queue keeps its head and tail index in its first two slots and the
//! ring of messages after them.
use vstd::prelude::*;
use vstd::string::*;

use crate::bytes::is_listed;

verus! {

/// Slot of a queue's region that holds the head index.
pub const RPMI_QUEUE_HEAD_SLOT: usize = 0;

/// Slot of a queue's region that holds the tail index.
pub const RPMI_QUEUE_TAIL_SLOT: usize = 1;

/// Number of slots before the ring of messages.
pub const RPMI_QUEUE_HEADER_SLOTS: usize = 2;

/// Least size of a slot in bytes.
pub const MIN_SLOT_SIZE: usize = 128;

/// Number of regions that a mailbox needs: four queues and the doorbell.
pub const MBOX_REGIONS: usize = 5;

/// A range of physical addresses; the end is not part of it.
#[derive(Clone, Copy, PartialEq, Eq, Structural, Debug)]
pub struct Region {
    /// First address.
    pub start: usize,
    /// Address after the last one.
    pub end: usize,
}

impl Region {
    /// Number of bytes; none if the end lies before the start.
    pub open spec fn spec_len(self) -> int {
        if self.start <= self.end {
            self.end - self.start
        } else {
            0
        }
    }

    /// Number of bytes; none if the end lies before the start.
    pub fn len(&self) -> (n: usize)
        ensures
            n == self.spec_len(),
    {
        if self.start <= self.end {
            self.end - self.start
        } else {
            0
        }
    }
}

/// What the search for a mailbox reads of a device-tree node.
pub struct MboxNode {
    /// The strings of the `compatible` property; none without the property.
    pub compatible: Vec<Vec<u8>>,
    /// The first cell of the `riscv,slot-size` property.
    pub slot_size: Option<u32>,
    /// The regions of the `reg` property.
    pub reg: Option<Vec<Region>>,
}

/// Why no mailbox is set up.
#[derive(Clone, Copy, PartialEq, Eq, Structural, Debug)]
pub enum MboxError {
    /// No node is a mailbox.
    NotFound,
    /// The mailbox has no slot size.
    MissingSlotSize,
    /// The slot size is too small.
    SlotTooSmall,
    /// The mailbox has no regions.
    MissingReg,
    /// There are fewer regions than four queues and a doorbell need.
    TooFewRegions,
}

/// Where a queue lies in memory.
#[derive(Clone, Copy, PartialEq, Eq, Structural, Debug)]
pub struct QueueLayout {
    /// Address of the head index.
    pub head: usize,
    /// Address of the tail index.
    pub tail: usize,
    /// Address of the first slot of the ring.
    pub buffer: usize,
    /// Size of one slot in bytes.
    pub slot_size: usize,
    /// Number of slots in the ring.
    pub num_slots: usize,
}

impl QueueLayout {
    /// The layout of a queue in `region`.
    pub open spec fn of_region(region: Region, slot_size: int) -> QueueLayout {
        QueueLayout {
            head: (region.start + RPMI_QUEUE_HEAD_SLOT * slot_size) as usize,
            tail: (region.start + RPMI_QUEUE_TAIL_SLOT * slot_size) as usize,
            buffer: (region.start + RPMI_QUEUE_HEADER_SLOTS * slot_size) as usize,
            slot_size: slot_size as usize,
            num_slots: ((region.spec_len() - RPMI_QUEUE_HEADER_SLOTS * slot_size) / slot_size) as usize,
        }
    }

    /// `region` has room for the slots before the ring.
    pub open spec fn fits(region: Region, slot_size: int) -> bool {
        RPMI_QUEUE_HEADER_SLOTS * slot_size <= region.spec_len()
    }

    /// The indices and the ring lie in the region, one after the other, and no further slot would
    /// fit.
    pub proof fn inside_region(region: Region, slot_size: int)
        requires
            MIN_SLOT_SIZE <= slot_size <= usize::MAX,
            QueueLayout::fits(region, slot_size),
        ensures
            ({
                let q = QueueLayout::of_region(region, slot_size);
                &&& q.head == region.start
                &&& q.head + slot_size == q.tail
                &&& q.tail + slot_size == q.buffer
                &&& q.buffer + q.num_slots * q.slot_size <= region.end
                &&& region.end < q.buffer + (q.num_slots + 1) * q.slot_size
            }),
    {
        let rest = region.spec_len() - 2 * slot_size;
        let n = rest / slot_size;
        assert(n * slot_size <= rest < (n + 1) * slot_size && 0 <= n <= rest) by (nonlinear_arith)
            requires
                n == rest / slot_size,
                0 <= rest,
                1 <= slot_size,
        ;
    }

    /// Lays a queue out in `region`.
    fn new(region: Region, slot_size: usize) -> (q: QueueLayout)
        requires
            MIN_SLOT_SIZE <= slot_size,
            QueueLayout::fits(region, slot_size as int),
        ensures
            q == QueueLayout::of_region(region, slot_size as int),
    {
        let size: usize = region.len();
        proof {
            QueueLayout::inside_region(region, slot_size as int);
        }
        QueueLayout {
            head: region.start,
            tail: region.start + slot_size,
            buffer: region.start + RPMI_QUEUE_HEADER_SLOTS * slot_size,
            slot_size,
            num_slots: (size - RPMI_QUEUE_HEADER_SLOTS * slot_size) / slot_size,
        }
    }
}

/// Where a mailbox lies in memory.
#[derive(Clone, Copy, PartialEq, Eq, Structural, Debug)]
pub struct MboxLayout {
    /// Size of one slot in bytes.
    pub slot_size: usize,
    /// Requests to the management processor.
    pub a2p_req: QueueLayout,
    /// Its acknowledgements.
    pub p2a_ack: QueueLayout,
    /// Its requests and notifications.
    pub p2a_req: QueueLayout,
    /// Acknowledgements to it.
    pub a2p_ack: QueueLayout,
    /// Address of the doorbell register.
    pub doorbell: usize,
}

/// The string by which a mailbox's node is known.
pub open spec fn mbox_compatible() -> Seq<u8> {
    "riscv,rpmi-shmem-mbox".spec_bytes()
}

impl MboxNode {
    /// The node is a mailbox.
    pub open spec fn is_mbox(self) -> bool {
        exists|i: int|
            0 <= i < self.compatible@.len() && (#[trigger] self.compatible@[i])@ == mbox_compatible()
    }

    /// The node has all that a mailbox needs.
    pub open spec fn complete(self) -> bool {
        &&& self.slot_size matches Some(size) && size >= MIN_SLOT_SIZE
        &&& self.reg matches Some(reg) && reg@.len() >= MBOX_REGIONS
    }

    /// Every queue's region has room for the slots before the ring.
    pub open spec fn queues_fit(self) -> bool {
        forall|i: int|
            0 <= i < 4 ==> #[trigger] QueueLayout::fits(
                self.reg->0@[i],
                self.slot_size->0 as int,
            )
    }

    /// The mailbox that the node describes.
    pub open spec fn layout(self) -> Result<MboxLayout, MboxError> {
        match self.slot_size {
            None => Err(MboxError::MissingSlotSize),
            Some(size) => if size < MIN_SLOT_SIZE {
                Err(MboxError::SlotTooSmall)
            } else {
                match self.reg {
                    None => Err(MboxError::MissingReg),
                    Some(reg) => if reg@.len() < MBOX_REGIONS {
                        Err(MboxError::TooFewRegions)
                    } else {
                        Ok(
                            MboxLayout {
                                slot_size: size as usize,
                                a2p_req: QueueLayout::of_region(reg@[0], size as int),
                                p2a_ack: QueueLayout::of_region(reg@[1], size as int),
                                p2a_req: QueueLayout::of_region(reg@[2], size as int),
                                a2p_ack: QueueLayout::of_region(reg@[3], size as int),
                                doorbell: reg@[4].start,
                            },
                        )
                    },
                }
            },
        }
    }

    /// Whether the node is a mailbox.
    pub fn matches(&self) -> (b: bool)
        ensures
            b == self.is_mbox(),
    {
        is_listed(self.compatible.as_slice(), "riscv,rpmi-shmem-mbox".as_bytes())
    }

    /// Whether every queue's region has room for the slots before the ring, as far as the node has
    /// all that a mailbox needs.
    pub fn has_room(&self) -> (b: bool)
        ensures
            b == (self.complete() ==> self.queues_fit()),
    {
        match (&self.slot_size, &self.reg) {
            (Some(size), Some(reg)) => {
                if (*size as usize) < MIN_SLOT_SIZE || reg.len() < MBOX_REGIONS {
                    return true;
                }
                let need: u64 = 2 * (*size as u64);
                let b = need <= reg[0].len() as u64 && need <= reg[1].len() as u64 && need
                    <= reg[2].len() as u64 && need <= reg[3].len() as u64;
                proof {
                    if b {
                        assert forall|i: int| 0 <= i < 4 implies #[trigger] QueueLayout::fits(
                            self.reg->0@[i],
                            self.slot_size->0 as int,
                        ) by {
                            assert(i == 0 || i == 1 || i == 2 || i == 3);
                        }
                    } else if self.queues_fit() {
                        assert(QueueLayout::fits(self.reg->0@[0], self.slot_size->0 as int));
                        assert(QueueLayout::fits(self.reg->0@[1], self.slot_size->0 as int));
                        assert(QueueLayout::fits(self.reg->0@[2], self.slot_size->0 as int));
                        assert(QueueLayout::fits(self.reg->0@[3], self.slot_size->0 as int));
                    }
                }
                b
            },
            _ => true,
        }
    }

    /// Lays the mailbox out that the node describes.
    fn lay_out(&self) -> (r: Result<MboxLayout, MboxError>)
        requires
            self.complete() ==> self.queues_fit(),
        ensures
            r == self.layout(),
    {
        let slot_size: usize = match &self.slot_size {
            Some(size) => *size as usize,
            None => return Err(MboxError::MissingSlotSize),
        };
        if slot_size < MIN_SLOT_SIZE {
            return Err(MboxError::SlotTooSmall);
        }
        match &self.reg {
            None => Err(MboxError::MissingReg),
            Some(reg) => {
                if reg.len() < MBOX_REGIONS {
                    return Err(MboxError::TooFewRegions);
                }
                proof {
                    assert(QueueLayout::fits(self.reg->0@[0], self.slot_size->0 as int));
                    assert(QueueLayout::fits(self.reg->0@[1], self.slot_size->0 as int));
                    assert(QueueLayout::fits(self.reg->0@[2], self.slot_size->0 as int));
                    assert(QueueLayout::fits(self.reg->0@[3], self.slot_size->0 as int));
                }
                Ok(
                    MboxLayout {
                        slot_size,
                        a2p_req: QueueLayout::new(reg[0], slot_size),
                        p2a_ack: QueueLayout::new(reg[1], slot_size),
                        p2a_req: QueueLayout::new(reg[2], slot_size),
                        a2p_ack: QueueLayout::new(reg[3], slot_size),
                        doorbell: reg[4].start,
                    },
                )
            },
        }
    }
}

/// The first mailbox among the nodes, from the `from`-th on.
pub open spec fn first_mbox(nodes: Seq<MboxNode>, from: int) -> Option<int>
    decreases nodes.len() - from,
{
    if from < 0 || nodes.len() <= from {
        None
    } else if nodes[from].is_mbox() {
        Some(from)
    } else {
        first_mbox(nodes, from + 1)
    }
}

/// Finds the mailbox among the nodes of a device tree, in the order in which the tree is searched.
///
/// The first node that is a mailbox decides, whether or not it is complete.
pub fn locate_rpmi_mailbox(nodes: &[MboxNode]) -> (r: Result<MboxLayout, MboxError>)
    requires
        first_mbox(nodes@, 0) matches Some(i) ==> nodes@[i].complete() ==> nodes@[i].queues_fit(),
    ensures
        r == match first_mbox(nodes@, 0) {
            Some(i) => nodes@[i].layout(),
            None => Err(MboxError::NotFound),
        },
{
    let mut i: usize = 0;
    while i < nodes.len()
        invariant
            i <= nodes@.len(),
            first_mbox(nodes@, 0) == first_mbox(nodes@, i as int),
            first_mbox(nodes@, 0) matches Some(i) ==> nodes@[i].complete()
                ==> nodes@[i].queues_fit(),
        decreases nodes@.len() - i,
    {
        if nodes[i].matches() {
            return nodes[i].lay_out();
        }
        i += 1;
    }
    Err(MboxError::NotFound)
}

/// The node that `first_mbox` names is the first mailbox.
pub proof fn first_mbox_is_first(nodes: Seq<MboxNode>, from: int)
    requires
        0 <= from,
    ensures
        match first_mbox(nodes, from) {
            Some(i) => {
                &&& from <= i < nodes.len()
                &&& nodes[i].is_mbox()
                &&& forall|j: int| from <= j < i ==> !(#[trigger] nodes[j]).is_mbox()
            },
            None => forall|j: int| from <= j < nodes.len() ==> !(#[trigger] nodes[j]).is_mbox(),
        },
    decreases nodes.len() - from,
{
    if from < nodes.len() && !nodes[from].is_mbox() {
        first_mbox_is_first(nodes, from + 1);
    }
}

impl MboxNode {
    /// A mailbox is laid out exactly if its node has a slot size of at least 128 and five regions;
    /// otherwise the first thing that is missing, in this order, is the reason.
    pub proof fn layout_reasons(self)
        ensures
            self.layout() is Ok <==> self.slot_size is Some && self.slot_size->0 >= 128 && self.reg
                is Some && self.reg->0@.len() >= 5,
            self.slot_size is None ==> self.layout() == Err::<MboxLayout, MboxError>(
                MboxError::MissingSlotSize,
            ),
            self.slot_size is Some && self.slot_size->0 < 128 ==> self.layout() == Err::<
                MboxLayout,
                MboxError,
            >(MboxError::SlotTooSmall),
            self.slot_size is Some && self.slot_size->0 >= 128 && self.reg is None ==> self.layout()
                == Err::<MboxLayout, MboxError>(MboxError::MissingReg),
            self.slot_size is Some && self.slot_size->0 >= 128 && self.reg is Some
                && self.reg->0@.len() < 5 ==> self.layout() == Err::<MboxLayout, MboxError>(
                MboxError::TooFewRegions,
            ),
    {
    }

    /// The queues of a mailbox lie in its first four regions: that of requests to the management
    /// processor, that of its acknowledgements, that of its requests and that of acknowledgements
    /// to it, in this order. Each starts where its region starts, with one slot for either index,
    /// and its ring ends in the region without room for a further slot. The fifth region starts
    /// with the doorbell.
    pub proof fn queues_in_order(self)
        requires
            self.slot_size is Some && self.slot_size->0 >= 128,
            self.reg is Some && self.reg->0@.len() >= 5,
            forall|i: int|
                0 <= i < 4 ==> (#[trigger] self.reg->0@[i]).start + 2 * self.slot_size->0
                    <= self.reg->0@[i].end,
        ensures
            self.layout() matches Ok(l) && {
                let size = self.slot_size->0;
                let reg = self.reg->0@;
                let queues = seq![l.a2p_req, l.p2a_ack, l.p2a_req, l.a2p_ack];
                &&& l.slot_size == size
                &&& l.doorbell == reg[4].start
                &&& forall|i: int|
                    0 <= i < 4 ==> {
                        let q = #[trigger] queues[i];
                        &&& q.head == reg[i].start
                        &&& q.tail == reg[i].start + size
                        &&& q.buffer == reg[i].start + 2 * size
                        &&& q.slot_size == size
                        &&& q.buffer + q.num_slots * q.slot_size <= reg[i].end
                        &&& reg[i].end < q.buffer + (q.num_slots + 1) * q.slot_size
                    }
            },
    {
        let size = self.slot_size->0 as int;
        let reg = self.reg->0@;
        assert(QueueLayout::fits(reg[0], size));
        assert(QueueLayout::fits(reg[1], size));
        assert(QueueLayout::fits(reg[2], size));
        assert(QueueLayout::fits(reg[3], size));
        QueueLayout::inside_region(reg[0], size);
        QueueLayout::inside_region(reg[1], size);
        QueueLayout::inside_region(reg[2], size);
        QueueLayout::inside_region(reg[3], size);
        let l = self.layout()->Ok_0;
        let queues = seq![l.a2p_req, l.p2a_ack, l.p2a_req, l.a2p_ack];
        assert forall|i: int| 0 <= i < 4 implies ({
            let q = #[trigger] queues[i];
            &&& q.head == reg[i].start
            &&& q.tail == reg[i].start + size
            &&& q.buffer == reg[i].start + 2 * size
            &&& q.slot_size == size
            &&& q.buffer + q.num_slots * q.slot_size <= reg[i].end
            &&& reg[i].end < q.buffer + (q.num_slots + 1) * q.slot_size
        }) by {
            assert(i == 0 || i == 1 || i == 2 || i == 3);
        }
    }

    /// No two queues share memory if their regions do not.
    pub proof fn queues_apart(self, i: int, j: int)
        requires
            self.slot_size is Some && self.slot_size->0 >= 128,
            self.reg is Some && self.reg->0@.len() >= 5,
            forall|i: int|
                0 <= i < 4 ==> (#[trigger] self.reg->0@[i]).start + 2 * self.slot_size->0
                    <= self.reg->0@[i].end,
            0 <= i < 4,
            0 <= j < 4,
            self.reg->0@[i].end <= self.reg->0@[j].start,
        ensures
            ({
                let l = self.layout()->Ok_0;
                let queues = seq![l.a2p_req, l.p2a_ack, l.p2a_req, l.a2p_ack];
                queues[i].buffer + queues[i].num_slots * queues[i].slot_size <= queues[j].head
            }),
    {
        self.queues_in_order();
        let l = self.layout()->Ok_0;
        let queues = seq![l.a2p_req, l.p2a_ack, l.p2a_req, l.a2p_ack];
        assert(queues[i].buffer + queues[i].num_slots * queues[i].slot_size
            <= self.reg->0@[i].end);
        assert(queues[j].head == self.reg->0@[j].start);
    }
}

} // verus!
