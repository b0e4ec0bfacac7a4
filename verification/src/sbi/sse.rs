//! Supervisor software events.
//!
//! An event goes from unused to registered, enabled and running and back to enabled; it can be
//! disabled while it is enabled or running, and unregistered while it is registered or disabled.
use vstd::prelude::*;

use crate::binary::{SbiError, SbiRet};
use crate::bytes::{least, read_u32, splice, u32_at, u32_le, write_u32};
use crate::ext::sse::Sse;

verus! {

/// Number of events that the platform supports.
pub const EVENT_COUNT: usize = 3;

/// State of an event.
#[derive(Clone, Copy, PartialEq, Eq, Structural, Debug)]
pub enum EventState {
    /// No handler is registered.
    Unused,
    /// A handler is registered, but the event is not enabled.
    Registered,
    /// The event can be injected.
    Enabled,
    /// A handler is registered, and the event has been disabled.
    Disabled,
    /// The handler is running.
    Running,
}

impl EventState {
    /// Number of the state.
    pub open spec fn code(self) -> u32 {
        match self {
            EventState::Unused => 0,
            EventState::Registered => 1,
            EventState::Enabled => 2,
            EventState::Disabled => 3,
            EventState::Running => 4,
        }
    }

    /// Number of the state.
    pub fn bits(self) -> (c: u32)
        ensures
            c == self.code(),
    {
        match self {
            EventState::Unused => 0,
            EventState::Registered => 1,
            EventState::Enabled => 2,
            EventState::Disabled => 3,
            EventState::Running => 4,
        }
    }
}

/// What is recorded of an event.
#[derive(Clone, Copy, PartialEq, Eq, Structural, Debug)]
pub struct EventRecord {
    /// State of the event.
    pub state: EventState,
    /// Address of the handler.
    pub handler_pc: usize,
    /// Argument of the handler.
    pub handler_arg: usize,
    /// Priority of the event.
    pub priority: u32,
}

/// A request that moves an event to another state.
pub enum Request {
    /// Registers a handler.
    Register(usize, usize),
    /// Unregisters the handler.
    Unregister,
    /// Enables the event.
    Enable,
    /// Disables the event.
    Disable,
    /// Injects the event.
    Inject,
}

impl EventRecord {
    /// The record of an event that was never used.
    pub open spec fn fresh() -> EventRecord {
        EventRecord { state: EventState::Unused, handler_pc: 0, handler_arg: 0, priority: 0 }
    }

    /// Only an event that is in use has a handler.
    pub open spec fn wf(self) -> bool {
        self.state == EventState::Unused ==> self.handler_pc == 0 && self.handler_arg == 0
    }

    /// A handler is registered, and the event cannot be injected.
    pub open spec fn idle(self) -> bool {
        self.state == EventState::Registered || self.state == EventState::Disabled
    }

    /// The record after a request, if the event's state permits it.
    pub open spec fn moved(self, q: Request) -> Option<EventRecord> {
        match q {
            Request::Register(pc, arg) => if self.state == EventState::Unused {
                Some(
                    EventRecord {
                        state: EventState::Registered,
                        handler_pc: pc,
                        handler_arg: arg,
                        ..self
                    },
                )
            } else {
                None
            },
            Request::Unregister => if self.idle() {
                Some(
                    EventRecord {
                        state: EventState::Unused,
                        handler_pc: 0,
                        handler_arg: 0,
                        ..self
                    },
                )
            } else {
                None
            },
            Request::Enable => if self.idle() {
                Some(EventRecord { state: EventState::Enabled, ..self })
            } else {
                None
            },
            Request::Disable => if self.state == EventState::Enabled || self.state
                == EventState::Running {
                Some(EventRecord { state: EventState::Disabled, ..self })
            } else {
                None
            },
            Request::Inject => if self.state == EventState::Enabled {
                Some(EventRecord { state: EventState::Running, ..self })
            } else {
                None
            },
        }
    }

    /// Value of an attribute: the state or the priority.
    pub open spec fn attribute(self, attr: int) -> u32 {
        if attr == 0 {
            self.state.code()
        } else {
            self.priority
        }
    }

    /// The bytes of the first `n` attributes from `base` on.
    pub open spec fn attribute_bytes(self, base: int, n: int) -> Seq<u8> {
        if n <= 0 {
            Seq::empty()
        } else if n == 1 {
            u32_le(self.attribute(base))
        } else {
            u32_le(self.attribute(base)) + u32_le(self.attribute(base + 1))
        }
    }

    /// Every request keeps the record sound, and leaves the priority alone.
    pub proof fn moved_keeps_wf(self, q: Request)
        requires
            self.wf(),
        ensures
            self.moved(q) matches Some(r) ==> r.wf() && r.priority == self.priority,
    {
    }

    /// Unregistering takes back what registering did.
    pub proof fn unregister_undoes(self, pc: usize, arg: usize)
        requires
            self.wf(),
            self.state == EventState::Unused,
        ensures
            self.moved(Request::Register(pc, arg)) matches Some(r) && r.moved(Request::Unregister)
                == Some(self),
    {
    }

    /// An unused event can be registered, enabled and injected in this order, and its handler then
    /// runs; it cannot be enabled or injected before.
    pub proof fn lifecycle(self, pc: usize, arg: usize)
        requires
            self.state == EventState::Unused,
        ensures
            self.moved(Request::Enable) is None,
            self.moved(Request::Inject) is None,
            ({
                let registered = self.moved(Request::Register(pc, arg))->0;
                let enabled = registered.moved(Request::Enable)->0;
                let running = enabled.moved(Request::Inject)->0;
                &&& registered.moved(Request::Inject) is None
                &&& enabled.moved(Request::Inject) is Some
                &&& running.state == EventState::Running
                &&& running.handler_pc == pc
                &&& running.handler_arg == arg
            }),
    {
    }
}

/// State of all events and of the calling hart.
pub struct Events {
    /// Record of each event, in the order of their identifiers.
    pub records: Seq<EventRecord>,
    /// Events are held back.
    pub masked: bool,
}

/// Place of an event in the records, if the platform supports it: the identifiers are one, two and
/// three.
pub open spec fn event_place(event_id: u32) -> Option<int> {
    if 1 <= event_id <= EVENT_COUNT {
        Some(event_id - 1)
    } else {
        None
    }
}

/// How many of the attributes from `base` on exist, `count` at most: there are two.
pub open spec fn attributes_found(base: int, count: int) -> int {
    if base > 1 {
        0
    } else {
        least(count, 2 - base)
    }
}

/// The first record, from the `from`-th on, of an event that is running.
pub open spec fn first_running(records: Seq<EventRecord>, from: int) -> Option<int>
    decreases records.len() - from,
{
    if from < 0 || records.len() <= from {
        None
    } else if records[from].state == EventState::Running {
        Some(from)
    } else {
        first_running(records, from + 1)
    }
}

/// A running event that is found is running and has a record.
proof fn first_running_bounds(records: Seq<EventRecord>, from: int)
    ensures
        first_running(records, from) matches Some(i) ==> from <= i < records.len()
            && records[i].state == EventState::Running,
    decreases records.len() - from,
{
    if 0 <= from < records.len() && records[from].state != EventState::Running {
        first_running_bounds(records, from + 1);
    }
}

impl Events {
    /// All records are sound.
    pub open spec fn wf(self) -> bool {
        &&& self.records.len() == EVENT_COUNT
        &&& forall|i: int| 0 <= i < EVENT_COUNT ==> (#[trigger] self.records[i]).wf()
    }

    /// What a request does: the state afterwards and the result.
    pub open spec fn requested(self, event_id: u32, q: Request) -> (Events, SbiRet) {
        match event_place(event_id) {
            None => (self, SbiRet::err(SbiError::NotSupported)),
            Some(i) => match self.records[i].moved(q) {
                None => (self, SbiRet::err(SbiError::InvalidState)),
                Some(record) => (
                    Events { records: self.records.update(i, record), ..self },
                    SbiRet::ok(0),
                ),
            },
        }
    }

    /// What completing the current event does: the first that is running is enabled again.
    pub open spec fn completed(self) -> (Events, SbiRet) {
        match first_running(self.records, 0) {
            None => (self, SbiRet::err(SbiError::InvalidState)),
            Some(i) => (
                Events {
                    records: self.records.update(
                        i,
                        EventRecord { state: EventState::Enabled, ..self.records[i] },
                    ),
                    ..self
                },
                SbiRet::ok(0),
            ),
        }
    }

    /// What reading attributes returns, and what `output` holds afterwards.
    pub open spec fn attributes_read(
        self,
        event_id: u32,
        base: u32,
        count: u32,
        output: Seq<u8>,
    ) -> (Seq<u8>, SbiRet) {
        match event_place(event_id) {
            None => (output, SbiRet::err(SbiError::NotSupported)),
            Some(i) => {
                let n = attributes_found(base as int, count as int);
                (
                    splice(output, 0, self.records[i].attribute_bytes(base as int, n)),
                    if n == count {
                        SbiRet::ok(0)
                    } else {
                        SbiRet::err(SbiError::BadRange)
                    },
                )
            },
        }
    }

    /// What writing attributes does: the state is read-only, the priority is not, and there are no
    /// others.
    pub open spec fn attributes_written(
        self,
        event_id: u32,
        base: u32,
        count: u32,
        input: Seq<u8>,
    ) -> (Events, SbiRet) {
        match event_place(event_id) {
            None => (self, SbiRet::err(SbiError::NotSupported)),
            Some(i) => if count == 0 {
                (self, SbiRet::ok(0))
            } else if base == 0 {
                (self, SbiRet::err(SbiError::Denied))
            } else if base == 1 {
                (
                    Events {
                        records: self.records.update(
                            i,
                            EventRecord { priority: u32_at(input, 0), ..self.records[i] },
                        ),
                        ..self
                    },
                    if count == 1 {
                        SbiRet::ok(0)
                    } else {
                        SbiRet::err(SbiError::BadRange)
                    },
                )
            } else {
                (self, SbiRet::err(SbiError::BadRange))
            },
        }
    }

    /// The priority that is written is the priority that is read.
    pub proof fn priority_kept(self, event_id: u32, input: Seq<u8>, output: Seq<u8>)
        requires
            self.records.len() == EVENT_COUNT,
            event_place(event_id) is Some,
            4 <= input.len(),
            4 <= output.len(),
        ensures
            ({
                let (after, w) = self.attributes_written(event_id, 1, 1, input);
                let (read, r) = after.attributes_read(event_id, 1, 1, output);
                &&& w == SbiRet::ok(0)
                &&& r == SbiRet::ok(0)
                &&& read.take(4) == input.take(4)
            }),
    {
        let (after, _) = self.attributes_written(event_id, 1, 1, input);
        let (read, _) = after.attributes_read(event_id, 1, 1, output);
        crate::bytes::u32_bytes_roundtrip(input, 0);
        assert(input.subrange(0, 4) =~= input.take(4));
        assert(read.take(4) =~= input.take(4));
    }

    /// Every operation keeps all records sound.
    pub proof fn operations_keep_wf(
        self,
        event_id: u32,
        q: Request,
        base: u32,
        count: u32,
        input: Seq<u8>,
    )
        requires
            self.wf(),
        ensures
            self.requested(event_id, q).0.wf(),
            self.completed().0.wf(),
            self.attributes_written(event_id, base, count, input).0.wf(),
    {
        if let Some(i) = event_place(event_id) {
            self.records[i].moved_keeps_wf(q);
        }
        first_running_bounds(self.records, 0);
    }

    /// No request changes an event that it does not name.
    pub proof fn requests_independent(self, event_id: u32, q: Request, other: int)
        requires
            self.records.len() == EVENT_COUNT,
            0 <= other < EVENT_COUNT,
            event_place(event_id) != Some(other),
        ensures
            self.requested(event_id, q).0.records[other] == self.records[other],
    {
    }
}

/// Supervisor software events extension.
pub struct SbiSse {
    events: [EventRecord; 3],
    hart_masked: bool,
}

impl View for SbiSse {
    type V = Events;

    closed spec fn view(&self) -> Events {
        Events { records: self.events@, masked: self.hart_masked }
    }
}

/// Place of an event in the records, if the platform supports it.
fn event_index(event_id: u32) -> (r: Option<usize>)
    ensures
        match event_place(event_id) {
            Some(i) => r is Some && r->0 == i && i < EVENT_COUNT,
            None => r is None,
        },
{
    let supported: [u32; 3] = [0x1, 0x2, 0x3];
    let mut i: usize = 0;
    while i < EVENT_COUNT
        invariant
            i <= EVENT_COUNT,
            supported@ == seq![0x1u32, 0x2, 0x3],
            forall|j: int| 0 <= j < i ==> supported@[j] != event_id,
        decreases EVENT_COUNT - i,
    {
        if supported[i] == event_id {
            return Some(i);
        }
        i += 1;
    }
    proof {
        assert(supported@[0] != event_id && supported@[1] != event_id && supported@[2] != event_id);
    }
    None
}

impl SbiSse {
    /// There is a record for each event.
    pub proof fn records_counted(self)
        ensures
            self@.records.len() == EVENT_COUNT,
    {
    }

    /// Creates the extension with all events unused and let through.
    pub fn new() -> (s: SbiSse)
        ensures
            s@ == (Events {
                records: seq![EventRecord::fresh(), EventRecord::fresh(), EventRecord::fresh()],
                masked: false,
            }),
    {
        let unused = EventRecord {
            state: EventState::Unused,
            handler_pc: 0,
            handler_arg: 0,
            priority: 0,
        };
        let s = SbiSse { events: [unused, unused, unused], hart_masked: false };
        assert(s@.records =~= seq![
            EventRecord::fresh(),
            EventRecord::fresh(),
            EventRecord::fresh(),
        ]);
        s
    }
}

impl Sse for SbiSse {
    open spec fn read_room(self, event_id: u32, base_attr_id: u32, attr_count: u32) -> int {
        if event_place(event_id) is Some {
            4 * attributes_found(base_attr_id as int, attr_count as int)
        } else {
            0
        }
    }

    open spec fn write_room(self, event_id: u32, base_attr_id: u32, attr_count: u32) -> int {
        if event_place(event_id) is Some && base_attr_id == 1 && attr_count > 0 {
            4
        } else {
            0
        }
    }

    open spec fn read_attrs_post(
        pre: Self,
        event_id: u32,
        base_attr_id: u32,
        attr_count: u32,
        output: Seq<u8>,
        output_after: Seq<u8>,
        post: Self,
        r: SbiRet,
    ) -> bool {
        (output_after, r) == pre@.attributes_read(event_id, base_attr_id, attr_count, output)
            && post@ == pre@
    }

    open spec fn write_attrs_post(
        pre: Self,
        event_id: u32,
        base_attr_id: u32,
        attr_count: u32,
        input: Seq<u8>,
        post: Self,
        r: SbiRet,
    ) -> bool {
        (post@, r) == pre@.attributes_written(event_id, base_attr_id, attr_count, input)
    }

    open spec fn register_post(
        pre: Self,
        event_id: u32,
        handler_entry_pc: usize,
        handler_entry_arg: usize,
        post: Self,
        r: SbiRet,
    ) -> bool {
        (post@, r) == pre@.requested(
            event_id,
            Request::Register(handler_entry_pc, handler_entry_arg),
        )
    }

    open spec fn unregister_post(pre: Self, event_id: u32, post: Self, r: SbiRet) -> bool {
        (post@, r) == pre@.requested(event_id, Request::Unregister)
    }

    open spec fn enable_post(pre: Self, event_id: u32, post: Self, r: SbiRet) -> bool {
        (post@, r) == pre@.requested(event_id, Request::Enable)
    }

    open spec fn disable_post(pre: Self, event_id: u32, post: Self, r: SbiRet) -> bool {
        (post@, r) == pre@.requested(event_id, Request::Disable)
    }

    open spec fn complete_post(pre: Self, post: Self, r: SbiRet) -> bool {
        (post@, r) == pre@.completed()
    }

    open spec fn inject_post(
        pre: Self,
        event_id: u32,
        hart_id: usize,
        post: Self,
        r: SbiRet,
    ) -> bool {
        (post@, r) == pre@.requested(event_id, Request::Inject)
    }

    open spec fn hart_unmask_post(pre: Self, post: Self, r: SbiRet) -> bool {
        post@ == (Events { masked: false, ..pre@ }) && r == SbiRet::ok(0)
    }

    open spec fn hart_mask_post(pre: Self, post: Self, r: SbiRet) -> bool {
        post@ == (Events { masked: true, ..pre@ }) && r == SbiRet::ok(0)
    }

    fn read_attrs(
        &mut self,
        event_id: u32,
        base_attr_id: u32,
        attr_count: u32,
        output: &mut [u8],
    ) -> (r:
        SbiRet) {
        let idx: usize = match event_index(event_id) {
            Some(idx) => idx,
            None => return SbiRet::not_supported(),
        };
        let event = self.events[idx];
        let room: usize = output.len();
        let mut i: u32 = 0;
        assert(output@ =~= splice(old(output)@, 0, event.attribute_bytes(base_attr_id as int, 0)));
        while i < attr_count
            invariant
                i <= attr_count,
                4 * attributes_found(base_attr_id as int, attr_count as int) <= room == output@.len(),
                output@.len() == old(output)@.len(),
                i == 0 || base_attr_id + i <= 2,
                event_place(event_id) == Some(idx as int),
                event == self@.records[idx as int],
                *self == *old(self),
                output@ == splice(
                    old(output)@,
                    0,
                    event.attribute_bytes(base_attr_id as int, i as int),
                ),
            decreases attr_count - i,
        {
            let attr_id: u32 = base_attr_id + i;
            let value: u32 = match attr_id {
                0 => event.state.bits(),
                1 => event.priority,
                _ => return SbiRet::bad_range(),
            };
            write_u32(output, i as usize * 4, value);
            i += 1;
            assert(output@ =~= splice(
                old(output)@,
                0,
                event.attribute_bytes(base_attr_id as int, i as int),
            ));
        }
        SbiRet::success(0)
    }

    fn write_attrs(
        &mut self,
        event_id: u32,
        base_attr_id: u32,
        attr_count: u32,
        input: &[u8],
    ) -> (r:
        SbiRet) {
        let idx: usize = match event_index(event_id) {
            Some(idx) => idx,
            None => return SbiRet::not_supported(),
        };
        let mut i: u32 = 0;
        while i < attr_count
            invariant
                i <= attr_count,
                base_attr_id == 1 && attr_count > 0 ==> 4 <= input@.len(),
                i == 0 || i == 1 && base_attr_id == 1,
                event_place(event_id) == Some(idx as int),
                idx < EVENT_COUNT,
                i == 0 ==> self@ == old(self)@,
                i == 1 ==> self@ == old(self)@.attributes_written(event_id, 1, 1, input@).0,
            decreases attr_count - i,
        {
            let attr_id: u32 = base_attr_id + i;
            match attr_id {
                0 => return SbiRet::denied(),
                1 => {
                    let value: u32 = read_u32(input, 0);
                    let mut event = self.events[idx];
                    event.priority = value;
                    self.events[idx] = event;
                },
                _ => return SbiRet::bad_range(),
            }
            i += 1;
            assert(self@.records =~= old(self)@.attributes_written(
                event_id,
                1,
                1,
                input@,
            ).0.records);
        }
        SbiRet::success(0)
    }

    fn register(&mut self, event_id: u32, handler_entry_pc: usize, handler_entry_arg: usize) -> (r:
        SbiRet) {
        let idx: usize = match event_index(event_id) {
            Some(idx) => idx,
            None => return SbiRet::not_supported(),
        };
        let mut event = self.events[idx];
        if event.state != EventState::Unused {
            return SbiRet::invalid_state();
        }
        event.handler_pc = handler_entry_pc;
        event.handler_arg = handler_entry_arg;
        event.state = EventState::Registered;
        self.events[idx] = event;
        SbiRet::success(0)
    }

    fn unregister(&mut self, event_id: u32) -> (r: SbiRet) {
        let idx: usize = match event_index(event_id) {
            Some(idx) => idx,
            None => return SbiRet::not_supported(),
        };
        let mut event = self.events[idx];
        match event.state {
            EventState::Registered | EventState::Disabled => {
                event.handler_pc = 0;
                event.handler_arg = 0;
                event.state = EventState::Unused;
                self.events[idx] = event;
                SbiRet::success(0)
            },
            _ => SbiRet::invalid_state(),
        }
    }

    fn enable(&mut self, event_id: u32) -> (r: SbiRet) {
        let idx: usize = match event_index(event_id) {
            Some(idx) => idx,
            None => return SbiRet::not_supported(),
        };
        let mut event = self.events[idx];
        match event.state {
            EventState::Registered | EventState::Disabled => {
                event.state = EventState::Enabled;
                self.events[idx] = event;
                SbiRet::success(0)
            },
            _ => SbiRet::invalid_state(),
        }
    }

    fn disable(&mut self, event_id: u32) -> (r: SbiRet) {
        let idx: usize = match event_index(event_id) {
            Some(idx) => idx,
            None => return SbiRet::not_supported(),
        };
        let mut event = self.events[idx];
        match event.state {
            EventState::Enabled | EventState::Running => {
                event.state = EventState::Disabled;
                self.events[idx] = event;
                SbiRet::success(0)
            },
            _ => SbiRet::invalid_state(),
        }
    }

    fn complete(&mut self) -> (r: SbiRet) {
        let mut i: usize = 0;
        while i < EVENT_COUNT
            invariant
                i <= EVENT_COUNT,
                *self == *old(self),
                first_running(self@.records, 0) == first_running(self@.records, i as int),
            decreases EVENT_COUNT - i,
        {
            let mut event = self.events[i];
            if event.state == EventState::Running {
                event.state = EventState::Enabled;
                self.events[i] = event;
                return SbiRet::success(0);
            }
            i += 1;
        }
        SbiRet::invalid_state()
    }

    fn inject(&mut self, event_id: u32, hart_id: usize) -> (r: SbiRet) {
        let idx: usize = match event_index(event_id) {
            Some(idx) => idx,
            None => return SbiRet::not_supported(),
        };
        let mut event = self.events[idx];
        if event.state != EventState::Enabled {
            return SbiRet::invalid_state();
        }
        event.state = EventState::Running;
        self.events[idx] = event;
        SbiRet::success(0)
    }

    fn hart_unmask(&mut self) -> (r: SbiRet) {
        self.hart_masked = false;
        SbiRet::success(0)
    }

    fn hart_mask(&mut self) -> (r: SbiRet) {
        self.hart_masked = true;
        SbiRet::success(0)
    }
}

impl EventState {
    /// The number under which each state is reported.
    pub proof fn state_numbers(self)
        ensures
            self is Unused <==> self.code() == 0,
            self is Registered <==> self.code() == 1,
            self is Enabled <==> self.code() == 2,
            self is Disabled <==> self.code() == 3,
            self is Running <==> self.code() == 4,
    {
    }
}

impl EventRecord {
    /// Which requests an event's state permits, and where they lead. Registering needs an unused
    /// event, unregistering and enabling one that is registered or disabled, disabling one that is
    /// enabled or running, and injecting one that is enabled. Only registering and unregistering
    /// change the handler, and nothing changes the priority.
    pub proof fn transitions(self, q: Request)
        ensures
            ({
                let idle = self.state is Registered || self.state is Disabled;
                let live = self.state is Enabled || self.state is Running;
                &&& self.moved(q) is Some <==> match q {
                    Request::Register(_, _) => self.state is Unused,
                    Request::Unregister => idle,
                    Request::Enable => idle,
                    Request::Disable => live,
                    Request::Inject => self.state is Enabled,
                }
                &&& self.moved(q) matches Some(r) ==> {
                    &&& r.priority == self.priority
                    &&& q matches Request::Register(pc, arg) ==> r.state is Registered
                        && r.handler_pc == pc && r.handler_arg == arg
                    &&& q is Unregister ==> r.state is Unused && r.handler_pc == 0 && r.handler_arg
                        == 0
                    &&& q is Enable ==> r.state is Enabled
                    &&& q is Disable ==> r.state is Disabled
                    &&& q is Inject ==> r.state is Running
                    &&& q is Enable || q is Disable || q is Inject ==> r.handler_pc
                        == self.handler_pc && r.handler_arg == self.handler_arg
                }
            }),
    {
    }
}

/// The events have the identifiers one, two and three, and each has a record of its own.
pub proof fn event_numbers(a: u32, b: u32)
    ensures
        event_place(a) is Some <==> 1 <= a <= 3,
        event_place(a) matches Some(i) ==> 0 <= i < 3 && i == a - 1,
        1 <= a <= 3 && event_place(a) == event_place(b) ==> a == b,
{
}

/// The first running record is running, and none before it is.
proof fn first_running_is_first(records: Seq<EventRecord>, from: int)
    requires
        0 <= from,
    ensures
        match first_running(records, from) {
            Some(i) => from <= i < records.len() && records[i].state is Running && forall|j: int|
                from <= j < i ==> !((#[trigger] records[j]).state is Running),
            None => forall|j: int|
                from <= j < records.len() ==> !((#[trigger] records[j]).state is Running),
        },
    decreases records.len() - from,
{
    if from < records.len() && !(records[from].state is Running) {
        first_running_is_first(records, from + 1);
    }
}

impl Events {
    /// Why a request is refused: an event that the platform does not support, or one whose state
    /// does not permit it; nothing changes then. Otherwise it succeeds and changes the record of
    /// that event alone.
    pub proof fn request_outcome(self, event_id: u32, q: Request)
        requires
            self.records.len() == 3,
        ensures
            ({
                let (after, r) = self.requested(event_id, q);
                let i = event_id - 1;
                let known = 1 <= event_id <= 3;
                let permitted = known && self.records[i].moved(q) is Some;
                &&& !known ==> r == SbiRet::err(SbiError::NotSupported)
                &&& known && !permitted ==> r == SbiRet::err(SbiError::InvalidState)
                &&& !permitted ==> after == self
                &&& permitted ==> r == SbiRet::ok(0) && Some(after.records[i])
                    == self.records[i].moved(q)
                &&& after.masked == self.masked
                &&& after.records.len() == 3
                &&& forall|j: int|
                    0 <= j < 3 && j != i ==> #[trigger] after.records[j] == self.records[j]
            }),
    {
    }

    /// Completing ends the handler of the first event that is running, and of no other; the event
    /// can be injected again. With none running it is refused and changes nothing.
    pub proof fn completion(self)
        requires
            self.records.len() == 3,
        ensures
            ({
                let (after, r) = self.completed();
                let some = exists|i: int| 0 <= i < 3 && (#[trigger] self.records[i]).state is Running;
                &&& some ==> r == SbiRet::ok(0)
                &&& !some ==> r == SbiRet::err(SbiError::InvalidState) && after == self
                &&& after.masked == self.masked
                &&& after.records.len() == 3
                &&& forall|i: int|
                    #![trigger after.records[i]]
                    0 <= i < 3 ==> {
                        let first = self.records[i].state is Running && forall|j: int|
                            0 <= j < i ==> !((#[trigger] self.records[j]).state is Running);
                        &&& first ==> after.records[i] == (EventRecord {
                            state: EventState::Enabled,
                            ..self.records[i]
                        })
                        &&& !first ==> after.records[i] == self.records[i]
                    }
            }),
    {
        first_running_is_first(self.records, 0);
    }

    /// Completing takes back what injecting did, where no other event was running.
    pub proof fn complete_undoes_inject(self, event_id: u32)
        requires
            self.records.len() == 3,
            self.requested(event_id, Request::Inject).1 == SbiRet::ok(0),
            forall|i: int| 0 <= i < 3 ==> !((#[trigger] self.records[i]).state is Running),
        ensures
            ({
                let injected = self.requested(event_id, Request::Inject).0;
                injected.completed().1 == SbiRet::ok(0) && injected.completed().0 == self
            }),
    {
        let injected = self.requested(event_id, Request::Inject).0;
        self.request_outcome(event_id, Request::Inject);
        let i = event_id - 1;
        self.records[i].transitions(Request::Inject);
        first_running_is_first(injected.records, 0);
        assert(injected.completed().0.records =~= self.records);
    }

    /// What reading attributes returns: attribute zero is the number of the state, attribute one
    /// the priority, one word each, and there are no others. The request succeeds exactly if all
    /// that it asks for exist; nothing behind those that do is written.
    pub proof fn attributes_told(
        self,
        event_id: u32,
        base: u32,
        count: u32,
        output: Seq<u8>,
        i: int,
    )
        requires
            self.records.len() == 3,
            1 <= event_id <= 3,
            8 <= output.len(),
            0 <= i,
        ensures
            ({
                let record = self.records[event_id - 1];
                let (after, r) = self.attributes_read(event_id, base, count, output);
                let told = i < count && base + i <= 1;
                &&& r == SbiRet::ok(0) <==> count == 0 || base + count <= 2
                &&& r != SbiRet::ok(0) ==> r == SbiRet::err(SbiError::BadRange)
                &&& after.len() == output.len()
                &&& told && base + i == 0 ==> u32_at(after, 4 * i) == record.state.code()
                &&& told && base + i == 1 ==> u32_at(after, 4 * i) == record.priority
                &&& !told && 4 * i + 4 <= output.len() ==> after.subrange(4 * i, 4 * i + 4)
                    == output.subrange(4 * i, 4 * i + 4)
            }),
    {
        let record = self.records[event_id - 1];
        let (after, _) = self.attributes_read(event_id, base, count, output);
        crate::bytes::u32_roundtrip(record.state.code());
        crate::bytes::u32_roundtrip(record.priority);
        if !(i < count && base + i <= 1) && 4 * i + 4 <= output.len() {
            assert(after.subrange(4 * i, 4 * i + 4) =~= output.subrange(4 * i, 4 * i + 4));
        }
    }

    /// What writing attributes does: the state cannot be written, the priority becomes the word
    /// that is given, and there are no others. No other event changes, and nothing but the
    /// priority.
    pub proof fn attributes_set(self, event_id: u32, base: u32, count: u32, input: Seq<u8>)
        requires
            self.records.len() == 3,
            1 <= event_id <= 3,
            4 <= input.len(),
        ensures
            ({
                let i = event_id - 1;
                let (after, r) = self.attributes_written(event_id, base, count, input);
                let written = base == 1 && count > 0;
                &&& r == SbiRet::ok(0) <==> count == 0 || base == 1 && count == 1
                &&& count > 0 && base == 0 ==> r == SbiRet::err(SbiError::Denied)
                &&& count > 0 && base > 0 && base + count > 2 ==> r == SbiRet::err(
                    SbiError::BadRange,
                )
                &&& !written ==> after == self
                &&& written ==> after.records[i].priority == input[0] + 0x100 * input[1] + 0x1_0000
                    * input[2] + 0x100_0000 * input[3]
                &&& after.records[i].state == self.records[i].state
                &&& after.records[i].handler_pc == self.records[i].handler_pc
                &&& after.records[i].handler_arg == self.records[i].handler_arg
                &&& after.masked == self.masked
                &&& after.records.len() == 3
                &&& forall|j: int|
                    0 <= j < 3 && j != i ==> #[trigger] after.records[j] == self.records[j]
            }),
    {
    }

    /// Attributes of an event that the platform does not support can be neither read nor written.
    pub proof fn unknown_event_attributes(
        self,
        event_id: u32,
        base: u32,
        count: u32,
        bytes: Seq<u8>,
    )
        requires
            event_id == 0 || event_id > 3,
        ensures
            self.attributes_read(event_id, base, count, bytes) == (
                bytes,
                SbiRet::err(SbiError::NotSupported),
            ),
            self.attributes_written(event_id, base, count, bytes) == (
                self,
                SbiRet::err(SbiError::NotSupported),
            ),
    {
    }
}

/// Events are held back while the hart is masked and let through once it is not; neither request
/// can fail or changes a record.
pub proof fn mask_switches(pre: SbiSse, post: SbiSse, r: SbiRet)
    ensures
        SbiSse::hart_mask_post(pre, post, r) ==> post@.masked && r == SbiRet::ok(0)
            && post@.records == pre@.records,
        SbiSse::hart_unmask_post(pre, post, r) ==> !post@.masked && r == SbiRet::ok(0)
            && post@.records == pre@.records,
{
}

/// Each function of the extension is the request of its name.
pub proof fn functions_are_requests(
    pre: SbiSse,
    event_id: u32,
    pc: usize,
    arg: usize,
    hart_id: usize,
    post: SbiSse,
    r: SbiRet,
)
    requires
        1 <= event_id <= 3,
        r == SbiRet::ok(0),
    ensures
        ({
            let record = post@.records[event_id - 1];
            &&& SbiSse::register_post(pre, event_id, pc, arg, post, r) ==> record.state
                is Registered && record.handler_pc == pc && record.handler_arg == arg
            &&& SbiSse::unregister_post(pre, event_id, post, r) ==> record.state is Unused
            &&& SbiSse::enable_post(pre, event_id, post, r) ==> record.state is Enabled
            &&& SbiSse::disable_post(pre, event_id, post, r) ==> record.state is Disabled
            &&& SbiSse::inject_post(pre, event_id, hart_id, post, r) ==> record.state is Running
        }),
{
    pre.records_counted();
}

} // verus!
