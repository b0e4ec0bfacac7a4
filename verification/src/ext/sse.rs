//! Supervisor software events extension: lets the supervisor register handlers for events.
use vstd::prelude::*;

use crate::binary::{SbiError, SbiRet};

verus! {

/// Supervisor software events extension: lets the supervisor register handlers for events.
///
/// What each function does is up to the implementation, which states it as a relation between the
/// state before, the arguments, the state afterwards and the result. One that states nothing
/// promises nothing.
pub trait Sse: Sized {
    /// Number of bytes that `read_attrs` may write: a word for each attribute, unless the
    /// implementation has fewer.
    open spec fn read_room(self, event_id: u32, base_attr_id: u32, attr_count: u32) -> int {
        4 * attr_count
    }

    /// Number of bytes that `write_attrs` may read: a word for each attribute, unless the
    /// implementation has fewer.
    open spec fn write_room(self, event_id: u32, base_attr_id: u32, attr_count: u32) -> int {
        4 * attr_count
    }

    /// What `read_attrs` does.
    open spec fn read_attrs_post(
        pre: Self,
        event_id: u32,
        base_attr_id: u32,
        attr_count: u32,
        output: Seq<u8>,
        output_after: Seq<u8>,
        post: Self,
        r: SbiRet,
    ) -> bool {
        true
    }

    /// What `write_attrs` does.
    open spec fn write_attrs_post(
        pre: Self,
        event_id: u32,
        base_attr_id: u32,
        attr_count: u32,
        input: Seq<u8>,
        post: Self,
        r: SbiRet,
    ) -> bool {
        true
    }

    /// What `register` does.
    open spec fn register_post(
        pre: Self,
        event_id: u32,
        handler_entry_pc: usize,
        handler_entry_arg: usize,
        post: Self,
        r: SbiRet,
    ) -> bool {
        true
    }

    /// What `unregister` does.
    open spec fn unregister_post(pre: Self, event_id: u32, post: Self, r: SbiRet) -> bool {
        true
    }

    /// What `enable` does.
    open spec fn enable_post(pre: Self, event_id: u32, post: Self, r: SbiRet) -> bool {
        true
    }

    /// What `disable` does.
    open spec fn disable_post(pre: Self, event_id: u32, post: Self, r: SbiRet) -> bool {
        true
    }

    /// What `complete` does.
    open spec fn complete_post(pre: Self, post: Self, r: SbiRet) -> bool {
        true
    }

    /// What `inject` does.
    open spec fn inject_post(pre: Self, event_id: u32, hart_id: usize, post: Self, r: SbiRet) -> bool {
        true
    }

    /// What `hart_unmask` does.
    open spec fn hart_unmask_post(pre: Self, post: Self, r: SbiRet) -> bool {
        true
    }

    /// What `hart_mask` does.
    open spec fn hart_mask_post(pre: Self, post: Self, r: SbiRet) -> bool {
        true
    }

    /// Reads attributes of an event into `output`, one word each.
    fn read_attrs(
        &mut self,
        event_id: u32,
        base_attr_id: u32,
        attr_count: u32,
        output: &mut [u8],
    ) -> (r: SbiRet)
        requires
            Self::read_room(*old(self), event_id, base_attr_id, attr_count) <= old(output)@.len(),
        ensures
            Self::read_attrs_post(
                *old(self),
                event_id,
                base_attr_id,
                attr_count,
                old(output)@,
                final(output)@,
                *final(self),
                r,
            ),
    ;

    /// Writes attributes of an event from `input`, one word each.
    fn write_attrs(
        &mut self,
        event_id: u32,
        base_attr_id: u32,
        attr_count: u32,
        input: &[u8],
    ) -> (r: SbiRet)
        requires
            Self::write_room(*old(self), event_id, base_attr_id, attr_count) <= input@.len(),
        ensures
            Self::write_attrs_post(
                *old(self),
                event_id,
                base_attr_id,
                attr_count,
                input@,
                *final(self),
                r,
            ),
    ;

    /// Registers a handler for an event.
    fn register(
        &mut self,
        event_id: u32,
        handler_entry_pc: usize,
        handler_entry_arg: usize,
    ) -> (r: SbiRet)
        ensures
            Self::register_post(
                *old(self),
                event_id,
                handler_entry_pc,
                handler_entry_arg,
                *final(self),
                r,
            ),
    ;

    /// Unregisters the handler of an event.
    fn unregister(&mut self, event_id: u32) -> (r: SbiRet)
        ensures
            Self::unregister_post(*old(self), event_id, *final(self), r),
    ;

    /// Enables an event.
    fn enable(&mut self, event_id: u32) -> (r: SbiRet)
        ensures
            Self::enable_post(*old(self), event_id, *final(self), r),
    ;

    /// Disables an event.
    fn disable(&mut self, event_id: u32) -> (r: SbiRet)
        ensures
            Self::disable_post(*old(self), event_id, *final(self), r),
    ;

    /// Completes the handling of the current event on the calling hart.
    fn complete(&mut self) -> (r: SbiRet)
        ensures
            Self::complete_post(*old(self), *final(self), r),
    ;

    /// Injects an event on a hart.
    fn inject(&mut self, event_id: u32, hart_id: usize) -> (r: SbiRet)
        ensures
            Self::inject_post(*old(self), event_id, hart_id, *final(self), r),
    ;

    /// Lets events through on the calling hart.
    fn hart_unmask(&mut self) -> (r: SbiRet)
        ensures
            Self::hart_unmask_post(*old(self), *final(self), r),
    ;

    /// Holds events back on the calling hart.
    fn hart_mask(&mut self) -> (r: SbiRet)
        ensures
            Self::hart_mask_post(*old(self), *final(self), r),
    ;

    /// Whether the extension is there: one if it is, zero if it is not.
    fn _rustsbi_probe(&self) -> (n: usize)
        default_ensures
            n == 1,
    {
        1
    }
}

/// A borrowed implementation does what the implementation does.
impl<T: Sse> Sse for &mut T {
    open spec fn read_room(self, event_id: u32, base_attr_id: u32, attr_count: u32) -> int {
        T::read_room(*self, event_id, base_attr_id, attr_count)
    }

    open spec fn write_room(self, event_id: u32, base_attr_id: u32, attr_count: u32) -> int {
        T::write_room(*self, event_id, base_attr_id, attr_count)
    }

    open spec fn read_attrs_post(
        pre: Self,
        event_id: u32,
        base_attr_id: u32,
        attr_count: u32,
        output: Seq<u8>,
        output_after: Seq<u8>,
        post: Self,
        r: SbiRet,
    ) -> bool {
        T::read_attrs_post(*pre, event_id, base_attr_id, attr_count, output, output_after, *post, r)
    }

    open spec fn write_attrs_post(
        pre: Self,
        event_id: u32,
        base_attr_id: u32,
        attr_count: u32,
        input: Seq<u8>,
        post: Self,
        r: SbiRet,
    ) -> bool {
        T::write_attrs_post(*pre, event_id, base_attr_id, attr_count, input, *post, r)
    }

    open spec fn register_post(
        pre: Self,
        event_id: u32,
        handler_entry_pc: usize,
        handler_entry_arg: usize,
        post: Self,
        r: SbiRet,
    ) -> bool {
        T::register_post(*pre, event_id, handler_entry_pc, handler_entry_arg, *post, r)
    }

    open spec fn unregister_post(pre: Self, event_id: u32, post: Self, r: SbiRet) -> bool {
        T::unregister_post(*pre, event_id, *post, r)
    }

    open spec fn enable_post(pre: Self, event_id: u32, post: Self, r: SbiRet) -> bool {
        T::enable_post(*pre, event_id, *post, r)
    }

    open spec fn disable_post(pre: Self, event_id: u32, post: Self, r: SbiRet) -> bool {
        T::disable_post(*pre, event_id, *post, r)
    }

    open spec fn complete_post(pre: Self, post: Self, r: SbiRet) -> bool {
        T::complete_post(*pre, *post, r)
    }

    open spec fn inject_post(
        pre: Self,
        event_id: u32,
        hart_id: usize,
        post: Self,
        r: SbiRet,
    ) -> bool {
        T::inject_post(*pre, event_id, hart_id, *post, r)
    }

    open spec fn hart_unmask_post(pre: Self, post: Self, r: SbiRet) -> bool {
        T::hart_unmask_post(*pre, *post, r)
    }

    open spec fn hart_mask_post(pre: Self, post: Self, r: SbiRet) -> bool {
        T::hart_mask_post(*pre, *post, r)
    }

    fn read_attrs(
        &mut self,
        event_id: u32,
        base_attr_id: u32,
        attr_count: u32,
        output: &mut [u8],
    ) -> (r: SbiRet) {
        T::read_attrs(*self, event_id, base_attr_id, attr_count, output)
    }

    fn write_attrs(
        &mut self,
        event_id: u32,
        base_attr_id: u32,
        attr_count: u32,
        input: &[u8],
    ) -> (r: SbiRet) {
        T::write_attrs(*self, event_id, base_attr_id, attr_count, input)
    }

    fn register(
        &mut self,
        event_id: u32,
        handler_entry_pc: usize,
        handler_entry_arg: usize,
    ) -> (r: SbiRet) {
        T::register(*self, event_id, handler_entry_pc, handler_entry_arg)
    }

    fn unregister(&mut self, event_id: u32) -> (r: SbiRet) {
        T::unregister(*self, event_id)
    }

    fn enable(&mut self, event_id: u32) -> (r: SbiRet) {
        T::enable(*self, event_id)
    }

    fn disable(&mut self, event_id: u32) -> (r: SbiRet) {
        T::disable(*self, event_id)
    }

    fn complete(&mut self) -> (r: SbiRet) {
        T::complete(*self)
    }

    fn inject(&mut self, event_id: u32, hart_id: usize) -> (r: SbiRet) {
        T::inject(*self, event_id, hart_id)
    }

    fn hart_unmask(&mut self) -> (r: SbiRet) {
        T::hart_unmask(*self)
    }

    fn hart_mask(&mut self) -> (r: SbiRet) {
        T::hart_mask(*self)
    }
}

/// An implementation that may be missing: without one, every request is answered as not supported
/// and the extension probes as not there.
impl<T: Sse> Sse for Option<T> {
    open spec fn read_room(self, event_id: u32, base_attr_id: u32, attr_count: u32) -> int {
        match self {
            Some(inner) => T::read_room(inner, event_id, base_attr_id, attr_count),
            None => 0,
        }
    }

    open spec fn write_room(self, event_id: u32, base_attr_id: u32, attr_count: u32) -> int {
        match self {
            Some(inner) => T::write_room(inner, event_id, base_attr_id, attr_count),
            None => 0,
        }
    }

    open spec fn read_attrs_post(
        pre: Self,
        event_id: u32,
        base_attr_id: u32,
        attr_count: u32,
        output: Seq<u8>,
        output_after: Seq<u8>,
        post: Self,
        r: SbiRet,
    ) -> bool {
        match (pre, post) {
            (Some(before), Some(after)) => T::read_attrs_post(
                before,
                event_id,
                base_attr_id,
                attr_count,
                output,
                output_after,
                after,
                r,
            ),
            (None, None) => r == SbiRet::err(SbiError::NotSupported) && output_after == output,
            _ => false,
        }
    }

    open spec fn write_attrs_post(
        pre: Self,
        event_id: u32,
        base_attr_id: u32,
        attr_count: u32,
        input: Seq<u8>,
        post: Self,
        r: SbiRet,
    ) -> bool {
        match (pre, post) {
            (Some(before), Some(after)) => T::write_attrs_post(
                before,
                event_id,
                base_attr_id,
                attr_count,
                input,
                after,
                r,
            ),
            (None, None) => r == SbiRet::err(SbiError::NotSupported),
            _ => false,
        }
    }

    open spec fn register_post(
        pre: Self,
        event_id: u32,
        handler_entry_pc: usize,
        handler_entry_arg: usize,
        post: Self,
        r: SbiRet,
    ) -> bool {
        match (pre, post) {
            (Some(before), Some(after)) => T::register_post(
                before,
                event_id,
                handler_entry_pc,
                handler_entry_arg,
                after,
                r,
            ),
            (None, None) => r == SbiRet::err(SbiError::NotSupported),
            _ => false,
        }
    }

    open spec fn unregister_post(pre: Self, event_id: u32, post: Self, r: SbiRet) -> bool {
        match (pre, post) {
            (Some(before), Some(after)) => T::unregister_post(before, event_id, after, r),
            (None, None) => r == SbiRet::err(SbiError::NotSupported),
            _ => false,
        }
    }

    open spec fn enable_post(pre: Self, event_id: u32, post: Self, r: SbiRet) -> bool {
        match (pre, post) {
            (Some(before), Some(after)) => T::enable_post(before, event_id, after, r),
            (None, None) => r == SbiRet::err(SbiError::NotSupported),
            _ => false,
        }
    }

    open spec fn disable_post(pre: Self, event_id: u32, post: Self, r: SbiRet) -> bool {
        match (pre, post) {
            (Some(before), Some(after)) => T::disable_post(before, event_id, after, r),
            (None, None) => r == SbiRet::err(SbiError::NotSupported),
            _ => false,
        }
    }

    open spec fn complete_post(pre: Self, post: Self, r: SbiRet) -> bool {
        match (pre, post) {
            (Some(before), Some(after)) => T::complete_post(before, after, r),
            (None, None) => r == SbiRet::err(SbiError::NotSupported),
            _ => false,
        }
    }

    open spec fn inject_post(
        pre: Self,
        event_id: u32,
        hart_id: usize,
        post: Self,
        r: SbiRet,
    ) -> bool {
        match (pre, post) {
            (Some(before), Some(after)) => T::inject_post(before, event_id, hart_id, after, r),
            (None, None) => r == SbiRet::err(SbiError::NotSupported),
            _ => false,
        }
    }

    open spec fn hart_unmask_post(pre: Self, post: Self, r: SbiRet) -> bool {
        match (pre, post) {
            (Some(before), Some(after)) => T::hart_unmask_post(before, after, r),
            (None, None) => r == SbiRet::err(SbiError::NotSupported),
            _ => false,
        }
    }

    open spec fn hart_mask_post(pre: Self, post: Self, r: SbiRet) -> bool {
        match (pre, post) {
            (Some(before), Some(after)) => T::hart_mask_post(before, after, r),
            (None, None) => r == SbiRet::err(SbiError::NotSupported),
            _ => false,
        }
    }

    fn read_attrs(
        &mut self,
        event_id: u32,
        base_attr_id: u32,
        attr_count: u32,
        output: &mut [u8],
    ) -> (r: SbiRet) {
        match self {
            Some(inner) => T::read_attrs(inner, event_id, base_attr_id, attr_count, output),
            None => SbiRet::not_supported(),
        }
    }

    fn write_attrs(
        &mut self,
        event_id: u32,
        base_attr_id: u32,
        attr_count: u32,
        input: &[u8],
    ) -> (r: SbiRet) {
        match self {
            Some(inner) => T::write_attrs(inner, event_id, base_attr_id, attr_count, input),
            None => SbiRet::not_supported(),
        }
    }

    fn register(
        &mut self,
        event_id: u32,
        handler_entry_pc: usize,
        handler_entry_arg: usize,
    ) -> (r: SbiRet) {
        match self {
            Some(inner) => T::register(inner, event_id, handler_entry_pc, handler_entry_arg),
            None => SbiRet::not_supported(),
        }
    }

    fn unregister(&mut self, event_id: u32) -> (r: SbiRet) {
        match self {
            Some(inner) => T::unregister(inner, event_id),
            None => SbiRet::not_supported(),
        }
    }

    fn enable(&mut self, event_id: u32) -> (r: SbiRet) {
        match self {
            Some(inner) => T::enable(inner, event_id),
            None => SbiRet::not_supported(),
        }
    }

    fn disable(&mut self, event_id: u32) -> (r: SbiRet) {
        match self {
            Some(inner) => T::disable(inner, event_id),
            None => SbiRet::not_supported(),
        }
    }

    fn complete(&mut self) -> (r: SbiRet) {
        match self {
            Some(inner) => T::complete(inner),
            None => SbiRet::not_supported(),
        }
    }

    fn inject(&mut self, event_id: u32, hart_id: usize) -> (r: SbiRet) {
        match self {
            Some(inner) => T::inject(inner, event_id, hart_id),
            None => SbiRet::not_supported(),
        }
    }

    fn hart_unmask(&mut self) -> (r: SbiRet) {
        match self {
            Some(inner) => T::hart_unmask(inner),
            None => SbiRet::not_supported(),
        }
    }

    fn hart_mask(&mut self) -> (r: SbiRet) {
        match self {
            Some(inner) => T::hart_mask(inner),
            None => SbiRet::not_supported(),
        }
    }

    fn _rustsbi_probe(&self) -> (n: usize)
        ensures
            n == if self is Some {
                1usize
            } else {
                0
            },
    {
        match self {
            Some(_) => 1,
            None => 0,
        }
    }
}

/// Without an implementation every request is answered as not supported, and none writes anything.
pub proof fn sse_missing<T: Sse>(
    event_id: u32,
    base: u32,
    count: u32,
    before: Seq<u8>,
    after: Seq<u8>,
    pc: usize,
    arg: usize,
    r: SbiRet,
)
    ensures
        Option::<T>::read_attrs_post(None, event_id, base, count, before, after, None, r) ==> after
            == before && r.error + 2 == usize::MAX + 1 && r.value == 0,
        Option::<T>::write_attrs_post(None, event_id, base, count, before, None, r)
            || Option::<T>::register_post(None, event_id, pc, arg, None, r)
            || Option::<T>::unregister_post(None, event_id, None, r) || Option::<T>::enable_post(
            None,
            event_id,
            None,
            r,
        ) || Option::<T>::disable_post(None, event_id, None, r) || Option::<T>::complete_post(
            None,
            None,
            r,
        ) || Option::<T>::inject_post(None, event_id, pc, None, r)
            || Option::<T>::hart_unmask_post(None, None, r) || Option::<T>::hart_mask_post(
            None,
            None,
            r,
        ) ==> r.error + 2 == usize::MAX + 1 && r.value == 0,
{
}

/// A request to an implementation that is there, or that is borrowed, is a request to the
/// implementation, with the same arguments.
pub proof fn sse_forwarded<T: Sse>(
    a: T,
    b: T,
    event_id: u32,
    base: u32,
    count: u32,
    bytes: Seq<u8>,
    after: Seq<u8>,
    pc: usize,
    arg: usize,
    r: SbiRet,
)
    ensures
        Option::<T>::read_attrs_post(
            Some(a),
            event_id,
            base,
            count,
            bytes,
            after,
            Some(b),
            r,
        ) <==> T::read_attrs_post(a, event_id, base, count, bytes, after, b, r),
        forall|p: &mut T, q: &mut T|
            (#[trigger] <&mut T as Sse>::read_attrs_post(
                p,
                event_id,
                base,
                count,
                bytes,
                after,
                q,
                r,
            )) <==> T::read_attrs_post(*p, event_id, base, count, bytes, after, *q, r),
        Option::<T>::read_room(Some(a), event_id, base, count) == T::read_room(a, event_id, base, count),
        Option::<T>::write_room(Some(a), event_id, base, count) == T::write_room(a, event_id, base, count),
        Option::<T>::write_attrs_post(Some(a), event_id, base, count, bytes, Some(b), r) <==> T::write_attrs_post(a, event_id, base, count, bytes, b, r),
        forall|p: &mut T, q: &mut T|
            (#[trigger] <&mut T as Sse>::write_attrs_post(p, event_id, base, count, bytes, q, r)) <==> T::write_attrs_post(*p, event_id, base, count, bytes, *q, r),
        Option::<T>::register_post(Some(a), event_id, pc, arg, Some(b), r) <==> T::register_post(a, event_id, pc, arg, b, r),
        forall|p: &mut T, q: &mut T|
            (#[trigger] <&mut T as Sse>::register_post(p, event_id, pc, arg, q, r)) <==> T::register_post(*p, event_id, pc, arg, *q, r),
        Option::<T>::unregister_post(Some(a), event_id, Some(b), r) <==> T::unregister_post(a, event_id, b, r),
        forall|p: &mut T, q: &mut T|
            (#[trigger] <&mut T as Sse>::unregister_post(p, event_id, q, r)) <==> T::unregister_post(*p, event_id, *q, r),
        Option::<T>::enable_post(Some(a), event_id, Some(b), r) <==> T::enable_post(a, event_id, b, r),
        forall|p: &mut T, q: &mut T|
            (#[trigger] <&mut T as Sse>::enable_post(p, event_id, q, r)) <==> T::enable_post(*p, event_id, *q, r),
        Option::<T>::disable_post(Some(a), event_id, Some(b), r) <==> T::disable_post(a, event_id, b, r),
        forall|p: &mut T, q: &mut T|
            (#[trigger] <&mut T as Sse>::disable_post(p, event_id, q, r)) <==> T::disable_post(*p, event_id, *q, r),
        Option::<T>::complete_post(Some(a), Some(b), r) <==> T::complete_post(a, b, r),
        forall|p: &mut T, q: &mut T|
            (#[trigger] <&mut T as Sse>::complete_post(p, q, r)) <==> T::complete_post(*p, *q, r),
        Option::<T>::inject_post(Some(a), event_id, pc, Some(b), r) <==> T::inject_post(a, event_id, pc, b, r),
        forall|p: &mut T, q: &mut T|
            (#[trigger] <&mut T as Sse>::inject_post(p, event_id, pc, q, r)) <==> T::inject_post(*p, event_id, pc, *q, r),
        Option::<T>::hart_unmask_post(Some(a), Some(b), r) <==> T::hart_unmask_post(a, b, r),
        forall|p: &mut T, q: &mut T|
            (#[trigger] <&mut T as Sse>::hart_unmask_post(p, q, r)) <==> T::hart_unmask_post(*p, *q, r),
        Option::<T>::hart_mask_post(Some(a), Some(b), r) <==> T::hart_mask_post(a, b, r),
        forall|p: &mut T, q: &mut T|
            (#[trigger] <&mut T as Sse>::hart_mask_post(p, q, r)) <==> T::hart_mask_post(*p, *q, r),
{
}

} // verus!
