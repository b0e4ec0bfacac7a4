//! Message proxy extension: lets the supervisor exchange messages through channels.
use vstd::prelude::*;

use crate::binary::{SbiError, SbiRet, SharedPtr};

verus! {

/// Message proxy extension: lets the supervisor exchange messages through channels.
///
/// What each function does is up to the implementation, which states it as a relation between the
/// state before, the arguments, the state afterwards and the result. One that states nothing
/// promises nothing.
pub trait Mpxy: Sized {
    /// What `get_shmem_size` does.
    open spec fn get_shmem_size_post(pre: Self, post: Self, r: usize) -> bool {
        true
    }

    /// What `set_shmem` does.
    open spec fn set_shmem_post(
        pre: Self,
        shmem: SharedPtr,
        flags: usize,
        post: Self,
        r: SbiRet,
    ) -> bool {
        true
    }

    /// What `get_channel_ids` does.
    open spec fn get_channel_ids_post(pre: Self, start_index: u32, post: Self, r: SbiRet) -> bool {
        true
    }

    /// What `read_attributes` does.
    open spec fn read_attributes_post(
        pre: Self,
        channel_id: u32,
        base_attribute_id: u32,
        attribute_count: u32,
        output: SharedPtr,
        post: Self,
        r: SbiRet,
    ) -> bool {
        true
    }

    /// What `write_attributes` does.
    open spec fn write_attributes_post(
        pre: Self,
        channel_id: u32,
        base_attribute_id: u32,
        attribute_count: u32,
        input: SharedPtr,
        post: Self,
        r: SbiRet,
    ) -> bool {
        true
    }

    /// What `send_message_with_response` does.
    open spec fn send_message_with_response_post(
        pre: Self,
        channel_id: u32,
        message_id: u32,
        message_data_len: usize,
        post: Self,
        r: SbiRet,
    ) -> bool {
        true
    }

    /// What `send_message_without_response` does.
    open spec fn send_message_without_response_post(
        pre: Self,
        channel_id: u32,
        message_id: u32,
        message_data_len: usize,
        post: Self,
        r: SbiRet,
    ) -> bool {
        true
    }

    /// What `get_notification_events` does.
    open spec fn get_notification_events_post(pre: Self, channel_id: u32, post: Self, r: SbiRet) -> bool {
        true
    }

    /// Size of the memory that a hart must share.
    fn get_shmem_size(&mut self) -> (r: usize)
        ensures
            Self::get_shmem_size_post(*old(self), *final(self), r),
    ;

    /// Sets the memory through which messages are exchanged on the calling hart.
    fn set_shmem(&mut self, shmem: SharedPtr, flags: usize) -> (r: SbiRet)
        ensures
            Self::set_shmem_post(*old(self), shmem, flags, *final(self), r),
    ;

    /// Lists the channels in shared memory.
    fn get_channel_ids(&mut self, start_index: u32) -> (r: SbiRet)
        ensures
            Self::get_channel_ids_post(*old(self), start_index, *final(self), r),
    ;

    /// Reads attributes of a channel.
    fn read_attributes(
        &mut self,
        channel_id: u32,
        base_attribute_id: u32,
        attribute_count: u32,
        output: SharedPtr,
    ) -> (r: SbiRet)
        ensures
            Self::read_attributes_post(
                *old(self),
                channel_id,
                base_attribute_id,
                attribute_count,
                output,
                *final(self),
                r,
            ),
    ;

    /// Writes attributes of a channel.
    fn write_attributes(
        &mut self,
        channel_id: u32,
        base_attribute_id: u32,
        attribute_count: u32,
        input: SharedPtr,
    ) -> (r: SbiRet)
        ensures
            Self::write_attributes_post(
                *old(self),
                channel_id,
                base_attribute_id,
                attribute_count,
                input,
                *final(self),
                r,
            ),
    ;

    /// Sends a message on a channel and waits for the response.
    fn send_message_with_response(
        &mut self,
        channel_id: u32,
        message_id: u32,
        message_data_len: usize,
    ) -> (r: SbiRet)
        ensures
            Self::send_message_with_response_post(
                *old(self),
                channel_id,
                message_id,
                message_data_len,
                *final(self),
                r,
            ),
    ;

    /// Sends a message on a channel without waiting for a response.
    fn send_message_without_response(
        &mut self,
        channel_id: u32,
        message_id: u32,
        message_data_len: usize,
    ) -> (r: SbiRet)
        ensures
            Self::send_message_without_response_post(
                *old(self),
                channel_id,
                message_id,
                message_data_len,
                *final(self),
                r,
            ),
    ;

    /// Gets pending notifications of a channel.
    fn get_notification_events(&mut self, channel_id: u32) -> (r: SbiRet)
        ensures
            Self::get_notification_events_post(*old(self), channel_id, *final(self), r),
    ;

    /// Whether the extension is there: one if it is, zero if it is not.
    fn _rustsbi_probe(&self) -> (n: usize)
        default_ensures
            n == 1,
    {
        1
    }
}

/// A borrowed implementation does what the implementation does.
impl<T: Mpxy> Mpxy for &mut T {
    open spec fn get_shmem_size_post(pre: Self, post: Self, r: usize) -> bool {
        T::get_shmem_size_post(*pre, *post, r)
    }

    open spec fn set_shmem_post(
        pre: Self,
        shmem: SharedPtr,
        flags: usize,
        post: Self,
        r: SbiRet,
    ) -> bool {
        T::set_shmem_post(*pre, shmem, flags, *post, r)
    }

    open spec fn get_channel_ids_post(pre: Self, start_index: u32, post: Self, r: SbiRet) -> bool {
        T::get_channel_ids_post(*pre, start_index, *post, r)
    }

    open spec fn read_attributes_post(
        pre: Self,
        channel_id: u32,
        base_attribute_id: u32,
        attribute_count: u32,
        output: SharedPtr,
        post: Self,
        r: SbiRet,
    ) -> bool {
        T::read_attributes_post(
            *pre,
            channel_id,
            base_attribute_id,
            attribute_count,
            output,
            *post,
            r,
        )
    }

    open spec fn write_attributes_post(
        pre: Self,
        channel_id: u32,
        base_attribute_id: u32,
        attribute_count: u32,
        input: SharedPtr,
        post: Self,
        r: SbiRet,
    ) -> bool {
        T::write_attributes_post(
            *pre,
            channel_id,
            base_attribute_id,
            attribute_count,
            input,
            *post,
            r,
        )
    }

    open spec fn send_message_with_response_post(
        pre: Self,
        channel_id: u32,
        message_id: u32,
        message_data_len: usize,
        post: Self,
        r: SbiRet,
    ) -> bool {
        T::send_message_with_response_post(*pre, channel_id, message_id, message_data_len, *post, r)
    }

    open spec fn send_message_without_response_post(
        pre: Self,
        channel_id: u32,
        message_id: u32,
        message_data_len: usize,
        post: Self,
        r: SbiRet,
    ) -> bool {
        T::send_message_without_response_post(
            *pre,
            channel_id,
            message_id,
            message_data_len,
            *post,
            r,
        )
    }

    open spec fn get_notification_events_post(
        pre: Self,
        channel_id: u32,
        post: Self,
        r: SbiRet,
    ) -> bool {
        T::get_notification_events_post(*pre, channel_id, *post, r)
    }

    fn get_shmem_size(&mut self) -> (r: usize) {
        T::get_shmem_size(*self)
    }

    fn set_shmem(&mut self, shmem: SharedPtr, flags: usize) -> (r: SbiRet) {
        T::set_shmem(*self, shmem, flags)
    }

    fn get_channel_ids(&mut self, start_index: u32) -> (r: SbiRet) {
        T::get_channel_ids(*self, start_index)
    }

    fn read_attributes(
        &mut self,
        channel_id: u32,
        base_attribute_id: u32,
        attribute_count: u32,
        output: SharedPtr,
    ) -> (r: SbiRet) {
        T::read_attributes(*self, channel_id, base_attribute_id, attribute_count, output)
    }

    fn write_attributes(
        &mut self,
        channel_id: u32,
        base_attribute_id: u32,
        attribute_count: u32,
        input: SharedPtr,
    ) -> (r: SbiRet) {
        T::write_attributes(*self, channel_id, base_attribute_id, attribute_count, input)
    }

    fn send_message_with_response(
        &mut self,
        channel_id: u32,
        message_id: u32,
        message_data_len: usize,
    ) -> (r: SbiRet) {
        T::send_message_with_response(*self, channel_id, message_id, message_data_len)
    }

    fn send_message_without_response(
        &mut self,
        channel_id: u32,
        message_id: u32,
        message_data_len: usize,
    ) -> (r: SbiRet) {
        T::send_message_without_response(*self, channel_id, message_id, message_data_len)
    }

    fn get_notification_events(&mut self, channel_id: u32) -> (r: SbiRet) {
        T::get_notification_events(*self, channel_id)
    }
}

/// An implementation that may be missing: without one, every request is answered as not supported
/// and the extension probes as not there.
impl<T: Mpxy> Mpxy for Option<T> {
    open spec fn get_shmem_size_post(pre: Self, post: Self, r: usize) -> bool {
        match (pre, post) {
            (Some(before), Some(after)) => T::get_shmem_size_post(before, after, r),
            (None, None) => r == 0,
            _ => false,
        }
    }

    open spec fn set_shmem_post(
        pre: Self,
        shmem: SharedPtr,
        flags: usize,
        post: Self,
        r: SbiRet,
    ) -> bool {
        match (pre, post) {
            (Some(before), Some(after)) => T::set_shmem_post(before, shmem, flags, after, r),
            (None, None) => r == SbiRet::err(SbiError::NotSupported),
            _ => false,
        }
    }

    open spec fn get_channel_ids_post(pre: Self, start_index: u32, post: Self, r: SbiRet) -> bool {
        match (pre, post) {
            (Some(before), Some(after)) => T::get_channel_ids_post(before, start_index, after, r),
            (None, None) => r == SbiRet::err(SbiError::NotSupported),
            _ => false,
        }
    }

    open spec fn read_attributes_post(
        pre: Self,
        channel_id: u32,
        base_attribute_id: u32,
        attribute_count: u32,
        output: SharedPtr,
        post: Self,
        r: SbiRet,
    ) -> bool {
        match (pre, post) {
            (Some(before), Some(after)) => T::read_attributes_post(
                before,
                channel_id,
                base_attribute_id,
                attribute_count,
                output,
                after,
                r,
            ),
            (None, None) => r == SbiRet::err(SbiError::NotSupported),
            _ => false,
        }
    }

    open spec fn write_attributes_post(
        pre: Self,
        channel_id: u32,
        base_attribute_id: u32,
        attribute_count: u32,
        input: SharedPtr,
        post: Self,
        r: SbiRet,
    ) -> bool {
        match (pre, post) {
            (Some(before), Some(after)) => T::write_attributes_post(
                before,
                channel_id,
                base_attribute_id,
                attribute_count,
                input,
                after,
                r,
            ),
            (None, None) => r == SbiRet::err(SbiError::NotSupported),
            _ => false,
        }
    }

    open spec fn send_message_with_response_post(
        pre: Self,
        channel_id: u32,
        message_id: u32,
        message_data_len: usize,
        post: Self,
        r: SbiRet,
    ) -> bool {
        match (pre, post) {
            (Some(before), Some(after)) => T::send_message_with_response_post(
                before,
                channel_id,
                message_id,
                message_data_len,
                after,
                r,
            ),
            (None, None) => r == SbiRet::err(SbiError::NotSupported),
            _ => false,
        }
    }

    open spec fn send_message_without_response_post(
        pre: Self,
        channel_id: u32,
        message_id: u32,
        message_data_len: usize,
        post: Self,
        r: SbiRet,
    ) -> bool {
        match (pre, post) {
            (Some(before), Some(after)) => T::send_message_without_response_post(
                before,
                channel_id,
                message_id,
                message_data_len,
                after,
                r,
            ),
            (None, None) => r == SbiRet::err(SbiError::NotSupported),
            _ => false,
        }
    }

    open spec fn get_notification_events_post(
        pre: Self,
        channel_id: u32,
        post: Self,
        r: SbiRet,
    ) -> bool {
        match (pre, post) {
            (Some(before), Some(after)) => T::get_notification_events_post(
                before,
                channel_id,
                after,
                r,
            ),
            (None, None) => r == SbiRet::err(SbiError::NotSupported),
            _ => false,
        }
    }

    fn get_shmem_size(&mut self) -> (r: usize) {
        match self {
            Some(inner) => T::get_shmem_size(inner),
            None => 0,
        }
    }

    fn set_shmem(&mut self, shmem: SharedPtr, flags: usize) -> (r: SbiRet) {
        match self {
            Some(inner) => T::set_shmem(inner, shmem, flags),
            None => SbiRet::not_supported(),
        }
    }

    fn get_channel_ids(&mut self, start_index: u32) -> (r: SbiRet) {
        match self {
            Some(inner) => T::get_channel_ids(inner, start_index),
            None => SbiRet::not_supported(),
        }
    }

    fn read_attributes(
        &mut self,
        channel_id: u32,
        base_attribute_id: u32,
        attribute_count: u32,
        output: SharedPtr,
    ) -> (r: SbiRet) {
        match self {
            Some(inner) => T::read_attributes(
                inner,
                channel_id,
                base_attribute_id,
                attribute_count,
                output,
            ),
            None => SbiRet::not_supported(),
        }
    }

    fn write_attributes(
        &mut self,
        channel_id: u32,
        base_attribute_id: u32,
        attribute_count: u32,
        input: SharedPtr,
    ) -> (r: SbiRet) {
        match self {
            Some(inner) => T::write_attributes(
                inner,
                channel_id,
                base_attribute_id,
                attribute_count,
                input,
            ),
            None => SbiRet::not_supported(),
        }
    }

    fn send_message_with_response(
        &mut self,
        channel_id: u32,
        message_id: u32,
        message_data_len: usize,
    ) -> (r: SbiRet) {
        match self {
            Some(inner) => T::send_message_with_response(
                inner,
                channel_id,
                message_id,
                message_data_len,
            ),
            None => SbiRet::not_supported(),
        }
    }

    fn send_message_without_response(
        &mut self,
        channel_id: u32,
        message_id: u32,
        message_data_len: usize,
    ) -> (r: SbiRet) {
        match self {
            Some(inner) => T::send_message_without_response(
                inner,
                channel_id,
                message_id,
                message_data_len,
            ),
            None => SbiRet::not_supported(),
        }
    }

    fn get_notification_events(&mut self, channel_id: u32) -> (r: SbiRet) {
        match self {
            Some(inner) => T::get_notification_events(inner, channel_id),
            None => SbiRet::not_supported(),
        }
    }

    fn _rustsbi_probe(&self) -> (n: usize)
        ensures
            n == if self is Some {
                1usize
            } else {
                0
            },
    {
        match self {
            Some(_) => 1,
            None => 0,
        }
    }
}

/// Without an implementation no memory can be shared, and every other request is answered as not
/// supported.
pub proof fn mpxy_missing<T: Mpxy>(
    shmem: SharedPtr,
    flags: usize,
    channel_id: u32,
    first: u32,
    count: u32,
    n: usize,
    r: SbiRet,
)
    ensures
        Option::<T>::get_shmem_size_post(None, None, n) ==> n == 0,
        Option::<T>::set_shmem_post(None, shmem, flags, None, r)
            || Option::<T>::get_channel_ids_post(None, first, None, r)
            || Option::<T>::read_attributes_post(None, channel_id, first, count, shmem, None, r)
            || Option::<T>::write_attributes_post(None, channel_id, first, count, shmem, None, r)
            || Option::<T>::send_message_with_response_post(None, channel_id, first, n, None, r)
            || Option::<T>::send_message_without_response_post(None, channel_id, first, n, None, r)
            || Option::<T>::get_notification_events_post(None, channel_id, None, r) ==> r.error + 2
            == usize::MAX + 1 && r.value == 0,
{
}

/// A request to an implementation that is there, or that is borrowed, is a request to the
/// implementation, with the same arguments.
pub proof fn mpxy_forwarded<T: Mpxy>(
    a: T,
    b: T,
    shmem: SharedPtr,
    flags: usize,
    channel_id: u32,
    first: u32,
    count: u32,
    n: usize,
    r: SbiRet,
)
    ensures
        Option::<T>::get_shmem_size_post(Some(a), Some(b), n) <==> T::get_shmem_size_post(a, b, n),
        forall|p: &mut T, q: &mut T|
            (#[trigger] <&mut T as Mpxy>::get_shmem_size_post(p, q, n)) <==> T::get_shmem_size_post(*p, *q, n),
        Option::<T>::set_shmem_post(Some(a), shmem, flags, Some(b), r) <==> T::set_shmem_post(a, shmem, flags, b, r),
        forall|p: &mut T, q: &mut T|
            (#[trigger] <&mut T as Mpxy>::set_shmem_post(p, shmem, flags, q, r)) <==> T::set_shmem_post(*p, shmem, flags, *q, r),
        Option::<T>::get_channel_ids_post(Some(a), first, Some(b), r) <==> T::get_channel_ids_post(a, first, b, r),
        forall|p: &mut T, q: &mut T|
            (#[trigger] <&mut T as Mpxy>::get_channel_ids_post(p, first, q, r)) <==> T::get_channel_ids_post(*p, first, *q, r),
        Option::<T>::read_attributes_post(
            Some(a),
            channel_id,
            first,
            count,
            shmem,
            Some(b),
            r,
        ) <==> T::read_attributes_post(a, channel_id, first, count, shmem, b, r),
        forall|p: &mut T, q: &mut T|
            (#[trigger] <&mut T as Mpxy>::read_attributes_post(
                p,
                channel_id,
                first,
                count,
                shmem,
                q,
                r,
            )) <==> T::read_attributes_post(*p, channel_id, first, count, shmem, *q, r),
        Option::<T>::write_attributes_post(
            Some(a),
            channel_id,
            first,
            count,
            shmem,
            Some(b),
            r,
        ) <==> T::write_attributes_post(a, channel_id, first, count, shmem, b, r),
        forall|p: &mut T, q: &mut T|
            (#[trigger] <&mut T as Mpxy>::write_attributes_post(
                p,
                channel_id,
                first,
                count,
                shmem,
                q,
                r,
            )) <==> T::write_attributes_post(*p, channel_id, first, count, shmem, *q, r),
        Option::<T>::send_message_with_response_post(
            Some(a),
            channel_id,
            first,
            n,
            Some(b),
            r,
        ) <==> T::send_message_with_response_post(a, channel_id, first, n, b, r),
        forall|p: &mut T, q: &mut T|
            (#[trigger] <&mut T as Mpxy>::send_message_with_response_post(
                p,
                channel_id,
                first,
                n,
                q,
                r,
            )) <==> T::send_message_with_response_post(*p, channel_id, first, n, *q, r),
        Option::<T>::send_message_without_response_post(
            Some(a),
            channel_id,
            first,
            n,
            Some(b),
            r,
        ) <==> T::send_message_without_response_post(a, channel_id, first, n, b, r),
        forall|p: &mut T, q: &mut T|
            (#[trigger] <&mut T as Mpxy>::send_message_without_response_post(
                p,
                channel_id,
                first,
                n,
                q,
                r,
            )) <==> T::send_message_without_response_post(*p, channel_id, first, n, *q, r),
        Option::<T>::get_notification_events_post(Some(a), channel_id, Some(b), r) <==> T::get_notification_events_post(a, channel_id, b, r),
        forall|p: &mut T, q: &mut T|
            (#[trigger] <&mut T as Mpxy>::get_notification_events_post(p, channel_id, q, r)) <==> T::get_notification_events_post(*p, channel_id, *q, r),
{
}

} // verus!
