//! Firmware features extension: lets the supervisor configure the firmware itself.
use vstd::prelude::*;

use crate::binary::{SbiError, SbiRet};

verus! {

/// Firmware features extension: lets the supervisor configure the firmware itself.
///
/// What each function does is up to the implementation, which states it as a relation between the
/// state before, the arguments, the state afterwards and the result. One that states nothing
/// promises nothing.
pub trait Fwft: Sized {
    /// What `set` does.
    open spec fn set_post(
        pre: Self,
        feature_id: u32,
        value: usize,
        flags: usize,
        post: Self,
        r: SbiRet,
    ) -> bool {
        true
    }

    /// What `get` does.
    open spec fn get_post(pre: Self, feature_id: u32, post: Self, r: SbiRet) -> bool {
        true
    }

    /// Sets the value of a feature.
    fn set(&mut self, feature_id: u32, value: usize, flags: usize) -> (r: SbiRet)
        ensures
            Self::set_post(*old(self), feature_id, value, flags, *final(self), r),
    ;

    /// Gets the value of a feature.
    fn get(&mut self, feature_id: u32) -> (r: SbiRet)
        ensures
            Self::get_post(*old(self), feature_id, *final(self), r),
    ;

    /// Whether the extension is there: one if it is, zero if it is not.
    fn _rustsbi_probe(&self) -> (n: usize)
        default_ensures
            n == 1,
    {
        1
    }
}

/// A borrowed implementation does what the implementation does.
impl<T: Fwft> Fwft for &mut T {
    open spec fn set_post(
        pre: Self,
        feature_id: u32,
        value: usize,
        flags: usize,
        post: Self,
        r: SbiRet,
    ) -> bool {
        T::set_post(*pre, feature_id, value, flags, *post, r)
    }

    open spec fn get_post(pre: Self, feature_id: u32, post: Self, r: SbiRet) -> bool {
        T::get_post(*pre, feature_id, *post, r)
    }

    fn set(&mut self, feature_id: u32, value: usize, flags: usize) -> (r: SbiRet) {
        T::set(*self, feature_id, value, flags)
    }

    fn get(&mut self, feature_id: u32) -> (r: SbiRet) {
        T::get(*self, feature_id)
    }
}

/// An implementation that may be missing: without one, every request is answered as not supported
/// and the extension probes as not there.
impl<T: Fwft> Fwft for Option<T> {
    open spec fn set_post(
        pre: Self,
        feature_id: u32,
        value: usize,
        flags: usize,
        post: Self,
        r: SbiRet,
    ) -> bool {
        match (pre, post) {
            (Some(before), Some(after)) => T::set_post(before, feature_id, value, flags, after, r),
            (None, None) => r == SbiRet::err(SbiError::NotSupported),
            _ => false,
        }
    }

    open spec fn get_post(pre: Self, feature_id: u32, post: Self, r: SbiRet) -> bool {
        match (pre, post) {
            (Some(before), Some(after)) => T::get_post(before, feature_id, after, r),
            (None, None) => r == SbiRet::err(SbiError::NotSupported),
            _ => false,
        }
    }

    fn set(&mut self, feature_id: u32, value: usize, flags: usize) -> (r: SbiRet) {
        match self {
            Some(inner) => T::set(inner, feature_id, value, flags),
            None => SbiRet::not_supported(),
        }
    }

    fn get(&mut self, feature_id: u32) -> (r: SbiRet) {
        match self {
            Some(inner) => T::get(inner, feature_id),
            None => SbiRet::not_supported(),
        }
    }

    fn _rustsbi_probe(&self) -> (n: usize)
        ensures
            n == if self is Some {
                1usize
            } else {
                0
            },
    {
        match self {
            Some(_) => 1,
            None => 0,
        }
    }
}

/// Without an implementation every request is answered as not supported; with one, it is answered
/// by it.
pub proof fn fwft_missing<T: Fwft>(
    pre: Option<T>,
    feature_id: u32,
    value: usize,
    flags: usize,
    post: Option<T>,
    r: SbiRet,
)
    requires
        Option::<T>::set_post(pre, feature_id, value, flags, post, r) || Option::<T>::get_post(
            pre,
            feature_id,
            post,
            r,
        ),
    ensures
        pre is Some <==> post is Some,
        pre is None ==> r.error + 2 == usize::MAX + 1 && r.value == 0,
{
}

/// A request to an implementation that is there, or that is borrowed, is a request to the
/// implementation, with the same feature, value and flags.
pub proof fn fwft_forwarded<T: Fwft>(
    a: T,
    b: T,
    feature_id: u32,
    value: usize,
    flags: usize,
    r: SbiRet,
)
    ensures
        Option::<T>::set_post(Some(a), feature_id, value, flags, Some(b), r) <==> T::set_post(
            a,
            feature_id,
            value,
            flags,
            b,
            r,
        ),
        Option::<T>::get_post(Some(a), feature_id, Some(b), r) <==> T::get_post(
            a,
            feature_id,
            b,
            r,
        ),
        forall|p: &mut T, q: &mut T|
            #![trigger <&mut T as Fwft>::set_post(p, feature_id, value, flags, q, r)]
            <&mut T as Fwft>::set_post(p, feature_id, value, flags, q, r) <==> T::set_post(
                *p,
                feature_id,
                value,
                flags,
                *q,
                r,
            ),
        forall|p: &mut T, q: &mut T|
            #![trigger <&mut T as Fwft>::get_post(p, feature_id, q, r)]
            <&mut T as Fwft>::get_post(p, feature_id, q, r) <==> T::get_post(
                *p,
                feature_id,
                *q,
                r,
            ),
{
}

} // verus!
