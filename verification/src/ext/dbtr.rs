//! Debug triggers extension: lets the supervisor use the hart's debug triggers.
use vstd::prelude::*;

use crate::binary::{SbiError, SbiRet, SharedPtr, TriggerMask};

verus! {

/// Debug triggers extension: lets the supervisor use the hart's debug triggers.
///
/// What each function does is up to the implementation, which states it as a relation between the
/// state before, the arguments, the state afterwards and the result. One that states nothing
/// promises nothing.
pub trait Dbtr: Sized {
    /// What `num_triggers` does.
    open spec fn num_triggers_post(pre: Self, trig_tdata1: usize, post: Self, r: usize) -> bool {
        true
    }

    /// What `set_shmem` does.
    open spec fn set_shmem_post(
        pre: Self,
        shmem: SharedPtr,
        flags: usize,
        post: Self,
        r: SbiRet,
    ) -> bool {
        true
    }

    /// What `read_triggers` does.
    open spec fn read_triggers_post(
        pre: Self,
        trig_idx_base: usize,
        trig_count: usize,
        post: Self,
        r: SbiRet,
    ) -> bool {
        true
    }

    /// What `install_triggers` does.
    open spec fn install_triggers_post(pre: Self, trig_count: usize, post: Self, r: SbiRet) -> bool {
        true
    }

    /// What `update_triggers` does.
    open spec fn update_triggers_post(pre: Self, trig_count: usize, post: Self, r: SbiRet) -> bool {
        true
    }

    /// What `uninstall_triggers` does.
    open spec fn uninstall_triggers_post(
        pre: Self,
        triggers: TriggerMask,
        post: Self,
        r: SbiRet,
    ) -> bool {
        true
    }

    /// What `enable_triggers` does.
    open spec fn enable_triggers_post(pre: Self, triggers: TriggerMask, post: Self, r: SbiRet) -> bool {
        true
    }

    /// What `disable_triggers` does.
    open spec fn disable_triggers_post(pre: Self, triggers: TriggerMask, post: Self, r: SbiRet) -> bool {
        true
    }

    /// Number of debug triggers of the calling hart that support the configuration `trig_tdata1`;
    /// of all of them if it is zero.
    fn num_triggers(&mut self, trig_tdata1: usize) -> (r: usize)
        ensures
            Self::num_triggers_post(*old(self), trig_tdata1, *final(self), r),
    ;

    /// Sets the memory through which triggers are configured; a pointer of all ones switches it
    /// off.
    fn set_shmem(&mut self, shmem: SharedPtr, flags: usize) -> (r: SbiRet)
        ensures
            Self::set_shmem_post(*old(self), shmem, flags, *final(self), r),
    ;

    /// Reads the state of a range of triggers into shared memory.
    fn read_triggers(&mut self, trig_idx_base: usize, trig_count: usize) -> (r: SbiRet)
        ensures
            Self::read_triggers_post(*old(self), trig_idx_base, trig_count, *final(self), r),
    ;

    /// Installs triggers from an array of configurations in shared memory.
    fn install_triggers(&mut self, trig_count: usize) -> (r: SbiRet)
        ensures
            Self::install_triggers_post(*old(self), trig_count, *final(self), r),
    ;

    /// Updates installed triggers from an array of configurations in shared memory.
    fn update_triggers(&mut self, trig_count: usize) -> (r: SbiRet)
        ensures
            Self::update_triggers_post(*old(self), trig_count, *final(self), r),
    ;

    /// Uninstalls a set of triggers.
    fn uninstall_triggers(&mut self, triggers: TriggerMask) -> (r: SbiRet)
        ensures
            Self::uninstall_triggers_post(*old(self), triggers, *final(self), r),
    ;

    /// Enables a set of triggers.
    fn enable_triggers(&mut self, triggers: TriggerMask) -> (r: SbiRet)
        ensures
            Self::enable_triggers_post(*old(self), triggers, *final(self), r),
    ;

    /// Disables a set of triggers.
    fn disable_triggers(&mut self, triggers: TriggerMask) -> (r: SbiRet)
        ensures
            Self::disable_triggers_post(*old(self), triggers, *final(self), r),
    ;

    /// Whether the extension is there: one if it is, zero if it is not.
    fn _rustsbi_probe(&self) -> (n: usize)
        default_ensures
            n == 1,
    {
        1
    }
}

/// A borrowed implementation does what the implementation does.
impl<T: Dbtr> Dbtr for &mut T {
    open spec fn num_triggers_post(pre: Self, trig_tdata1: usize, post: Self, r: usize) -> bool {
        T::num_triggers_post(*pre, trig_tdata1, *post, r)
    }

    open spec fn set_shmem_post(
        pre: Self,
        shmem: SharedPtr,
        flags: usize,
        post: Self,
        r: SbiRet,
    ) -> bool {
        T::set_shmem_post(*pre, shmem, flags, *post, r)
    }

    open spec fn read_triggers_post(
        pre: Self,
        trig_idx_base: usize,
        trig_count: usize,
        post: Self,
        r: SbiRet,
    ) -> bool {
        T::read_triggers_post(*pre, trig_idx_base, trig_count, *post, r)
    }

    open spec fn install_triggers_post(
        pre: Self,
        trig_count: usize,
        post: Self,
        r: SbiRet,
    ) -> bool {
        T::install_triggers_post(*pre, trig_count, *post, r)
    }

    open spec fn update_triggers_post(pre: Self, trig_count: usize, post: Self, r: SbiRet) -> bool {
        T::update_triggers_post(*pre, trig_count, *post, r)
    }

    open spec fn uninstall_triggers_post(
        pre: Self,
        triggers: TriggerMask,
        post: Self,
        r: SbiRet,
    ) -> bool {
        T::uninstall_triggers_post(*pre, triggers, *post, r)
    }

    open spec fn enable_triggers_post(
        pre: Self,
        triggers: TriggerMask,
        post: Self,
        r: SbiRet,
    ) -> bool {
        T::enable_triggers_post(*pre, triggers, *post, r)
    }

    open spec fn disable_triggers_post(
        pre: Self,
        triggers: TriggerMask,
        post: Self,
        r: SbiRet,
    ) -> bool {
        T::disable_triggers_post(*pre, triggers, *post, r)
    }

    fn num_triggers(&mut self, trig_tdata1: usize) -> (r: usize) {
        T::num_triggers(*self, trig_tdata1)
    }

    fn set_shmem(&mut self, shmem: SharedPtr, flags: usize) -> (r: SbiRet) {
        T::set_shmem(*self, shmem, flags)
    }

    fn read_triggers(&mut self, trig_idx_base: usize, trig_count: usize) -> (r: SbiRet) {
        T::read_triggers(*self, trig_idx_base, trig_count)
    }

    fn install_triggers(&mut self, trig_count: usize) -> (r: SbiRet) {
        T::install_triggers(*self, trig_count)
    }

    fn update_triggers(&mut self, trig_count: usize) -> (r: SbiRet) {
        T::update_triggers(*self, trig_count)
    }

    fn uninstall_triggers(&mut self, triggers: TriggerMask) -> (r: SbiRet) {
        T::uninstall_triggers(*self, triggers)
    }

    fn enable_triggers(&mut self, triggers: TriggerMask) -> (r: SbiRet) {
        T::enable_triggers(*self, triggers)
    }

    fn disable_triggers(&mut self, triggers: TriggerMask) -> (r: SbiRet) {
        T::disable_triggers(*self, triggers)
    }
}

/// An implementation that may be missing: without one, every request is answered as not supported
/// and the extension probes as not there.
impl<T: Dbtr> Dbtr for Option<T> {
    open spec fn num_triggers_post(pre: Self, trig_tdata1: usize, post: Self, r: usize) -> bool {
        match (pre, post) {
            (Some(before), Some(after)) => T::num_triggers_post(before, trig_tdata1, after, r),
            (None, None) => r == 0,
            _ => false,
        }
    }

    open spec fn set_shmem_post(
        pre: Self,
        shmem: SharedPtr,
        flags: usize,
        post: Self,
        r: SbiRet,
    ) -> bool {
        match (pre, post) {
            (Some(before), Some(after)) => T::set_shmem_post(before, shmem, flags, after, r),
            (None, None) => r == SbiRet::err(SbiError::NotSupported),
            _ => false,
        }
    }

    open spec fn read_triggers_post(
        pre: Self,
        trig_idx_base: usize,
        trig_count: usize,
        post: Self,
        r: SbiRet,
    ) -> bool {
        match (pre, post) {
            (Some(before), Some(after)) => T::read_triggers_post(
                before,
                trig_idx_base,
                trig_count,
                after,
                r,
            ),
            (None, None) => r == SbiRet::err(SbiError::NotSupported),
            _ => false,
        }
    }

    open spec fn install_triggers_post(
        pre: Self,
        trig_count: usize,
        post: Self,
        r: SbiRet,
    ) -> bool {
        match (pre, post) {
            (Some(before), Some(after)) => T::install_triggers_post(before, trig_count, after, r),
            (None, None) => r == SbiRet::err(SbiError::NotSupported),
            _ => false,
        }
    }

    open spec fn update_triggers_post(pre: Self, trig_count: usize, post: Self, r: SbiRet) -> bool {
        match (pre, post) {
            (Some(before), Some(after)) => T::update_triggers_post(before, trig_count, after, r),
            (None, None) => r == SbiRet::err(SbiError::NotSupported),
            _ => false,
        }
    }

    open spec fn uninstall_triggers_post(
        pre: Self,
        triggers: TriggerMask,
        post: Self,
        r: SbiRet,
    ) -> bool {
        match (pre, post) {
            (Some(before), Some(after)) => T::uninstall_triggers_post(before, triggers, after, r),
            (None, None) => r == SbiRet::err(SbiError::NotSupported),
            _ => false,
        }
    }

    open spec fn enable_triggers_post(
        pre: Self,
        triggers: TriggerMask,
        post: Self,
        r: SbiRet,
    ) -> bool {
        match (pre, post) {
            (Some(before), Some(after)) => T::enable_triggers_post(before, triggers, after, r),
            (None, None) => r == SbiRet::err(SbiError::NotSupported),
            _ => false,
        }
    }

    open spec fn disable_triggers_post(
        pre: Self,
        triggers: TriggerMask,
        post: Self,
        r: SbiRet,
    ) -> bool {
        match (pre, post) {
            (Some(before), Some(after)) => T::disable_triggers_post(before, triggers, after, r),
            (None, None) => r == SbiRet::err(SbiError::NotSupported),
            _ => false,
        }
    }

    fn num_triggers(&mut self, trig_tdata1: usize) -> (r: usize) {
        match self {
            Some(inner) => T::num_triggers(inner, trig_tdata1),
            None => 0,
        }
    }

    fn set_shmem(&mut self, shmem: SharedPtr, flags: usize) -> (r: SbiRet) {
        match self {
            Some(inner) => T::set_shmem(inner, shmem, flags),
            None => SbiRet::not_supported(),
        }
    }

    fn read_triggers(&mut self, trig_idx_base: usize, trig_count: usize) -> (r: SbiRet) {
        match self {
            Some(inner) => T::read_triggers(inner, trig_idx_base, trig_count),
            None => SbiRet::not_supported(),
        }
    }

    fn install_triggers(&mut self, trig_count: usize) -> (r: SbiRet) {
        match self {
            Some(inner) => T::install_triggers(inner, trig_count),
            None => SbiRet::not_supported(),
        }
    }

    fn update_triggers(&mut self, trig_count: usize) -> (r: SbiRet) {
        match self {
            Some(inner) => T::update_triggers(inner, trig_count),
            None => SbiRet::not_supported(),
        }
    }

    fn uninstall_triggers(&mut self, triggers: TriggerMask) -> (r: SbiRet) {
        match self {
            Some(inner) => T::uninstall_triggers(inner, triggers),
            None => SbiRet::not_supported(),
        }
    }

    fn enable_triggers(&mut self, triggers: TriggerMask) -> (r: SbiRet) {
        match self {
            Some(inner) => T::enable_triggers(inner, triggers),
            None => SbiRet::not_supported(),
        }
    }

    fn disable_triggers(&mut self, triggers: TriggerMask) -> (r: SbiRet) {
        match self {
            Some(inner) => T::disable_triggers(inner, triggers),
            None => SbiRet::not_supported(),
        }
    }

    fn _rustsbi_probe(&self) -> (n: usize)
        ensures
            n == if self is Some {
                1usize
            } else {
                0
            },
    {
        match self {
            Some(_) => 1,
            None => 0,
        }
    }
}

/// Without an implementation there is no trigger, and every other request is answered as not
/// supported.
pub proof fn dbtr_missing<T: Dbtr>(
    tdata1: usize,
    count: usize,
    shmem: SharedPtr,
    triggers: TriggerMask,
    n: usize,
    r: SbiRet,
)
    ensures
        Option::<T>::num_triggers_post(None, tdata1, None, n) ==> n == 0,
        Option::<T>::set_shmem_post(None, shmem, count, None, r) || Option::<T>::read_triggers_post(
            None,
            tdata1,
            count,
            None,
            r,
        ) || Option::<T>::install_triggers_post(None, count, None, r)
            || Option::<T>::update_triggers_post(None, count, None, r)
            || Option::<T>::uninstall_triggers_post(None, triggers, None, r)
            || Option::<T>::enable_triggers_post(None, triggers, None, r)
            || Option::<T>::disable_triggers_post(None, triggers, None, r) ==> r.error + 2
            == usize::MAX + 1 && r.value == 0,
{
}

/// A request to an implementation that is there, or that is borrowed, is a request to the
/// implementation, with the same arguments.
pub proof fn dbtr_forwarded<T: Dbtr>(
    a: T,
    b: T,
    first: usize,
    count: usize,
    shmem: SharedPtr,
    flags: usize,
    triggers: TriggerMask,
    n: usize,
    r: SbiRet,
)
    ensures
        Option::<T>::num_triggers_post(Some(a), first, Some(b), n) <==> T::num_triggers_post(a, first, b, n),
        forall|p: &mut T, q: &mut T|
            (#[trigger] <&mut T as Dbtr>::num_triggers_post(p, first, q, n)) <==> T::num_triggers_post(*p, first, *q, n),
        Option::<T>::set_shmem_post(Some(a), shmem, flags, Some(b), r) <==> T::set_shmem_post(a, shmem, flags, b, r),
        forall|p: &mut T, q: &mut T|
            (#[trigger] <&mut T as Dbtr>::set_shmem_post(p, shmem, flags, q, r)) <==> T::set_shmem_post(*p, shmem, flags, *q, r),
        Option::<T>::read_triggers_post(Some(a), first, count, Some(b), r) <==> T::read_triggers_post(a, first, count, b, r),
        forall|p: &mut T, q: &mut T|
            (#[trigger] <&mut T as Dbtr>::read_triggers_post(p, first, count, q, r)) <==> T::read_triggers_post(*p, first, count, *q, r),
        Option::<T>::install_triggers_post(Some(a), count, Some(b), r) <==> T::install_triggers_post(a, count, b, r),
        forall|p: &mut T, q: &mut T|
            (#[trigger] <&mut T as Dbtr>::install_triggers_post(p, count, q, r)) <==> T::install_triggers_post(*p, count, *q, r),
        Option::<T>::update_triggers_post(Some(a), count, Some(b), r) <==> T::update_triggers_post(a, count, b, r),
        forall|p: &mut T, q: &mut T|
            (#[trigger] <&mut T as Dbtr>::update_triggers_post(p, count, q, r)) <==> T::update_triggers_post(*p, count, *q, r),
        Option::<T>::uninstall_triggers_post(Some(a), triggers, Some(b), r) <==> T::uninstall_triggers_post(a, triggers, b, r),
        forall|p: &mut T, q: &mut T|
            (#[trigger] <&mut T as Dbtr>::uninstall_triggers_post(p, triggers, q, r)) <==> T::uninstall_triggers_post(*p, triggers, *q, r),
        Option::<T>::enable_triggers_post(Some(a), triggers, Some(b), r) <==> T::enable_triggers_post(a, triggers, b, r),
        forall|p: &mut T, q: &mut T|
            (#[trigger] <&mut T as Dbtr>::enable_triggers_post(p, triggers, q, r)) <==> T::enable_triggers_post(*p, triggers, *q, r),
        Option::<T>::disable_triggers_post(Some(a), triggers, Some(b), r) <==> T::disable_triggers_post(a, triggers, b, r),
        forall|p: &mut T, q: &mut T|
            (#[trigger] <&mut T as Dbtr>::disable_triggers_post(p, triggers, q, r)) <==> T::disable_triggers_post(*p, triggers, *q, r),
{
}

} // verus!
