//! Debug triggers.
//!
//! The hart's triggers are counted, but not configured: requests to do so are answered as not
//! supported.
use vstd::prelude::*;

use crate::binary::{SbiError, SbiRet, SharedPtr, TriggerMask};
use crate::ext::dbtr::Dbtr;

verus! {

/// Greatest index of a trigger that is probed.
pub const SBI_DBTR_TRIG_MAX: usize = 255;

/// Cached count that stands for "not probed yet".
pub const UNPROBED: usize = usize::MAX;

/// What the trigger registers showed after an index had been written to the select register.
#[derive(Clone, Copy, PartialEq, Eq, Structural, Debug)]
pub struct TriggerSample {
    /// What the select register read back.
    pub tselect: usize,
    /// What the first data register of the selected trigger held.
    pub tdata1: usize,
}

impl TriggerSample {
    /// The trigger with this index could be selected.
    pub open spec fn selects(self, index: int) -> bool {
        self.tselect == index
    }

    /// The trigger is there: its type is not zero.
    pub open spec fn present(self) -> bool {
        self.tdata1 / 0x1000_0000 % 16 != 0
    }

    /// Whether the trigger with this index could be selected.
    pub fn is_selected(&self, index: usize) -> (b: bool)
        ensures
            b == self.selects(index as int),
    {
        self.tselect == index
    }
}

/// How many triggers there are among the samples from the `from`-th on, up to the first index that
/// could not be selected.
pub open spec fn triggers_from(samples: Seq<TriggerSample>, from: int) -> int
    decreases SBI_DBTR_TRIG_MAX + 1 - from,
{
    if from > SBI_DBTR_TRIG_MAX || from < 0 || samples.len() <= from || !samples[from].selects(from) {
        0
    } else {
        triggers_from(samples, from + 1) + if samples[from].present() {
            1int
        } else {
            0
        }
    }
}

/// The count is at most the number of samples that are looked at.
proof fn triggers_bounded(samples: Seq<TriggerSample>, from: int)
    requires
        0 <= from <= SBI_DBTR_TRIG_MAX + 1,
    ensures
        0 <= triggers_from(samples, from) <= SBI_DBTR_TRIG_MAX + 1 - from,
    decreases SBI_DBTR_TRIG_MAX + 1 - from,
{
    if from <= SBI_DBTR_TRIG_MAX {
        triggers_bounded(samples, from + 1);
    }
}

/// Counts the triggers of a hart from what its registers showed for the indices in turn.
///
/// The walk ends at the first index that does not read back; a trigger counts only if its type is
/// not zero.
pub fn probe_triggers(samples: &[TriggerSample]) -> (count: usize)
    ensures
        count == triggers_from(samples@, 0),
        count <= SBI_DBTR_TRIG_MAX + 1,
{
    proof {
        triggers_bounded(samples@, 0);
    }
    let mut count: usize = 0;
    let mut i: usize = 0;
    while i <= SBI_DBTR_TRIG_MAX && i < samples.len()
        invariant
            i <= SBI_DBTR_TRIG_MAX + 1,
            count <= i,
            triggers_from(samples@, 0) == count + triggers_from(samples@, i as int),
        decreases SBI_DBTR_TRIG_MAX + 1 - i,
    {
        let sample = samples[i];
        if !sample.is_selected(i) {
            return count;
        }
        let tdata1: usize = sample.tdata1;
        assert((tdata1 >> 28) & 0xf == tdata1 / 0x1000_0000 % 16) by (bit_vector);
        if ((tdata1 >> 28) & 0xf) != 0 {
            count += 1;
        }
        i += 1;
    }
    count
}

/// State of the extension.
pub struct Triggers {
    /// What the hart's registers show.
    pub samples: Seq<TriggerSample>,
    /// The count, once it has been probed.
    pub cached: usize,
    /// Address of the shared memory, or zero.
    pub shmem: usize,
}

impl Triggers {
    /// A cached count is the count.
    pub open spec fn wf(self) -> bool {
        self.cached == UNPROBED || self.cached == triggers_from(self.samples, 0)
    }

    /// The state after the count has been probed, at most once.
    pub open spec fn probed(self) -> Triggers {
        Triggers {
            cached: if self.cached == UNPROBED {
                triggers_from(self.samples, 0) as usize
            } else {
                self.cached
            },
            ..self
        }
    }

    /// Probing again changes nothing, and a sound cache holds the count.
    pub proof fn probed_once(self)
        requires
            self.wf(),
        ensures
            self.probed().wf(),
            self.probed().cached == triggers_from(self.samples, 0),
            self.probed().probed() == self.probed(),
    {
        triggers_bounded(self.samples, 0);
    }
}

/// Debug triggers extension.
pub struct SbiDbtr {
    samples: Vec<TriggerSample>,
    trig_max: usize,
    shmem: usize,
}

impl View for SbiDbtr {
    type V = Triggers;

    closed spec fn view(&self) -> Triggers {
        Triggers { samples: self.samples@, cached: self.trig_max, shmem: self.shmem }
    }
}

impl SbiDbtr {
    /// Creates the extension for a hart whose registers show these samples.
    pub fn new(samples: Vec<TriggerSample>) -> (d: SbiDbtr)
        ensures
            d@ == (Triggers { samples: samples@, cached: UNPROBED, shmem: 0 }),
    {
        SbiDbtr { samples, trig_max: UNPROBED, shmem: 0 }
    }

    /// Number of triggers; probed the first time and cached.
    fn num_triggers_probed(&mut self) -> (n: usize)
        ensures
            final(self)@ == old(self)@.probed(),
            n == final(self)@.cached,
    {
        if self.trig_max != UNPROBED {
            return self.trig_max;
        }
        let probed: usize = probe_triggers(self.samples.as_slice());
        self.trig_max = probed;
        probed
    }
}

impl Dbtr for SbiDbtr {
    open spec fn num_triggers_post(pre: Self, trig_tdata1: usize, post: Self, r: usize) -> bool {
        if trig_tdata1 == 0 {
            post@ == pre@.probed() && r == post@.cached
        } else {
            post@ == pre@ && r == 0
        }
    }

    open spec fn set_shmem_post(
        pre: Self,
        shmem: SharedPtr,
        flags: usize,
        post: Self,
        r: SbiRet,
    ) -> bool {
        let probed = pre@.probed();
        if probed.cached == 0 {
            post@ == probed && r == SbiRet::err(SbiError::NotSupported)
        } else if shmem.all_ones() {
            post@ == (Triggers { shmem: 0, ..probed }) && r == SbiRet::ok(0)
        } else {
            post@ == (Triggers { shmem: shmem.phys_addr_lo, ..probed }) && r == SbiRet::ok(0)
        }
    }

    open spec fn read_triggers_post(
        pre: Self,
        trig_idx_base: usize,
        trig_count: usize,
        post: Self,
        r: SbiRet,
    ) -> bool {
        post@ == pre@ && r == SbiRet::err(SbiError::NotSupported)
    }

    open spec fn install_triggers_post(
        pre: Self,
        trig_count: usize,
        post: Self,
        r: SbiRet,
    ) -> bool {
        post@ == pre@ && r == SbiRet::err(SbiError::NotSupported)
    }

    open spec fn update_triggers_post(pre: Self, trig_count: usize, post: Self, r: SbiRet) -> bool {
        post@ == pre@ && r == SbiRet::err(SbiError::NotSupported)
    }

    open spec fn uninstall_triggers_post(
        pre: Self,
        triggers: TriggerMask,
        post: Self,
        r: SbiRet,
    ) -> bool {
        post@ == pre@ && r == SbiRet::err(SbiError::NotSupported)
    }

    open spec fn enable_triggers_post(
        pre: Self,
        triggers: TriggerMask,
        post: Self,
        r: SbiRet,
    ) -> bool {
        post@ == pre@ && r == SbiRet::err(SbiError::NotSupported)
    }

    open spec fn disable_triggers_post(
        pre: Self,
        triggers: TriggerMask,
        post: Self,
        r: SbiRet,
    ) -> bool {
        post@ == pre@ && r == SbiRet::err(SbiError::NotSupported)
    }

    fn num_triggers(&mut self, trig_tdata1: usize) -> (r: usize) {
        if trig_tdata1 == 0 {
            self.num_triggers_probed()
        } else {
            0
        }
    }

    fn set_shmem(&mut self, shmem: SharedPtr, flags: usize) -> (r: SbiRet) {
        if self.num_triggers_probed() == 0 {
            return SbiRet::not_supported();
        }
        if shmem.is_all_ones() {
            self.shmem = 0;
        } else {
            self.shmem = shmem.phys_addr_lo;
        }
        SbiRet::success(0)
    }

    fn read_triggers(&mut self, trig_idx_base: usize, trig_count: usize) -> (r: SbiRet) {
        SbiRet::not_supported()
    }

    fn install_triggers(&mut self, trig_count: usize) -> (r: SbiRet) {
        SbiRet::not_supported()
    }

    fn update_triggers(&mut self, trig_count: usize) -> (r: SbiRet) {
        SbiRet::not_supported()
    }

    fn uninstall_triggers(&mut self, triggers: TriggerMask) -> (r: SbiRet) {
        SbiRet::not_supported()
    }

    fn enable_triggers(&mut self, triggers: TriggerMask) -> (r: SbiRet) {
        SbiRet::not_supported()
    }

    fn disable_triggers(&mut self, triggers: TriggerMask) -> (r: SbiRet) {
        SbiRet::not_supported()
    }
}

impl TriggerSample {
    /// A trigger is there if the four bits of its type, from bit 28 on, are not all clear.
    pub proof fn type_bits(self)
        ensures
            self.present() <==> self.tdata1 / 0x1000_0000 % 16 != 0,
            self.selects(self.tselect as int),
            forall|i: int| i != self.tselect ==> !self.selects(i),
    {
    }
}

/// The triggers that are counted are those with a type among the indices before the first that
/// cannot be selected, of which 256 are tried at most.
pub proof fn triggers_counted(samples: Seq<TriggerSample>, n: int)
    requires
        0 <= n <= samples.len(),
        n <= 256,
        forall|i: int| 0 <= i < n ==> (#[trigger] samples[i]).tselect == i,
        n == 256 || n == samples.len() || samples[n].tselect != n,
    ensures
        triggers_from(samples, 0) == samples.take(n).filter(
            |s: TriggerSample| s.tdata1 / 0x1000_0000 % 16 != 0,
        ).len(),
{
    counted_from(samples, n, 0);
    assert(samples.take(n) =~= samples.subrange(0, n));
}

/// The count from an index on.
proof fn counted_from(samples: Seq<TriggerSample>, n: int, from: int)
    requires
        0 <= from <= n <= samples.len(),
        n <= 256,
        forall|i: int| 0 <= i < n ==> (#[trigger] samples[i]).tselect == i,
        n == 256 || n == samples.len() || samples[n].tselect != n,
    ensures
        triggers_from(samples, from) == samples.subrange(from, n).filter(
            |s: TriggerSample| s.tdata1 / 0x1000_0000 % 16 != 0,
        ).len(),
    decreases n - from,
{
    let has_type = |s: TriggerSample| s.tdata1 / 0x1000_0000 % 16 != 0;
    let part = samples.subrange(from, n);
    if from < n {
        counted_from(samples, n, from + 1);
        assert(part =~= seq![samples[from]] + samples.subrange(from + 1, n));
        let rest = samples.subrange(from + 1, n);
        Seq::filter_distributes_over_add(seq![samples[from]], rest, has_type);
        reveal_with_fuel(Seq::filter, 2);
        assert(seq![samples[from]].drop_last() =~= Seq::empty());
    } else {
        reveal_with_fuel(Seq::filter, 1);
        assert(part =~= Seq::empty());
    }
}

/// How the extension answers: the number of triggers when it is asked for all, and shared memory
/// only where there is a trigger. What was recorded of shared memory changes only when it is set.
pub proof fn triggers_answered(
    pre: SbiDbtr,
    trig_tdata1: usize,
    shmem: SharedPtr,
    flags: usize,
    post: SbiDbtr,
    n: usize,
    r: SbiRet,
)
    requires
        pre@.wf(),
    ensures
        SbiDbtr::num_triggers_post(pre, trig_tdata1, post, n) ==> {
            &&& trig_tdata1 == 0 ==> n == triggers_from(pre@.samples, 0)
            &&& trig_tdata1 != 0 ==> n == 0
            &&& post@.shmem == pre@.shmem
            &&& post@.samples == pre@.samples
        },
        SbiDbtr::set_shmem_post(pre, shmem, flags, post, r) ==> {
            let none = triggers_from(pre@.samples, 0) == 0;
            let off = shmem.phys_addr_lo == usize::MAX && shmem.phys_addr_hi == usize::MAX;
            &&& post@.samples == pre@.samples
            &&& none ==> r == SbiRet::err(SbiError::NotSupported) && post@.shmem == pre@.shmem
            &&& !none ==> r == SbiRet::ok(0)
            &&& !none && off ==> post@.shmem == 0
            &&& !none && !off ==> post@.shmem == shmem.phys_addr_lo
        },
{
    pre@.probed_once();
}

} // verus!
