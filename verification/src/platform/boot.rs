//! Initialization of a board.
//!
//! The boot hart finds out what the board offers, publishes it and only then releases the other
//! harts, so that a hart that sees the release sees all of it.
use vstd::prelude::*;

use crate::platform::mbox::{
    first_mbox, locate_rpmi_mailbox, MboxError, MboxLayout, MboxNode, Region,
};

verus! {

/// The system on chip that the firmware runs on.
#[derive(Clone, Copy, PartialEq, Eq, Structural, Debug)]
pub enum Soc {
    /// One without special needs.
    Generic,
    /// SpacemiT K1.
    K1,
    /// SpacemiT K3.
    K3,
}

/// Which extensions are offered to the supervisor.
#[derive(Clone, Copy, PartialEq, Eq, Structural, Debug)]
pub struct ExtensionSet {
    /// Debug console.
    pub console: bool,
    /// Interrupts between harts, and the timer.
    pub ipi: bool,
    /// Hart state management.
    pub hsm: bool,
    /// System reset.
    pub reset: bool,
    /// Remote fences.
    pub rfence: bool,
    /// System suspend.
    pub susp: bool,
    /// Performance monitoring.
    pub pmu: bool,
    /// Firmware features.
    pub fwft: bool,
    /// Debug triggers.
    pub dbtr: bool,
    /// Performance control.
    pub cppc: bool,
    /// Supervisor software events.
    pub sse: bool,
    /// Message proxy.
    pub mpxy: bool,
    /// Steal-time accounting.
    pub sta: bool,
    /// Nested acceleration.
    pub nacl: bool,
}

/// What was found out about a board.
pub struct Discovery {
    /// There is a console.
    pub console: bool,
    /// There is a device for interrupts between harts.
    pub ipi: bool,
    /// There is a way to reset the system.
    pub reset: bool,
    /// There are performance counters.
    pub pmu: bool,
    /// The nodes of the device tree, in the order in which the tree is searched.
    pub nodes: Vec<MboxNode>,
    /// The board's strings match a K3.
    pub k3_match: bool,
    /// The board's strings match a K1. Those of a K3 may match too.
    pub k1_match: bool,
}

/// A step of a board's initialization.
#[derive(Clone, Copy, PartialEq, Eq, Debug)]
pub enum InitStep {
    /// Publish the extensions.
    PublishExtensions(ExtensionSet),
    /// Hand the mailbox to the extensions that use it.
    InjectMailbox(MboxLayout),
    /// Report that there is no mailbox.
    NoMailbox(MboxError),
    /// Publish what is known of the board.
    PublishBoard,
    /// Record the system on chip.
    RecordSoc(Soc),
    /// Release the other harts.
    Release,
    /// Print what is known of the board.
    PrintBoard,
    /// Set a hart's caches up.
    ColdBoot(Soc, usize),
    /// Run the early initialization of the system on chip.
    EarlyInit(Soc),
}

/// The extensions that are offered: some need a device, hart management and what builds on it the
/// one for interrupts between harts; the others are always there.
pub open spec fn extensions_of(d: Discovery) -> ExtensionSet {
    ExtensionSet {
        console: d.console,
        ipi: d.ipi,
        hsm: d.ipi,
        reset: d.reset,
        rfence: d.ipi,
        susp: d.ipi,
        pmu: d.pmu,
        fwft: true,
        dbtr: true,
        cppc: true,
        sse: true,
        mpxy: true,
        sta: true,
        nacl: true,
    }
}

/// The system on chip: a K3 is looked for first, since its strings may match a K1 too.
pub open spec fn soc_of(k3_match: bool, k1_match: bool) -> Soc {
    if k3_match {
        Soc::K3
    } else if k1_match {
        Soc::K1
    } else {
        Soc::Generic
    }
}

/// The step that sets the mailbox up, or reports that there is none.
pub open spec fn mailbox_step(nodes: Seq<MboxNode>) -> InitStep {
    match first_mbox(nodes, 0) {
        Some(i) => match nodes[i].layout() {
            Ok(layout) => InitStep::InjectMailbox(layout),
            Err(e) => InitStep::NoMailbox(e),
        },
        None => InitStep::NoMailbox(MboxError::NotFound),
    }
}

/// The steps of a board's initialization, in order.
pub open spec fn init_steps(d: Discovery, hart: usize) -> Seq<InitStep> {
    let soc = soc_of(d.k3_match, d.k1_match);
    seq![
        InitStep::PublishExtensions(extensions_of(d)),
        mailbox_step(d.nodes@),
        InitStep::PublishBoard,
        InitStep::RecordSoc(soc),
        InitStep::Release,
        InitStep::PrintBoard,
    ] + if soc == Soc::Generic {
        seq![]
    } else {
        seq![InitStep::ColdBoot(soc, hart), InitStep::EarlyInit(soc)]
    }
}

/// Tells the system on chip by the board's strings.
pub fn detect_soc(k3_match: bool, k1_match: bool) -> (s: Soc)
    ensures
        s == soc_of(k3_match, k1_match),
{
    if k3_match {
        Soc::K3
    } else if k1_match {
        Soc::K1
    } else {
        Soc::Generic
    }
}

/// Says how a board is initialized by the boot hart.
pub fn init_board(d: &Discovery, hart: usize) -> (steps: Vec<InitStep>)
    requires
        first_mbox(d.nodes@, 0) matches Some(i) ==> d.nodes@[i].complete()
            ==> d.nodes@[i].queues_fit(),
    ensures
        steps@ == init_steps(*d, hart),
{
    let ipi = d.ipi;
    let hsm = ipi;
    let susp = hsm;
    let extensions = ExtensionSet {
        console: d.console,
        ipi,
        hsm,
        reset: d.reset,
        rfence: ipi,
        susp,
        pmu: d.pmu,
        fwft: true,
        dbtr: true,
        cppc: true,
        sse: true,
        mpxy: true,
        sta: true,
        nacl: true,
    };
    let mut steps: Vec<InitStep> = Vec::new();
    steps.push(InitStep::PublishExtensions(extensions));
    match locate_rpmi_mailbox(d.nodes.as_slice()) {
        Ok(layout) => steps.push(InitStep::InjectMailbox(layout)),
        Err(e) => steps.push(InitStep::NoMailbox(e)),
    }
    steps.push(InitStep::PublishBoard);
    let soc = detect_soc(d.k3_match, d.k1_match);
    steps.push(InitStep::RecordSoc(soc));
    steps.push(InitStep::Release);
    steps.push(InitStep::PrintBoard);
    if soc != Soc::Generic {
        steps.push(InitStep::ColdBoot(soc, hart));
        steps.push(InitStep::EarlyInit(soc));
    }
    assert(steps@ =~= init_steps(*d, hart));
    steps
}

/// The other harts are released once, and only after the extensions, the mailbox, the board and
/// the system on chip have been published.
pub proof fn release_after_publishing(d: Discovery, hart: usize)
    ensures
        ({
            let steps = init_steps(d, hart);
            &&& steps[0] == InitStep::PublishExtensions(extensions_of(d))
            &&& steps[1] == mailbox_step(d.nodes@)
            &&& steps[2] == InitStep::PublishBoard
            &&& steps[3] == InitStep::RecordSoc(soc_of(d.k3_match, d.k1_match))
            &&& forall|i: int|
                0 <= i < steps.len() ==> (#[trigger] steps[i] == InitStep::Release <==> i == 4)
        }),
{
}

/// Extensions that build on others are offered only together with them.
pub proof fn extensions_closed(d: Discovery)
    ensures
        ({
            let e = extensions_of(d);
            &&& e.susp ==> e.hsm
            &&& e.hsm ==> e.ipi
            &&& e.rfence ==> e.ipi
        }),
{
}

/// The set-up that a system on chip needs on a secondary hart, if it needs one.
pub open spec fn secondary_set_up(soc: Soc, hart: usize) -> Option<InitStep> {
    if soc == Soc::Generic {
        None
    } else {
        Some(InitStep::ColdBoot(soc, hart))
    }
}

/// The hart whose wake-up register is asserted before a started hart is signalled, if there is one.
pub open spec fn woken_first(soc: Soc, hartid: usize) -> Option<usize> {
    if soc == Soc::K3 {
        Some(hartid)
    } else {
        None
    }
}

/// The set-up that a system on chip needs on each secondary hart.
pub fn secondary_hart_init(soc: Soc, hart: usize) -> (s: Option<InitStep>)
    ensures
        s == secondary_set_up(soc, hart),
{
    match soc {
        Soc::K3 => Some(InitStep::ColdBoot(Soc::K3, hart)),
        Soc::K1 => Some(InitStep::ColdBoot(Soc::K1, hart)),
        Soc::Generic => None,
    }
}

/// The hart whose wake-up register is asserted before a started hart is signalled: on a K3 a
/// stopped hart may be powered down.
pub fn wakeup_hart(soc: Soc, hartid: usize) -> (h: Option<usize>)
    ensures
        h == woken_first(soc, hartid),
{
    match soc {
        Soc::K3 => Some(hartid),
        _ => None,
    }
}

/// Number of looks at the release flag until it is seen set, if it is among those given: a
/// secondary hart looks until then.
pub fn wait_until_ready(looks: &[bool]) -> (n: Option<usize>)
    ensures
        match n {
            Some(k) => k < looks@.len() && looks@[k as int] && forall|i: int|
                0 <= i < k ==> !looks@[i],
            None => forall|i: int| 0 <= i < looks@.len() ==> !looks@[i],
        },
{
    let mut k: usize = 0;
    while k < looks.len()
        invariant
            k <= looks@.len(),
            forall|i: int| 0 <= i < k ==> !looks@[i],
        decreases looks@.len() - k,
    {
        if looks[k] {
            return Some(k);
        }
        k += 1;
    }
    None
}

/// What is known of a board.
pub struct BoardInfo {
    /// The range of main memory, once it has been found.
    pub memory_range: Option<Region>,
}

/// The board's memory range.
pub fn memory_range(board: &BoardInfo) -> (r: Region)
    requires
        board.memory_range is Some,
    ensures
        Some(r) == board.memory_range,
{
    match board.memory_range {
        Some(r) => r,
        None => Region { start: 0, end: 0 },
    }
}

/// Which system on chip a board has: a K3 if its strings match one, whatever else they match; a K1
/// only if they do not.
pub proof fn soc_told(k3_match: bool, k1_match: bool)
    ensures
        soc_of(k3_match, k1_match) is K3 <==> k3_match,
        soc_of(k3_match, k1_match) is K1 <==> k1_match && !k3_match,
        soc_of(k3_match, k1_match) is Generic <==> !k3_match && !k1_match,
{
}

/// What an extension needs: the console, the reset and the counters each a device of their own;
/// interrupts between harts, hart management, remote fences and suspend that for interrupts between
/// harts. The others are offered on every board.
pub proof fn extensions_need_devices(d: Discovery)
    ensures
        ({
            let e = extensions_of(d);
            &&& e.console <==> d.console
            &&& e.reset <==> d.reset
            &&& e.pmu <==> d.pmu
            &&& e.ipi <==> d.ipi
            &&& e.hsm <==> d.ipi
            &&& e.rfence <==> d.ipi
            &&& e.susp <==> d.ipi
            &&& e.fwft && e.dbtr && e.cppc && e.sse && e.mpxy && e.sta && e.nacl
        }),
{
}

/// A mailbox is handed to the extensions only if the first mailbox node describes one, and it is
/// the one described; otherwise the reason is reported.
pub proof fn mailbox_from_first_node(nodes: Seq<MboxNode>, i: int)
    requires
        0 <= i < nodes.len(),
        nodes[i].is_mbox(),
        forall|j: int| 0 <= j < i ==> !(#[trigger] nodes[j]).is_mbox(),
    ensures
        mailbox_step(nodes) matches InitStep::InjectMailbox(l) ==> nodes[i].layout() == Ok::<
            MboxLayout,
            MboxError,
        >(l),
        mailbox_step(nodes) matches InitStep::NoMailbox(e) ==> nodes[i].layout() == Err::<
            MboxLayout,
            MboxError,
        >(e),
        mailbox_step(nodes) is InjectMailbox || mailbox_step(nodes) is NoMailbox,
{
    crate::platform::mbox::first_mbox_is_first(nodes, 0);
}

/// The set-up of a system on chip follows the release of the other harts: the boot hart's own
/// caches first, then the early initialization, each once and for the system on chip that was
/// found, and nothing where it needs none.
pub proof fn soc_set_up_last(d: Discovery, hart: usize, i: int)
    requires
        0 <= i < init_steps(d, hart).len(),
    ensures
        ({
            let steps = init_steps(d, hart);
            let special = d.k3_match || d.k1_match;
            &&& steps.len() == if special {
                8int
            } else {
                6
            }
            &&& steps[i] is ColdBoot <==> special && i == 6
            &&& steps[i] is EarlyInit <==> special && i == 7
            &&& steps[i] matches InitStep::ColdBoot(soc, own) ==> own == hart && (soc is K3
                <==> d.k3_match) && !(soc is Generic)
            &&& steps[i] matches InitStep::EarlyInit(soc) ==> (soc is K3 <==> d.k3_match) && !(soc
                is Generic)
        }),
{
}

/// A secondary hart sets up its own caches, as the boot hart does, where the system on chip needs
/// it; and the hart that is woken is the hart that is started, on a K3 alone.
pub proof fn secondary_needs(soc: Soc, hart: usize)
    ensures
        secondary_set_up(soc, hart) is Some <==> soc is K1 || soc is K3,
        secondary_set_up(soc, hart) matches Some(step) ==> step == InitStep::ColdBoot(soc, hart),
        woken_first(soc, hart) is Some <==> soc is K3,
        woken_first(soc, hart) matches Some(h) ==> h == hart,
{
}

} // verus!
