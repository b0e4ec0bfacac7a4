//! Protected memory regions, programmed into the physical-memory-protection table.
//!
//! Every entry is a top-of-range entry: it covers the addresses from the one where the entry
//! before it ends up to its own. The first entry that covers an address decides on it.
use vstd::prelude::*;

verus! {

/// Denies every access in every mode: the entry is locked, so that it binds machine mode too.
pub const ENF_PERMISSIONS: u32 = 1;

/// Leaves machine mode alone and denies the others: the entry is not locked.
pub const M_RWX: u32 = 2;

/// Number of entries in the table.
pub const PMP_ENTRIES: usize = 16;

/// A protected region of physical memory.
#[derive(Clone, Copy, PartialEq, Eq, Structural, Debug)]
pub struct DomainRegion {
    /// First address.
    pub base: usize,
    /// Number of bytes.
    pub size: usize,
    /// How the region is protected.
    pub flags: u32,
}

impl DomainRegion {
    /// Address after the last one.
    pub open spec fn spec_end(self) -> int {
        self.base + self.size
    }

    /// The region's entry is locked.
    pub open spec fn locked(self) -> bool {
        self.flags % 2 == 1
    }

    /// The region holds the address.
    pub open spec fn holds(self, addr: int) -> bool {
        self.base <= addr < self.spec_end()
    }

    /// Creates a protected region.
    pub fn new(base: usize, size: usize, flags: u32) -> (r: DomainRegion)
        ensures
            r == (DomainRegion { base, size, flags }),
    {
        DomainRegion { base, size, flags }
    }

    /// Address after the last one.
    pub fn end(&self) -> (e: usize)
        requires
            self.spec_end() <= usize::MAX,
        ensures
            e == self.spec_end(),
    {
        self.base + self.size
    }
}

/// Accesses that an entry permits.
#[derive(Clone, Copy, PartialEq, Eq, Structural, Debug)]
pub enum Permission {
    /// None.
    NONE,
    /// Read.
    R,
    /// Write.
    W,
    /// Read and write.
    RW,
    /// Execute.
    X,
    /// Read and execute.
    RX,
    /// Write and execute.
    WX,
    /// All.
    RWX,
}

/// An entry of the table.
#[derive(Clone, Copy, PartialEq, Eq, Structural, Debug)]
pub struct PmpEntry {
    /// The entry is in use.
    pub active: bool,
    /// Accesses that it permits.
    pub perm: Permission,
    /// Whether it is locked.
    pub locked: bool,
    /// Its top address, in words of four bytes.
    pub addr: usize,
}

impl PmpEntry {
    /// An entry in use, with its top at a byte address.
    pub open spec fn top_at(perm: Permission, locked: bool, addr: int) -> PmpEntry {
        PmpEntry { active: true, perm, locked, addr: (addr / 4) as usize }
    }
}

/// The table of physical-memory-protection entries.
pub struct PmpTable {
    entries: [PmpEntry; 16],
}

impl View for PmpTable {
    type V = Seq<PmpEntry>;

    closed spec fn view(&self) -> Seq<PmpEntry> {
        self.entries@
    }
}

impl PmpTable {
    /// The table has all its entries.
    pub proof fn entries_counted(self)
        ensures
            self@.len() == PMP_ENTRIES,
    {
    }

    /// Creates a table with no entry in use.
    pub fn new() -> (t: PmpTable)
        ensures
            t@ == Seq::new(
                PMP_ENTRIES as nat,
                |i: int| PmpEntry { active: false, perm: Permission::NONE, locked: false, addr: 0 },
            ),
    {
        let off = PmpEntry { active: false, perm: Permission::NONE, locked: false, addr: 0 };
        let entries = [
            off, off, off, off, off, off, off, off, off, off, off, off, off, off, off, off,
        ];
        assert(entries@ =~= Seq::new(PMP_ENTRIES as nat, |i: int| off));
        PmpTable { entries }
    }

    /// An entry of the table.
    pub fn entry(&self, slot: usize) -> (e: PmpEntry)
        requires
            slot < PMP_ENTRIES,
        ensures
            e == self@[slot as int],
    {
        self.entries[slot]
    }
}

/// Writes an entry of the table, with its top at a byte address.
pub fn write_entry(table: &mut PmpTable, slot: usize, perm: Permission, locked: bool, addr: usize)
    requires
        slot < PMP_ENTRIES,
    ensures
        final(table)@ == old(table)@.update(
            slot as int,
            PmpEntry::top_at(perm, locked, addr as int),
        ),
{
    assert(addr >> 2 == addr / 4) by (bit_vector);
    table.entries[slot] = PmpEntry { active: true, perm, locked, addr: addr >> 2 };
}

/// The windows fit into the table from `first_slot` on, with a gap before each and a tail.
pub open spec fn windows_fit(first_slot: int, n: nat) -> bool {
    first_slot + 2 * n + 1 <= PMP_ENTRIES
}

/// The `i`-th entry of a run that protects windows: gaps and windows in turn, then the tail.
pub open spec fn run_entry(windows: Seq<DomainRegion>, region_end: int, i: int) -> PmpEntry {
    let k = i / 2;
    if i == 2 * windows.len() {
        PmpEntry::top_at(Permission::RWX, false, region_end)
    } else if i % 2 == 0 {
        PmpEntry::top_at(Permission::RWX, false, windows[k].base as int)
    } else {
        PmpEntry::top_at(Permission::NONE, windows[k].locked(), windows[k].spec_end())
    }
}

/// The table after a run that protects windows has been written from `first_slot` on.
pub open spec fn with_windows(
    table: Seq<PmpEntry>,
    first_slot: int,
    region_end: int,
    windows: Seq<DomainRegion>,
) -> Seq<PmpEntry> {
    Seq::new(
        table.len(),
        |i: int|
            if first_slot <= i <= first_slot + 2 * windows.len() {
                run_entry(windows, region_end, i - first_slot)
            } else {
                table[i]
            },
    )
}

/// Programs protected windows inside a region, whose start is where the entry before `first_slot`
/// ends.
///
/// Per window an entry is written that permits everything in the gap before it, and one that
/// permits nothing in the window, locked if the window asks for that; then a tail that permits
/// everything up to the region's end. Returns the slot after the last one written, or nothing if
/// the entries would exceed the table.
pub fn program_windows(
    table: &mut PmpTable,
    first_slot: usize,
    _region_start: usize,
    region_end: usize,
    windows: &[DomainRegion],
) -> (r: Option<usize>)
    requires
        windows_fit(first_slot as int, windows@.len()) ==> forall|i: int|
            0 <= i < windows@.len() ==> (#[trigger] windows@[i]).spec_end() <= usize::MAX,
    ensures
        if windows_fit(first_slot as int, windows@.len()) {
            &&& r == Some((first_slot + 2 * windows@.len() + 1) as usize)
            &&& final(table)@ == with_windows(
                old(table)@,
                first_slot as int,
                region_end as int,
                windows@,
            )
        } else {
            r is None && final(table)@ == old(table)@
        },
{
    proof {
        table.entries_counted();
    }
    let n: usize = windows.len();
    if n > 7 || first_slot > 15 || first_slot + 2 * n + 1 > PMP_ENTRIES {
        return None;
    }
    let mut k: usize = 0;
    let mut slot: usize = first_slot;
    while k < n
        invariant
            k <= n == windows@.len(),
            n <= 7,
            slot == first_slot + 2 * k,
            first_slot + 2 * n + 1 <= PMP_ENTRIES,
            old(table)@.len() == PMP_ENTRIES,
            table@.len() == PMP_ENTRIES,
            forall|i: int|
                0 <= i < windows@.len() ==> (#[trigger] windows@[i]).spec_end() <= usize::MAX,
            forall|i: int|
                0 <= i < PMP_ENTRIES ==> #[trigger] table@[i] == if first_slot <= i < slot {
                    run_entry(windows@, region_end as int, i - first_slot)
                } else {
                    old(table)@[i]
                },
        decreases n - k,
    {
        let w = windows[k];
        write_entry(table, slot, Permission::RWX, false, w.base);
        slot += 1;
        let flags: u32 = w.flags;
        assert(flags & 1 == flags % 2) by (bit_vector);
        let locked = flags & ENF_PERMISSIONS != 0;
        write_entry(table, slot, Permission::NONE, locked, w.end());
        slot += 1;
        k += 1;
    }
    write_entry(table, slot, Permission::RWX, false, region_end);
    assert(table@ =~= with_windows(old(table)@, first_slot as int, region_end as int, windows@));
    Some(slot + 1)
}

/// Byte address where the entry before `slot` ends; the first entry starts at zero.
pub open spec fn bottom(table: Seq<PmpEntry>, slot: int) -> int {
    if slot == 0 {
        0
    } else {
        4 * table[slot - 1].addr
    }
}

/// The entry covers the address.
pub open spec fn covers(table: Seq<PmpEntry>, slot: int, addr: int) -> bool {
    table[slot].active && bottom(table, slot) <= addr < 4 * table[slot].addr
}

/// The first entry, from `slot` on and before `end`, that covers the address.
pub open spec fn deciding(table: Seq<PmpEntry>, slot: int, end: int, addr: int) -> Option<PmpEntry>
    decreases end - slot,
{
    if end <= slot {
        None
    } else if covers(table, slot, addr) {
        Some(table[slot])
    } else {
        deciding(table, slot + 1, end, addr)
    }
}

/// The windows lie in the region, in order and without overlap, and start and end at words.
pub open spec fn in_order(windows: Seq<DomainRegion>, region_start: int, region_end: int) -> bool {
    &&& region_start % 4 == 0 && region_end % 4 == 0
    &&& region_start <= region_end
    &&& forall|i: int|
        0 <= i < windows.len() ==> {
            let w = #[trigger] windows[i];
            &&& w.base % 4 == 0 && w.size % 4 == 0
            &&& region_start <= w.base && w.spec_end() <= region_end
        }
    &&& forall|i: int, j: int|
        0 <= i < j < windows.len() ==> (#[trigger] windows[i]).spec_end() <= (
        #[trigger] windows[j]).base
}

/// What an address in the region gets from a run: nothing in a window, from an entry that is locked
/// as the window asks; everything elsewhere, from an entry that is not locked.
pub open spec fn decided_rightly(windows: Seq<DomainRegion>, addr: int, e: PmpEntry) -> bool {
    &&& forall|k: int|
        0 <= k < windows.len() && (#[trigger] windows[k]).holds(addr) ==> e.perm == Permission::NONE
            && e.locked == windows[k].locked()
    &&& (forall|k: int| 0 <= k < windows.len() ==> !(#[trigger] windows[k]).holds(addr)) ==> e.perm
        == Permission::RWX && !e.locked
}

/// Byte address where the `i`-th entry of a run ends.
spec fn run_top(windows: Seq<DomainRegion>, region_end: int, i: int) -> int {
    if i == 2 * windows.len() {
        region_end
    } else if i % 2 == 0 {
        windows[i / 2].base as int
    } else {
        windows[i / 2].spec_end()
    }
}

/// The entries of a run end at whole words inside the address space.
proof fn run_top_exact(
    windows: Seq<DomainRegion>,
    region_start: int,
    region_end: int,
    i: int,
)
    requires
        in_order(windows, region_start, region_end),
        0 <= region_start,
        region_end <= usize::MAX,
        0 <= i <= 2 * windows.len(),
    ensures
        4 * run_entry(windows, region_end, i).addr == run_top(windows, region_end, i),
        run_entry(windows, region_end, i).active,
{
    if i < 2 * windows.len() {
        let w = windows[i / 2];
        assert(w.base % 4 == 0 && w.size % 4 == 0);
        assert(w.spec_end() % 4 == 0);
    }
}

/// An address below the end of a run's `i`-th entry and not below the end of the one before lies in
/// a window exactly if the entry is that window's.
proof fn run_window(
    windows: Seq<DomainRegion>,
    region_start: int,
    region_end: int,
    addr: int,
    i: int,
)
    requires
        in_order(windows, region_start, region_end),
        0 <= i <= 2 * windows.len(),
        i > 0 ==> run_top(windows, region_end, i - 1) <= addr,
        addr < run_top(windows, region_end, i),
    ensures
        forall|j: int|
            0 <= j < windows.len() && (#[trigger] windows[j]).holds(addr) ==> i % 2 == 1 && j == i
                / 2,
        i % 2 == 1 ==> windows[i / 2].holds(addr),
{
    let k = i / 2;
    assert forall|j: int| 0 <= j < windows.len() && (#[trigger] windows[j]).holds(addr) implies i % 2
        == 1 && j == k by {
        if j < k {
            assert(windows[j].spec_end() <= windows[k - 1].spec_end());
            if i % 2 == 0 {
                assert((i - 1) / 2 == k - 1);
            }
        } else if k < j {
            assert(windows[k].spec_end() <= windows[j].base);
        }
    }
}

/// The entries of a run, from the `i`-th on, decide rightly on an address that none before covers.
proof fn run_decides(
    table: Seq<PmpEntry>,
    first_slot: int,
    region_start: int,
    region_end: int,
    windows: Seq<DomainRegion>,
    addr: int,
    i: int,
)
    requires
        table.len() == PMP_ENTRIES,
        0 <= first_slot,
        windows_fit(first_slot, windows.len()),
        in_order(windows, region_start, region_end),
        0 <= region_start,
        region_end <= usize::MAX,
        addr < region_end,
        0 <= i <= 2 * windows.len(),
        bottom(with_windows(table, first_slot, region_end, windows), first_slot + i) <= addr,
    ensures
        ({
            let t = with_windows(table, first_slot, region_end, windows);
            let e = deciding(t, first_slot + i, first_slot + 2 * windows.len() + 1, addr);
            e is Some && decided_rightly(windows, addr, e->0)
        }),
    decreases 2 * windows.len() - i,
{
    let t = with_windows(table, first_slot, region_end, windows);
    let slot = first_slot + i;
    assert(t[slot] == run_entry(windows, region_end, i));
    run_top_exact(windows, region_start, region_end, i);
    if i > 0 {
        assert(t[slot - 1] == run_entry(windows, region_end, i - 1));
        run_top_exact(windows, region_start, region_end, i - 1);
    }
    if covers(t, slot, addr) {
        run_window(windows, region_start, region_end, addr, i);
    } else {
        run_decides(table, first_slot, region_start, region_end, windows, addr, i + 1);
    }
}

/// A run of windows protects exactly them: in the region an address is denied if and only if it
/// lies in a window, and the entry that denies it is locked as the window asks; everywhere else an
/// unlocked entry permits everything.
pub proof fn windows_protected(
    table: Seq<PmpEntry>,
    first_slot: int,
    region_start: int,
    region_end: int,
    windows: Seq<DomainRegion>,
    addr: int,
)
    requires
        table.len() == PMP_ENTRIES,
        0 <= first_slot,
        windows_fit(first_slot, windows.len()),
        in_order(windows, region_start, region_end),
        region_end <= usize::MAX,
        bottom(table, first_slot) == region_start,
        region_start <= addr < region_end,
    ensures
        ({
            let t = with_windows(table, first_slot, region_end, windows);
            let e = deciding(t, first_slot, first_slot + 2 * windows.len() + 1, addr);
            e is Some && decided_rightly(windows, addr, e->0)
        }),
{
    let t = with_windows(table, first_slot, region_end, windows);
    assert(bottom(t, first_slot) == bottom(table, first_slot));
    run_decides(table, first_slot, region_start, region_end, windows, addr, 0);
}

/// What a run of windows leaves in the table: for each window an entry up to its start that permits
/// everything and one up to its end that permits nothing, locked exactly if the lowest flag of the
/// window is set; then one up to the region's end that permits everything. No other entry changes.
pub proof fn window_entries(
    table: Seq<PmpEntry>,
    first_slot: int,
    region_end: int,
    windows: Seq<DomainRegion>,
    k: int,
)
    requires
        table.len() == 16,
        0 <= first_slot,
        first_slot + 2 * windows.len() + 1 <= 16,
        0 <= region_end <= usize::MAX,
        region_end % 4 == 0,
        0 <= k < windows.len(),
        windows[k].base % 4 == 0,
        windows[k].size % 4 == 0,
        windows[k].base + windows[k].size <= usize::MAX,
    ensures
        ({
            let after = with_windows(table, first_slot, region_end, windows);
            let w = windows[k];
            let gap = after[first_slot + 2 * k];
            let window = after[first_slot + 2 * k + 1];
            let tail = after[first_slot + 2 * windows.len()];
            &&& windows_fit(first_slot, windows.len())
            &&& after.len() == 16
            &&& gap.active && gap.perm is RWX && !gap.locked && 4 * gap.addr == w.base
            &&& window.active && window.perm is NONE && 4 * window.addr == w.base + w.size
            &&& window.locked <==> w.flags % 2 == 1
            &&& tail.active && tail.perm is RWX && !tail.locked && 4 * tail.addr == region_end
            &&& forall|i: int|
                0 <= i < first_slot || first_slot + 2 * windows.len() < i < 16
                    ==> #[trigger] after[i] == table[i]
        }),
{
    let w = windows[k];
    assert((2 * k + 1) / 2 == k && (2 * k) / 2 == k);
    assert((w.base + w.size) % 4 == 0);
    assert(4 * (w.base as int / 4) == w.base);
    assert(4 * ((w.base + w.size) / 4) == w.base + w.size);
    assert(4 * (region_end / 4) == region_end);
}

/// Within the region exactly the windows are closed: an address is denied if and only if a window
/// starts at or below it and ends above it.
pub proof fn denied_in_windows(
    table: Seq<PmpEntry>,
    first_slot: int,
    region_start: int,
    region_end: int,
    windows: Seq<DomainRegion>,
    addr: int,
)
    requires
        table.len() == 16,
        0 <= first_slot,
        first_slot + 2 * windows.len() + 1 <= 16,
        in_order(windows, region_start, region_end),
        region_end <= usize::MAX,
        bottom(table, first_slot) == region_start,
        region_start <= addr < region_end,
    ensures
        ({
            let after = with_windows(table, first_slot, region_end, windows);
            let e = deciding(after, first_slot, first_slot + 2 * windows.len() + 1, addr);
            &&& e is Some
            &&& e->0.perm is NONE || e->0.perm is RWX
            &&& e->0.perm is NONE <==> exists|k: int|
                0 <= k < windows.len() && (#[trigger] windows[k]).base <= addr < windows[k].base
                    + windows[k].size
            &&& e->0.locked ==> exists|k: int|
                0 <= k < windows.len() && (#[trigger] windows[k]).base <= addr < windows[k].base
                    + windows[k].size && windows[k].flags % 2 == 1
        }),
{
    windows_protected(table, first_slot, region_start, region_end, windows, addr);
    let after = with_windows(table, first_slot, region_end, windows);
    let e = deciding(after, first_slot, first_slot + 2 * windows.len() + 1, addr)->0;
    if exists|k: int| 0 <= k < windows.len() && (#[trigger] windows[k]).holds(addr) {
        let k = choose|k: int| 0 <= k < windows.len() && (#[trigger] windows[k]).holds(addr);
        assert(e.perm == Permission::NONE && e.locked == windows[k].locked());
    } else {
        assert(e.perm == Permission::RWX && !e.locked);
    }
}

} // verus!
