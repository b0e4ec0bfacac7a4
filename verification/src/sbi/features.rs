//! Features of a hart and their detection.
use vstd::prelude::*;
use vstd::string::*;

use crate::bytes::{is_listed, same_bytes};
use crate::sbi::hsm::Mode;

verus! {

/// Version of the privileged architecture.
#[derive(Clone, Copy, PartialEq, Eq, Structural, PartialOrd, Ord, Debug)]
pub enum PrivilegedVersion {
    /// Older than any that is told apart.
    Unknown,
    /// Version 1.10.
    Version1_10,
    /// Version 1.11.
    Version1_11,
    /// Version 1.12.
    Version1_12,
}

impl PrivilegedVersion {
    /// Place in the order of versions.
    pub open spec fn rank(self) -> int {
        match self {
            PrivilegedVersion::Unknown => 0,
            PrivilegedVersion::Version1_10 => 1,
            PrivilegedVersion::Version1_11 => 2,
            PrivilegedVersion::Version1_12 => 3,
        }
    }

    /// Whether this version is at least 1.11.
    pub fn since_1_11(self) -> (b: bool)
        ensures
            b == (self.rank() >= PrivilegedVersion::Version1_11.rank()),
    {
        match self {
            PrivilegedVersion::Version1_11 | PrivilegedVersion::Version1_12 => true,
            _ => false,
        }
    }

    /// Whether this version is at least 1.12.
    pub fn since_1_12(self) -> (b: bool)
        ensures
            b == (self.rank() >= PrivilegedVersion::Version1_12.rank()),
    {
        match self {
            PrivilegedVersion::Version1_12 => true,
            _ => false,
        }
    }
}

/// Extension of the instruction set that the firmware looks for.
#[derive(Clone, Copy, PartialEq, Eq, Structural, Debug)]
pub enum Extension {
    /// Supervisor timer comparison.
    Sstc,
    /// Hypervisor.
    Hypervisor,
    /// Machine-level advanced interrupt architecture.
    Smaia,
}

impl Extension {
    /// Number of extensions.
    pub const COUNT: usize = 3;

    /// Name of the extension in a device tree.
    pub open spec fn name(self) -> &'static str {
        match self {
            Extension::Sstc => "sstc",
            Extension::Hypervisor => "h",
            Extension::Smaia => "smaia",
        }
    }

    /// Place of the extension in a table of extensions.
    pub open spec fn place(self) -> int {
        match self {
            Extension::Sstc => 0,
            Extension::Hypervisor => 1,
            Extension::Smaia => 2,
        }
    }

    /// Name of the extension in a device tree.
    pub fn as_str(&self) -> (s: &'static str)
        ensures
            s@ == self.name()@,
    {
        match self {
            Extension::Sstc => "sstc",
            Extension::Hypervisor => "h",
            Extension::Smaia => "smaia",
        }
    }

    /// Place of the extension in a table of extensions.
    pub fn index(&self) -> (i: usize)
        ensures
            i == self.place(),
            i < Extension::COUNT,
    {
        match self {
            Extension::Sstc => 0,
            Extension::Hypervisor => 1,
            Extension::Smaia => 2,
        }
    }

    /// All extensions, in the order of their places.
    pub fn iter() -> (v: Vec<Extension>)
        ensures
            v@ == seq![Extension::Sstc, Extension::Hypervisor, Extension::Smaia],
    {
        let v: Vec<Extension> = vec![Extension::Sstc, Extension::Hypervisor, Extension::Smaia];
        assert(v@ =~= seq![Extension::Sstc, Extension::Hypervisor, Extension::Smaia]);
        v
    }

    /// Every extension is listed at its place.
    pub proof fn iter_complete(self)
        ensures
            0 <= self.place() < Extension::COUNT,
            seq![Extension::Sstc, Extension::Hypervisor, Extension::Smaia][self.place()] == self,
    {
    }
}

/// Features of a hart.
#[derive(Clone, Copy, PartialEq, Eq, Debug)]
pub struct HartFeatures {
    extensions: [bool; 3],
    privileged_version: PrivilegedVersion,
    mhpm_mask: u32,
    mhpm_bits: u32,
}

/// What is known of a hart.
#[verifier::ext_equal]
pub struct Features {
    /// Whether each extension is there, by its place.
    pub extensions: Seq<bool>,
    /// Version of the privileged architecture.
    pub privileged_version: PrivilegedVersion,
    /// One bit per performance counter that is there.
    pub mhpm_mask: u32,
    /// Width of the performance counters in bits.
    pub mhpm_bits: u32,
}

impl View for HartFeatures {
    type V = Features;

    closed spec fn view(&self) -> Features {
        Features {
            extensions: self.extensions@,
            privileged_version: self.privileged_version,
            mhpm_mask: self.mhpm_mask,
            mhpm_bits: self.mhpm_bits,
        }
    }
}

impl HartFeatures {
    /// Features of a hart of which nothing is known yet.
    pub fn new() -> (f: HartFeatures)
        ensures
            f@ == (Features {
                extensions: seq![false, false, false],
                privileged_version: PrivilegedVersion::Unknown,
                mhpm_mask: 0,
                mhpm_bits: 0,
            }),
    {
        let f = HartFeatures {
            extensions: [false, false, false],
            privileged_version: PrivilegedVersion::Unknown,
            mhpm_mask: 0,
            mhpm_bits: 0,
        };
        assert(f.extensions@ =~= seq![false, false, false]);
        f
    }

    /// Whether the hart has an extension.
    pub fn has(&self, ext: Extension) -> (b: bool)
        ensures
            b == self@.extensions[ext.place()],
    {
        self.extensions[ext.index()]
    }

    /// Version of the privileged architecture.
    pub fn privileged_version(&self) -> (v: PrivilegedVersion)
        ensures
            v == self@.privileged_version,
    {
        self.privileged_version
    }
}

/// What is known of all harts.
pub open spec fn features(table: Seq<HartFeatures>) -> Seq<Features> {
    table.map_values(|f: HartFeatures| f@)
}

/// Whether a hart has an extension.
pub fn hart_extension_probe(table: &[HartFeatures], hart_id: usize, ext: Extension) -> (b: bool)
    requires
        hart_id < table@.len(),
    ensures
        b == table@[hart_id as int]@.extensions[ext.place()],
{
    table[hart_id].has(ext)
}

/// Version of the privileged architecture that a hart has.
pub fn hart_privileged_version(table: &[HartFeatures], hart_id: usize) -> (v: PrivilegedVersion)
    requires
        hart_id < table@.len(),
    ensures
        v == table@[hart_id as int]@.privileged_version,
{
    table[hart_id].privileged_version
}

/// The performance counters that a hart has, one bit each.
pub fn hart_mhpm_mask(table: &[HartFeatures], hart_id: usize) -> (m: u32)
    requires
        hart_id < table@.len(),
    ensures
        m == table@[hart_id as int]@.mhpm_mask,
{
    table[hart_id].mhpm_mask
}

/// What the detection of extensions reads of a processor's device-tree node.
pub struct Cpu {
    /// Identifier of the hart.
    pub hart_id: usize,
    /// The list of extensions, if the node has one.
    pub isa_extensions: Option<Vec<Vec<u8>>>,
    /// The first instruction-set string, if the node has one.
    pub isa: Option<Vec<u8>>,
}

/// The byte that parts of an instruction-set string are separated by.
pub const UNDERSCORE: u8 = 0x5f;

/// The bytes from `i` to `j` are one part of an instruction-set string.
pub open spec fn is_part(isa: Seq<u8>, i: int, j: int) -> bool {
    &&& 0 <= i <= j <= isa.len()
    &&& i == 0 || isa[i - 1] == UNDERSCORE
    &&& j == isa.len() || isa[j] == UNDERSCORE
    &&& forall|k: int| i <= k < j ==> isa[k] != UNDERSCORE
}

/// A part names an extension: it is the extension's name, or the name is a single letter and the
/// part contains it.
pub open spec fn part_names(part: Seq<u8>, ext: Seq<u8>) -> bool {
    part == ext || ext.len() == 1 && part.contains(ext[0])
}

impl Cpu {
    /// The node declares the extension. The list of extensions is decisive if there is one;
    /// otherwise some part of the instruction-set string names the extension.
    pub open spec fn declares(self, ext: Seq<u8>) -> bool {
        match self.isa_extensions {
            Some(list) => exists|i: int| 0 <= i < list@.len() && (#[trigger] list@[i])@ == ext,
            None => match self.isa {
                Some(isa) => exists|i: int, j: int|
                    #[trigger] is_part(isa@, i, j) && part_names(isa@.subrange(i, j), ext),
                None => false,
            },
        }
    }
}

/// Whether a part of an instruction-set string names an extension.
fn part_is(part: &[u8], ext: &[u8]) -> (b: bool)
    ensures
        b == part_names(part@, ext@),
{
    if same_bytes(part, ext) {
        return true;
    }
    if ext.len() != 1 {
        return false;
    }
    let letter: u8 = ext[0];
    let mut i: usize = 0;
    while i < part.len()
        invariant
            i <= part@.len(),
            ext@.len() == 1,
            letter == ext@[0],
            forall|j: int| 0 <= j < i ==> part@[j] != letter,
        decreases part@.len() - i,
    {
        if part[i] == letter {
            assert(part@.contains(letter));
            return true;
        }
        i += 1;
    }
    false
}

/// Whether some part of an instruction-set string names an extension.
fn isa_names(isa: &[u8], ext: &[u8]) -> (b: bool)
    ensures
        b == exists|i: int, j: int|
            #[trigger] is_part(isa@, i, j) && part_names(isa@.subrange(i, j), ext@),
{
    let len: usize = isa.len();
    let mut i: usize = 0;
    loop
        invariant
            i <= len == isa@.len(),
            i == 0 || isa@[i - 1] == UNDERSCORE,
            forall|a: int, b: int|
                a < i && #[trigger] is_part(isa@, a, b) ==> !part_names(
                    isa@.subrange(a, b),
                    ext@,
                ),
        decreases len - i,
    {
        let mut j: usize = i;
        while j < len && isa[j] != UNDERSCORE
            invariant
                i <= j <= len == isa@.len(),
                forall|k: int| i <= k < j ==> isa@[k] != UNDERSCORE,
            decreases len - j,
        {
            j += 1;
        }
        assert(is_part(isa@, i as int, j as int));
        let part = vstd::slice::slice_subrange(isa, i, j);
        if part_is(part, ext) {
            return true;
        }
        assert forall|a: int, b: int|
            a <= j && #[trigger] is_part(isa@, a, b) implies !part_names(
            isa@.subrange(a, b),
            ext@,
        ) by {
            if a == i {
                assert(b == j) by {
                    if b < j {
                        assert(isa@[b] != UNDERSCORE);
                    } else if j < b {
                        assert(isa@[j as int] == UNDERSCORE);
                    }
                }
            } else if i < a {
                assert(isa@[a - 1] != UNDERSCORE);
            }
        }
        if j == len {
            return false;
        }
        i = j + 1;
    }
}

/// Whether a processor's node declares an extension.
pub fn check_extension_in_device_tree(ext: &str, cpu: &Cpu) -> (b: bool)
    ensures
        b == cpu.declares(ext.spec_bytes()),
{
    let name = ext.as_bytes();
    match &cpu.isa_extensions {
        Some(list) => is_listed(list.as_slice(), name),
        None => match &cpu.isa {
            Some(isa) => isa_names(isa.as_slice(), name),
            None => false,
        },
    }
}

/// What the detection of extensions reads of the calling hart.
#[derive(Clone, Copy, PartialEq, Eq, Structural, Debug)]
pub struct HartProbe {
    /// Identifier of the calling hart.
    pub hart_id: usize,
    /// Whether its instruction-set register shows the hypervisor extension.
    pub has_hypervisor: bool,
    /// Whether its selector register of the advanced interrupt architecture can be read.
    pub has_smaia_csr: bool,
}

impl Cpu {
    /// The processor has the extension. The calling hart's own registers decide on its hypervisor
    /// extension; a device tree may leave the advanced interrupt architecture out, so that its
    /// registers are looked at too.
    pub open spec fn has(self, ext: Extension, probe: HartProbe) -> bool {
        let declared = self.declares(ext.name().spec_bytes());
        match ext {
            Extension::Sstc => declared,
            Extension::Hypervisor => if self.hart_id == probe.hart_id {
                probe.has_hypervisor
            } else {
                declared
            },
            Extension::Smaia => declared || probe.has_smaia_csr,
        }
    }

    /// Whether the processor has each extension, by its place.
    pub open spec fn all_extensions(self, probe: HartProbe) -> Seq<bool> {
        seq![
            self.has(Extension::Sstc, probe),
            self.has(Extension::Hypervisor, probe),
            self.has(Extension::Smaia, probe),
        ]
    }

    /// Whether the processor has an extension.
    fn detect(&self, ext: Extension, probe: &HartProbe) -> (b: bool)
        ensures
            b == self.has(ext, *probe),
    {
        let declared = check_extension_in_device_tree(ext.as_str(), self);
        match ext {
            Extension::Hypervisor => if self.hart_id == probe.hart_id {
                probe.has_hypervisor
            } else {
                declared
            },
            Extension::Smaia => declared || probe.has_smaia_csr,
            Extension::Sstc => declared,
        }
    }
}

/// The table of features after the extensions of the first `n` processors have been recorded.
pub open spec fn detected(
    cpus: Seq<Cpu>,
    probe: HartProbe,
    table: Seq<Features>,
    n: nat,
) -> Seq<Features>
    decreases n,
{
    if n == 0 {
        table
    } else {
        let before = detected(cpus, probe, table, (n - 1) as nat);
        let cpu = cpus[n - 1];
        before.update(
            cpu.hart_id as int,
            Features { extensions: cpu.all_extensions(probe), ..before[cpu.hart_id as int] },
        )
    }
}

/// Detects the extensions of all harts from the device tree, and those that the calling hart can
/// tell from its registers.
pub fn extension_detection(cpus: &[Cpu], probe: &HartProbe, table: &mut Vec<HartFeatures>)
    requires
        forall|i: int| 0 <= i < cpus@.len() ==> (#[trigger] cpus@[i]).hart_id < old(table)@.len(),
    ensures
        features(final(table)@) == detected(
            cpus@,
            *probe,
            features(old(table)@),
            cpus@.len(),
        ),
{
    let mut n: usize = 0;
    while n < cpus.len()
        invariant
            n <= cpus@.len(),
            table@.len() == old(table)@.len(),
            forall|i: int|
                0 <= i < cpus@.len() ==> (#[trigger] cpus@[i]).hart_id < old(table)@.len(),
            features(table@) == detected(cpus@, *probe, features(old(table)@), n as nat),
        decreases cpus@.len() - n,
    {
        let cpu = &cpus[n];
        let ghost before = features(table@);
        let all = Extension::iter();
        let mut extensions: [bool; 3] = [false, false, false];
        let mut k: usize = 0;
        while k < Extension::COUNT
            invariant
                k <= Extension::COUNT,
                all@ == seq![Extension::Sstc, Extension::Hypervisor, Extension::Smaia],
                forall|i: int|
                    0 <= i < k ==> extensions@[i] == #[trigger] cpu.has(all@[i], *probe),
            decreases Extension::COUNT - k,
        {
            let ext = all[k];
            extensions[ext.index()] = cpu.detect(ext, probe);
            k += 1;
        }
        proof {
            assert(cpu.has(all@[0], *probe) == extensions@[0]);
            assert(cpu.has(all@[1], *probe) == extensions@[1]);
            assert(cpu.has(all@[2], *probe) == extensions@[2]);
            assert(extensions@ =~= cpu.all_extensions(*probe));
        }
        let mut entry = table[cpu.hart_id];
        entry.extensions = extensions;
        table[cpu.hart_id] = entry;
        n += 1;
        assert(features(table@) =~= detected(cpus@, *probe, features(old(table)@), n as nat));
    }
}

/// Which counters of a hart answered when they were probed.
#[derive(Clone, Copy, PartialEq, Eq, Structural, Debug)]
pub struct CounterProbe {
    /// Reading the counter did not trap.
    pub readable: bool,
    /// Writing one to it did not trap.
    pub writable: bool,
    /// What the counter held when its old value was put back.
    pub swapped: usize,
}

impl CounterProbe {
    /// The counter is there: it can be read and written, and keeps what is written.
    pub open spec fn present(self) -> bool {
        self.readable && self.writable && self.swapped == 1
    }
}

/// Number of performance counters beside cycles, time and retired instructions.
pub const MHPM_COUNTERS: usize = 29;

/// Bit `i` of a mask is set.
pub open spec fn bit_set(mask: u32, i: u32) -> bool {
    (mask >> i) & 1 == 1
}

/// The mask has a bit for cycles, time and retired instructions, and one for each further counter
/// that is there.
pub open spec fn is_mhpm_mask(mask: u32, probes: Seq<CounterProbe>) -> bool {
    forall|i: u32| i < 32 ==> #[trigger] bit_set(mask, i) == (i < 3 || probes[i - 3].present())
}

/// Detects the performance counters of a hart; the first three always exist.
fn mhpm_detection(probes: &[CounterProbe]) -> (mask: u32)
    requires
        probes@.len() == MHPM_COUNTERS,
    ensures
        is_mhpm_mask(mask, probes@),
{
    let mut mask: u32 = 0b111;
    assert(forall|i: u32| i < 32 ==> #[trigger] bit_set(0b111, i) == (i < 3)) by (bit_vector);
    let mut c: u32 = 3;
    while c < 32
        invariant
            3 <= c <= 32,
            probes@.len() == MHPM_COUNTERS,
            forall|i: u32|
                i < 32 ==> #[trigger] bit_set(mask, i) == (i < 3 || i < c && probes@[i
                    - 3].present()),
        decreases 32 - c,
    {
        let probe = probes[(c - 3) as usize];
        if probe.readable && probe.writable && probe.swapped == 1 {
            assert(forall|i: u32|
                i < 32 ==> #[trigger] bit_set(mask | (1u32 << c), i) == (bit_set(mask, i) || i
                    == c)) by (bit_vector)
                requires
                    c < 32,
            ;
            mask = mask | (1u32 << c);
        }
        c += 1;
    }
    mask
}

/// Two words that agree in every bit from `i` on agree above it.
proof fn high_bits_agree(a: u32, b: u32, i: u32)
    requires
        i < 32,
        forall|j: u32| j < 32 ==> #[trigger] bit_set(a, j) == bit_set(b, j),
    ensures
        a >> i == b >> i,
    decreases 32 - i,
{
    assert(bit_set(a, i) == bit_set(b, i));
    if i == 31 {
        assert(a >> i == b >> i) by (bit_vector)
            requires
                i == 31,
                ((a >> i) & 1 == 1) == ((b >> i) & 1 == 1),
        ;
    } else {
        high_bits_agree(a, b, (i + 1) as u32);
        let k = (i + 1) as u32;
        assert(a >> i == b >> i) by (bit_vector)
            requires
                i < 31,
                k == i + 1,
                a >> k == b >> k,
                ((a >> i) & 1 == 1) == ((b >> i) & 1 == 1),
        ;
    }
}

/// The counters determine the mask.
pub proof fn mhpm_mask_unique(a: u32, b: u32, probes: Seq<CounterProbe>)
    requires
        is_mhpm_mask(a, probes),
        is_mhpm_mask(b, probes),
    ensures
        a == b,
{
    high_bits_agree(a, b, 0);
    assert(a >> 0u32 == a && b >> 0u32 == b) by (bit_vector);
}

/// Which control registers of a hart answered when they were probed.
#[derive(Clone, Copy, PartialEq, Eq, Structural, Debug)]
pub struct CsrProbe {
    /// The counter-enable register is there.
    pub mcounteren: bool,
    /// The counter-inhibit register is there.
    pub mcountinhibit: bool,
    /// The environment-configuration register is there.
    pub menvcfg: bool,
}

impl CsrProbe {
    /// The version that the registers show: each version is told by a register that it added to
    /// those of the version before.
    pub open spec fn version(self) -> PrivilegedVersion {
        if self.mcounteren && self.mcountinhibit && self.menvcfg {
            PrivilegedVersion::Version1_12
        } else if self.mcounteren && self.mcountinhibit {
            PrivilegedVersion::Version1_11
        } else if self.mcounteren {
            PrivilegedVersion::Version1_10
        } else {
            PrivilegedVersion::Unknown
        }
    }
}

/// Detects the version of the privileged architecture.
fn privileged_version_detection(probe: &CsrProbe) -> (v: PrivilegedVersion)
    ensures
        v == probe.version(),
{
    let mut version = PrivilegedVersion::Unknown;
    if probe.mcounteren {
        version = PrivilegedVersion::Version1_10;
        if probe.mcountinhibit {
            version = PrivilegedVersion::Version1_11;
            if probe.menvcfg {
                version = PrivilegedVersion::Version1_12;
            }
        }
    }
    version
}

impl HartProbe {
    /// The extensions of the calling hart, where `known` of them were known before: its registers
    /// decide on the hypervisor extension, and can add the advanced interrupt architecture to what
    /// is known; nothing in them tells of the supervisor timer comparison.
    pub open spec fn refined(self, known: Seq<bool>) -> Seq<bool> {
        seq![
            known[Extension::Sstc.place()],
            self.has_hypervisor,
            known[Extension::Smaia.place()] || self.has_smaia_csr,
        ]
    }
}

/// Detects the extensions of the calling hart as far as its registers tell them, its privileged
/// version and its performance counters; counters are 64 bits wide.
pub fn detect_hart_features(
    table: &mut Vec<HartFeatures>,
    probe: &HartProbe,
    csrs: &CsrProbe,
    counters: &[CounterProbe],
)
    requires
        probe.hart_id < old(table)@.len(),
        counters@.len() == MHPM_COUNTERS,
    ensures
        ({
            let hart_id = probe.hart_id;
            let before = features(old(table)@);
            let after = features(final(table)@);
            let own = after[hart_id as int];
            &&& after == before.update(hart_id as int, own)
            &&& own.extensions == probe.refined(before[hart_id as int].extensions)
            &&& own.privileged_version == csrs.version()
            &&& is_mhpm_mask(own.mhpm_mask, counters@)
            &&& own.mhpm_bits == 64
        }),
{
    let hart_id: usize = probe.hart_id;
    let mut entry = table[hart_id];
    let mut extensions: [bool; 3] = entry.extensions;
    extensions[Extension::Hypervisor.index()] = probe.has_hypervisor;
    extensions[Extension::Smaia.index()] = entry.has(Extension::Smaia) || probe.has_smaia_csr;
    assert(extensions@ =~= probe.refined(entry@.extensions));
    entry.extensions = extensions;
    entry.privileged_version = privileged_version_detection(csrs);
    entry.mhpm_mask = mhpm_detection(counters);
    entry.mhpm_bits = 64;
    table[hart_id] = entry;
    assert(features(table@) =~= features(old(table)@).update(hart_id as int, entry@));
}

/// What a hart's registers tell does not change what extension detection found out about it: once
/// a processor's extensions have been recorded by the hart itself, looking again finds the same.
pub proof fn detection_agrees(cpu: Cpu, probe: HartProbe)
    requires
        cpu.hart_id == probe.hart_id,
    ensures
        probe.refined(cpu.all_extensions(probe)) == cpu.all_extensions(probe),
{
    assert(probe.refined(cpu.all_extensions(probe)) =~= cpu.all_extensions(probe));
}

/// Features that are known without detection on a simulator: the supervisor timer comparison and
/// version 1.12.
pub fn init(num_harts: usize) -> (table: Vec<HartFeatures>)
    ensures
        features(table@) == Seq::new(
            num_harts as nat,
            |i: int|
                Features {
                    extensions: seq![true, false, false],
                    privileged_version: PrivilegedVersion::Version1_12,
                    mhpm_mask: 0,
                    mhpm_bits: 0,
                },
        ),
{
    let mut extensions: [bool; 3] = [false, false, false];
    extensions[Extension::Sstc.index()] = true;
    assert(extensions@ =~= seq![true, false, false]);
    let entry = HartFeatures {
        extensions,
        privileged_version: PrivilegedVersion::Version1_12,
        mhpm_mask: 0,
        mhpm_bits: 0,
    };
    let mut table: Vec<HartFeatures> = Vec::new();
    while table.len() < num_harts
        invariant
            table@.len() <= num_harts,
            forall|i: int| 0 <= i < table@.len() ==> #[trigger] table@[i] == entry,
        decreases num_harts - table@.len(),
    {
        table.push(entry);
    }
    assert(features(table@) =~= Seq::new(num_harts as nat, |i: int| entry@));
    table
}

/// Bit of an extension's letter in the instruction-set register, counted from `A`.
pub open spec fn misa_has(misa: u64, letter: u64) -> bool {
    (misa >> letter) & 1 == 1
}

/// Place of `D` in the instruction-set register.
pub const MISA_D: u64 = 3;

/// Place of `F` in the instruction-set register.
pub const MISA_F: u64 = 5;

/// Place of `S` in the instruction-set register.
pub const MISA_S: u64 = 18;

/// Place of `U` in the instruction-set register.
pub const MISA_U: u64 = 20;

/// Place of `V` in the instruction-set register.
pub const MISA_V: u64 = 21;

/// Whether the instruction-set register shows the extension with this letter.
pub fn has_extension(misa: u64, letter: u64) -> (b: bool)
    requires
        letter < 64,
    ensures
        b == misa_has(misa, letter),
{
    (misa >> letter) & 1 == 1
}

/// The hart supports the mode; machine mode is always there.
pub open spec fn supports(misa: u64, mode: Mode) -> bool {
    match mode {
        Mode::Machine => true,
        Mode::Supervisor => misa_has(misa, MISA_S),
        Mode::User => misa_has(misa, MISA_U),
    }
}

/// The table of enabled harts once a hart has been checked for a mode.
pub open spec fn enabled_for(enabled: Seq<bool>, hart: int, mode: Mode, misa: u64) -> Seq<bool> {
    if supports(misa, mode) && mode != Mode::Machine {
        enabled.update(hart, true)
    } else {
        enabled
    }
}

/// Checks that a hart supports the mode it is to enter, and marks it as enabled for a mode below
/// machine mode. A hart that does not support the mode is to be stopped.
pub fn check_privilege(mode: Mode, misa: u64, hart_id: usize, enabled: &mut Vec<bool>) -> (ok: bool)
    requires
        hart_id < old(enabled)@.len(),
    ensures
        ok == supports(misa, mode),
        final(enabled)@ == enabled_for(old(enabled)@, hart_id as int, mode, misa),
{
    match mode {
        Mode::Supervisor => {
            if !has_extension(misa, MISA_S) {
                return false;
            }
            enabled[hart_id] = true;
            true
        },
        Mode::User => {
            if !has_extension(misa, MISA_U) {
                return false;
            }
            enabled[hart_id] = true;
            true
        },
        Mode::Machine => true,
    }
}

impl Extension {
    /// The name and the place of each extension.
    pub proof fn names_and_places(self)
        ensures
            self is Sstc ==> self.name()@ == seq!['s', 's', 't', 'c'] && self.place() == 0,
            self is Hypervisor ==> self.name()@ == seq!['h'] && self.place() == 1,
            self is Smaia ==> self.name()@ == seq!['s', 'm', 'a', 'i', 'a'] && self.place() == 2,
    {
        reveal_strlit("sstc");
        reveal_strlit("h");
        reveal_strlit("smaia");
        match self {
            Extension::Sstc => assert(self.name()@ =~= seq!['s', 's', 't', 'c']),
            Extension::Hypervisor => assert(self.name()@ =~= seq!['h']),
            Extension::Smaia => assert(self.name()@ =~= seq!['s', 'm', 'a', 'i', 'a']),
        }
    }
}

impl Cpu {
    /// A list of extensions decides alone: an extension is declared exactly if it is listed,
    /// whatever the instruction-set string says. With neither, none is.
    pub proof fn list_decides(self, ext: Seq<u8>)
        ensures
            self.isa_extensions matches Some(list) ==> (self.declares(ext) <==> exists|i: int|
                0 <= i < list@.len() && (#[trigger] list@[i])@ == ext),
            self.isa_extensions is None && self.isa is None ==> !self.declares(ext),
    {
    }

    /// An instruction-set string in one part declares the extension whose name it is, and every
    /// extension of one letter that occurs in it.
    pub proof fn single_part(self, ext: Seq<u8>)
        requires
            self.isa_extensions is None,
            self.isa is Some,
            forall|i: int| 0 <= i < self.isa->0@.len() ==> self.isa->0@[i] != 0x5f,
        ensures
            self.declares(ext) <==> self.isa->0@ == ext || ext.len() == 1 && self.isa->0@.contains(
                ext[0],
            ),
    {
        let w = self.isa->0@;
        let n = w.len() as int;
        assert(is_part(w, 0, n));
        assert(w.subrange(0, n) =~= w);
        assert forall|i: int, j: int| #[trigger] is_part(w, i, j) implies i == 0 && j == n by {
            if i > 0 {
                assert(w[i - 1] != 0x5f);
            }
            if j < n {
                assert(w[j] != 0x5f);
            }
        }
    }

    /// Two instruction-set strings joined by an underscore declare what either of them declares.
    pub proof fn joined_parts(self, left: Cpu, right: Cpu, ext: Seq<u8>)
        requires
            self.isa_extensions is None && left.isa_extensions is None && right.isa_extensions
                is None,
            self.isa is Some && left.isa is Some && right.isa is Some,
            self.isa->0@ == left.isa->0@ + seq![0x5fu8] + right.isa->0@,
        ensures
            self.declares(ext) <==> left.declares(ext) || right.declares(ext),
    {
        let (w, a, b) = (self.isa->0@, left.isa->0@, right.isa->0@);
        let n = a.len() as int;
        assert(w[n] == 0x5f);
        if self.declares(ext) {
            let (i, j) = choose|i: int, j: int|
                #[trigger] is_part(w, i, j) && part_names(w.subrange(i, j), ext);
            if j <= n {
                assert(w.subrange(i, j) =~= a.subrange(i, j));
                assert forall|k: int| i <= k < j implies a[k] != UNDERSCORE by {
                    assert(w[k] != UNDERSCORE);
                }
                assert(is_part(a, i, j));
            } else {
                assert(n < i) by {
                    if i <= n {
                        assert(w[n] != UNDERSCORE);
                    }
                }
                let (s, t) = (i - n - 1, j - n - 1);
                assert(w.subrange(i, j) =~= b.subrange(s, t));
                assert forall|k: int| s <= k < t implies b[k] != UNDERSCORE by {
                    assert(w[k + n + 1] != UNDERSCORE);
                }
                assert(is_part(b, s, t));
            }
        }
        if left.declares(ext) {
            let (i, j) = choose|i: int, j: int|
                #[trigger] is_part(a, i, j) && part_names(a.subrange(i, j), ext);
            assert(w.subrange(i, j) =~= a.subrange(i, j));
            assert forall|k: int| i <= k < j implies w[k] != UNDERSCORE by {
                assert(a[k] != UNDERSCORE);
            }
            assert(is_part(w, i, j));
        }
        if right.declares(ext) {
            let (i, j) = choose|i: int, j: int|
                #[trigger] is_part(b, i, j) && part_names(b.subrange(i, j), ext);
            let (s, t) = (i + n + 1, j + n + 1);
            assert(w.subrange(s, t) =~= b.subrange(i, j));
            assert forall|k: int| s <= k < t implies w[k] != UNDERSCORE by {
                assert(b[k - n - 1] != UNDERSCORE);
            }
            assert(is_part(w, s, t));
        }
    }

    /// Where each extension of a processor is told from: the supervisor timer comparison from its
    /// node, the hypervisor extension from its node unless it is the calling hart, whose own
    /// register decides, and the advanced interrupt architecture from either.
    pub proof fn extension_sources(self, probe: HartProbe)
        ensures
            ({
                let e = self.all_extensions(probe);
                let own = self.hart_id == probe.hart_id;
                &&& e.len() == 3
                &&& e[0] == self.declares(Extension::Sstc.name().spec_bytes())
                &&& own ==> e[1] == probe.has_hypervisor
                &&& !own ==> e[1] == self.declares(Extension::Hypervisor.name().spec_bytes())
                &&& e[2] == (probe.has_smaia_csr || self.declares(
                    Extension::Smaia.name().spec_bytes(),
                ))
            }),
    {
    }
}

/// What detection leaves recorded of a hart: the extensions of the last processor that has its
/// identifier, and nothing new if none has. Nothing but extensions is touched.
pub proof fn last_processor_decides(
    cpus: Seq<Cpu>,
    probe: HartProbe,
    table: Seq<Features>,
    n: nat,
    hart: int,
)
    requires
        n <= cpus.len(),
        0 <= hart < table.len(),
        forall|i: int| 0 <= i < n ==> (#[trigger] cpus[i]).hart_id < table.len(),
    ensures
        ({
            let after = detected(cpus, probe, table, n);
            &&& after.len() == table.len()
            &&& after[hart].privileged_version == table[hart].privileged_version
            &&& after[hart].mhpm_mask == table[hart].mhpm_mask
            &&& after[hart].mhpm_bits == table[hart].mhpm_bits
            &&& (forall|i: int| 0 <= i < n ==> (#[trigger] cpus[i]).hart_id != hart) ==> after[hart]
                == table[hart]
            &&& forall|k: int|
                0 <= k < n && (#[trigger] cpus[k]).hart_id == hart && (forall|j: int|
                    k < j < n ==> (#[trigger] cpus[j]).hart_id != hart) ==> after[hart].extensions
                    == cpus[k].all_extensions(probe)
        }),
    decreases n,
{
    if n > 0 {
        last_processor_decides(cpus, probe, table, (n - 1) as nat, hart);
        assert(cpus[n - 1].hart_id < table.len());
    }
}

/// What a hart's registers add to what is known of its extensions.
pub proof fn registers_refine(probe: HartProbe, known: Seq<bool>)
    requires
        known.len() == 3,
    ensures
        probe.refined(known).len() == 3,
        probe.refined(known)[0] == known[0],
        probe.refined(known)[1] == probe.has_hypervisor,
        probe.refined(known)[2] == (known[2] || probe.has_smaia_csr),
{
}

/// A version is told by the registers of all versions up to it, and by none of the next.
pub proof fn version_told(probe: CsrProbe)
    ensures
        probe.version() is Unknown <==> !probe.mcounteren,
        probe.version() is Version1_10 <==> probe.mcounteren && !probe.mcountinhibit,
        probe.version() is Version1_11 <==> probe.mcounteren && probe.mcountinhibit
            && !probe.menvcfg,
        probe.version() is Version1_12 <==> probe.mcounteren && probe.mcountinhibit
            && probe.menvcfg,
{
}

/// The versions are in order.
pub proof fn versions_ordered(a: PrivilegedVersion)
    ensures
        a.rank() >= PrivilegedVersion::Version1_11.rank() <==> a is Version1_11 || a is Version1_12,
        a.rank() >= PrivilegedVersion::Version1_12.rank() <==> a is Version1_12,
{
}

/// Which bits a mask of counters has: the three lowest always, and the bit three above a counter's
/// place if the counter could be read and written and kept a one.
pub proof fn counter_bits(mask: u32, probes: Seq<CounterProbe>, i: u32)
    requires
        is_mhpm_mask(mask, probes),
        probes.len() == 29,
        i < 32,
    ensures
        i < 3 ==> (mask >> i) & 1 == 1,
        i >= 3 ==> ((mask >> i) & 1 == 1 <==> probes[i - 3].readable && probes[i - 3].writable
            && probes[i - 3].swapped == 1),
{
    assert(bit_set(mask, i) == (i < 3 || probes[i - 3].present()));
}

/// Machine mode is always there; the others are there if bit 18 for the supervisor, or bit 20 for
/// the user, is set in the instruction-set register.
pub proof fn modes_supported(misa: u64)
    ensures
        supports(misa, Mode::Machine),
        supports(misa, Mode::Supervisor) <==> (misa >> 18) & 1 == 1,
        supports(misa, Mode::User) <==> (misa >> 20) & 1 == 1,
{
}

/// A hart is enabled once it is to enter a mode below machine mode that it supports, and no check
/// disables a hart or touches another.
pub proof fn enabled_if_supported(enabled: Seq<bool>, hart: int, mode: Mode, misa: u64)
    requires
        0 <= hart < enabled.len(),
    ensures
        ({
            let after = enabled_for(enabled, hart, mode, misa);
            let below = mode is Supervisor && (misa >> 18) & 1 == 1 || mode is User && (misa >> 20)
                & 1 == 1;
            &&& after.len() == enabled.len()
            &&& after[hart] <==> enabled[hart] || below
            &&& forall|i: int| 0 <= i < enabled.len() && i != hart ==> after[i] == enabled[i]
        }),
{
}

} // verus!
