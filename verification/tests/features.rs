use prototyper::sbi::delegation::{configure_delegation_and_trap, Csr, CsrOp, HartSetup};
use prototyper::sbi::features::{
    check_extension_in_device_tree, check_privilege, detect_hart_features, extension_detection, has_extension,
    hart_extension_probe, hart_mhpm_mask, hart_privileged_version, init, CounterProbe, Cpu, CsrProbe, Extension,
    HartFeatures, HartProbe, PrivilegedVersion,
};
use prototyper::sbi::hsm::Mode;

fn cpu(hart_id: usize, list: Option<&[&str]>, isa: Option<&str>) -> Cpu {
    Cpu {
        hart_id,
        isa_extensions: list.map(|l| l.iter().map(|s| s.as_bytes().to_vec()).collect()),
        isa: isa.map(|s| s.as_bytes().to_vec()),
    }
}

fn probe(hart_id: usize, has_hypervisor: bool, has_smaia_csr: bool) -> HartProbe {
    HartProbe { hart_id, has_hypervisor, has_smaia_csr }
}

const ABSENT: CounterProbe = CounterProbe { readable: false, writable: false, swapped: 0 };
const PRESENT: CounterProbe = CounterProbe { readable: true, writable: true, swapped: 1 };

#[test]
fn extensions_have_names_and_places() {
    let names: Vec<&str> = Extension::iter().iter().map(|e| e.as_str()).collect();
    assert_eq!(names, vec!["sstc", "h", "smaia"]);
    for (i, e) in Extension::iter().iter().enumerate() {
        assert_eq!(e.index(), i);
    }
    assert_eq!(Extension::iter().len(), Extension::COUNT);
}

#[test]
fn versions_are_ordered() {
    assert!(PrivilegedVersion::Unknown < PrivilegedVersion::Version1_10);
    assert!(PrivilegedVersion::Version1_11 < PrivilegedVersion::Version1_12);
    assert!(!PrivilegedVersion::Version1_10.since_1_11());
    assert!(PrivilegedVersion::Version1_11.since_1_11());
    assert!(!PrivilegedVersion::Version1_11.since_1_12());
    assert!(PrivilegedVersion::Version1_12.since_1_12());
}

#[test]
fn extension_list_is_decisive() {
    let c = cpu(0, Some(&["i", "sstc"]), Some("rv64imafdch_smaia"));
    assert!(check_extension_in_device_tree("sstc", &c));
    assert!(!check_extension_in_device_tree("smaia", &c));
    assert!(!check_extension_in_device_tree("h", &c));
    assert!(!check_extension_in_device_tree("sstc", &cpu(0, Some(&[]), Some("rv64_sstc"))));
}

#[test]
fn instruction_set_string_is_split() {
    let c = cpu(0, None, Some("rv64imafdch_zicsr_sstc"));
    assert!(check_extension_in_device_tree("sstc", &c));
    assert!(check_extension_in_device_tree("zicsr", &c));
    assert!(check_extension_in_device_tree("h", &c));
    assert!(!check_extension_in_device_tree("sst", &c));
    assert!(!check_extension_in_device_tree("smaia", &c));
    assert!(!check_extension_in_device_tree("q", &c));
    // A single letter counts wherever it stands in a part.
    assert!(check_extension_in_device_tree("h", &cpu(0, None, Some("rv64imac_zihpm"))));
    assert!(!check_extension_in_device_tree("h", &cpu(0, None, None)));
    assert!(check_extension_in_device_tree("", &cpu(0, None, Some("a__b"))));
    assert!(!check_extension_in_device_tree("", &cpu(0, None, Some("a_b"))));
}

#[test]
fn extensions_are_detected() {
    let mut table = vec![HartFeatures::new(); 3];
    let cpus = [
        cpu(0, Some(&["sstc", "h"]), None),
        cpu(2, None, Some("rv64imach")),
    ];
    extension_detection(&cpus, &probe(0, false, false), &mut table);
    assert!(hart_extension_probe(&table, 0, Extension::Sstc));
    // The calling hart's own register decides.
    assert!(!hart_extension_probe(&table, 0, Extension::Hypervisor));
    assert!(!hart_extension_probe(&table, 0, Extension::Smaia));
    assert!(hart_extension_probe(&table, 2, Extension::Hypervisor));
    assert!(!hart_extension_probe(&table, 1, Extension::Sstc));
    extension_detection(&cpus, &probe(2, false, true), &mut table);
    assert!(hart_extension_probe(&table, 0, Extension::Hypervisor));
    assert!(!hart_extension_probe(&table, 2, Extension::Hypervisor));
    assert!(hart_extension_probe(&table, 0, Extension::Smaia));
    assert!(hart_extension_probe(&table, 2, Extension::Smaia));
    assert!(!hart_extension_probe(&table, 1, Extension::Smaia));
}

fn version(mcounteren: bool, mcountinhibit: bool, menvcfg: bool) -> PrivilegedVersion {
    let mut table = vec![HartFeatures::new()];
    let csrs = CsrProbe { mcounteren, mcountinhibit, menvcfg };
    detect_hart_features(&mut table, &probe(0, false, false), &csrs, &[ABSENT; 29]);
    hart_privileged_version(&table, 0)
}

#[test]
fn versions_are_detected() {
    assert_eq!(version(false, true, true), PrivilegedVersion::Unknown);
    assert_eq!(version(true, false, true), PrivilegedVersion::Version1_10);
    assert_eq!(version(true, true, false), PrivilegedVersion::Version1_11);
    assert_eq!(version(true, true, true), PrivilegedVersion::Version1_12);
}

#[test]
fn counters_are_detected() {
    let csrs = CsrProbe { mcounteren: true, mcountinhibit: true, menvcfg: true };
    let mut table = vec![HartFeatures::new(); 2];
    detect_hart_features(&mut table, &probe(1, false, false), &csrs, &[ABSENT; 29]);
    assert_eq!(hart_mhpm_mask(&table, 1), 0b111);
    assert_eq!(hart_mhpm_mask(&table, 0), 0);
    detect_hart_features(&mut table, &probe(1, false, false), &csrs, &[PRESENT; 29]);
    assert_eq!(hart_mhpm_mask(&table, 1), u32::MAX);
    let mut some = [ABSENT; 29];
    some[0] = PRESENT;
    some[1] = CounterProbe { readable: true, writable: true, swapped: 0 };
    some[2] = CounterProbe { readable: true, writable: false, swapped: 1 };
    some[28] = PRESENT;
    detect_hart_features(&mut table, &probe(1, false, false), &csrs, &some);
    assert_eq!(hart_mhpm_mask(&table, 1), 0x8000_000f);
    assert_eq!(table[1].privileged_version(), PrivilegedVersion::Version1_12);
}

#[test]
fn extensions_of_the_calling_hart_are_detected() {
    let csrs = CsrProbe { mcounteren: true, mcountinhibit: true, menvcfg: true };
    let mut table = vec![HartFeatures::new(); 2];
    extension_detection(
        &[cpu(0, Some(&["sstc", "h"]), None), cpu(1, Some(&["sstc", "h"]), None)],
        &probe(0, true, false),
        &mut table,
    );
    detect_hart_features(&mut table, &probe(1, false, true), &csrs, &[ABSENT; 29]);
    assert!(table[1].has(Extension::Sstc));
    assert!(!table[1].has(Extension::Hypervisor));
    assert!(table[1].has(Extension::Smaia));
    assert!(table[0].has(Extension::Hypervisor));
    assert!(!table[0].has(Extension::Smaia));
    detect_hart_features(&mut table, &probe(1, true, false), &csrs, &[ABSENT; 29]);
    assert!(table[1].has(Extension::Hypervisor));
    assert!(table[1].has(Extension::Smaia));
}

#[test]
fn simulator_features() {
    let table = init(2);
    assert_eq!(table.len(), 2);
    assert!(hart_extension_probe(&table, 1, Extension::Sstc));
    assert!(!table[1].has(Extension::Smaia));
    assert_eq!(hart_privileged_version(&table, 0), PrivilegedVersion::Version1_12);
}

#[test]
fn privilege_is_checked() {
    let s = 1 << 18;
    let u = 1 << 20;
    let mut enabled = vec![false; 2];
    assert!(!check_privilege(Mode::Supervisor, u, 1, &mut enabled));
    assert!(!check_privilege(Mode::User, s, 1, &mut enabled));
    assert!(check_privilege(Mode::Machine, 0, 1, &mut enabled));
    assert_eq!(enabled, vec![false, false]);
    assert!(check_privilege(Mode::Supervisor, s, 1, &mut enabled));
    assert_eq!(enabled, vec![false, true]);
    assert!(check_privilege(Mode::User, u, 0, &mut enabled));
    assert_eq!(enabled, vec![true, true]);
    assert!(has_extension(1 << 7, 7));
}

fn setup() -> HartSetup {
    HartSetup { mstatus: 0x80, misa: 0, is_k3: false, aia_active: false, has_mstateen0: false }
}

fn features(v: bool, sstc: bool, smaia: bool) -> HartFeatures {
    let mut table = vec![HartFeatures::new()];
    let mut list = Vec::new();
    if sstc {
        list.push("sstc");
    }
    if smaia {
        list.push("smaia");
    }
    extension_detection(&[cpu(0, Some(&list), None)], &probe(0, false, false), &mut table);
    let csrs = CsrProbe { mcounteren: v, mcountinhibit: v, menvcfg: v };
    detect_hart_features(&mut table, &probe(0, false, false), &csrs, &[ABSENT; 29]);
    table[0]
}

#[test]
fn oldest_hart_is_set_up() {
    let ops = configure_delegation_and_trap(&setup(), &features(false, true, true));
    assert_eq!(
        ops,
        vec![
            CsrOp::Write(Csr::Mideleg, (1 << 1) | (1 << 5) | (1 << 9)),
            CsrOp::Write(Csr::Medeleg, !0),
            CsrOp::Write(Csr::Mcounteren, !0),
            CsrOp::Write(Csr::Scounteren, 7),
            CsrOp::ClearBits(Csr::Medeleg, 1 << 9),
            CsrOp::ClearBits(Csr::Medeleg, 1 << 4),
            CsrOp::ClearBits(Csr::Medeleg, 1 << 6),
            CsrOp::ClearBits(Csr::Medeleg, 1 << 2),
            CsrOp::TrapVector,
        ]
    );
}

#[test]
fn newest_hart_is_set_up() {
    let all = HartSetup {
        mstatus: 0x80,
        misa: (1 << 3) | (1 << 21),
        is_k3: true,
        aia_active: true,
        has_mstateen0: true,
    };
    let ops = configure_delegation_and_trap(&all, &features(true, true, true));
    assert_eq!(ops[0], CsrOp::Write(Csr::Mstatus, 0x80 | (0b11 << 13) | (0b11 << 9)));
    assert_eq!(ops[9], CsrOp::ClearBits(Csr::Medeleg, 1 << 5));
    assert_eq!(ops[10], CsrOp::ClearBits(Csr::Medeleg, 1 << 7));
    assert_eq!(ops[11], CsrOp::Write(Csr::Mcountinhibit, !0b111));
    let env = (1 << 62) | (0b11 << 4) | (1 << 6) | (1 << 7);
    assert_eq!(ops[12], CsrOp::SetBits(Csr::Menvcfg, (1 << 63) | env));
    let base = (1 << 63) | (1 << 57) | (1 << 62);
    assert_eq!(ops[13], CsrOp::Write(Csr::Mstateen0, base | (1 << 59) | (1 << 58) | (1 << 60)));
    assert_eq!(ops[14], CsrOp::TrapVector);
    assert_eq!(ops.len(), 15);
    // Without the timer extension and the interrupt architecture.
    let ops = configure_delegation_and_trap(&all, &features(true, false, false));
    assert_eq!(ops[12], CsrOp::SetBits(Csr::Menvcfg, env));
    assert_eq!(ops[13], CsrOp::Write(Csr::Mstateen0, base));
    let bare = HartSetup { has_mstateen0: false, ..all };
    assert_eq!(configure_delegation_and_trap(&bare, &features(true, false, true)).len(), 14);
}

#[test]
fn status_is_written_only_if_it_changes() {
    let on = HartSetup { mstatus: 0b11 << 13, misa: 1 << 5, ..setup() };
    let ops = configure_delegation_and_trap(&on, &features(false, false, false));
    assert!(matches!(ops[0], CsrOp::Write(Csr::Mideleg, _)));
}
