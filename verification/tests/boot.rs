use prototyper::platform::boot::{
    detect_soc, init_board, memory_range, secondary_hart_init, wait_until_ready, wakeup_hart, BoardInfo,
    Discovery, InitStep, Soc,
};
use prototyper::platform::mbox::{locate_rpmi_mailbox, MboxError, MboxNode, QueueLayout, Region};

fn region(start: usize, size: usize) -> Region {
    Region { start, end: start + size }
}

fn node(compatible: &[&str], slot_size: Option<u32>, reg: Option<Vec<Region>>) -> MboxNode {
    MboxNode {
        compatible: compatible.iter().map(|s| s.as_bytes().to_vec()).collect(),
        slot_size,
        reg,
    }
}

fn regions() -> Vec<Region> {
    vec![
        region(0x1_0000, 0x1000),
        region(0x2_0000, 0x1000),
        region(0x3_0000, 0x10ff),
        region(0x4_0000, 0x200),
        region(0x5_0000, 4),
    ]
}

const MBOX: &str = "riscv,rpmi-shmem-mbox";

#[test]
fn mailbox_is_located() {
    let nodes = [
        node(&["simple-bus"], None, None),
        node(&["vendor,mbox", MBOX], Some(256), Some(regions())),
        node(&[MBOX], None, None),
    ];
    let m = locate_rpmi_mailbox(&nodes).unwrap();
    assert_eq!(m.slot_size, 256);
    assert_eq!(m.doorbell, 0x5_0000);
    assert_eq!(
        m.a2p_req,
        QueueLayout {
            head: 0x1_0000,
            tail: 0x1_0100,
            buffer: 0x1_0200,
            slot_size: 256,
            num_slots: 14
        }
    );
    assert_eq!(m.p2a_ack.head, 0x2_0000);
    assert_eq!(m.p2a_req.num_slots, 14);
    assert_eq!(m.a2p_ack.num_slots, 0);
}

#[test]
fn incomplete_mailboxes_are_refused() {
    let few = regions()[..4].to_vec();
    assert_eq!(locate_rpmi_mailbox(&[]), Err(MboxError::NotFound));
    assert_eq!(
        locate_rpmi_mailbox(&[node(&["riscv,rpmi-shmem"], Some(256), Some(regions()))]),
        Err(MboxError::NotFound)
    );
    assert_eq!(
        locate_rpmi_mailbox(&[node(&[MBOX], None, None), node(&[MBOX], Some(256), Some(regions()))]),
        Err(MboxError::MissingSlotSize)
    );
    assert_eq!(
        locate_rpmi_mailbox(&[node(&[MBOX], Some(127), None)]),
        Err(MboxError::SlotTooSmall)
    );
    assert_eq!(
        locate_rpmi_mailbox(&[node(&[MBOX], Some(128), None)]),
        Err(MboxError::MissingReg)
    );
    assert_eq!(
        locate_rpmi_mailbox(&[node(&[MBOX], Some(128), Some(few))]),
        Err(MboxError::TooFewRegions)
    );
}

#[test]
fn room_in_regions_is_told() {
    assert!(node(&[MBOX], Some(256), Some(regions())).has_room());
    assert!(!node(&[MBOX], Some(512), Some(regions())).has_room());
    assert!(node(&[MBOX], Some(64), Some(regions())).has_room());
    assert_eq!(Region { start: 5, end: 3 }.len(), 0);
    assert_eq!(region(5, 3).len(), 3);
}

#[test]
fn system_on_chip_is_told() {
    assert_eq!(detect_soc(true, true), Soc::K3);
    assert_eq!(detect_soc(true, false), Soc::K3);
    assert_eq!(detect_soc(false, true), Soc::K1);
    assert_eq!(detect_soc(false, false), Soc::Generic);
}

fn discovery(ipi: bool, k3: bool, k1: bool) -> Discovery {
    Discovery {
        console: true,
        ipi,
        reset: false,
        pmu: true,
        nodes: Vec::new(),
        k3_match: k3,
        k1_match: k1,
    }
}

#[test]
fn board_is_initialized_in_order() {
    let steps = init_board(&discovery(true, true, true), 3);
    assert_eq!(steps.len(), 8);
    match steps[0] {
        InitStep::PublishExtensions(e) => {
            assert!(e.console && e.ipi && e.hsm && e.rfence && e.susp && e.pmu && !e.reset);
            assert!(e.fwft && e.dbtr && e.cppc && e.sse && e.mpxy && e.sta && e.nacl);
        }
        _ => panic!("the extensions come first"),
    }
    assert_eq!(
        steps[1..],
        [
            InitStep::NoMailbox(MboxError::NotFound),
            InitStep::PublishBoard,
            InitStep::RecordSoc(Soc::K3),
            InitStep::Release,
            InitStep::PrintBoard,
            InitStep::ColdBoot(Soc::K3, 3),
            InitStep::EarlyInit(Soc::K3),
        ]
    );
}

#[test]
fn extensions_need_their_devices() {
    let steps = init_board(&discovery(false, false, false), 0);
    assert_eq!(steps.len(), 6);
    match steps[0] {
        InitStep::PublishExtensions(e) => {
            assert!(!e.ipi && !e.hsm && !e.rfence && !e.susp && e.mpxy)
        }
        _ => panic!("the extensions come first"),
    }
}

#[test]
fn mailbox_is_injected() {
    let mut d = discovery(true, false, true);
    d.nodes.push(node(&[MBOX], Some(256), Some(regions())));
    let steps = init_board(&d, 0);
    assert!(matches!(steps[1], InitStep::InjectMailbox(m) if m.doorbell == 0x5_0000));
    assert_eq!(steps[6], InitStep::ColdBoot(Soc::K1, 0));
}

#[test]
fn per_hart_hooks() {
    assert_eq!(secondary_hart_init(Soc::K3, 2), Some(InitStep::ColdBoot(Soc::K3, 2)));
    assert_eq!(secondary_hart_init(Soc::K1, 2), Some(InitStep::ColdBoot(Soc::K1, 2)));
    assert_eq!(secondary_hart_init(Soc::Generic, 2), None);
    assert_eq!(wakeup_hart(Soc::K3, 4), Some(4));
    assert_eq!(wakeup_hart(Soc::K1, 4), None);
    assert_eq!(wakeup_hart(Soc::Generic, 4), None);
}

#[test]
fn waiting_for_the_boot_hart() {
    assert_eq!(wait_until_ready(&[false, false, true, false]), Some(2));
    assert_eq!(wait_until_ready(&[true]), Some(0));
    assert_eq!(wait_until_ready(&[false, false]), None);
}

#[test]
fn memory_range_of_a_board() {
    let board = BoardInfo { memory_range: Some(region(0x8000_0000, 0x1000)) };
    assert_eq!(memory_range(&board), region(0x8000_0000, 0x1000));
}
