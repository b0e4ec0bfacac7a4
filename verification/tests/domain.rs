use prototyper::firmware::domain::{
    program_windows, write_entry, DomainRegion, Permission, PmpEntry, PmpTable, ENF_PERMISSIONS, M_RWX,
};

fn entry(perm: Permission, locked: bool, addr: usize) -> PmpEntry {
    PmpEntry { active: true, perm, locked, addr: addr >> 2 }
}

/// The entry of the table that decides on an address.
fn deciding(t: &PmpTable, addr: usize) -> Option<PmpEntry> {
    let mut bottom = 0;
    for slot in 0..16 {
        let e = t.entry(slot);
        if e.active && bottom <= addr && addr < e.addr << 2 {
            return Some(e);
        }
        bottom = e.addr << 2;
    }
    None
}

#[test]
fn region_has_an_end() {
    let r = DomainRegion::new(0x1000, 0x200, ENF_PERMISSIONS);
    assert_eq!(r.end(), 0x1200);
    assert_eq!(r.flags, 1);
    assert_eq!(M_RWX, 2);
}

#[test]
fn entry_is_written() {
    let mut t = PmpTable::new();
    assert!(!t.entry(15).active);
    write_entry(&mut t, 15, Permission::RX, true, 0x8000);
    assert_eq!(t.entry(15), PmpEntry { active: true, perm: Permission::RX, locked: true, addr: 0x2000 });
    assert!(!t.entry(14).active);
}

#[test]
fn windows_are_programmed() {
    let mut t = PmpTable::new();
    write_entry(&mut t, 0, Permission::RWX, false, 0x1000);
    let windows =
        [DomainRegion::new(0x2000, 0x1000, ENF_PERMISSIONS), DomainRegion::new(0x5000, 0x800, M_RWX)];
    assert_eq!(program_windows(&mut t, 1, 0x1000, 0x9000, &windows), Some(6));
    assert_eq!(t.entry(1), entry(Permission::RWX, false, 0x2000));
    assert_eq!(t.entry(2), entry(Permission::NONE, true, 0x3000));
    assert_eq!(t.entry(3), entry(Permission::RWX, false, 0x5000));
    assert_eq!(t.entry(4), entry(Permission::NONE, false, 0x5800));
    assert_eq!(t.entry(5), entry(Permission::RWX, false, 0x9000));
    assert!(!t.entry(6).active);
}

#[test]
fn exactly_the_windows_are_denied() {
    let mut t = PmpTable::new();
    let windows =
        [DomainRegion::new(0x2000, 0x1000, ENF_PERMISSIONS), DomainRegion::new(0x5000, 0x800, M_RWX)];
    program_windows(&mut t, 0, 0, 0x9000, &windows).unwrap();
    for addr in (0..0x9000).step_by(4) {
        let e = deciding(&t, addr).unwrap();
        let held = windows.iter().find(|w| w.base <= addr && addr < w.end());
        assert_eq!(e.perm == Permission::NONE, held.is_some());
        if let Some(w) = held {
            assert_eq!(e.locked, w.flags & ENF_PERMISSIONS != 0);
        }
    }
    assert_eq!(deciding(&t, 0x9000), None);
}

#[test]
fn table_is_not_exceeded() {
    let mut t = PmpTable::new();
    let w = DomainRegion::new(0x1000, 0x1000, M_RWX);
    assert_eq!(program_windows(&mut t, 0, 0, 0x9000, &[w; 8]), None);
    assert_eq!(program_windows(&mut t, 2, 0, 0x9000, &[w; 7]), None);
    assert_eq!(program_windows(&mut t, 16, 0, 0x9000, &[]), None);
    assert_eq!(program_windows(&mut t, usize::MAX, 0, 0x9000, &[]), None);
    assert!(!t.entry(0).active);
    assert_eq!(program_windows(&mut t, 15, 0, 0x9000, &[]), Some(16));
    assert_eq!(program_windows(&mut t, 1, 0, 0x9000, &[w; 7]), Some(16));
}
