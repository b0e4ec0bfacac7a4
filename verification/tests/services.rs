use prototyper::binary::{SbiRet, SharedPtr, TriggerMask};
use prototyper::ext::dbtr::Dbtr;
use prototyper::ext::fwft::Fwft;
use prototyper::ext::mpxy::Mpxy;
use prototyper::ext::sse::Sse;
use prototyper::rpmi::mailbox::RpmiMailbox;
use prototyper::rpmi::queue_idx::A2P_REQ;
use prototyper::rpmi::smq::{Le32, SmqQueue};
use prototyper::sbi::dbtr::{probe_triggers, SbiDbtr, TriggerSample};
use prototyper::sbi::fwft::{self, FwftAction, FwftCall, SbiFwft};
use prototyper::sbi::nacl::{SbiNacl, ZeroFill, NACL_SHMEM_SIZE};
use prototyper::sbi::reset::{self, ResetChoice, ResetDevice, ResetFacts, RpmiResetWrap, SbiReset};
use prototyper::sbi::sse::{EventState, SbiSse};
use prototyper::sbi::sta::SbiSta;
use sbi_spec::binary::SbiRet as SpecRet;
use sbi_spec::fwft::feature_type;

fn same(r: SbiRet, expected: SpecRet<usize>) {
    assert_eq!(r.error, expected.error);
    assert_eq!(r.value, expected.value);
}

/// Registers of a hart that implements some bits of the environment register.
struct Regs {
    misa: usize,
    medeleg: usize,
    menvcfg: usize,
    implemented: usize,
}

impl Regs {
    fn serve(&mut self, call: FwftCall) -> SbiRet {
        let mut call = call;
        loop {
            let reply = match call.action() {
                FwftAction::ReadMisa => self.misa,
                FwftAction::ReadMedeleg => self.medeleg,
                FwftAction::WriteMedeleg(v) => {
                    self.medeleg = v;
                    0
                }
                FwftAction::ReadMenvcfg => self.menvcfg,
                FwftAction::WriteMenvcfg(v) => {
                    self.menvcfg = (v & self.implemented) | (self.menvcfg & !self.implemented);
                    0
                }
                FwftAction::Return(r) => return r,
            };
            call = call.step(reply);
        }
    }
}

impl Fwft for Regs {
    fn set(&mut self, feature_id: u32, value: usize, flags: usize) -> SbiRet {
        let call = SbiFwft.set(feature_id, value, flags);
        self.serve(call)
    }
    fn get(&mut self, feature_id: u32) -> SbiRet {
        let call = SbiFwft.get(feature_id);
        self.serve(call)
    }
}

fn hart() -> Regs {
    Regs { misa: 1 << 18, medeleg: 0xb109, menvcfg: 0, implemented: usize::MAX }
}

#[test]
fn features_are_those_of_the_interface() {
    assert_eq!(fwft::MISALIGNED_EXC_DELEG as usize, feature_type::MISALIGNED_EXC_DELEG);
    assert_eq!(fwft::LANDING_PAD as usize, feature_type::LANDING_PAD);
    assert_eq!(fwft::SHADOW_STACK as usize, feature_type::SHADOW_STACK);
    assert_eq!(fwft::DOUBLE_TRAP as usize, feature_type::DOUBLE_TRAP);
    assert_eq!(fwft::PTE_AD_HW_UPDATING as usize, feature_type::PTE_AD_HW_UPDATING);
    assert_eq!(fwft::POINTER_MASKING_PMLEN as usize, feature_type::POINTER_MASKING_PMLEN);
}

#[test]
fn misaligned_delegation() {
    let mut h = hart();
    same(h.get(0), SpecRet::success(0));
    same(h.set(0, 1, 0), SpecRet::success(0));
    assert_eq!(h.medeleg, 0xb109 | 0x50);
    same(h.get(0), SpecRet::success(1));
    same(h.set(0, 2, 0), SpecRet::invalid_param());
    same(h.set(0, 0, 1), SpecRet::invalid_param());
    same(h.set(0, 0, 0), SpecRet::success(0));
    assert_eq!(h.medeleg, 0xb109);
    h.misa = 0;
    same(h.set(0, 1, 0), SpecRet::not_supported());
    same(h.get(0), SpecRet::not_supported());
}

#[test]
fn environment_fields() {
    let mut h = hart();
    for (id, bit) in [(1u32, 1usize), (2, 1 << 8), (3, 1 << 1), (4, 1 << 5)] {
        same(h.get(id), SpecRet::success(0));
        same(h.set(id, 1, 0), SpecRet::success(0));
        assert_eq!(h.menvcfg, bit);
        same(h.get(id), SpecRet::success(1));
        same(h.set(id, 2, 0), SpecRet::invalid_param());
        same(h.set(id, 0, 0), SpecRet::success(0));
        assert_eq!(h.menvcfg, 0);
    }
    h.menvcfg = 0xf000;
    for v in 0..4 {
        same(h.set(5, v, 0), SpecRet::success(0));
        assert_eq!(h.menvcfg, 0xf000 | (v << 9));
        same(h.get(5), SpecRet::success(v));
    }
    same(h.set(5, 4, 0), SpecRet::invalid_param());
}

#[test]
fn missing_fields_are_not_supported() {
    let mut h = hart();
    h.implemented = 0x20;
    same(h.set(1, 1, 0), SpecRet::not_supported());
    same(h.get(1), SpecRet::not_supported());
    same(h.set(1, 0, 0), SpecRet::not_supported());
    same(h.set(1, 2, 0), SpecRet::invalid_param());
    for v in 0..4 {
        same(h.set(5, v, 0), SpecRet::not_supported());
    }
    same(h.get(5), SpecRet::not_supported());
    assert_eq!(h.menvcfg, 0);
    same(h.set(4, 1, 0), SpecRet::success(0));
    same(h.get(4), SpecRet::success(1));
    assert_eq!(h.menvcfg, 0x20);
}

#[test]
fn a_field_with_some_bits_reads_back_what_could_be_set() {
    let mut h = hart();
    h.implemented = 0x400;
    for (v, ok) in [(0, true), (1, false), (2, true), (3, false)] {
        h.menvcfg = 0;
        if ok {
            same(h.set(5, v, 0), SpecRet::success(0));
            same(h.get(5), SpecRet::success(v));
        } else {
            same(h.set(5, v, 0), SpecRet::not_supported());
        }
    }
}

#[test]
fn reserved_features_are_denied() {
    let mut h = hart();
    same(h.set(6, 0, 0), SpecRet::denied());
    same(h.set(6, 0, 1), SpecRet::invalid_param());
    same(h.get(0xffff_ffff), SpecRet::denied());
}

fn sample(tselect: usize, kind: usize) -> TriggerSample {
    TriggerSample { tselect, tdata1: kind << 28 }
}

#[test]
fn triggers_are_counted() {
    assert_eq!(probe_triggers(&[]), 0);
    assert_eq!(probe_triggers(&[sample(0, 6), sample(1, 0), sample(2, 15), sample(2, 6)]), 2);
    assert_eq!(probe_triggers(&[sample(1, 6)]), 0);
    let all: Vec<TriggerSample> = (0..300).map(|i| sample(i, 2)).collect();
    assert_eq!(probe_triggers(&all), 256);
}

#[test]
fn trigger_extension() {
    let mut d = SbiDbtr::new(vec![sample(0, 6), sample(1, 6)]);
    assert_eq!(d.num_triggers(0), 2);
    assert_eq!(d.num_triggers(5), 0);
    same(d.set_shmem(SharedPtr::new(0x1000, 0), 0), SpecRet::success(0));
    same(d.set_shmem(SharedPtr::new(usize::MAX, usize::MAX), 0), SpecRet::success(0));
    same(d.read_triggers(0, 1), SpecRet::not_supported());
    same(d.install_triggers(1), SpecRet::not_supported());
    same(d.update_triggers(1), SpecRet::not_supported());
    let mask = TriggerMask { trig_idx_base: 0, trig_idx_mask: 1 };
    same(d.uninstall_triggers(mask), SpecRet::not_supported());
    same(d.enable_triggers(mask), SpecRet::not_supported());
    same(d.disable_triggers(mask), SpecRet::not_supported());
    assert_eq!(d._rustsbi_probe(), 1);
    let mut none = SbiDbtr::new(vec![]);
    same(none.set_shmem(SharedPtr::new(0x1000, 0), 0), SpecRet::not_supported());
    assert_eq!(none.num_triggers(0), 0);
}

#[test]
fn event_runs_through_its_states() {
    let mut s = SbiSse::new();
    let mut attrs = [0xffu8; 8];
    same(s.enable(1), SpecRet::invalid_state());
    same(s.register(1, 0x100, 0x200), SpecRet::success(0));
    same(s.register(1, 0x100, 0x200), SpecRet::invalid_state());
    same(s.inject(1, 0), SpecRet::invalid_state());
    same(s.complete(), SpecRet::invalid_state());
    same(s.enable(1), SpecRet::success(0));
    same(s.enable(1), SpecRet::invalid_state());
    same(s.unregister(1), SpecRet::invalid_state());
    same(s.inject(1, 0), SpecRet::success(0));
    same(s.read_attrs(1, 0, 2, &mut attrs), SpecRet::success(0));
    assert_eq!(attrs, [4, 0, 0, 0, 0, 0, 0, 0]);
    assert_eq!(EventState::Running.bits(), 4);
    same(s.complete(), SpecRet::success(0));
    same(s.read_attrs(1, 0, 1, &mut attrs), SpecRet::success(0));
    assert_eq!(attrs[0], 2);
    same(s.disable(1), SpecRet::success(0));
    same(s.disable(1), SpecRet::invalid_state());
    same(s.enable(1), SpecRet::success(0));
    same(s.inject(1, 0), SpecRet::success(0));
    same(s.disable(1), SpecRet::success(0));
    same(s.unregister(1), SpecRet::success(0));
    same(s.register(1, 1, 2), SpecRet::success(0));
}

#[test]
fn unknown_events_are_not_supported() {
    let mut s = SbiSse::new();
    for id in [0u32, 4, 0x8000_0001] {
        same(s.register(id, 0, 0), SpecRet::not_supported());
        same(s.unregister(id), SpecRet::not_supported());
        same(s.enable(id), SpecRet::not_supported());
        same(s.disable(id), SpecRet::not_supported());
        same(s.inject(id, 0), SpecRet::not_supported());
        same(s.read_attrs(id, 0, 0, &mut []), SpecRet::not_supported());
        same(s.write_attrs(id, 0, 0, &[]), SpecRet::not_supported());
    }
    for id in 1..4u32 {
        same(s.register(id, 0, 0), SpecRet::success(0));
    }
    same(s.hart_mask(), SpecRet::success(0));
    same(s.hart_unmask(), SpecRet::success(0));
}

#[test]
fn event_attributes() {
    let mut s = SbiSse::new();
    let mut out = [0u8; 16];
    same(s.write_attrs(2, 1, 1, &[4, 3, 2, 1]), SpecRet::success(0));
    same(s.read_attrs(2, 1, 1, &mut out), SpecRet::success(0));
    assert_eq!(out[..4], [4, 3, 2, 1]);
    same(s.write_attrs(2, 0, 1, &[0; 4]), SpecRet::denied());
    same(s.write_attrs(2, 2, 1, &[0; 4]), SpecRet::bad_range());
    // The priority is written before the range turns out to be bad.
    same(s.write_attrs(2, 1, 2, &[9, 0, 0, 0, 0, 0, 0, 0]), SpecRet::bad_range());
    let mut out = [0xffu8; 12];
    same(s.read_attrs(2, 0, 3, &mut out), SpecRet::bad_range());
    assert_eq!(out, [0, 0, 0, 0, 9, 0, 0, 0, 0xff, 0xff, 0xff, 0xff]);
    same(s.read_attrs(2, u32::MAX, 1, &mut out), SpecRet::bad_range());
    same(s.read_attrs(2, 7, 0, &mut out), SpecRet::success(0));
    same(s.read_attrs(1, 1, 1, &mut out), SpecRet::success(0));
    assert_eq!(out[..4], [0; 4]);
}

#[test]
fn first_running_event_is_completed() {
    let mut s = SbiSse::new();
    for id in 2..4u32 {
        s.register(id, 0, 0);
        s.enable(id);
        s.inject(id, 0);
    }
    let mut a = [0u8; 4];
    same(s.complete(), SpecRet::success(0));
    s.read_attrs(2, 0, 1, &mut a);
    assert_eq!(a[0], 2);
    s.read_attrs(3, 0, 1, &mut a);
    assert_eq!(a[0], 4);
}

#[test]
fn missing_extensions_are_not_supported() {
    let mut none: Option<SbiSse> = None;
    same(none.enable(1), SpecRet::not_supported());
    same(none.complete(), SpecRet::not_supported());
    same(none.read_attrs(1, 0, 1, &mut [0; 4]), SpecRet::not_supported());
    assert_eq!(none._rustsbi_probe(), sbi_spec::base::UNAVAILABLE_EXTENSION);
    let mut some = Some(SbiSse::new());
    same(some.register(1, 0, 0), SpecRet::success(0));
    same(some.enable(1), SpecRet::success(0));
    assert_eq!(some._rustsbi_probe(), sbi_spec::base::UNAVAILABLE_EXTENSION + 1);
    let mut none: Option<SbiDbtr> = None;
    assert_eq!(none.num_triggers(0), 0);
    same(none.install_triggers(1), SpecRet::not_supported());
    let mut none: Option<Regs> = None;
    same(none.get(0), SpecRet::not_supported());
    assert_eq!(none._rustsbi_probe(), 0);
}

#[test]
fn borrowed_extension_is_the_extension() {
    let mut s = SbiSse::new();
    let mut r = &mut s;
    same(Sse::register(&mut r, 1, 0, 0), SpecRet::success(0));
    same(Sse::register(&mut r, 1, 0, 0), SpecRet::invalid_state());
    assert_eq!(Sse::_rustsbi_probe(&r), 1);
    same(s.enable(1), SpecRet::success(0));
}

/// A proxy that counts its calls.
struct Counting(usize);

impl Mpxy for Counting {
    fn get_shmem_size(&mut self) -> usize {
        self.0 += 1;
        4096
    }
    fn set_shmem(&mut self, shmem: SharedPtr, flags: usize) -> SbiRet {
        SbiRet { error: flags, value: shmem.phys_addr_lo }
    }
    fn get_channel_ids(&mut self, start_index: u32) -> SbiRet {
        SbiRet { error: 0, value: start_index as usize }
    }
    fn read_attributes(&mut self, channel_id: u32, base: u32, count: u32, output: SharedPtr) -> SbiRet {
        SbiRet { error: (base + count) as usize, value: channel_id as usize + output.phys_addr_hi }
    }
    fn write_attributes(&mut self, channel_id: u32, base: u32, count: u32, input: SharedPtr) -> SbiRet {
        SbiRet { error: (base * count) as usize, value: channel_id as usize + input.phys_addr_hi }
    }
    fn send_message_with_response(&mut self, channel_id: u32, message_id: u32, len: usize) -> SbiRet {
        SbiRet { error: channel_id as usize, value: message_id as usize + len }
    }
    fn send_message_without_response(&mut self, channel_id: u32, message_id: u32, len: usize) -> SbiRet {
        SbiRet { error: channel_id as usize, value: message_id as usize * len }
    }
    fn get_notification_events(&mut self, channel_id: u32) -> SbiRet {
        SbiRet { error: 0, value: channel_id as usize }
    }
}

#[test]
fn proxy_interface_forwards() {
    let mut p = Some(Counting(0));
    assert_eq!(p.get_shmem_size(), 4096);
    assert_eq!(p.as_ref().unwrap().0, 1);
    assert_eq!(p.set_shmem(SharedPtr::new(5, 0), 2), SbiRet { error: 2, value: 5 });
    assert_eq!(p.get_channel_ids(7).value, 7);
    assert_eq!(p.read_attributes(1, 2, 3, SharedPtr::new(0, 4)), SbiRet { error: 5, value: 5 });
    assert_eq!(p.write_attributes(1, 2, 3, SharedPtr::new(0, 4)), SbiRet { error: 6, value: 5 });
    assert_eq!(p.send_message_with_response(1, 2, 3), SbiRet { error: 1, value: 5 });
    assert_eq!(p.send_message_without_response(1, 2, 3), SbiRet { error: 1, value: 6 });
    assert_eq!(p.get_notification_events(9).value, 9);
    assert_eq!(p._rustsbi_probe(), 1);
    let mut none: Option<Counting> = None;
    assert_eq!(none.get_shmem_size(), 0);
    same(none.send_message_with_response(1, 2, 3), SpecRet::not_supported());
    assert_eq!(none._rustsbi_probe(), 0);
}

/// A reset device that records what it is asked for.
struct Recorder(Vec<(char, u16)>);

impl ResetDevice for Recorder {
    fn fail(&mut self, code: u16) {
        self.0.push(('f', code));
    }
    fn pass(&mut self) {
        self.0.push(('p', 0));
    }
    fn reset(&mut self) {
        self.0.push(('r', 0));
    }
}

#[test]
fn reset_types_are_those_of_the_interface() {
    assert_eq!(reset::RESET_TYPE_SHUTDOWN, sbi_spec::srst::RESET_TYPE_SHUTDOWN);
    assert_eq!(reset::RESET_TYPE_COLD_REBOOT, sbi_spec::srst::RESET_TYPE_COLD_REBOOT);
    assert_eq!(reset::RESET_TYPE_WARM_REBOOT, sbi_spec::srst::RESET_TYPE_WARM_REBOOT);
    assert_eq!(reset::RESET_REASON_NO_REASON, sbi_spec::srst::RESET_REASON_NO_REASON);
    assert_eq!(reset::RESET_REASON_SYSTEM_FAILURE, sbi_spec::srst::RESET_REASON_SYSTEM_FAILURE);
}

#[test]
fn system_is_reset() {
    let mut s = SbiReset::new(Recorder(Vec::new()));
    assert_eq!(s.system_reset(0, 0), None);
    assert_eq!(s.system_reset(0, 1), None);
    assert_eq!(s.system_reset(0, 0x1_0007), None);
    assert_eq!(s.system_reset(1, 0), None);
    assert_eq!(s.system_reset(2, 9), None);
    same(s.system_reset(3, 0).unwrap(), SpecRet::invalid_param());
    s.fail();
    assert!(reset::fail(Some(&mut s)));
    assert!(!reset::fail(None::<&mut SbiReset<Recorder>>));
    assert_eq!(
        s.reset_dev.0,
        vec![('p', 0), ('f', u16::MAX), ('f', 7), ('r', 0), ('r', 0), ('f', 0), ('f', 0)]
    );
}

#[test]
fn reset_goes_through_the_mailbox() {
    let q = || SmqQueue::new(Le32::new(0), Le32::new(0), vec![0u8; 256], 64, 4);
    let mailbox = RpmiMailbox::new(64, [q(), q(), q(), q()], None);
    let mut s = SbiReset::new(RpmiResetWrap { mailbox: Some(mailbox) });
    assert_eq!(s.system_reset(1, 0), None);
    assert_eq!(s.system_reset(0, 0), None);
    let m = s.reset_dev.mailbox.unwrap();
    let sent = m.queue(A2P_REQ);
    assert_eq!(sent.tail(), 2);
    assert_eq!(sent.slots()[..12], [3, 0, 3, 1, 4, 0, 2, 0, 1, 0, 0, 0]);
    assert_eq!(sent.slots()[64..76], [3, 0, 3, 1, 4, 0, 3, 0, 0, 0, 0, 0]);
    let mut none = SbiReset::new(RpmiResetWrap { mailbox: None });
    assert_eq!(none.system_reset(1, 0), None);
    // An unknown type does not reach the device, whatever its queue looks like.
    let stray = || SmqQueue::new(Le32::new(0), Le32::new(9), vec![0u8; 256], 64, 4);
    let damaged = RpmiMailbox::new(64, [stray(), q(), q(), q()], None);
    let mut s = SbiReset::new(RpmiResetWrap { mailbox: Some(damaged) });
    same(s.system_reset(3, 0).unwrap(), SpecRet::invalid_param());
}

#[test]
fn reset_device_is_chosen() {
    let all = ResetFacts { reset: Some(1), pmic_reset: Some((2, 3)), rpmi_reset: true };
    assert_eq!(reset::init(&all), Some(ResetChoice::TestDevice(1)));
    assert_eq!(reset::init(&ResetFacts { reset: None, ..all }), Some(ResetChoice::Pmic(2, 3)));
    let rpmi = ResetFacts { reset: None, pmic_reset: None, rpmi_reset: true };
    assert_eq!(reset::init(&rpmi), Some(ResetChoice::Rpmi));
    assert_eq!(reset::init(&ResetFacts { rpmi_reset: false, ..rpmi }), None);
}

#[test]
fn nested_acceleration_is_not_available() {
    let n = SbiNacl;
    assert_eq!(NACL_SHMEM_SIZE, sbi_spec::nacl::shmem_size::NATIVE);
    same(n.probe_feature(0), SpecRet::success(0));
    same(n.sync_csr(0), SpecRet::not_supported());
    same(n.sync_hfence(0), SpecRet::not_supported());
    same(n.sync_sret(), SpecRet::not_supported());
    assert_eq!(n._rustsbi_probe(), sbi_spec::base::UNAVAILABLE_EXTENSION);
    same(n.set_shmem(SharedPtr::new(0x1000, 0), 1, true).ret, SpecRet::invalid_param());
    same(n.set_shmem(SharedPtr::new(0x1040, 0), 0, true).ret, SpecRet::invalid_param());
    same(n.set_shmem(SharedPtr::new(0x1000, 1), 0, true).ret, SpecRet::invalid_param());
    same(n.set_shmem(SharedPtr::new(0x1000, 0), 0, false).ret, SpecRet::invalid_address());
    let off = n.set_shmem(SharedPtr::new(usize::MAX, usize::MAX), 0, false);
    same(off.ret, SpecRet::success(0));
    assert_eq!(off.zeroed, None);
    let on = n.set_shmem(SharedPtr::new(0x1000, 0), 0, true);
    same(on.ret, SpecRet::success(0));
    assert_eq!(on.zeroed, Some(ZeroFill { addr: 0x1000, len: 12288 }));
}

#[test]
fn steal_time_is_reported() {
    let mut s = SbiSta::new(2);
    assert!(s.report_steal_time(1, 5, true).is_none());
    same(s.set_shmem(1, SharedPtr::new(0x40, 0), 1, true).ret, SpecRet::invalid_param());
    same(s.set_shmem(1, SharedPtr::new(0x20, 0), 0, true).ret, SpecRet::invalid_param());
    same(s.set_shmem(1, SharedPtr::new(0x40, 1), 0, true).ret, SpecRet::invalid_param());
    same(s.set_shmem(1, SharedPtr::new(0x40, 0), 0, false).ret, SpecRet::invalid_address());
    assert!(s.report_steal_time(1, 5, true).is_none());
    let on = s.set_shmem(1, SharedPtr::new(0x40, 0), 0, true);
    same(on.ret, SpecRet::success(0));
    assert_eq!(on.zeroed, Some(ZeroFill { addr: 0x40, len: 64 }));
    let (addr, bytes) = s.report_steal_time(1, 0x0102_0304_0506_0708, true).unwrap();
    assert_eq!(addr, 0x40);
    assert_eq!(bytes.len(), 64);
    assert_eq!(bytes[..13], [8, 7, 6, 5, 4, 3, 2, 1, 1, 0, 0, 0, 0]);
    assert!(bytes[12..].iter().all(|&b| b == 0));
    assert!(s.report_steal_time(0, 5, true).is_none());
    same(s.set_shmem(1, SharedPtr::new(usize::MAX, usize::MAX), 0, true).ret, SpecRet::success(0));
    assert!(s.report_steal_time(1, 5, false).is_none());
}
