use prototyper::binary::{SbiRet, SharedPtr};
use prototyper::rpmi::cppc::{CppcProbeReq, CppcReadReq, CppcWriteReq};
use prototyper::rpmi::mailbox::{Doorbell, RpmiMailbox};
use prototyper::rpmi::message::{Error, MessageHeader, MessageType};
use prototyper::rpmi::queue_idx::{A2P_REQ, P2A_REQ};
use prototyper::rpmi::servicegroup;
use prototyper::rpmi::smq::{Le32, SmqQueue};
use prototyper::sbi::cppc::{finish_access, hart_to_word, CppcAccess, SbiCppc};
use prototyper::sbi::mpxy::{is_channel, SbiMpxy};
use prototyper::sbi::rpmi_status::rpmi_error_to_sbi;
use sbi_spec::binary::SbiRet as SpecRet;

const SLOT: usize = 256;

fn same(r: SbiRet, expected: SpecRet<usize>) {
    assert_eq!(r.error, expected.error);
    assert_eq!(r.value, expected.value);
}

fn empty_queue() -> SmqQueue {
    SmqQueue::new(Le32::new(0), Le32::new(0), vec![0u8; 4 * SLOT], SLOT, 4)
}

fn mailbox() -> RpmiMailbox {
    RpmiMailbox::new(
        SLOT,
        [empty_queue(), empty_queue(), empty_queue(), empty_queue()],
        Some(Doorbell::new(0x4000, Le32::new(0))),
    )
}

fn ack(token: u16, status: i32, data: &[u8]) -> SmqQueue {
    let mut q = empty_queue();
    let mut payload = status.to_le_bytes().to_vec();
    payload.extend_from_slice(data);
    let h = MessageHeader::new(1, 0, MessageType::Acknowledgement, payload.len() as u16, token);
    q.send(&h, &payload, None).unwrap();
    q
}

/// A proxy whose hart one shares the page at 0x8000.
fn proxy() -> SbiMpxy {
    let mut m = SbiMpxy::new(2);
    same(m.set_shmem(1, SharedPtr::new(0x8000, 0), 0), SpecRet::success(0));
    m
}

fn word(page: &[u8], i: usize) -> u32 {
    u32::from_le_bytes([page[4 * i], page[4 * i + 1], page[4 * i + 2], page[4 * i + 3]])
}

#[test]
fn shared_page_is_checked() {
    let mut m = SbiMpxy::new(2);
    assert_eq!(m.get_shmem_size(), 4096);
    same(m.set_shmem(0, SharedPtr::new(0x8000, 0), 1), SpecRet::invalid_param());
    same(m.set_shmem(0, SharedPtr::new(0x8000, 0), 2), SpecRet::invalid_param());
    same(m.set_shmem(0, SharedPtr::new(0x8004, 0), 0), SpecRet::invalid_param());
    assert_eq!(m.shmem_hart(0), 0);
    same(m.set_shmem(0, SharedPtr::new(0x8000, 0), 4), SpecRet::success(0));
    assert_eq!(m.shmem_hart(0), 0x8000);
    assert_eq!(m.shmem_hart(1), 0);
    same(m.set_shmem(0, SharedPtr::new(usize::MAX, usize::MAX), 0), SpecRet::success(0));
    assert_eq!(m.shmem_hart(0), 0);
}

#[test]
fn channels_are_listed() {
    let m = proxy();
    let mut page = vec![0xffu8; 4096];
    same(m.get_channel_ids(0, 0, &mut page), SpecRet::no_shmem());
    same(m.get_channel_ids(1, 11, &mut page), SpecRet::invalid_param());
    assert_eq!(page, vec![0xffu8; 4096]);
    same(m.get_channel_ids(1, 0, &mut page), SpecRet::success(0));
    assert_eq!(word(&page, 0), 0);
    assert_eq!(word(&page, 1), 10);
    let ids: Vec<u32> = (2..12).map(|i| word(&page, i)).collect();
    assert_eq!(ids, vec![1, 3, 4, 5, 6, 7, 8, 9, 14, 15]);
    assert_eq!(word(&page, 12), u32::MAX);
    for id in 0..20u32 {
        assert_eq!(is_channel(id), ids.contains(&id));
    }
    same(m.get_channel_ids(1, 8, &mut page), SpecRet::success(0));
    assert_eq!(word(&page, 1), 2);
    assert_eq!(word(&page, 2), 14);
    assert_eq!(word(&page, 3), 15);
    same(m.get_channel_ids(1, 10, &mut page), SpecRet::success(0));
    assert_eq!(word(&page, 1), 0);
}

#[test]
fn attributes_are_read() {
    let m = proxy();
    let mut page = vec![0u8; 4096];
    same(m.read_attributes(1, 2, 0, 1, &mut page), SpecRet::not_supported());
    same(m.read_attributes(1, 6, 0, 0, &mut page), SpecRet::invalid_param());
    same(m.read_attributes(0, 6, 0, 1, &mut page), SpecRet::no_shmem());
    same(m.read_attributes(1, 6, 0, 12, &mut page), SpecRet::success(0));
    let values: Vec<u32> = (0..12).map(|i| word(&page, i)).collect();
    assert_eq!(values, vec![0, 0x1_0000, 248, 500, 500, 0x3c, 0, 0, 0, 0, 0, 0]);
    same(m.read_attributes(1, 6, 0x8000_0000, 4, &mut page), SpecRet::success(0));
    let values: Vec<u32> = (0..4).map(|i| word(&page, i)).collect();
    assert_eq!(values, vec![6, 0x1_0000, 0, 1]);
}

#[test]
fn attributes_before_a_gap_are_written() {
    let m = proxy();
    let mut page = vec![0xffu8; 4096];
    same(m.read_attributes(1, 6, 11, 2, &mut page), SpecRet::bad_range());
    assert_eq!(word(&page, 0), 0);
    assert_eq!(word(&page, 1), u32::MAX);
    same(m.read_attributes(1, 6, u32::MAX, u32::MAX, &mut page), SpecRet::bad_range());
}

#[test]
fn attributes_are_mostly_read_only() {
    let m = proxy();
    same(m.write_attributes(2, 11, 1), SpecRet::not_supported());
    same(m.write_attributes(6, 11, 0), SpecRet::invalid_param());
    same(m.write_attributes(6, 11, 1), SpecRet::success(0));
    same(m.write_attributes(6, 7, 1), SpecRet::success(0));
    same(m.write_attributes(6, 2, 1), SpecRet::denied());
    same(m.write_attributes(6, 7, 2), SpecRet::denied());
    same(m.write_attributes(6, 11, 2), SpecRet::denied());
    same(m.write_attributes(6, 7, 5), SpecRet::denied());
    same(m.write_attributes(6, 6, 2), SpecRet::denied());
    same(m.write_attributes(6, u32::MAX, u32::MAX), SpecRet::denied());
}

#[test]
fn message_with_response() {
    let m = proxy();
    let mut mbox = mailbox();
    let mut page = vec![0u8; 4096];
    page[..3].copy_from_slice(&[7, 8, 9]);
    let acks = [ack(2, 0, &[0xaa, 0xbb])];
    let r = m.send_message_with_response(1, 8, 0x105, 3, &mut page, Some(&mut mbox), &acks);
    same(r, SpecRet::success(6));
    assert_eq!(page[..7], [0, 0, 0, 0, 0xaa, 0xbb, 0]);
    // The channel is the service group, and the message's low byte the service.
    assert_eq!(mbox.queue(A2P_REQ).slots()[..11], [8, 0, 5, 0, 3, 0, 2, 0, 7, 8, 9]);
}

#[test]
fn message_is_refused_in_order() {
    let m = proxy();
    let mut page = vec![0u8; 4096];
    let mut mbox = mailbox();
    let r = m.send_message_with_response(0, 2, 0, 999, &mut page, None, &[]);
    same(r, SpecRet::not_supported());
    let r = m.send_message_with_response(0, 8, 0, 249, &mut page, None, &[]);
    same(r, SpecRet::invalid_param());
    let r = m.send_message_with_response(0, 8, 0, 248, &mut page, None, &[]);
    same(r, SpecRet::no_shmem());
    let r = m.send_message_with_response(1, 8, 0, 248, &mut page, None, &[]);
    same(r, SpecRet::not_supported());
    let r = m.send_message_without_response(1, 8, 0, 249, &page, Some(&mut mbox));
    same(r, SpecRet::invalid_param());
    assert_eq!(mbox.queue(A2P_REQ).tail(), 0);
    assert_eq!(m.check_message(1, 8, 248, true), Ok(()));
}

#[test]
fn failed_message_leaves_the_page() {
    let m = proxy();
    let mut page = vec![0x55u8; 4096];
    let mut mbox = mailbox();
    let r = m.send_message_with_response(1, 8, 1, 0, &mut page, Some(&mut mbox), &[ack(2, -5, &[])]);
    same(r, SpecRet::invalid_address());
    let r = m.send_message_with_response(1, 8, 1, 0, &mut page, Some(&mut mbox), &[]);
    same(r, SpecRet::timeout());
    assert_eq!(page, vec![0x55u8; 4096]);
}

#[test]
fn message_without_response() {
    let m = proxy();
    let page = vec![3u8; 4096];
    let mut mbox = mailbox();
    for _ in 0..3 {
        let r = m.send_message_without_response(1, 7, 2, 1, &page, Some(&mut mbox));
        same(r, SpecRet::success(0));
    }
    let r = m.send_message_without_response(1, 7, 2, 1, &page, Some(&mut mbox));
    same(r, SpecRet::timeout());
    assert_eq!(mbox.queue(A2P_REQ).slots()[..9], [7, 0, 2, 1, 1, 0, 2, 0, 3]);
    same(m.send_message_without_response(1, 7, 2, 1, &page, None), SpecRet::not_supported());
}

#[test]
fn notification_is_written_to_the_page() {
    let m = proxy();
    let mut page = vec![0xffu8; 4096];
    let mut mbox = mailbox();
    let mut q = empty_queue();
    let h = MessageHeader::new(servicegroup::RTC, 4, MessageType::Notification, 2, 0);
    q.send(&h, &[8, 9], None).unwrap();
    mbox.observe(P2A_REQ, q);
    same(m.get_notification_events(1, 15, &mut page, Some(&mut mbox)), SpecRet::success(0));
    assert_eq!(page[..17], [0, 0, 0, 0, 0, 0, 0, 0, 0, 0, 0, 0, 0, 0, 0, 0, 0xff]);
    assert_eq!(page[16..], vec![0xffu8; 4080]);
    same(m.get_notification_events(1, 14, &mut page, Some(&mut mbox)), SpecRet::success(2));
    assert_eq!(page[..19], [0, 0, 0, 0, 1, 0, 0, 0, 0, 0, 0, 0, 0, 0, 0, 0, 8, 9, 0xff]);
    same(m.get_notification_events(1, 14, &mut page, Some(&mut mbox)), SpecRet::success(0));
    assert_eq!(page[..19], [0, 0, 0, 0, 0, 0, 0, 0, 0, 0, 0, 0, 0, 0, 0, 0, 8, 9, 0xff]);
    same(m.get_notification_events(0, 14, &mut page, Some(&mut mbox)), SpecRet::no_shmem());
    same(m.get_notification_events(1, 99, &mut page, Some(&mut mbox)), SpecRet::not_supported());
    same(m.get_notification_events(1, 14, &mut page, None), SpecRet::not_supported());
}

#[test]
fn responses_are_finished() {
    let mut page = vec![1u8; 8];
    let resp = [2u8; 4];
    same(SbiMpxy::finish_response(Ok((Error::Success, 2)), &resp, &mut page), SpecRet::success(2));
    assert_eq!(page, vec![2, 2, 1, 1, 1, 1, 1, 1]);
    same(SbiMpxy::finish_response(Ok((Error::HwFault, 4)), &resp, &mut page), SpecRet::io());
    same(SbiMpxy::finish_response(Err(()), &resp, &mut page), SpecRet::timeout());
}

#[test]
fn statuses_become_return_values() {
    same(rpmi_error_to_sbi(Error::Success), SpecRet::success(0));
    same(rpmi_error_to_sbi(Error::Failed), SpecRet::failed());
    same(rpmi_error_to_sbi(Error::NotSupported), SpecRet::not_supported());
    same(rpmi_error_to_sbi(Error::InvalidParam), SpecRet::invalid_param());
    same(rpmi_error_to_sbi(Error::Denied), SpecRet::denied());
    same(rpmi_error_to_sbi(Error::InvalidAddr), SpecRet::invalid_address());
    same(rpmi_error_to_sbi(Error::Already), SpecRet::already_available());
    same(rpmi_error_to_sbi(Error::Extension), SpecRet::failed());
    same(rpmi_error_to_sbi(Error::HwFault), SpecRet::io());
    same(rpmi_error_to_sbi(Error::Busy), SpecRet::failed());
    same(rpmi_error_to_sbi(Error::InvalidState), SpecRet::invalid_state());
    same(rpmi_error_to_sbi(Error::BadRange), SpecRet::bad_range());
    same(rpmi_error_to_sbi(Error::Timeout), SpecRet::timeout());
    same(rpmi_error_to_sbi(Error::Io), SpecRet::io());
    same(rpmi_error_to_sbi(Error::NoData), SpecRet::failed());
}

#[test]
fn error_numbers_are_negative() {
    assert_eq!(rpmi_error_to_sbi(Error::Failed).error, usize::MAX);
    assert_eq!(rpmi_error_to_sbi(Error::Io).error, usize::MAX - 12);
    assert_eq!(rpmi_error_to_sbi(Error::Io).value, 0);
}

#[test]
fn registers_are_accessed() {
    let c = SbiCppc;
    let mut m = mailbox();
    let two = [1u8, 0, 0, 0, 2, 0, 0, 0];
    same(c.probe(3, 9, Some(&mut m), &[ack(2, 0, &[32, 0, 0, 0])]), SpecRet::success(32));
    same(c.read(3, 9, Some(&mut m), &[ack(3, 0, &two)]), SpecRet::success(1));
    same(c.read_hi(3, 9, Some(&mut m), &[ack(4, 0, &two)]), SpecRet::success(2));
    assert_eq!(m.queue(A2P_REQ).slots()[..16], [6, 0, 2, 0, 8, 0, 2, 0, 3, 0, 0, 0, 9, 0, 0, 0]);
    assert_eq!(m.queue(A2P_REQ).slots()[SLOT + 2], 3);
    let mut m = mailbox();
    let value = 0x0102_0304_0506_0708;
    same(c.write(3, 9, value, Some(&mut m), &[ack(2, 0, &[])]), SpecRet::success(0));
    assert_eq!(m.queue(A2P_REQ).slots()[16..24], [8, 7, 6, 5, 4, 3, 2, 1]);
    same(c.write(3, 9, value, Some(&mut m), &[ack(3, -4, &[])]), SpecRet::denied());
    same(c.read(3, 9, Some(&mut m), &[]), SpecRet::timeout());
}

#[test]
fn registers_without_a_mailbox() {
    let c = SbiCppc;
    same(c.probe(0, 1, None, &[]), SpecRet::success(0));
    same(c.read(0, 1, None, &[]), SpecRet::not_supported());
    same(c.read_hi(0, 1, None, &[]), SpecRet::not_supported());
    same(c.write(0, 1, 2, None, &[]), SpecRet::not_supported());
}

#[test]
fn requests_on_the_wire() {
    assert_eq!(CppcProbeReq { hart_id: 1, reg_id: 2 }.to_bytes(), vec![1, 0, 0, 0, 2, 0, 0, 0]);
    assert_eq!(CppcReadReq { hart_id: 3, reg_id: 4 }.to_bytes(), vec![3, 0, 0, 0, 4, 0, 0, 0]);
    assert_eq!(
        CppcWriteReq::new(1, 2, 0x1_0000_0002).to_bytes(),
        vec![1, 0, 0, 0, 2, 0, 0, 0, 2, 0, 0, 0, 1, 0, 0, 0]
    );
    assert_eq!(hart_to_word(0x1_0000_0005), 5);
    let resp = [0, 0, 0, 0, 1, 0, 0, 0, 2, 0, 0, 0];
    assert_eq!(CppcAccess::ReadHi.room(), 12);
    assert_eq!(CppcAccess::Read.service(), CppcAccess::ReadHi.service());
    assert_eq!(CppcAccess::Probe.request(3, 4), vec![3, 0, 0, 0, 4, 0, 0, 0]);
    same(CppcAccess::Read.finish(Ok((Error::Success, 12)), &resp), SpecRet::success(1));
    same(CppcAccess::ReadHi.finish(Ok((Error::Success, 12)), &resp), SpecRet::success(2));
    same(CppcAccess::Write(9).finish(Ok((Error::Success, 4)), &resp[..4]), SpecRet::success(0));
    same(finish_access(Ok((Error::Success, 8)), 7), SpecRet::success(7));
    same(finish_access(Ok((Error::NoData, 8)), 7), SpecRet::failed());
    same(finish_access(Err(()), 7), SpecRet::timeout());
}
