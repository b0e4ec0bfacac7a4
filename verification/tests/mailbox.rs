use prototyper::rpmi::backend::Backend;
use prototyper::rpmi::client::{check_reply, decode_platform_info, decode_two_words, BaseClient};
use prototyper::rpmi::mailbox::{rx_deadline, rx_expired, Doorbell, Poll, RpmiMailbox, RPMI_DEF_RX_TIMEOUT};
use prototyper::rpmi::message::{Error, MessageHeader, MessageType};
use prototyper::rpmi::queue_idx::{A2P_REQ, P2A_ACK, P2A_REQ};
use prototyper::rpmi::servicegroup;
use prototyper::rpmi::smq::{Le32, SmqQueue};

const SLOT: usize = 256;

fn empty_queue() -> SmqQueue {
    SmqQueue::new(Le32::new(0), Le32::new(0), vec![0u8; 4 * SLOT], SLOT, 4)
}

fn mailbox() -> RpmiMailbox {
    RpmiMailbox::new(
        SLOT,
        [empty_queue(), empty_queue(), empty_queue(), empty_queue()],
        Some(Doorbell::new(0x4000, Le32::new(0))),
    )
}

fn ack(token: u16, status: i32, data: &[u8]) -> SmqQueue {
    let mut q = empty_queue();
    let mut payload = status.to_le_bytes().to_vec();
    payload.extend_from_slice(data);
    let h = MessageHeader::new(
        servicegroup::BASE,
        0,
        MessageType::Acknowledgement,
        payload.len() as u16,
        token,
    );
    q.send(&h, &payload, None).unwrap();
    q
}

#[test]
fn request_is_sent_and_answered() {
    let mut m = mailbox();
    let mut resp = [0u8; 12];
    let acks = [empty_queue(), ack(2, 0, &[5, 0, 0, 0, 6, 0, 0, 0])];
    let r = m.normal_request_with_status(servicegroup::CLOCK, 7, &[1, 2, 3], &mut resp, &acks);
    assert_eq!(r, Ok((Error::Success, 12)));
    assert_eq!(resp, [0, 0, 0, 0, 5, 0, 0, 0, 6, 0, 0, 0]);
    // The request lies in the request queue, with the first token after one.
    let q = m.queue(A2P_REQ);
    assert_eq!(q.tail(), 1);
    assert_eq!(&q.slots()[..11], &[8, 0, 7, 0, 3, 0, 2, 0, 1, 2, 3]);
    // The acknowledgement has been consumed.
    assert_eq!(m.queue(P2A_ACK).head(), 1);
}

#[test]
fn error_status_is_returned() {
    let mut m = mailbox();
    let mut resp = [0u8; 4];
    let acks = [ack(2, -4, &[])];
    assert_eq!(
        m.normal_request_with_status(servicegroup::BASE, 1, &[], &mut resp, &acks),
        Ok((Error::Denied, 4))
    );
    assert_eq!(resp, (-4i32).to_le_bytes());
}

#[test]
fn request_without_answer_times_out() {
    let mut m = mailbox();
    let mut resp = [7u8; 4];
    assert!(m
        .normal_request_with_status(servicegroup::BASE, 1, &[], &mut resp, &[ack(9, 0, &[])])
        .is_err());
    assert_eq!(resp, [7u8; 4]);
    assert_eq!(m.queue(A2P_REQ).tail(), 1);
}

#[test]
fn an_answer_after_the_last_poll_comes_too_late() {
    let mut late = Vec::new();
    for _ in 0..RPMI_DEF_RX_TIMEOUT {
        late.push(SmqQueue::new(Le32::new(0), Le32::new(0), vec![0u8; 32], 16, 2));
    }
    late.push(ack(2, 0, &[]));
    let mut resp = [0u8; 4];
    let mut m = mailbox();
    assert!(m.normal_request_with_status(1, 1, &[], &mut resp, &late).is_err());
    // One poll earlier it is in time.
    late.remove(0);
    let mut m = mailbox();
    assert_eq!(
        m.normal_request_with_status(1, 1, &[], &mut resp, &late),
        Ok((Error::Success, 4))
    );
}

#[test]
fn short_response_buffer_is_refused_without_a_token() {
    let mut m = mailbox();
    assert!(m.normal_request_with_status(1, 1, &[], &mut [0u8; 3], &[]).is_err());
    assert_eq!(m.queue(A2P_REQ).tail(), 0);
    assert_eq!(m.begin_request(1, 1, &[]), Ok(2));
}

#[test]
fn refused_request_uses_up_a_token() {
    let mut m = mailbox();
    assert_eq!(m.begin_request(1, 1, &[0u8; 249]), Err(()));
    assert_eq!(m.begin_request(1, 1, &[0u8; 248]), Ok(3));
}

#[test]
fn tokens_are_distinct() {
    let mut m = mailbox();
    assert!(m.can_request());
    assert_eq!(m.begin_request(1, 1, &[]), Ok(2));
    assert_eq!(m.begin_request(1, 1, &[]), Ok(3));
    assert_eq!(m.begin_request(1, 1, &[]), Ok(4));
    assert_eq!(m.begin_request(1, 1, &[]), Err(()));
    assert!(m.can_request());
}

#[test]
fn tokens_start_over_and_skip_zero() {
    let mut m = mailbox();
    for _ in 0..0xfffd {
        assert_eq!(m.posted_request(1, 1, &[0u8; 249]), Err(()));
    }
    assert_eq!(m.alloc_token(), 0xffff);
    assert_eq!(m.begin_request(1, 1, &[]), Ok(1));
    assert_eq!(m.begin_request(1, 1, &[]), Ok(2));
}

#[test]
fn request_queue_needs_a_sound_tail() {
    let queue = |head: u32, tail: u32| {
        SmqQueue::new(Le32::new(head), Le32::new(tail), vec![0u8; 4 * SLOT], SLOT, 4)
    };
    let mut m = mailbox();
    m.observe(A2P_REQ, queue(9, 3));
    assert!(m.can_request());
    assert_eq!(m.begin_request(1, 1, &[]), Ok(2));
    assert_eq!(m.queue(A2P_REQ).tail(), 0);
    m.observe(A2P_REQ, queue(0, 4));
    assert!(!m.can_request());
}

#[test]
fn posted_request_is_not_awaited() {
    let mut m = mailbox();
    assert_eq!(m.posted_request(servicegroup::SYSTEM_RESET, 3, &[1, 0, 0, 0]), Ok(()));
    assert_eq!(&m.queue(A2P_REQ).slots()[..12], &[3, 0, 3, 1, 4, 0, 2, 0, 1, 0, 0, 0]);
    assert_eq!(m.posted_request(3, 3, &[]), Ok(()));
    assert_eq!(m.posted_request(3, 3, &[]), Ok(()));
    assert_eq!(m.posted_request(3, 3, &[]), Err(()));
}

#[test]
fn notifications_come_from_their_own_queue() {
    let mut m = mailbox();
    let mut q = empty_queue();
    let h = MessageHeader::new(servicegroup::RTC, 4, MessageType::Notification, 2, 0);
    q.send(&h, &[8, 9], None).unwrap();
    let mut out = [0u8; 8];
    assert!(m.receive_notification(servicegroup::RTC, 0xff, &mut out).is_err());
    m.observe(P2A_REQ, q);
    assert_eq!(m.receive_notification(servicegroup::RTC, 0xff, &mut out), Ok(2));
    assert_eq!(out[..2], [8, 9]);
    assert!(m.receive_notification(servicegroup::RTC, 0xff, &mut out).is_err());
}

#[test]
fn timed_wait() {
    assert_eq!(rx_deadline(100), 12_000_100);
    assert!(rx_expired(12_000_100, 12_000_100));
    assert!(!rx_expired(12_000_099, 12_000_100));
    let look = |acks: SmqQueue, now: u64| Poll { acks, now };
    let mut resp = [0u8; 4];
    let polls = [look(empty_queue(), 5), look(ack(2, 0, &[]), 12_000_001)];
    let mut m = mailbox();
    assert_eq!(
        m.normal_request_timed(1, 1, &[], &mut resp, 0, &polls),
        Ok((Error::Success, 4))
    );
    // The deadline was reached before the acknowledgement was seen.
    let polls = [look(empty_queue(), 12_000_000), look(ack(2, 0, &[]), 12_000_001)];
    let mut m = mailbox();
    assert!(m.normal_request_timed(1, 1, &[], &mut resp, 0, &polls).is_err());
    let mut m = mailbox();
    assert!(m.normal_request_timed(1, 1, &[], &mut resp, 0, &[]).is_err());
}

#[test]
fn geometry_of_a_mailbox() {
    let m = mailbox();
    assert_eq!(m.slot_size(), SLOT);
    assert_eq!(m.doorbell_addr(), 0x4000);
    let bare = RpmiMailbox::new(64, [empty_queue(), empty_queue(), empty_queue(), empty_queue()], None);
    assert_eq!(bare.doorbell_addr(), 0);
}

#[test]
fn versions_and_probes() {
    let mut m = mailbox();
    let mut c = BaseClient::new(&mut m);
    let words = [1u8, 0, 0, 0, 2, 0, 1, 0];
    assert_eq!(c.probe_service_group(servicegroup::CLOCK, &[ack(2, 0, &words)]), Ok(0x1_0002));
    assert_eq!(c.get_spec_version(&[ack(3, 0, &words)]), Ok(0x1_0002));
    assert_eq!(c.get_implementation_version(&[ack(4, -2, &[])]), Err(Error::NotSupported));
    // The request queue is full now.
    assert_eq!(c.get_spec_version(&[]), Err(Error::Timeout));
    let sent = m.queue(A2P_REQ).slots();
    assert_eq!(&sent[..12], &[1, 0, 6, 0, 4, 0, 2, 0, 8, 0, 0, 0]);
    assert_eq!(sent[SLOT + 2], 4);
    assert_eq!(sent[2 * SLOT + 2], 2);
}

#[test]
fn platform_information() {
    let mut m = mailbox();
    let mut c = BaseClient::new(&mut m);
    let mut info = vec![5u8, 0, 0, 0];
    info.extend_from_slice(b"board");
    let mut buf = [0u8; 16];
    assert_eq!(c.get_platform_info(&mut buf, &[ack(2, 0, &info)]), Ok(&b"board"[..]));
    let mut small = [0u8; 3];
    assert_eq!(c.get_platform_info(&mut small, &[ack(3, 0, &info)]), Ok(&b"boa"[..]));
    assert_eq!(c.get_platform_info(&mut buf, &[ack(4, -13, &[])]), Err(Error::Io));
}

#[test]
fn platform_information_is_cut_off_at_the_response() {
    let mut m = mailbox();
    let mut c = BaseClient::new(&mut m);
    let mut info = vec![0xffu8, 0xff, 0xff, 0xff];
    info.extend_from_slice(&[7u8; 240]);
    let mut buf = [1u8; 300];
    let filled = c.get_platform_info(&mut buf, &[ack(2, 0, &info)]).unwrap();
    assert_eq!(filled.len(), 248);
    assert_eq!(filled[..240], [7u8; 240]);
    assert_eq!(filled[240..], [0u8; 8]);
    assert_eq!(buf[248..], [1u8; 52]);
}

#[test]
fn notifications_are_enabled() {
    let mut m = mailbox();
    let mut c = BaseClient::new(&mut m);
    assert_eq!(c.enable_notification(3, &[ack(2, 0, &[])]), Ok(()));
    assert_eq!(c.enable_notification(3, &[ack(3, -3, &[])]), Err(Error::InvalidParam));
    assert_eq!(c.enable_notification(3, &[]), Err(Error::Timeout));
    assert_eq!(m.queue(A2P_REQ).slots()[..12], [1, 0, 1, 0, 4, 0, 2, 0, 3, 0, 0, 0]);
}

#[test]
fn replies_are_decoded() {
    assert_eq!(check_reply(Err(())), Err(Error::Timeout));
    assert_eq!(check_reply(Ok((Error::Busy, 4))), Err(Error::Busy));
    assert_eq!(check_reply(Ok((Error::Success, 4))), Ok(()));
    let resp = [0, 0, 0, 0, 1, 0, 0, 0, 2, 0, 0, 0];
    assert_eq!(decode_two_words(Ok((Error::Success, 12)), &resp), Ok((1, 2)));
    assert_eq!(decode_two_words(Ok((Error::NoData, 4)), &resp), Err(Error::NoData));
    let mut buf = [0u8; 2];
    assert_eq!(decode_platform_info(Ok((Error::Success, 12)), &resp, &mut buf), Ok(&[2u8][..]));
    assert_eq!(decode_platform_info(Err(()), &resp, &mut buf), Err(Error::Timeout));
}

#[test]
fn backend_holds_the_mailbox() {
    let mut b = Backend::new();
    assert!(b.mailbox().is_none());
    b.set_mailbox(mailbox());
    assert_eq!(b.mailbox().unwrap().begin_request(1, 1, &[]), Ok(2));
    assert_eq!(b.mailbox().unwrap().begin_request(1, 1, &[]), Ok(3));
    assert!(b.take_mailbox().is_some());
    assert!(b.take_mailbox().is_none());
}

#[test]
fn a_look_of_a_timed_wait_ends_it_or_not() {
    let mut m = mailbox();
    let mut resp = [9u8; 8];
    let early = Poll { acks: empty_queue(), now: 99 };
    assert_eq!(m.poll_timed(2, 100, &early, &mut resp), None);
    let late = Poll { acks: empty_queue(), now: 100 };
    assert_eq!(m.poll_timed(2, 100, &late, &mut resp), Some(Err(())));
    assert_eq!(resp, [9u8; 8]);
    let answered = Poll { acks: ack(2, 0, &[7, 0, 0, 0]), now: 200 };
    assert_eq!(m.poll_timed(2, 100, &answered, &mut resp), Some(Ok((Error::Success, 8))));
    assert_eq!(resp, [0, 0, 0, 0, 7, 0, 0, 0]);
    assert_eq!(m.queue(P2A_ACK).head(), 1);
}
