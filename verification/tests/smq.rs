use prototyper::bytes::{copy_bytes, is_listed, read_u16, read_u32, same_bytes, u32_to_le_bytes, write_u16, write_u32};
use prototyper::rpmi::cache::cache_lines;
use prototyper::rpmi::message::{Error, MessageHeader, MessageType};
use prototyper::rpmi::servicegroup;
use prototyper::rpmi::smq::{Le32, Selector, SmqQueue};

/// A queue of four slots of 64 bytes.
fn test_queue() -> SmqQueue {
    SmqQueue::new(Le32::new(0), Le32::new(0), vec![0u8; 4 * 64], 64, 4)
}

fn header(token: u16, datalen: u16) -> MessageHeader {
    MessageHeader::new(servicegroup::BASE, 0, MessageType::NormalRequest, datalen, token)
}

#[test]
fn test_roundtrip() {
    let mut queue = test_queue();
    let header = MessageHeader::new(servicegroup::HSM, 0x01, MessageType::NormalRequest, 4, 0x1234);
    let data = [1u8, 2, 3, 4];

    queue.send(&header, &data, None).unwrap();
    // The sender writes tail; emulate the PuC having consumed nothing.
    assert_eq!(queue.tail(), 1);

    let mut out = [0u8; 16];
    let n = queue.receive(0x1234, &mut out).unwrap();
    assert_eq!(n, 4);
    assert_eq!(&out[..4], &data);
    assert_eq!(queue.head(), 1);
}

#[test]
fn test_token_mismatch() {
    let mut queue = test_queue();
    let header = MessageHeader::new(servicegroup::BASE, 0x05, MessageType::NormalRequest, 0, 7);
    queue.send(&header, &[], None).unwrap();
    assert!(queue.receive(8, &mut [0u8; 4]).is_err());
}

#[test]
fn test_full_queue() {
    let mut queue = test_queue();
    for i in 0..3 {
        let header = MessageHeader::new(servicegroup::BASE, 0, MessageType::NormalRequest, 0, i);
        queue.send(&header, &[], None).unwrap();
    }
    let header = MessageHeader::new(servicegroup::BASE, 0, MessageType::NormalRequest, 0, 99);
    assert!(queue.send(&header, &[], None).is_err());
}

#[test]
fn le32_is_little_endian() {
    let mut w = Le32::new(0x0102_0304);
    assert_eq!(w.to_bytes(), [4, 3, 2, 1]);
    assert_eq!(w.read(), 0x0102_0304);
    w.write(0xffff_fffe);
    assert_eq!(w.read(), 0xffff_fffe);
    assert_eq!(Le32::from_bytes([0xfe, 0xff, 0xff, 0xff]).read(), 0xffff_fffe);
}

#[test]
fn slot_layout_is_that_of_the_wire() {
    let mut queue = test_queue();
    let h = MessageHeader::from_fields(0x0102, 0x03, 0x04, 0x0506, 0x0708);
    queue.send(&h, &[9, 10], None).unwrap();
    assert_eq!(&queue.slots()[..10], &[0x02, 0x01, 0x03, 0x04, 0x06, 0x05, 0x08, 0x07, 9, 10]);
    assert_eq!(h.words(), [0x0403_0102, 0x0708_0506]);
}

#[test]
fn payload_that_exceeds_a_slot_is_refused() {
    let mut queue = test_queue();
    assert!(queue.send(&header(1, 57), &[0u8; 57], None).is_err());
    assert_eq!(queue.tail(), 0);
    assert!(queue.send(&header(1, 56), &[0u8; 56], None).is_ok());
}

#[test]
fn doorbell_rings_only_when_sent() {
    let mut queue = test_queue();
    let mut db = Le32::new(0);
    assert!(queue.send(&header(1, 60), &[0u8; 60], Some(&mut db)).is_err());
    assert_eq!(db.read(), 0);
    assert!(queue.send(&header(1, 0), &[], Some(&mut db)).is_ok());
    assert_eq!(db.read(), 1);
}

#[test]
fn message_in_the_middle_is_taken_and_the_oldest_takes_its_place() {
    let mut queue = test_queue();
    for t in 1u16..4 {
        queue.send(&header(t, 1), &[t as u8], None).unwrap();
    }
    let mut out = [0u8; 8];
    assert_eq!(queue.receive(2, &mut out), Ok(1));
    assert_eq!(out[0], 2);
    assert_eq!(queue.head(), 1);
    assert_eq!(queue.locate(Selector::Token(1)), Some(0));
    assert_eq!(queue.locate(Selector::Token(3)), Some(1));
    assert_eq!(queue.locate(Selector::Token(2)), None);
    assert_eq!(queue.receive(3, &mut out), Ok(1));
    assert_eq!(out[0], 3);
    assert_eq!(queue.receive(1, &mut out), Ok(1));
    assert_eq!(out[0], 1);
    assert!(queue.is_empty());
    assert!(queue.receive(1, &mut out).is_err());
}

#[test]
fn ring_wraps_around() {
    let mut queue = test_queue();
    let mut out = [0u8; 4];
    for t in 1u16..11 {
        queue.send(&header(t, 2), &[t as u8, 7], None).unwrap();
        assert_eq!(queue.tail() as u16, t % 4);
        assert_eq!(queue.receive(t, &mut out), Ok(2));
        assert_eq!(out[..2], [t as u8, 7]);
    }
    assert_eq!(queue.head(), 2);
    assert!(!queue.is_full());
}

#[test]
fn payload_is_cut_off_at_the_buffer() {
    let mut queue = test_queue();
    queue.send(&header(5, 4), &[1, 2, 3, 4], None).unwrap();
    let mut out = [9u8; 2];
    assert_eq!(queue.receive(5, &mut out), Ok(2));
    assert_eq!(out, [1, 2]);
}

#[test]
fn notifications_are_matched_by_identifier() {
    let mut queue = test_queue();
    let other = MessageHeader::new(servicegroup::CLOCK, 2, MessageType::Notification, 1, 0);
    let plain = MessageHeader::new(servicegroup::RTC, 2, MessageType::NormalRequest, 1, 0);
    let wanted = MessageHeader::new(servicegroup::RTC, 9, MessageType::Notification, 1, 0);
    queue.send(&other, &[1], None).unwrap();
    queue.send(&plain, &[2], None).unwrap();
    queue.send(&wanted, &[3], None).unwrap();
    let kind = MessageType::Notification.bits();
    let mut out = [0u8; 4];
    assert!(queue.receive_by_message_id(servicegroup::RTC, 2, kind, &mut out).is_err());
    assert_eq!(queue.receive_by_message_id(servicegroup::RTC, 0xff, kind, &mut out), Ok(1));
    assert_eq!(out[0], 3);
    assert!(queue.receive_by_message_id(servicegroup::RTC, 9, kind, &mut out).is_err());
    assert_eq!(queue.receive_by_message_id(servicegroup::CLOCK, 2, kind, &mut out), Ok(1));
    assert_eq!(out[0], 1);
}

#[test]
fn soundness_of_a_queue_is_told() {
    assert!(test_queue().is_sound());
    assert!(!SmqQueue::new(Le32::new(4), Le32::new(0), vec![0u8; 256], 64, 4).is_sound());
    assert!(!SmqQueue::new(Le32::new(0), Le32::new(4), vec![0u8; 256], 64, 4).is_sound());
    assert!(!SmqQueue::new(Le32::new(0), Le32::new(0), vec![0u8; 255], 64, 4).is_sound());
    assert!(!SmqQueue::new(Le32::new(0), Le32::new(0), vec![0u8; 256], 7, 4).is_sound());
    assert!(!SmqQueue::new(Le32::new(0), Le32::new(0), vec![], usize::MAX, 4).is_sound());
}

#[test]
fn a_length_that_leaves_the_memory_is_told() {
    let mut queue = test_queue();
    queue.send(&header(1, 300), &[], None).unwrap();
    assert!(queue.can_receive(Selector::Token(1), 16));
    assert!(!queue.can_receive(Selector::Token(1), 300));
    assert!(queue.can_receive(Selector::Token(2), 300));
    let copy = queue.snapshot();
    assert_eq!(copy.slots(), queue.slots());
    assert_eq!(copy.tail(), 1);
}

#[test]
fn message_types_and_statuses() {
    assert_eq!(MessageType::NormalRequest.bits(), 0);
    assert_eq!(MessageType::PostedRequest.bits(), 1);
    assert_eq!(MessageType::Acknowledgement.bits(), 2);
    assert_eq!(MessageType::Notification.bits(), 3);
    let all = [
        Error::Success,
        Error::Failed,
        Error::NotSupported,
        Error::InvalidParam,
        Error::Denied,
        Error::InvalidAddr,
        Error::Already,
        Error::Extension,
        Error::HwFault,
        Error::Busy,
        Error::InvalidState,
        Error::BadRange,
        Error::Timeout,
        Error::Io,
        Error::NoData,
    ];
    for (i, e) in all.iter().enumerate() {
        assert_eq!(Error::from_status(-(i as i32)), *e);
    }
    assert_eq!(Error::from_status(1), Error::Failed);
    assert_eq!(Error::from_status(-15), Error::Failed);
    assert_eq!(Error::from_status(i32::MIN), Error::Failed);
}

#[test]
fn integers_in_buffers() {
    let mut b = vec![0u8; 8];
    write_u16(&mut b, 1, 0xabcd);
    write_u32(&mut b, 3, 0x0102_0304);
    assert_eq!(b, vec![0, 0xcd, 0xab, 4, 3, 2, 1, 0]);
    assert_eq!(read_u16(&b, 1), 0xabcd);
    assert_eq!(read_u32(&b, 3), 0x0102_0304);
    assert_eq!(u32_to_le_bytes(0x0102_0304), vec![4, 3, 2, 1]);
    let mut c = vec![9u8; 5];
    copy_bytes(&b, 1, &mut c, 2, 2);
    assert_eq!(c, vec![9, 9, 0xcd, 0xab, 9]);
    assert!(same_bytes(b"abc", b"abc"));
    assert!(!same_bytes(b"abc", b"abd"));
    assert!(!same_bytes(b"abc", b"ab"));
    assert!(is_listed(&[b"a".to_vec(), b"b".to_vec()], b"b"));
    assert!(!is_listed(&[b"a".to_vec()], b"b"));
}

#[test]
fn cache_lines_cover_a_range() {
    assert_eq!(cache_lines(0x1000, 4), vec![0x1000]);
    assert_eq!(cache_lines(0x103e, 4), vec![0x1000, 0x1040]);
    assert_eq!(cache_lines(0x1000, 256), vec![0x1000, 0x1040, 0x1080, 0x10c0]);
    assert_eq!(cache_lines(0x1000, 0), vec![]);
    assert_eq!(cache_lines(0x1001, 0), vec![0x1000]);
}

#[test]
fn empty_queue_with_stray_indices_has_no_message() {
    let mut queue = SmqQueue::new(Le32::new(9), Le32::new(9), vec![0u8; 4 * 64], 64, 4);
    assert!(queue.can_receive(Selector::Token(1), 16));
    let mut out = [0u8; 16];
    assert!(queue.receive(1, &mut out).is_err());
    assert_eq!(queue.head(), 9);
    assert!(!SmqQueue::new(Le32::new(9), Le32::new(0), vec![0u8; 4 * 64], 64, 4)
        .can_receive(Selector::Token(1), 16));
}

#[test]
fn messages_are_received_in_any_order() {
    for order in [[0usize, 1, 2], [0, 2, 1], [1, 0, 2], [1, 2, 0], [2, 0, 1], [2, 1, 0]] {
        // The ring wraps around while the messages are sent.
        let mut queue = SmqQueue::new(Le32::new(2), Le32::new(2), vec![0xeeu8; 4 * 64], 64, 4);
        for i in 0..3u8 {
            let data = vec![i + 1; i as usize + 1];
            queue.send(&header(10 + i as u16, data.len() as u16), &data, None).unwrap();
        }
        assert!(queue.is_full());
        for i in order {
            let mut out = [0xffu8; 8];
            assert_eq!(queue.receive(10 + i as u16, &mut out), Ok(i + 1));
            assert_eq!(out[..i + 1], vec![i as u8 + 1; i + 1]);
            assert_eq!(out[i + 1..], vec![0xffu8; 7 - i]);
        }
        assert!(queue.is_empty());
        for i in 0..3u16 {
            assert!(queue.receive(10 + i, &mut [0u8; 8]).is_err());
        }
    }
}
