use fps_monitor::event::{FrameTimestampEvent, EVENT_SIZE};

fn image(pid: u32, padding: [u8; 4], ktime_ns: u64) -> Vec<u8> {
    let mut record = pid.to_le_bytes().to_vec();
    record.extend_from_slice(&padding);
    record.extend_from_slice(&ktime_ns.to_le_bytes());
    record
}

#[test]
fn event_size_is_that_of_the_structure() {
    assert_eq!(EVENT_SIZE, 16);
}

#[test]
fn record_bytes_are_little_endian() {
    let record = [
        0x78, 0x56, 0x34, 0x12, 0, 0, 0, 0, 0xef, 0xcd, 0xab, 0x89, 0x67, 0x45, 0x23, 0x01,
    ];
    assert_eq!(
        FrameTimestampEvent::from_record(&record),
        Some(FrameTimestampEvent { pid: 0x1234_5678, ktime_ns: 0x0123_4567_89ab_cdef })
    );
}

#[test]
fn decoding_gives_back_what_was_encoded() {
    for pid in [0, 1, 255, 256, 65_536, 4_194_304, u32::MAX] {
        for ktime_ns in [0, 1, 255, 256, 1 << 32, 123_456_789_012, u64::MAX] {
            assert_eq!(
                FrameTimestampEvent::from_record(&image(pid, [0; 4], ktime_ns)),
                Some(FrameTimestampEvent { pid, ktime_ns })
            );
        }
    }
}

#[test]
fn padding_and_trailing_bytes_do_not_matter() {
    let mut record = image(4242, [0xde, 0xad, 0xbe, 0xef], 99);
    record.extend_from_slice(&[7; 20]);
    assert_eq!(
        FrameTimestampEvent::from_record(&record),
        Some(FrameTimestampEvent { pid: 4242, ktime_ns: 99 })
    );
}

#[test]
fn short_record_holds_no_event() {
    let record = image(1, [0; 4], 2);
    for len in 0..EVENT_SIZE {
        assert_eq!(FrameTimestampEvent::from_record(&record[..len]), None);
    }
}
