use imu_orientation::frame::{has_full_frame, quaternion_payload, FRAME_LEN, QUATERNION_LEN};

#[test]
fn a_packet_is_twenty_eight_bytes_and_starts_with_sixteen_of_quaternion() {
    assert_eq!(FRAME_LEN, 28);
    assert_eq!(QUATERNION_LEN, 16);
}

#[test]
fn a_read_is_due_from_twenty_eight_queued_bytes_on() {
    assert!(!has_full_frame(0));
    assert!(!has_full_frame(1));
    assert!(!has_full_frame(27));
    assert!(has_full_frame(28));
    assert!(has_full_frame(29));
    assert!(has_full_frame(56));
    assert!(has_full_frame(1024));
    assert!(has_full_frame(usize::MAX));
}

#[test]
fn the_payload_is_the_head_of_the_packet() {
    let frame: Vec<u8> = (100..128).collect();
    let head: Vec<u8> = (100..116).collect();
    assert_eq!(quaternion_payload(&frame), Some(&head[..]));
}

#[test]
fn only_a_whole_packet_has_a_payload() {
    for len in 0..64usize {
        let buffer = vec![7u8; len];
        assert_eq!(quaternion_payload(&buffer).is_some(), len == 28, "length {len}");
    }
}
