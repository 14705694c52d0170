use beditor::layout::{embedded_viewport_area, Theme};
use beditor::viewport_frame::{frame_length, frame_payload, ViewportState, FRAME_WINDOW_NANOS};

#[test]
fn payload_is_read_after_big_endian_length() {
    let shm = [0u8, 0, 0, 3, 7, 8, 9, 10, 11];
    assert_eq!(frame_payload(&shm), Some(vec![7, 8, 9]));
    let shm = [0u8, 0, 1, 0];
    assert_eq!(frame_payload(&shm), None);
}

#[test]
fn payload_absent_for_short_zero_or_overlong() {
    assert_eq!(frame_payload(&[0u8, 0, 0]), None);
    assert_eq!(frame_payload(&[0u8, 0, 0, 0, 1, 2]), None);
    assert_eq!(frame_payload(&[0u8, 0, 0, 5, 1, 2, 3, 4]), None);
    assert_eq!(frame_payload(&[0u8, 0, 0, 4, 1, 2, 3, 4]), Some(vec![1, 2, 3, 4]));
    assert_eq!(frame_payload(&[255u8, 255, 255, 255, 1]), None);
}

#[test]
fn receive_frame_encodes_counts_and_rates() {
    let mut s = ViewportState::new();
    assert!(s.receive_frame(&[0, 0, 0, 3, b'a', b'b', b'c'], 10));
    assert_eq!(s.frame.as_deref(), Some("YWJj"));
    assert_eq!(s.frame_count, 1);
    assert_eq!(s.fps, 1);
    assert!(!s.receive_frame(&[0, 0, 0, 0], 20));
    assert_eq!(s.frame_count, 1);
    assert!(s.receive_frame(&[0, 0, 0, 1, 0xff], 30));
    assert_eq!(s.frame.as_deref(), Some("/w=="));
    assert_eq!(s.frame_count, 2);
    assert_eq!(s.fps, 2);
}

#[test]
fn frame_rate_counts_only_the_last_second() {
    let mut s = ViewportState::new();
    s.record_frame("a".to_string(), 0);
    s.record_frame("b".to_string(), 500_000_000);
    s.record_frame("c".to_string(), FRAME_WINDOW_NANOS + 100);
    assert_eq!(s.fps, 2);
    assert_eq!(s.frame_timestamps.iter().copied().collect::<Vec<_>>(), vec![500_000_000, FRAME_WINDOW_NANOS + 100]);
    s.prune(3 * FRAME_WINDOW_NANOS);
    assert_eq!(s.fps, 0);
    assert!(s.frame_timestamps.is_empty());
    assert_eq!(s.frame_count, 3);
    assert_eq!(s.frame.as_deref(), Some("c"));
}

#[test]
fn pruning_stops_at_first_recent_stamp() {
    let mut s = ViewportState::new();
    s.frame_timestamps.push_back(5_000_000_000);
    s.frame_timestamps.push_back(1);
    s.prune(5_500_000_000);
    assert_eq!(s.frame_timestamps.iter().copied().collect::<Vec<_>>(), vec![5_000_000_000, 1]);
    assert_eq!(s.fps, 2);
}

#[test]
fn viewport_area_leaves_room_for_panels_and_bars() {
    assert_eq!(embedded_viewport_area(10, 20, 1920, 1080), (310, 122, 1270, 945));
    assert_eq!(embedded_viewport_area(0, 0, 600, 100), (300, 102, 0, 0));
    assert_eq!(embedded_viewport_area(-50, -5, 650, 135), (250, 97, 0, 0));
}

#[test]
fn theme_names() {
    assert_eq!(Theme::Dark.as_str(), "dark");
    assert_eq!(Theme::Light.as_str(), "light");
}

#[test]
fn frame_length_reads_the_header() {
    assert_eq!(frame_length(&[0u8, 0, 0, 3, 7, 8, 9, 0]), Some(3));
    assert_eq!(frame_length(&[0u8, 0, 0, 0, 1]), None);
    assert_eq!(frame_length(&[0u8, 0, 0, 9, 1]), None);
    assert_eq!(frame_length(&[0u8, 0]), None);
}

#[test]
fn frames_are_standard_padded_base64() {
    let mut s = ViewportState::new();
    assert!(s.receive_frame(&[0, 0, 0, 2, b'h', b'i'], 1));
    assert_eq!(s.frame.as_deref(), Some("aGk="));
    assert!(s.receive_frame(&[0, 0, 0, 5, 0xfb, 0xef, 0xbe, b'4', b'2'], 2));
    assert_eq!(s.frame.as_deref(), Some("++++NDI="));
}
