use packet_pincer::NetworkFragmentFlow;
use packet_pincer::PacketMeta;

fn meta(time_us: i64, captured_len: u32) -> PacketMeta {
    PacketMeta { time_us, captured_len }
}

#[test]
fn test_fragment_ordering_and_overwrite() {
    // fragments arrive at byte offsets 0, 16, 8 (offset fields 0, 2, 1):
    // the buffer keeps them sorted as [0, 8, 16]
    let mut flow = NetworkFragmentFlow::from(&meta(0, 50), vec![1, 1, 1], 0, true);
    flow.accumulate(&meta(1, 50), vec![3, 3, 3], 2, true);
    flow.accumulate(&meta(2, 50), vec![2, 2, 2], 1, true);

    let offsets: Vec<u16> = flow.fragments_data.iter().map(|f| f.0).collect();
    assert_eq!(offsets, vec![0, 8, 16]);
    assert_eq!(flow.total_fragments_received_count, 3);

    // a repeated offset keeps one entry, holding the later payload
    flow.accumulate(&meta(3, 50), vec![9, 9, 9], 1, true);
    let offsets: Vec<u16> = flow.fragments_data.iter().map(|f| f.0).collect();
    assert_eq!(offsets, vec![0, 8, 16]);
    assert_eq!(flow.fragments_data[1].1, vec![9, 9, 9]);
    assert_eq!(flow.total_fragments_received_count, 4);
}

#[test]
fn test_completeness_contiguous() {
    // fragments covering [0, 8) and [8, 20), terminal at the end:
    // expected size 20, fully covered, so the buffer is complete
    let mut flow = NetworkFragmentFlow::from(&meta(0, 50), vec![0; 8], 0, true);
    assert!(!flow.is_complete());
    flow.accumulate(&meta(1, 50), vec![0; 12], 1, false);
    assert!(flow.is_complete());
    let (bytes, info) = flow.try_reasemble().unwrap();
    assert_eq!(bytes.len(), 20);
    assert_eq!(info.reasembled_ip_packet_length, 20);
    assert_eq!(info.different_offset_fragment_received_count, 2);
    assert_eq!(info.total_fragments_received_count, 2);
    assert_eq!(info.first_time, 0);
    assert_eq!(info.last_time, 1);
}

#[test]
fn test_completeness_hole() {
    // fragments covering [0, 8) and [16, 24): a hole at [8, 16) leaves
    // the buffer incomplete even though the expected size is known
    let mut flow = NetworkFragmentFlow::from(&meta(0, 50), vec![0; 8], 0, true);
    flow.accumulate(&meta(1, 50), vec![0; 8], 2, false);
    assert!(!flow.is_complete());
    assert!(flow.try_reasemble().is_none());
}

#[test]
fn test_reassembled_bytes_at_offsets() {
    let mut flow = NetworkFragmentFlow::from(&meta(0, 50), vec![1, 2, 3, 4, 5, 6, 7, 8], 0, true);
    flow.accumulate(&meta(1, 50), vec![9, 10, 11, 12], 1, false);
    let (bytes, _) = flow.try_reasemble().unwrap();
    assert_eq!(bytes, vec![1, 2, 3, 4, 5, 6, 7, 8, 9, 10, 11, 12]);
}

#[test]
fn test_expected_size_set_once() {
    // the first terminal fragment fixes the expected size; a later
    // terminal fragment does not revise it
    let mut flow = NetworkFragmentFlow::from(&meta(0, 50), vec![0; 8], 1, false);
    assert_eq!(flow.expected_size, Some(16));
    flow.accumulate(&meta(1, 50), vec![0; 16], 2, false);
    assert_eq!(flow.expected_size, Some(16));
}
