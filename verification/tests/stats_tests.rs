use packet_pincer::flow_times::FlowTimes;
use packet_pincer::packet_count::extract_packet_count;
use packet_pincer::byte_count::extract_byte_count;
use packet_pincer::packet_model::NetLayer;
use packet_pincer::packet_model::TransportLayer;
use packet_pincer::FlowGroup;
use packet_pincer::FragmentReasemblyInformation;
use packet_pincer::PacketMeta;
use packet_pincer::ParsedPacket;

fn meta(time_us: i64, captured_len: u32) -> PacketMeta {
    PacketMeta { time_us, captured_len }
}

fn tcp_packet(
    src: [u8; 4],
    sport: u16,
    dst: [u8; 4],
    dport: u16,
    payload_len: u32,
    window_size: u16,
    syn: bool,
    ack: bool,
    psh: bool,
    fin: bool,
) -> ParsedPacket {
    ParsedPacket {
        net: Some(NetLayer::V4 {
            source: u32::from_be_bytes(src),
            dest: u32::from_be_bytes(dst),
            protocol: 6,
            identification: 0,
            frag_offset: 0,
            more_fragments: false,
            ttl: 64,
            payload: vec![],
        }),
        transport: Some(TransportLayer::Tcp {
            source_port: sport,
            dest_port: dport,
            header_len: 20,
            payload_len,
            window_size,
            cwr: false,
            ece: false,
            urg: false,
            ack,
            psh,
            rst: false,
            syn,
            fin,
        }),
    }
}

const A: [u8; 4] = [10, 0, 0, 1];
const B: [u8; 4] = [10, 0, 0, 2];

#[test]
fn test_tcp_flow_statistics() {
    let mut flows = FlowGroup::new();
    // forward SYN with a payload, window 1000
    flows
        .accumulate_parsed(&meta(0, 74), tcp_packet(A, 1000, B, 80, 10, 1000, true, false, false, false))
        .unwrap();
    // backward SYN+ACK, empty payload, window 2000
    flows
        .accumulate_parsed(&meta(100, 60), tcp_packet(B, 80, A, 1000, 0, 2000, true, true, false, false))
        .unwrap();
    // forward ACK+PSH with a payload
    flows
        .accumulate_parsed(&meta(250, 90), tcp_packet(A, 1000, B, 80, 30, 1000, false, true, true, false))
        .unwrap();

    assert_eq!(flows.transport_flow_count(), 1);
    let flow = flows.pop_oldest_transport_flow().unwrap();
    let s = &flow.statistics;

    // protocols
    assert!(s.protocols.has_tcp);
    assert!(!s.protocols.has_udp);

    // packet counts by direction
    assert_eq!(s.packet_count.forward_count, 2);
    assert_eq!(s.packet_count.backward_count, 1);

    // byte counts: captured lengths per direction
    assert_eq!(s.byte_count.bidirectional.current_sum(), 74 + 60 + 90);
    assert_eq!(s.byte_count.forward.current_sum(), 74 + 90);
    assert_eq!(s.byte_count.backward.current_sum(), 60);
    assert_eq!(s.byte_count.forward.current_min(), Some(74));
    assert_eq!(s.byte_count.forward.current_max(), Some(90));

    // flow times
    assert_eq!(s.flow_times.first_packet_time, 0);
    assert_eq!(s.flow_times.last_packet_time, 250);

    // inter-arrival times: bidirectional deltas 100 and 150; the forward
    // series got its delta of 250; the lone backward packet only seeded
    // the backward clock
    assert_eq!(s.interarrival.bidirectional_iat.current_count(), 2);
    assert_eq!(s.interarrival.bidirectional_iat.current_sum(), 250);
    assert_eq!(s.interarrival.bidirectional_iat.current_min(), Some(100));
    assert_eq!(s.interarrival.bidirectional_iat.current_max(), Some(150));
    assert_eq!(s.interarrival.forward_iat.current_count(), 1);
    assert_eq!(s.interarrival.forward_iat.current_sum(), 250);
    assert_eq!(s.interarrival.backward_iat.current_count(), 0);

    // tcp flags
    assert_eq!(s.tcp_flags.bidirectional_tcp_syn_flags_count, 2);
    assert_eq!(s.tcp_flags.bidirectional_tcp_ack_flags_count, 2);
    assert_eq!(s.tcp_flags.bidirectional_tcp_psh_flags_count, 1);
    assert_eq!(s.tcp_flags.bidirectional_tcp_fin_flags_count, 0);
    assert_eq!(s.tcp_flags.forward_tcp_psh_flags_count, 1);
    assert_eq!(s.tcp_flags.backward_tcp_psh_flags_count, 0);
    assert_eq!(s.tcp_flags.forward_tcp_urg_flags_count, 0);

    // transport sizes and windows
    assert_eq!(s.transport.forward_transport_header_bytes_sum, 40);
    assert_eq!(s.transport.forward_transport_payload_bytes_sum, 40);
    assert_eq!(s.transport.backward_transport_header_bytes_sum, 20);
    assert_eq!(s.transport.backward_transport_payload_bytes_sum, 0);
    assert_eq!(s.transport.forward_transport_payload_length_min, 10);
    assert_eq!(s.transport.forward_transport_packets_with_payload_count, 2);
    assert_eq!(s.transport.forward_tcp_initial_window_bytes, 1000);
    assert_eq!(s.transport.backward_tcp_initial_window_bytes, Some(2000));

    // a single active group so far
    assert_eq!(s.activity.active_group_count, 1);
    assert_eq!(s.activity.forward_packet_count, 2);
    assert_eq!(s.activity.backward_packet_count, 1);
    assert_eq!(s.activity.forward_packet_bytes_sum, 74 + 90);
    assert_eq!(s.activity.backward_packet_bytes_sum, 60);
}

#[test]
fn test_activity_idle_segmentation() {
    let mut flows = FlowGroup::new();
    let one_second: i64 = 1_000_000;
    // three packets within one burst, then a 3 second gap, then another
    flows.accumulate_parsed(&meta(0, 50), tcp_packet(A, 1, B, 2, 0, 100, false, true, false, false)).unwrap();
    flows.accumulate_parsed(&meta(200_000, 50), tcp_packet(A, 1, B, 2, 0, 100, false, true, false, false)).unwrap();
    flows.accumulate_parsed(&meta(500_000, 50), tcp_packet(A, 1, B, 2, 0, 100, false, true, false, false)).unwrap();
    flows.accumulate_parsed(&meta(500_000 + 3 * one_second, 50), tcp_packet(A, 1, B, 2, 0, 100, false, true, false, false)).unwrap();

    let flow = flows.pop_oldest_transport_flow().unwrap();
    let s = &flow.statistics;
    assert_eq!(s.activity.active_group_count, 2);
    // the closed burst lasted 500 ms; the idle gap lasted 3 s
    assert_eq!(s.activity.active_microseconds.current_count(), 1);
    assert_eq!(s.activity.active_microseconds.current_sum(), 500_000);
    assert_eq!(s.activity.idle_microseconds.current_count(), 1);
    assert_eq!(s.activity.idle_microseconds.current_sum(), 3 * one_second as u64);
}

#[test]
fn test_extract_counts_with_reassembly() {
    let info = FragmentReasemblyInformation {
        first_time: 0,
        last_time: 10,
        different_offset_fragment_received_count: 3,
        total_fragments_received_count: 5,
        reasembled_ip_packet_length: 100,
        total_bytes_received_count: 320,
    };
    let m = meta(10, 80);
    assert_eq!(extract_packet_count(Some(&info)), 5);
    assert_eq!(extract_packet_count(None), 1);
    assert_eq!(extract_byte_count(&m, Some(&info)), 320);
    assert_eq!(extract_byte_count(&m, None), 80);
}

#[test]
fn test_flow_times_widen_over_reassembly() {
    let info = FragmentReasemblyInformation {
        first_time: 5,
        last_time: 40,
        different_offset_fragment_received_count: 2,
        total_fragments_received_count: 2,
        reasembled_ip_packet_length: 16,
        total_bytes_received_count: 100,
    };
    // the packet's own time lies inside the fragment range: the span
    // covers the whole range
    let ft = FlowTimes::from_packet(&meta(20, 80), Some(&info));
    assert_eq!(ft.first_packet_time, 5);
    assert_eq!(ft.last_packet_time, 40);

    let mut ft = FlowTimes::from_packet(&meta(0, 80), None);
    assert_eq!(ft.first_packet_time, 0);
    assert_eq!(ft.last_packet_time, 0);
    ft.accumulate(&meta(20, 80), Some(&info));
    assert_eq!(ft.first_packet_time, 0);
    assert_eq!(ft.last_packet_time, 40);

    // a fragment range that began before the flow's first packet widens
    // the start of the span too
    let mut ft = FlowTimes::from_packet(&meta(10, 80), None);
    ft.accumulate(&meta(20, 80), Some(&info));
    assert_eq!(ft.first_packet_time, 5);
    assert_eq!(ft.last_packet_time, 40);
    assert_eq!(ft.duration_micros(), 35);
}
