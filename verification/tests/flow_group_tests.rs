use packet_pincer::packet_model::NetLayer;
use packet_pincer::packet_model::TransportLayer;
use packet_pincer::FlowGroup;
use packet_pincer::PacketMeta;
use packet_pincer::ParsedPacket;
use packet_pincer::TransportFlow;

fn udp_packet(src: [u8; 4], sport: u16, dst: [u8; 4], dport: u16, payload_len: u32) -> ParsedPacket {
    ParsedPacket {
        net: Some(NetLayer::V4 {
            source: u32::from_be_bytes(src),
            dest: u32::from_be_bytes(dst),
            protocol: 17,
            identification: 0,
            frag_offset: 0,
            more_fragments: false,
            ttl: 64,
            payload: vec![],
        }),
        transport: Some(TransportLayer::Udp {
            source_port: sport,
            dest_port: dport,
            header_len: 8,
            payload_len,
        }),
    }
}

fn meta(time_us: i64, captured_len: u32) -> PacketMeta {
    PacketMeta { time_us, captured_len }
}

const A: [u8; 4] = [192, 168, 1, 1];
const B: [u8; 4] = [192, 168, 1, 2];
const C: [u8; 4] = [192, 168, 1, 3];
const D: [u8; 4] = [192, 168, 1, 4];

#[test]
fn test_end_to_end_two_flows() {
    let mut flows = FlowGroup::new();
    assert_eq!(flows.latest_time(), None);

    // t = 0: A -> B
    let r = flows.accumulate_parsed(&meta(0, 50), udp_packet(A, 21, B, 1234, 8));
    assert!(r.is_ok());
    assert_eq!(flows.transport_flow_count(), 1);
    assert_eq!(flows.latest_time(), Some(0));

    // t = 1: B -> A, the same flow by symmetry
    let r = flows.accumulate_parsed(&meta(1, 60), udp_packet(B, 1234, A, 21, 8));
    assert!(r.is_ok());
    assert_eq!(flows.transport_flow_count(), 1);
    assert_eq!(flows.get_oldest_time_transport(), Some(1));
    assert_eq!(flows.latest_time(), Some(1));

    // t = 10: C -> D, a new flow
    let r = flows.accumulate_parsed(&meta(10, 70), udp_packet(C, 21, D, 1234, 8));
    assert!(r.is_ok());
    assert_eq!(flows.transport_flow_count(), 2);
    assert_eq!(flows.get_oldest_time_transport(), Some(1));
    assert_eq!(flows.latest_time(), Some(10));

    // the A/B flow is 9 microseconds idle, so a 3 microsecond threshold
    // evicts it
    let flow = flows.pop_oldest_transport_flow_if_older_than(3).unwrap();
    assert_eq!(
        flow.statistics.packet_count.forward_count + flow.statistics.packet_count.backward_count,
        2,
    );
    assert_eq!(flow.statistics.byte_count.bidirectional.current_sum(), 50 + 60);
    assert_eq!(flows.transport_flow_count(), 1);
}

#[test]
fn test_eviction_threshold_is_strict() {
    let mut flows = FlowGroup::new();
    // the flow's last packet is at t = 0
    flows
        .accumulate_parsed(&meta(0, 50), udp_packet(A, 21, B, 1234, 8))
        .unwrap();
    // the clock advances to t = 5 with an unrelated packet
    flows
        .accumulate_parsed(&meta(5, 50), udp_packet(C, 21, D, 1234, 8))
        .unwrap();

    // gap of exactly the threshold: nothing is evicted
    assert!(flows.pop_oldest_transport_flow_if_older_than(5).is_none());
    assert_eq!(flows.transport_flow_count(), 2);

    // one microsecond less than the gap: the oldest flow is evicted
    let flow = flows.pop_oldest_transport_flow_if_older_than(4).unwrap();
    assert_eq!(flow.statistics.flow_times.last_packet_time, 0);
    assert_eq!(flows.transport_flow_count(), 1);
}

#[test]
fn test_drain_completeness() {
    let mut flows = FlowGroup::new();
    // five packets over three distinct flows, some flows seen twice
    flows.accumulate_parsed(&meta(0, 50), udp_packet(A, 1, B, 2, 8)).unwrap();
    flows.accumulate_parsed(&meta(1, 50), udp_packet(C, 3, D, 4, 8)).unwrap();
    flows.accumulate_parsed(&meta(2, 50), udp_packet(B, 2, A, 1, 8)).unwrap();
    flows.accumulate_parsed(&meta(3, 50), udp_packet(A, 5, B, 6, 8)).unwrap();
    flows.accumulate_parsed(&meta(4, 50), udp_packet(D, 4, C, 3, 8)).unwrap();
    assert_eq!(flows.transport_flow_count(), 3);

    // repeated unconditional pops yield each distinct flow exactly once,
    // oldest first
    let mut drained: Vec<TransportFlow> = Vec::new();
    while let Some(flow) = flows.pop_oldest_transport_flow() {
        drained.push(flow);
    }
    assert_eq!(drained.len(), 3);
    assert_eq!(flows.transport_flow_count(), 0);
    assert!(flows.pop_oldest_transport_flow().is_none());

    // no flow is duplicated: all identifiers differ pairwise
    for i in 0..drained.len() {
        for j in (i + 1)..drained.len() {
            assert!(drained[i].identifier != drained[j].identifier);
        }
    }
    // pops come out in order of last packet time
    assert_eq!(drained[0].statistics.flow_times.last_packet_time, 2);
    assert_eq!(drained[1].statistics.flow_times.last_packet_time, 3);
    assert_eq!(drained[2].statistics.flow_times.last_packet_time, 4);
}

#[test]
fn test_fragment_flow_eviction() {
    let mut flows = FlowGroup::new();
    // a lone fragment at t = 0 opens a buffer
    let frag = ParsedPacket {
        net: Some(NetLayer::V4 {
            source: u32::from_be_bytes(A),
            dest: u32::from_be_bytes(B),
            protocol: 17,
            identification: 7,
            frag_offset: 0,
            more_fragments: true,
            ttl: 64,
            payload: vec![0; 8],
        }),
        transport: None,
    };
    let r = flows.accumulate_parsed(&meta(0, 50), frag).unwrap();
    assert!(matches!(r, packet_pincer::PacketOutcome::Counted(0, 0)));
    assert_eq!(flows.network_flow_count(), 1);
    assert_eq!(flows.get_oldest_time_network_fragment(), Some(0));

    // the clock advances; a gap equal to the threshold does not evict,
    // one beyond it does, reporting the discarded fragment count
    flows
        .accumulate_parsed(&meta(30, 50), udp_packet(C, 1, D, 2, 8))
        .unwrap();
    assert!(flows.pop_oldest_network_flow_if_older_than(30).is_none());
    assert_eq!(flows.pop_oldest_network_flow_if_older_than(29), Some(1));
    assert_eq!(flows.network_flow_count(), 0);
    assert!(flows.pop_oldest_network_flow().is_none());
}

#[test]
fn test_non_fragment_without_transport_is_an_error() {
    let mut flows = FlowGroup::new();
    let packet = ParsedPacket {
        net: Some(NetLayer::V4 {
            source: 1,
            dest: 2,
            protocol: 99,
            identification: 0,
            frag_offset: 0,
            more_fragments: false,
            ttl: 64,
            payload: vec![],
        }),
        transport: None,
    };
    let r = flows.accumulate_parsed(&meta(0, 50), packet);
    assert!(matches!(r, Err(packet_pincer::ParseError::MissingTransportLayer)));
    // the eviction clock still advanced
    assert_eq!(flows.latest_time(), Some(0));
}

#[test]
fn test_missing_network_layer_is_an_error() {
    let mut flows = FlowGroup::new();
    let packet = ParsedPacket { net: None, transport: None };
    let r = flows.accumulate_parsed(&meta(0, 50), packet);
    assert!(matches!(r, Err(packet_pincer::ParseError::MissingNetworkLayer)));
}

#[test]
fn test_unsupported_transport_is_an_error() {
    let mut flows = FlowGroup::new();
    let packet = ParsedPacket {
        net: Some(NetLayer::V4 {
            source: 1,
            dest: 2,
            protocol: 1,
            identification: 0,
            frag_offset: 0,
            more_fragments: false,
            ttl: 64,
            payload: vec![],
        }),
        transport: Some(TransportLayer::Other { header_len: 8, payload_len: 0 }),
    };
    let r = flows.accumulate_parsed(&meta(0, 50), packet);
    assert!(matches!(r, Err(packet_pincer::ParseError::UnsupportedTransportLayer)));
}
