use etherparse::PacketBuilder;
use packet_pincer::FlowGroup;
use packet_pincer::IpAddress;
use packet_pincer::PacketMeta;
use packet_pincer::ParseError;
use packet_pincer::TransportFlowIdentifier;

const ETHERNET: i32 = 1;

fn meta(time_us: i64, captured_len: u32) -> PacketMeta {
    PacketMeta { time_us, captured_len }
}

fn udp_frame(src: [u8; 4], sport: u16, dst: [u8; 4], dport: u16, payload: &[u8]) -> Vec<u8> {
    let builder = PacketBuilder::ethernet2([1, 2, 3, 4, 5, 6], [7, 8, 9, 10, 11, 12])
        .ipv4(src, dst, 20)
        .udp(sport, dport);
    let mut frame = Vec::<u8>::with_capacity(builder.size(payload.len()));
    builder.write(&mut frame, payload).unwrap();
    frame
}

#[test]
fn test_correct_transport_flow_order_inclusion() {
    // Create flow group
    let mut flow_group = FlowGroup::new();

    assert_eq!(flow_group.latest_time(), None);

    // Common packet data
    let payload = [1, 2, 3, 4, 5, 6, 7, 8];

    // First packet
    {
        let frame = udp_frame([192, 168, 1, 1], 21, [192, 168, 1, 2], 1234, &payload);
        let _ = flow_group.accumulate(ETHERNET, &meta(0, frame.len() as u32), &frame);

        // Assert
        assert_eq!(flow_group.transport_flow_count(), 1);
        assert_eq!(flow_group.get_oldest_time_transport(), Some(0));
        assert_eq!(flow_group.latest_time(), Some(0));
    }

    // Try popping
    assert!(flow_group
        .pop_oldest_transport_flow_if_older_than(3)
        .is_none());

    // Second packet: the reply direction of the first flow
    {
        let frame = udp_frame([192, 168, 1, 2], 1234, [192, 168, 1, 1], 21, &payload);
        let _ = flow_group.accumulate(ETHERNET, &meta(1, frame.len() as u32), &frame);

        // Assert
        assert_eq!(flow_group.transport_flow_count(), 1);
        assert_eq!(flow_group.get_oldest_time_transport(), Some(1));
        assert_eq!(flow_group.latest_time(), Some(1));
    }

    // Try popping
    assert!(flow_group
        .pop_oldest_transport_flow_if_older_than(3)
        .is_none());

    // Third packet: a new flow
    {
        let frame = udp_frame([192, 168, 1, 3], 21, [192, 168, 1, 4], 1234, &payload);
        let _ = flow_group.accumulate(ETHERNET, &meta(10, frame.len() as u32), &frame);

        // Assert
        assert_eq!(flow_group.transport_flow_count(), 2);
        assert_eq!(flow_group.get_oldest_time_transport(), Some(1));
        assert_eq!(flow_group.latest_time(), Some(10));
    }

    // Try popping: the first flow has been idle for 9 microseconds
    let popped = flow_group.pop_oldest_transport_flow_if_older_than(3);
    assert!(popped.is_some());
    let expected = TransportFlowIdentifier::new(
        IpAddress::V4(u32::from_be_bytes([192, 168, 1, 1])),
        21,
        IpAddress::V4(u32::from_be_bytes([192, 168, 1, 2])),
        1234,
        17,
    );
    assert!(popped.unwrap().identifier == expected);
}

fn fragment_frame(
    src: [u8; 4],
    dst: [u8; 4],
    identification: u16,
    offset_field: u16,
    more: bool,
    ip_payload: &[u8],
) -> Vec<u8> {
    let mut ip = etherparse::Ipv4Header::new(
        ip_payload.len() as u16,
        20,
        etherparse::IpNumber::UDP,
        src,
        dst,
    )
    .unwrap();
    ip.identification = identification;
    ip.more_fragments = more;
    ip.fragment_offset = offset_field.try_into().unwrap();
    let eth = etherparse::Ethernet2Header {
        source: [1, 2, 3, 4, 5, 6],
        destination: [7, 8, 9, 10, 11, 12],
        ether_type: etherparse::EtherType::IPV4,
    };
    let mut frame = Vec::new();
    eth.write(&mut frame).unwrap();
    ip.write(&mut frame).unwrap();
    frame.extend_from_slice(ip_payload);
    frame
}

#[test]
fn test_fragmented_udp_datagram_reassembles_into_a_flow() {
    // a 16-byte UDP datagram split into two 8-byte IPv4 fragments
    let udp = etherparse::UdpHeader {
        source_port: 5000,
        destination_port: 53,
        length: 16,
        checksum: 0,
    };
    let mut datagram = Vec::new();
    udp.write(&mut datagram).unwrap();
    datagram.extend_from_slice(&[1, 2, 3, 4, 5, 6, 7, 8]);
    assert_eq!(datagram.len(), 16);

    let src = [10, 0, 0, 1];
    let dst = [10, 0, 0, 2];
    let frag1 = fragment_frame(src, dst, 99, 0, true, &datagram[..8]);
    let frag2 = fragment_frame(src, dst, 99, 1, false, &datagram[8..]);

    let mut flows = FlowGroup::new();

    // the first fragment is buffered, nothing counted yet
    let r = flows.accumulate(ETHERNET, &meta(0, frag1.len() as u32), &frag1);
    assert_eq!(r.unwrap(), (0, 0));
    assert_eq!(flows.network_flow_count(), 1);
    assert_eq!(flows.transport_flow_count(), 0);

    // the second fragment completes the datagram: two distinct offsets
    // were used, none discarded, and the reassembled datagram opens a
    // transport flow
    let r = flows.accumulate(ETHERNET, &meta(5, frag2.len() as u32), &frag2);
    assert_eq!(r.unwrap(), (2, 0));
    assert_eq!(flows.network_flow_count(), 0);
    assert_eq!(flows.transport_flow_count(), 1);

    let flow = flows.pop_oldest_transport_flow().unwrap();
    let expected = TransportFlowIdentifier::new(
        IpAddress::V4(u32::from_be_bytes(src)),
        5000,
        IpAddress::V4(u32::from_be_bytes(dst)),
        53,
        17,
    );
    assert!(flow.identifier == expected);
    // the event stood for two fragments
    assert_eq!(flow.statistics.packet_count.forward_count, 2);
    // and for all bytes received over both fragments
    assert_eq!(
        flow.statistics.byte_count.bidirectional.current_sum(),
        (frag1.len() + frag2.len()) as u64,
    );
    // the flow's time span covers the whole fragment range
    assert_eq!(flow.statistics.flow_times.first_packet_time, 0);
    assert_eq!(flow.statistics.flow_times.last_packet_time, 5);
}

#[test]
fn test_unsupported_link_type() {
    let mut flows = FlowGroup::new();
    let r = flows.accumulate(99, &meta(0, 4), &[1, 2, 3, 4]);
    assert!(matches!(r, Err(ParseError::UnsupportedLinkType)));
    assert_eq!(flows.latest_time(), Some(0));
}

#[test]
fn test_error_on_slicing_garbage() {
    let mut flows = FlowGroup::new();
    let r = flows.accumulate(ETHERNET, &meta(0, 3), &[1, 2, 3]);
    assert!(matches!(r, Err(ParseError::ErrorOnSlicingPacket(_))));
}

#[test]
fn test_missing_network_layer_on_unknown_ether_type() {
    let eth = etherparse::Ethernet2Header {
        source: [1, 2, 3, 4, 5, 6],
        destination: [7, 8, 9, 10, 11, 12],
        ether_type: etherparse::EtherType(0x9999),
    };
    let mut frame = Vec::new();
    eth.write(&mut frame).unwrap();
    frame.extend_from_slice(&[0, 0, 0, 0]);

    let mut flows = FlowGroup::new();
    let r = flows.accumulate(ETHERNET, &meta(0, frame.len() as u32), &frame);
    assert!(matches!(r, Err(ParseError::MissingNetworkLayer)));
}

#[test]
fn test_missing_transport_layer_on_unknown_protocol() {
    let payload = [0u8; 4];
    let ip = etherparse::Ipv4Header::new(
        payload.len() as u16,
        20,
        etherparse::IpNumber(99),
        [10, 0, 0, 1],
        [10, 0, 0, 2],
    )
    .unwrap();
    let eth = etherparse::Ethernet2Header {
        source: [1, 2, 3, 4, 5, 6],
        destination: [7, 8, 9, 10, 11, 12],
        ether_type: etherparse::EtherType::IPV4,
    };
    let mut frame = Vec::new();
    eth.write(&mut frame).unwrap();
    ip.write(&mut frame).unwrap();
    frame.extend_from_slice(&payload);

    let mut flows = FlowGroup::new();
    let r = flows.accumulate(ETHERNET, &meta(0, frame.len() as u32), &frame);
    assert!(matches!(r, Err(ParseError::MissingTransportLayer)));
}

#[test]
fn test_unsupported_transport_layer_on_icmp() {
    let builder = PacketBuilder::ethernet2([1, 2, 3, 4, 5, 6], [7, 8, 9, 10, 11, 12])
        .ipv4([10, 0, 0, 1], [10, 0, 0, 2], 20)
        .icmpv4_echo_request(1, 1);
    let payload = [1, 2, 3, 4];
    let mut frame = Vec::<u8>::with_capacity(builder.size(payload.len()));
    builder.write(&mut frame, &payload).unwrap();

    let mut flows = FlowGroup::new();
    let r = flows.accumulate(ETHERNET, &meta(0, frame.len() as u32), &frame);
    assert!(matches!(r, Err(ParseError::UnsupportedTransportLayer)));
}
