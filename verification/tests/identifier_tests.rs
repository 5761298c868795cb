use packet_pincer::IpAddress;
use packet_pincer::TransportFlowIdentifier;

const TCP: u8 = 6;
const UDP: u8 = 17;

fn v4(a: u8, b: u8, c: u8, d: u8) -> IpAddress {
    IpAddress::V4(u32::from_be_bytes([a, b, c, d]))
}

#[test]
fn test_eq_transport_pair() {
    let request = TransportFlowIdentifier::new(v4(192, 168, 1, 2), 1234, v4(192, 168, 1, 1), 80, TCP);
    let reply = TransportFlowIdentifier::new(v4(192, 168, 1, 1), 80, v4(192, 168, 1, 2), 1234, TCP);

    assert!(request == request);
    assert!(request == reply);
    assert!(reply == reply);
    assert!(request == request);
}

#[test]
fn test_different_transport_pairs() {
    let id1 = TransportFlowIdentifier::new(v4(192, 168, 1, 2), 1234, v4(192, 168, 1, 1), 80, TCP);
    let id2 = TransportFlowIdentifier::new(v4(192, 168, 1, 2), 1234, v4(192, 168, 1, 1), 80, UDP);
    let id3 = TransportFlowIdentifier::new(v4(192, 168, 1, 2), 1234, v4(192, 168, 1, 1), 433, TCP);

    assert!(id1 != id2);
    assert!(id1 != id3);
    assert!(id2 != id1);
    assert!(id2 != id3);
    assert!(id3 != id1);
    assert!(id3 != id1);
}

#[test]
fn test_symmetric_pair_same_key() {
    let request = TransportFlowIdentifier::new(v4(10, 0, 0, 1), 5000, v4(10, 0, 0, 2), 53, UDP);
    let reply = TransportFlowIdentifier::new(v4(10, 0, 0, 2), 53, v4(10, 0, 0, 1), 5000, UDP);
    assert_eq!(request.key(), reply.key());
}

#[test]
fn test_v4_and_v6_addresses_differ() {
    // an IPv6 address whose numeric value matches an IPv4 one still names
    // a different host
    let a = TransportFlowIdentifier::new(IpAddress::V4(1), 80, IpAddress::V4(2), 81, TCP);
    let b = TransportFlowIdentifier::new(IpAddress::V6(1), 80, IpAddress::V4(2), 81, TCP);
    assert!(a != b);
    assert_ne!(a.key(), b.key());
}
