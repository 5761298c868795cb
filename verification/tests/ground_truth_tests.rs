use packet_pincer::ground_truth::HostPair;
use packet_pincer::ground_truth::Label;
use packet_pincer::ground_truth::SortedLabelList;
use packet_pincer::packet_model::ParsedPacket;
use packet_pincer::packet_model::NetLayer;
use packet_pincer::packet_model::PacketMeta;
use packet_pincer::packet_model::TransportLayer;
use packet_pincer::GroundTruth;
use packet_pincer::IpAddress;
use packet_pincer::TransportFlow;
use packet_pincer::TransportFlowIdentifier;

#[test]
fn test_sorted_label_list_add_sorted() {
    let mut list = SortedLabelList::new(Label::from(2, 3, " ".to_string()).unwrap());
    list.push(Label::from(0, 1, " ".to_string()).unwrap())
        .unwrap();
    assert_eq!(list.0.get(0).unwrap().start, 0);
}

#[test]
fn test_sorted_label_list_prevents_overlap() {
    let mut list = SortedLabelList::new(Label::from(10, 20, " ".to_string()).unwrap());

    // Overlap with one that starts before
    assert!(list.push(Label::from(0, 10, " ".to_string()).unwrap()).is_err());
    assert!(list.push(Label::from(0, 15, " ".to_string()).unwrap()).is_err());
    assert!(list.push(Label::from(0, 20, " ".to_string()).unwrap()).is_err());
    assert!(list.push(Label::from(0, 25, " ".to_string()).unwrap()).is_err());

    // Overlap with one that starts after
    assert!(list.push(Label::from(05, 30, " ".to_string()).unwrap()).is_err());
    assert!(list.push(Label::from(10, 30, " ".to_string()).unwrap()).is_err());
    assert!(list.push(Label::from(15, 30, " ".to_string()).unwrap()).is_err());
    assert!(list.push(Label::from(20, 30, " ".to_string()).unwrap()).is_err());
}

#[test]
fn test_overlap_indicies() {
    let mut list = SortedLabelList::new(Label::from(01, 10, " ".to_string()).unwrap());
    list.push(Label::from(20, 30, " ".to_string()).unwrap())
        .unwrap();
    list.push(Label::from(40, 50, " ".to_string()).unwrap())
        .unwrap();

    // Test different empty points
    assert_eq!(list.find_overlap_indicies(00, 00), None);
    assert_eq!(list.find_overlap_indicies(11, 19), None);
    assert_eq!(list.find_overlap_indicies(31, 39), None);
    assert_eq!(list.find_overlap_indicies(51, 55), None);

    // Test extending from the left
    assert_eq!(list.find_overlap_indicies(00, 01), Some((0, 0)));
    assert_eq!(list.find_overlap_indicies(00, 05), Some((0, 0)));
    assert_eq!(list.find_overlap_indicies(00, 10), Some((0, 0)));
    assert_eq!(list.find_overlap_indicies(00, 15), Some((0, 0)));

    assert_eq!(list.find_overlap_indicies(00, 20), Some((0, 1)));
    assert_eq!(list.find_overlap_indicies(00, 25), Some((0, 1)));
    assert_eq!(list.find_overlap_indicies(00, 30), Some((0, 1)));
    assert_eq!(list.find_overlap_indicies(00, 35), Some((0, 1)));

    assert_eq!(list.find_overlap_indicies(00, 40), Some((0, 2)));
    assert_eq!(list.find_overlap_indicies(00, 45), Some((0, 2)));
    assert_eq!(list.find_overlap_indicies(00, 50), Some((0, 2)));
    assert_eq!(list.find_overlap_indicies(00, 55), Some((0, 2)));

    // Test extending from the right
    assert_eq!(list.find_overlap_indicies(50, 55), Some((2, 2)));
    assert_eq!(list.find_overlap_indicies(45, 55), Some((2, 2)));
    assert_eq!(list.find_overlap_indicies(40, 55), Some((2, 2)));
    assert_eq!(list.find_overlap_indicies(35, 55), Some((2, 2)));

    assert_eq!(list.find_overlap_indicies(30, 55), Some((1, 2)));
    assert_eq!(list.find_overlap_indicies(25, 55), Some((1, 2)));
    assert_eq!(list.find_overlap_indicies(20, 55), Some((1, 2)));
    assert_eq!(list.find_overlap_indicies(15, 55), Some((1, 2)));

    assert_eq!(list.find_overlap_indicies(10, 55), Some((0, 2)));
    assert_eq!(list.find_overlap_indicies(05, 55), Some((0, 2)));
    assert_eq!(list.find_overlap_indicies(01, 55), Some((0, 2)));
    assert_eq!(list.find_overlap_indicies(00, 55), Some((0, 2)));
}

#[test]
fn test_find_overlap_indicies() {
    let mut list = SortedLabelList::new(Label::from(01, 10, "first".to_string()).unwrap());
    list.push(Label::from(20, 30, "second".to_string()).unwrap())
        .unwrap();
    list.push(Label::from(40, 51, "third".to_string()).unwrap())
        .unwrap();

    // No match
    assert_eq!(list.find_label(00, 00), None);

    // Exact match
    assert_eq!(list.find_label(01, 10).unwrap().as_str(), "first");

    // Partial left match
    assert_eq!(list.find_label(00, 05).unwrap().as_str(), "first");

    // Partial right match
    assert_eq!(list.find_label(05, 15).unwrap().as_str(), "first");

    // Bigger/inside match
    assert_eq!(list.find_label(05, 5).unwrap().as_str(), "first");
    assert_eq!(list.find_label(0, 15).unwrap().as_str(), "first");

    // Multiple matches
    assert_eq!(list.find_label(00, 20).unwrap().as_str(), "first");
    assert_eq!(list.find_label(00, 30).unwrap().as_str(), "second");
    assert_eq!(list.find_label(00, 60).unwrap().as_str(), "third");
}

#[test]
fn test_ground_truth_lookup_for_flow() {
    let a = IpAddress::V4(u32::from_be_bytes([10, 0, 0, 1]));
    let b = IpAddress::V4(u32::from_be_bytes([10, 0, 0, 2]));
    let mut truth = GroundTruth::new();
    truth
        .add_record(HostPair::from(a, b, 17), 0, 100, "benign".to_string())
        .unwrap();

    let identifier = TransportFlowIdentifier::new(a, 5000, b, 53, 17);
    let packet = ParsedPacket {
        net: Some(NetLayer::V4 {
            source: u32::from_be_bytes([10, 0, 0, 1]),
            dest: u32::from_be_bytes([10, 0, 0, 2]),
            protocol: 17,
            identification: 0,
            frag_offset: 0,
            more_fragments: false,
            ttl: 64,
            payload: vec![],
        }),
        transport: Some(TransportLayer::Udp {
            source_port: 5000,
            dest_port: 53,
            header_len: 8,
            payload_len: 4,
        }),
    };
    let meta = PacketMeta { time_us: 50, captured_len: 60 };
    let flow = TransportFlow::from(identifier, &meta, &packet, None);
    assert_eq!(truth.find_label(&flow).unwrap().as_str(), "benign");

    // a flow outside every labelled interval matches nothing
    let meta_late = PacketMeta { time_us: 500, captured_len: 60 };
    let late_flow = TransportFlow::from(identifier, &meta_late, &packet, None);
    assert!(truth.find_label(&late_flow).is_none());
}

#[test]
fn test_ground_truth_rejects_bad_records() {
    let a = IpAddress::V4(1);
    let b = IpAddress::V4(2);
    let mut truth = GroundTruth::new();
    // inverted interval
    assert!(truth.add_record(HostPair::from(a, b, 6), 10, 5, "x".to_string()).is_err());
    // overlapping intervals for one pair
    truth.add_record(HostPair::from(a, b, 6), 0, 10, "x".to_string()).unwrap();
    assert!(truth.add_record(HostPair::from(a, b, 6), 5, 15, "y".to_string()).is_err());
    // the same interval under another pair is fine
    truth.add_record(HostPair::from(a, b, 17), 5, 15, "y".to_string()).unwrap();
}
