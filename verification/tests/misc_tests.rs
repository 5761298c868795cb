use packet_pincer::packet_model::packet_time_micros;
use packet_pincer::ExecutionStats;
use packet_pincer::ParseError;

#[test]
fn test_packet_time_micros() {
    assert_eq!(packet_time_micros(0, 0), Some(0));
    assert_eq!(packet_time_micros(1, 500_000), Some(1_500_000));
    assert_eq!(packet_time_micros(-1, 250_000), Some(-750_000));
    // a microsecond part outside the second is invalid
    assert_eq!(packet_time_micros(0, 1_000_000), None);
    assert_eq!(packet_time_micros(0, -1), None);
    // seconds whose microsecond count cannot be represented are invalid
    assert_eq!(packet_time_micros(i64::MAX, 0), None);
    assert_eq!(packet_time_micros(9_223_372_036_854, 775_807), Some(i64::MAX));
    assert_eq!(packet_time_micros(9_223_372_036_854, 775_808), None);
}

#[test]
fn test_execution_stats_counting() {
    let mut stats = ExecutionStats::default();
    assert_eq!(stats.total_count, 0);

    stats.record_packet_outcome(&Ok((1, 0)));
    stats.record_packet_outcome(&Ok((2, 3)));
    stats.record_packet_outcome(&Err(ParseError::UnsupportedLinkType));
    stats.record_packet_outcome(&Err(ParseError::MissingNetworkLayer));
    stats.record_packet_outcome(&Err(ParseError::MissingTransportLayer));
    stats.record_packet_outcome(&Err(ParseError::UnsupportedTransportLayer));
    stats.record_packet_outcome(&Err(ParseError::ErrorOnSlicingPacket("bad".to_string())));
    stats.record_packet_outcome(&Err(ParseError::ErrorOnSlicingReassembledPacket {
        error: "bad".to_string(),
        invalid_fragments: 4,
    }));
    stats.record_closed_flow();
    stats.record_unreassembled_fragments(7);

    assert_eq!(stats.total_count, 8);
    assert_eq!(stats.valid_count, 3);
    assert_eq!(stats.discarded_fragments_ignored_on_reassembly_count, 3);
    assert_eq!(stats.unsupported_link_type_count, 1);
    assert_eq!(stats.packet_could_not_find_net_layer_count, 1);
    assert_eq!(stats.packet_could_not_find_transport_layer_count, 1);
    assert_eq!(stats.unsupported_transport_type_count, 1);
    assert_eq!(stats.packet_error_on_slice_count, 1);
    assert_eq!(stats.packet_error_on_slice_reasembled_count, 1);
    assert_eq!(stats.flow_count, 1);
    assert_eq!(stats.discarded_fragments_no_reassembly_count, 7);

    // one line for the total, one per non-zero counter, each carrying
    // the counter's value and its description
    let lines = stats.print_info_results();
    assert_eq!(lines.len(), 10);
    assert_eq!(lines[0].0, 8);
    assert_eq!(lines[0].1, "packets were seen");
    assert_eq!(lines[1].0, 3);
    assert_eq!(lines[1].1, "packets were valid");
    assert_eq!(lines[2].0, 1);
    assert_eq!(lines[2].1, "packets had issues on slicing");
    assert_eq!(lines[9].0, 7);
    assert_eq!(lines[9].1, "fragments had to be discarded without an associated reassembly");
}

#[test]
fn test_execution_stats_report_skips_zero_counters() {
    let stats = ExecutionStats::default();
    let lines = stats.print_info_results();
    assert_eq!(lines.len(), 1);
    assert_eq!(lines[0].0, 0);
    assert_eq!(lines[0].1, "packets were seen");
}
