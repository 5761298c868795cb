//! Packet decoding, decoding failures, and flow-identifier extraction.
//!
//! The byte-level decoding of frames is done by the outside decoder
//! behind a small trusted surface: one slicing call per entry point, and
//! one conversion per layer variant, each moving the decoded fields into
//! the crate's plain-value packet model. Everything downstream works on
//! that model and is verified.

use vstd::prelude::*;

use crate::flow_identifier::NetworkFlowIdentifier;
use crate::flow_identifier::TransportFlowIdentifier;
use crate::packet_model::IpAddress;
use crate::packet_model::NetLayer;
use crate::packet_model::ParsedPacket;
use crate::packet_model::TransportLayer;

verus! {

/// The link-layer type code of Ethernet captures.
pub const LINKTYPE_ETHERNET: i32 = 1;

/// The link-layer type code of Linux cooked captures.
pub const LINKTYPE_LINUX_SLL: i32 = 113;

#[verifier::external_type_specification]
#[verifier::external_body]
pub struct ExSlicedPacket<'a>(etherparse::SlicedPacket<'a>);

#[verifier::external_type_specification]
#[verifier::external_body]
pub struct ExIpv4Slice<'a>(etherparse::Ipv4Slice<'a>);

#[verifier::external_type_specification]
#[verifier::external_body]
pub struct ExIpv6Slice<'a>(etherparse::Ipv6Slice<'a>);

#[verifier::external_type_specification]
#[verifier::external_body]
pub struct ExTcpSlice<'a>(etherparse::TcpSlice<'a>);

#[verifier::external_type_specification]
#[verifier::external_body]
pub struct ExUdpSlice<'a>(etherparse::UdpSlice<'a>);

#[verifier::external_type_specification]
#[verifier::external_body]
pub struct ExIcmpv4Slice<'a>(etherparse::Icmpv4Slice<'a>);

#[verifier::external_type_specification]
#[verifier::external_body]
pub struct ExIcmpv6Slice<'a>(etherparse::Icmpv6Slice<'a>);

#[verifier::external_type_specification]
#[verifier::external_body]
pub struct ExIgmpSlice<'a>(etherparse::IgmpSlice<'a>);

/// What decoding a frame that starts with an Ethernet II header yields:
/// the decoder's result depends on the frame bytes alone.
pub uninterp spec fn decoded_ethernet(data: Seq<u8>) -> Result<ParsedPacket, Seq<char>>;

/// What decoding a frame that starts with a Linux cooked-capture header
/// yields: the decoder's result depends on the frame bytes alone.
pub uninterp spec fn decoded_linux_sll(data: Seq<u8>) -> Result<ParsedPacket, Seq<char>>;

/// What decoding a bare IP datagram — as reassembly produces — yields:
/// the decoder's result depends on the datagram bytes alone.
pub uninterp spec fn decoded_ip(data: Seq<u8>) -> Result<ParsedPacket, Seq<char>>;

/// A decode result with its error description read as a character
/// sequence, the shape the decode names use.
pub open spec fn parse_result_view(r: Result<ParsedPacket, String>) -> Result<
    ParsedPacket,
    Seq<char>,
> {
    match r {
        Ok(p) => Ok(p),
        Err(e) => Err(e@),
    }
}

/// Relies on etherparse::SlicedPacket::from_ethernet: decodes a frame
/// that starts with an Ethernet II header — a function of the frame
/// bytes alone — or reports why it cannot.
#[verifier::external_body]
fn parse_ethernet_frame(data: &[u8]) -> (r: Result<ParsedPacket, String>)
    ensures
        parse_result_view(r) == decoded_ethernet(data@),
        r matches Ok(p) ==> p.wf(),
{
    match etherparse::SlicedPacket::from_ethernet(data) {
        Ok(p) => Ok(ParsedPacket { net: net_of(&p), transport: transport_of(&p) }),
        Err(e) => Err(format!("{:?}", e)),
    }
}

/// Relies on etherparse::SlicedPacket::from_linux_sll: decodes a frame
/// that starts with a Linux cooked-capture header — a function of the
/// frame bytes alone — or reports why it cannot.
#[verifier::external_body]
fn parse_linux_sll_frame(data: &[u8]) -> (r: Result<ParsedPacket, String>)
    ensures
        parse_result_view(r) == decoded_linux_sll(data@),
        r matches Ok(p) ==> p.wf(),
{
    match etherparse::SlicedPacket::from_linux_sll(data) {
        Ok(p) => Ok(ParsedPacket { net: net_of(&p), transport: transport_of(&p) }),
        Err(e) => Err(format!("{:?}", e)),
    }
}

/// Relies on etherparse::SlicedPacket::from_ip: decodes a bare IP
/// datagram — a function of the datagram bytes alone — or reports why it
/// cannot.
#[verifier::external_body]
fn parse_ip_frame(data: &[u8]) -> (r: Result<ParsedPacket, String>)
    ensures
        parse_result_view(r) == decoded_ip(data@),
        r matches Ok(p) ==> p.wf(),
{
    match etherparse::SlicedPacket::from_ip(data) {
        Ok(p) => Ok(ParsedPacket { net: net_of(&p), transport: transport_of(&p) }),
        Err(e) => Err(format!("{:?}", e)),
    }
}

/// Relies on etherparse::Ipv4Slice: the header accessors return the
/// decoded IPv4 header fields; the fragment offset is a 13-bit value and
/// the payload length is bounded by the 16-bit total-length field.
#[verifier::external_body]
fn ipv4_fields(v: &etherparse::Ipv4Slice<'_>) -> (r: NetLayer)
    ensures
        r is V4,
        r->V4_frag_offset <= 0x1fff,
        r->V4_payload@.len() <= 0xffff,
{
    NetLayer::V4 {
        source: u32::from(v.header().source_addr()),
        dest: u32::from(v.header().destination_addr()),
        protocol: v.header().protocol().0,
        identification: v.header().identification(),
        frag_offset: v.header().fragments_offset().value(),
        more_fragments: v.header().more_fragments(),
        ttl: v.header().ttl(),
        payload: v.payload().payload.to_vec(),
    }
}

/// Relies on etherparse::Ipv6Slice: the header accessors return the
/// decoded IPv6 header fields.
#[verifier::external_body]
fn ipv6_fields(v: &etherparse::Ipv6Slice<'_>) -> (r: NetLayer)
    ensures
        r is V6,
{
    NetLayer::V6 {
        source: u128::from(v.header().source_addr()),
        dest: u128::from(v.header().destination_addr()),
        protocol: v.header().next_header().0,
    }
}

/// Relies on the `net` field of etherparse::SlicedPacket: the decoded
/// network layer, if the packet had one. ARP carries no flow, so it maps
/// to none.
#[verifier::external_body]
fn net_of(p: &etherparse::SlicedPacket<'_>) -> (r: Option<NetLayer>)
    ensures
        match r {
            Some(net) => net is V4 ==> net->V4_frag_offset <= 0x1fff
                && net->V4_payload@.len() <= 0xffff,
            None => true,
        },
{
    match &p.net {
        Some(etherparse::NetSlice::Ipv4(v)) => Some(ipv4_fields(v)),
        Some(etherparse::NetSlice::Ipv6(v)) => Some(ipv6_fields(v)),
        Some(etherparse::NetSlice::Arp(_)) => None,
        None => None,
    }
}

/// Relies on etherparse::TcpSlice: the accessors return the decoded TCP
/// header fields and payload bounds.
#[verifier::external_body]
fn tcp_fields(t: &etherparse::TcpSlice<'_>) -> (r: TransportLayer) {
    TransportLayer::Tcp {
        source_port: t.source_port(),
        dest_port: t.destination_port(),
        header_len: t.header_slice().len() as u32,
        payload_len: t.payload().len() as u32,
        window_size: t.window_size(),
        cwr: t.cwr(),
        ece: t.ece(),
        urg: t.urg(),
        ack: t.ack(),
        psh: t.psh(),
        rst: t.rst(),
        syn: t.syn(),
        fin: t.fin(),
    }
}

/// Relies on etherparse::UdpSlice: the accessors return the decoded UDP
/// header fields and payload bounds.
#[verifier::external_body]
fn udp_fields(u: &etherparse::UdpSlice<'_>) -> (r: TransportLayer) {
    TransportLayer::Udp {
        source_port: u.source_port(),
        dest_port: u.destination_port(),
        header_len: u.header_slice().len() as u32,
        payload_len: u.payload().len() as u32,
    }
}

/// Relies on etherparse::Icmpv4Slice: header and payload lengths.
#[verifier::external_body]
fn icmpv4_fields(x: &etherparse::Icmpv4Slice<'_>) -> (r: TransportLayer) {
    TransportLayer::Other {
        header_len: x.header_len() as u32,
        payload_len: x.payload().len() as u32,
    }
}

/// Relies on etherparse::Icmpv6Slice: header and payload lengths.
#[verifier::external_body]
fn icmpv6_fields(x: &etherparse::Icmpv6Slice<'_>) -> (r: TransportLayer) {
    TransportLayer::Other {
        header_len: x.header_len() as u32,
        payload_len: x.payload().len() as u32,
    }
}

/// Relies on etherparse::IgmpSlice: header and payload lengths.
#[verifier::external_body]
fn igmp_fields(x: &etherparse::IgmpSlice<'_>) -> (r: TransportLayer) {
    TransportLayer::Other {
        header_len: x.header_len() as u32,
        payload_len: x.payload().len() as u32,
    }
}

/// Relies on the `transport` field of etherparse::SlicedPacket: the
/// decoded transport layer, if the packet had one.
#[verifier::external_body]
fn transport_of(p: &etherparse::SlicedPacket<'_>) -> (r: Option<TransportLayer>) {
    match &p.transport {
        Some(etherparse::TransportSlice::Tcp(t)) => Some(tcp_fields(t)),
        Some(etherparse::TransportSlice::Udp(u)) => Some(udp_fields(u)),
        Some(etherparse::TransportSlice::Icmpv4(x)) => Some(icmpv4_fields(x)),
        Some(etherparse::TransportSlice::Icmpv6(x)) => Some(icmpv6_fields(x)),
        Some(etherparse::TransportSlice::Igmp(x)) => Some(igmp_fields(x)),
        None => None,
    }
}

/// What serializing an IPv4 datagram with the given addressing, TTL and
/// protocol around the payload yields: the builder's result depends on
/// these arguments alone.
pub uninterp spec fn built_ipv4(
    source: u32,
    dest: u32,
    ttl: u8,
    protocol: u8,
    payload: Seq<u8>,
) -> Result<Seq<u8>, Seq<char>>;

/// A build result with the bytes and the error description read as
/// sequences, the shape the builder name uses.
pub open spec fn build_result_view(r: Result<Vec<u8>, String>) -> Result<Seq<u8>, Seq<char>> {
    match r {
        Ok(b) => Ok(b@),
        Err(e) => Err(e@),
    }
}

/// Relies on etherparse::PacketBuilder::ipv4 and its write — a function
/// of its arguments alone: serializes an IPv4 datagram with the given
/// addressing, TTL and protocol around the payload, or reports why it
/// cannot (an over-long payload).
#[verifier::external_body]
pub fn build_ipv4_packet(
    source: u32,
    dest: u32,
    ttl: u8,
    protocol: u8,
    payload: &[u8],
) -> (r: Result<Vec<u8>, String>)
    ensures
        build_result_view(r) == built_ipv4(source, dest, ttl, protocol, payload@),
{
    let builder = etherparse::PacketBuilder::ipv4(source.to_be_bytes(), dest.to_be_bytes(), ttl);
    let mut out: Vec<u8> = Vec::with_capacity(builder.size(payload.len()));
    match builder.write(&mut out, etherparse::IpNumber(protocol), payload) {
        Ok(()) => Ok(out),
        Err(e) => Err(format!("{:?}", e)),
    }
}

/// A frame-decode result against what the link type's named decode
/// yields: success with exactly the decoded packet, or the decoder's
/// error wrapped as `ErrorOnSlicingPacket`.
pub open spec fn matches_decode(
    r: Result<ParsedPacket, ParseError>,
    decode: Result<ParsedPacket, Seq<char>>,
) -> bool {
    match r {
        Ok(p) => decode == Ok::<ParsedPacket, Seq<char>>(p),
        Err(e) => (e matches ParseError::ErrorOnSlicingPacket(detail)
            && decode == Err::<ParsedPacket, Seq<char>>(detail@)),
    }
}

/// Try to decode a captured frame of the given link type into the
/// plain-value packet model. Exactly the Ethernet and Linux
/// cooked-capture link types are accepted; the result is the link type's
/// decode of the bytes, and a decoded packet is within the wire-format
/// bounds.
pub fn try_parse_packet(link_type: i32, data: &[u8]) -> (r: Result<ParsedPacket, ParseError>)
    ensures
        (link_type != LINKTYPE_ETHERNET && link_type != LINKTYPE_LINUX_SLL) <==> r
            == Err::<ParsedPacket, ParseError>(ParseError::UnsupportedLinkType),
        link_type == LINKTYPE_ETHERNET ==> matches_decode(r, decoded_ethernet(data@)),
        link_type == LINKTYPE_LINUX_SLL ==> matches_decode(r, decoded_linux_sll(data@)),
        r matches Ok(p) ==> p.wf(),
        r matches Err(e) ==> (e is UnsupportedLinkType || e is ErrorOnSlicingPacket),
{
    if link_type == LINKTYPE_ETHERNET {
        match parse_ethernet_frame(data) {
            Ok(p) => Ok(p),
            Err(e) => Err(ParseError::ErrorOnSlicingPacket(e)),
        }
    } else if link_type == LINKTYPE_LINUX_SLL {
        match parse_linux_sll_frame(data) {
            Ok(p) => Ok(p),
            Err(e) => Err(ParseError::ErrorOnSlicingPacket(e)),
        }
    } else {
        Err(ParseError::UnsupportedLinkType)
    }
}

/// Try to decode a bare IP datagram — a reassembled one — into the
/// plain-value packet model: the result is the bare-IP decode of the
/// bytes.
pub fn try_parse_ip_datagram(data: &[u8]) -> (r: Result<ParsedPacket, String>)
    ensures
        parse_result_view(r) == decoded_ip(data@),
        r matches Ok(p) ==> p.wf(),
{
    parse_ip_frame(data)
}

/// Why a packet could not be turned into a flow update.
#[derive(Clone, Debug, PartialEq, Eq)]
pub enum ParseError {
    /// The capture's link type is neither Ethernet nor Linux cooked
    /// capture.
    UnsupportedLinkType,
    /// The decoder rejected the raw frame; the detail describes its error.
    ErrorOnSlicingPacket(String),
    /// The decoder rejected a reassembled datagram. The fragment count is
    /// carried so the caller can account for the discarded fragments.
    ErrorOnSlicingReassembledPacket {
        /// The decoder's error, described.
        error: String,
        /// The number of fragments that fed the failed reassembly.
        invalid_fragments: u32,
    },
    /// The packet has no network layer.
    MissingNetworkLayer,
    /// The packet has no transport layer where one was required.
    MissingTransportLayer,
    /// The packet's transport layer is neither TCP nor UDP.
    UnsupportedTransportLayer,
}

/// The fragmentation status of a packet.
#[derive(Clone, Copy, Debug, PartialEq, Eq, Structural)]
pub enum FragmentationInformation {
    /// The packet is not a fragment.
    NoFragmentation,
    /// The packet is an IPv4 fragment not yet reassembled: the raw 13-bit
    /// offset field (in 8-octet units) and whether more fragments follow.
    FragmentedIpv4Packet {
        fragmentation_offset: u16,
        more_packets: bool,
    },
}

/// An identifier for a communication between two hosts: at the transport
/// layer where one is available, at the network layer for a
/// not-yet-reassembled IPv4 fragment.
#[derive(Clone, Copy, Debug)]
pub enum FlowIdentifier {
    TransportFlowIdentifier(TransportFlowIdentifier),
    NetworkFlowIdentifier(NetworkFlowIdentifier),
}

/// What identifier a decoded packet yields.
///
/// A packet without a network layer yields no identifier. An IPv4 fragment
/// yields a network flow identifier with its fragmentation status; no
/// transport lookup is attempted, since non-first fragments carry no
/// usable transport header. Any other packet needs a TCP or UDP transport
/// layer, whose ports join the addresses in a transport flow identifier.
pub open spec fn spec_flow_identifier(
    packet: ParsedPacket,
) -> Result<(FlowIdentifier, FragmentationInformation), ParseError> {
    match packet.net {
        None => Err(ParseError::MissingNetworkLayer),
        Some(net) => {
            if net is V4 && net.spec_is_fragmenting() {
                Ok(
                    (
                        FlowIdentifier::NetworkFlowIdentifier(
                            NetworkFlowIdentifier {
                                source_ip: net.spec_source_address(),
                                dest_ip: net.spec_dest_address(),
                                identifier: net->V4_identification as u32,
                            },
                        ),
                        FragmentationInformation::FragmentedIpv4Packet {
                            fragmentation_offset: net->V4_frag_offset,
                            more_packets: net->V4_more_fragments,
                        },
                    ),
                )
            } else {
                match packet.transport {
                    None => Err(ParseError::MissingTransportLayer),
                    Some(TransportLayer::Other { .. }) => Err(
                        ParseError::UnsupportedTransportLayer,
                    ),
                    Some(t) => Ok(
                        (
                            FlowIdentifier::TransportFlowIdentifier(
                                TransportFlowIdentifier {
                                    source_ip: net.spec_source_address(),
                                    source_port: spec_source_port(t),
                                    dest_ip: net.spec_dest_address(),
                                    dest_port: spec_dest_port(t),
                                    transport_protocol: net.spec_protocol(),
                                },
                            ),
                            FragmentationInformation::NoFragmentation,
                        ),
                    ),
                }
            }
        },
    }
}

/// Identifier extraction fails only for a missing or unusable layer: the
/// link-type error belongs to frame decoding alone.
pub proof fn lemma_flow_identifier_errors(packet: ParsedPacket)
    ensures
        spec_flow_identifier(packet) matches Err(e) ==> (e is MissingNetworkLayer
            || e is MissingTransportLayer || e is UnsupportedTransportLayer),
{
}

/// The source port of a TCP or UDP transport layer.
pub open spec fn spec_source_port(t: TransportLayer) -> u16 {
    match t {
        TransportLayer::Tcp { source_port, .. } => source_port,
        TransportLayer::Udp { source_port, .. } => source_port,
        TransportLayer::Other { .. } => 0,
    }
}

/// The destination port of a TCP or UDP transport layer.
pub open spec fn spec_dest_port(t: TransportLayer) -> u16 {
    match t {
        TransportLayer::Tcp { dest_port, .. } => dest_port,
        TransportLayer::Udp { dest_port, .. } => dest_port,
        TransportLayer::Other { .. } => 0,
    }
}

impl FlowIdentifier {
    /// Extract the relevant flow identifier and fragmentation status from
    /// a decoded packet.
    pub fn from_sliced_packet(
        packet: &ParsedPacket,
    ) -> (r: Result<(FlowIdentifier, FragmentationInformation), ParseError>)
        ensures
            r == spec_flow_identifier(*packet),
    {
        let (source_ip, dest_ip, transport_protocol): (IpAddress, IpAddress, u8) =
            match &packet.net {
            None => {
                return Err(ParseError::MissingNetworkLayer);
            },
            Some(NetLayer::V4 {
                source,
                dest,
                protocol,
                identification,
                frag_offset,
                more_fragments,
                ..
            }) => {
                if *frag_offset != 0 || *more_fragments {
                    return Ok(
                        (
                            FlowIdentifier::NetworkFlowIdentifier(
                                NetworkFlowIdentifier {
                                    source_ip: IpAddress::V4(*source),
                                    dest_ip: IpAddress::V4(*dest),
                                    identifier: *identification as u32,
                                },
                            ),
                            FragmentationInformation::FragmentedIpv4Packet {
                                fragmentation_offset: *frag_offset,
                                more_packets: *more_fragments,
                            },
                        ),
                    );
                }
                (IpAddress::V4(*source), IpAddress::V4(*dest), *protocol)
            },
            Some(NetLayer::V6 { source, dest, protocol }) => {
                (IpAddress::V6(*source), IpAddress::V6(*dest), *protocol)
            },
        };

        let (source_port, dest_port): (u16, u16) = match &packet.transport {
            None => {
                return Err(ParseError::MissingTransportLayer);
            },
            Some(TransportLayer::Tcp { source_port, dest_port, .. }) => (
                *source_port,
                *dest_port,
            ),
            Some(TransportLayer::Udp { source_port, dest_port, .. }) => (
                *source_port,
                *dest_port,
            ),
            Some(TransportLayer::Other { .. }) => {
                return Err(ParseError::UnsupportedTransportLayer);
            },
        };

        Ok(
            (
                FlowIdentifier::TransportFlowIdentifier(
                    TransportFlowIdentifier {
                        source_ip,
                        source_port,
                        dest_ip,
                        dest_port,
                        transport_protocol,
                    },
                ),
                FragmentationInformation::NoFragmentation,
            ),
        )
    }
}

} // verus!
