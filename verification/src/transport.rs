//! Transport-layer size and window statistics of a flow.

use vstd::prelude::*;

use crate::flow_identifier::spec_is_forward;
use crate::flow_identifier::is_forward;
use crate::flow_identifier::TransportFlowIdentifier;
use crate::packet_model::ParsedPacket;
use crate::packet_model::TransportLayer;
use crate::running_stat::capped;
use crate::util::sat_add_u32;
use crate::util::sat_add_u64;

verus! {

/// The transport-header length of a packet, zero without a transport
/// layer.
pub open spec fn spec_header_len(packet: ParsedPacket) -> u32 {
    match packet.transport {
        Some(TransportLayer::Tcp { header_len, .. }) => header_len,
        Some(TransportLayer::Udp { header_len, .. }) => header_len,
        Some(TransportLayer::Other { header_len, .. }) => header_len,
        None => 0,
    }
}

/// The transport-payload length of a packet, zero without a transport
/// layer.
pub open spec fn spec_payload_len(packet: ParsedPacket) -> u32 {
    match packet.transport {
        Some(TransportLayer::Tcp { payload_len, .. }) => payload_len,
        Some(TransportLayer::Udp { payload_len, .. }) => payload_len,
        Some(TransportLayer::Other { payload_len, .. }) => payload_len,
        None => 0,
    }
}

/// The TCP window size of a packet, `None` when the packet is not TCP.
pub open spec fn spec_tcp_window(packet: ParsedPacket) -> Option<u16> {
    match packet.transport {
        Some(TransportLayer::Tcp { window_size, .. }) => Some(window_size),
        _ => None,
    }
}

/// Transport-layer statistics of a flow: per-direction sums of header and
/// payload bytes, the least forward payload length, how many forward
/// packets carried a non-empty payload, and the initial TCP window size
/// seen in each direction. Sums and counts saturate.
#[derive(Clone, Copy, Debug, PartialEq, Eq, Structural)]
pub struct Transport {
    pub forward_transport_header_bytes_sum: u64,
    pub forward_transport_payload_bytes_sum: u64,
    pub backward_transport_header_bytes_sum: u64,
    pub backward_transport_payload_bytes_sum: u64,
    pub forward_transport_payload_length_min: u32,
    pub forward_transport_packets_with_payload_count: u32,
    pub forward_tcp_initial_window_bytes: u32,
    pub backward_tcp_initial_window_bytes: Option<u32>,
}

impl Transport {
    /// The statistics after the flow's first packet, which is forward: its
    /// sizes seed the forward aggregates, and its window size — zero for a
    /// non-TCP packet — becomes the forward initial window. A packet
    /// without a transport layer leaves everything zero.
    pub open spec fn initial(packet: ParsedPacket) -> Transport {
        match packet.transport {
            None => Transport {
                forward_transport_header_bytes_sum: 0,
                forward_transport_payload_bytes_sum: 0,
                backward_transport_header_bytes_sum: 0,
                backward_transport_payload_bytes_sum: 0,
                forward_transport_payload_length_min: 0,
                forward_transport_packets_with_payload_count: 0,
                forward_tcp_initial_window_bytes: 0,
                backward_tcp_initial_window_bytes: None,
            },
            Some(_) => Transport {
                forward_transport_header_bytes_sum: spec_header_len(packet) as u64,
                forward_transport_payload_bytes_sum: spec_payload_len(packet) as u64,
                backward_transport_header_bytes_sum: 0,
                backward_transport_payload_bytes_sum: 0,
                forward_transport_payload_length_min: spec_payload_len(packet),
                forward_transport_packets_with_payload_count:
                    if spec_payload_len(packet) == 0 { 0 } else { 1 },
                forward_tcp_initial_window_bytes: match spec_tcp_window(packet) {
                    Some(w) => w as u32,
                    None => 0,
                },
                backward_tcp_initial_window_bytes: None,
            },
        }
    }

    /// The statistics after one more packet. A forward packet grows the
    /// forward sums, lowers the forward payload minimum and counts a
    /// non-empty payload; a backward packet grows the backward sums and, if
    /// it is the first backward TCP packet, fixes the backward initial
    /// window. A packet without a transport layer changes nothing.
    pub open spec fn updated(
        self,
        identifier: TransportFlowIdentifier,
        packet: ParsedPacket,
    ) -> Transport {
        match packet.transport {
            None => self,
            Some(_) => {
                let h = spec_header_len(packet) as u64;
                let p = spec_payload_len(packet);
                if spec_is_forward(identifier, packet) {
                    Transport {
                        forward_transport_header_bytes_sum:
                            capped(self.forward_transport_header_bytes_sum + h, u64::MAX as int) as u64,
                        forward_transport_payload_bytes_sum:
                            capped(self.forward_transport_payload_bytes_sum + p, u64::MAX as int) as u64,
                        forward_transport_payload_length_min:
                            if p < self.forward_transport_payload_length_min {
                                p
                            } else {
                                self.forward_transport_payload_length_min
                            },
                        forward_transport_packets_with_payload_count:
                            if p == 0 {
                                self.forward_transport_packets_with_payload_count
                            } else {
                                capped(
                                    self.forward_transport_packets_with_payload_count + 1,
                                    u32::MAX as int,
                                ) as u32
                            },
                        ..self
                    }
                } else {
                    Transport {
                        backward_transport_header_bytes_sum:
                            capped(self.backward_transport_header_bytes_sum + h, u64::MAX as int) as u64,
                        backward_transport_payload_bytes_sum:
                            capped(self.backward_transport_payload_bytes_sum + p, u64::MAX as int) as u64,
                        backward_tcp_initial_window_bytes:
                            match (self.backward_tcp_initial_window_bytes, spec_tcp_window(packet)) {
                                (None, Some(w)) => Some(w as u32),
                                (prev, _) => prev,
                            },
                        ..self
                    }
                }
            },
        }
    }

    /// Create the statistics from the flow's first packet.
    pub fn from_packet(packet: &ParsedPacket) -> (r: Transport)
        ensures
            r == Transport::initial(*packet),
    {
        match &packet.transport {
            None => Transport {
                forward_transport_header_bytes_sum: 0,
                forward_transport_payload_bytes_sum: 0,
                backward_transport_header_bytes_sum: 0,
                backward_transport_payload_bytes_sum: 0,
                forward_transport_payload_length_min: 0,
                forward_transport_packets_with_payload_count: 0,
                forward_tcp_initial_window_bytes: 0,
                backward_tcp_initial_window_bytes: None,
            },
            Some(t) => {
                let (h, p): (u32, u32) = match t {
                    TransportLayer::Tcp { header_len, payload_len, .. } => (*header_len, *payload_len),
                    TransportLayer::Udp { header_len, payload_len, .. } => (*header_len, *payload_len),
                    TransportLayer::Other { header_len, payload_len } => (*header_len, *payload_len),
                };
                let w: u32 = match t {
                    TransportLayer::Tcp { window_size, .. } => *window_size as u32,
                    _ => 0,
                };
                Transport {
                    forward_transport_header_bytes_sum: h as u64,
                    forward_transport_payload_bytes_sum: p as u64,
                    backward_transport_header_bytes_sum: 0,
                    backward_transport_payload_bytes_sum: 0,
                    forward_transport_payload_length_min: p,
                    forward_transport_packets_with_payload_count: if p == 0 { 0 } else { 1 },
                    forward_tcp_initial_window_bytes: w,
                    backward_tcp_initial_window_bytes: None,
                }
            },
        }
    }

    /// Fold one more packet's transport sizes into the statistics.
    pub fn accumulate(
        &mut self,
        identifier: &TransportFlowIdentifier,
        packet: &ParsedPacket,
    )
        requires
            packet.net is Some,
        ensures
            *final(self) == old(self).updated(*identifier, *packet),
    {
        match &packet.transport {
            None => {},
            Some(t) => {
                let (h, p): (u32, u32) = match t {
                    TransportLayer::Tcp { header_len, payload_len, .. } => (*header_len, *payload_len),
                    TransportLayer::Udp { header_len, payload_len, .. } => (*header_len, *payload_len),
                    TransportLayer::Other { header_len, payload_len } => (*header_len, *payload_len),
                };
                if is_forward(identifier, packet) {
                    self.forward_transport_header_bytes_sum =
                        sat_add_u64(self.forward_transport_header_bytes_sum, h as u64);
                    self.forward_transport_payload_bytes_sum =
                        sat_add_u64(self.forward_transport_payload_bytes_sum, p as u64);
                    if p < self.forward_transport_payload_length_min {
                        self.forward_transport_payload_length_min = p;
                    }
                    if p != 0 {
                        self.forward_transport_packets_with_payload_count =
                            sat_add_u32(self.forward_transport_packets_with_payload_count, 1);
                    }
                } else {
                    self.backward_transport_header_bytes_sum =
                        sat_add_u64(self.backward_transport_header_bytes_sum, h as u64);
                    self.backward_transport_payload_bytes_sum =
                        sat_add_u64(self.backward_transport_payload_bytes_sum, p as u64);
                    if self.backward_tcp_initial_window_bytes.is_none() {
                        match t {
                            TransportLayer::Tcp { window_size, .. } => {
                                self.backward_tcp_initial_window_bytes = Some(*window_size as u32);
                            },
                            _ => {},
                        }
                    }
                }
            },
        }
    }
}

} // verus!
