//! Sticky transport-protocol indicators of a flow.

use vstd::prelude::*;

use crate::packet_model::ParsedPacket;
use crate::packet_model::TransportLayer;

verus! {

/// Whether the packet carries a TCP transport layer.
pub open spec fn packet_has_tcp(packet: ParsedPacket) -> bool {
    packet.transport matches Some(TransportLayer::Tcp { .. })
}

/// Whether the packet carries a UDP transport layer.
pub open spec fn packet_has_udp(packet: ParsedPacket) -> bool {
    packet.transport matches Some(TransportLayer::Udp { .. })
}

/// Which transport protocols have been seen on a flow. The booleans are
/// sticky: once set by any packet of the flow they stay set.
#[derive(Clone, Copy, Debug, PartialEq, Eq, Structural)]
pub struct Protocols {
    pub has_tcp: bool,
    pub has_udp: bool,
}

impl Protocols {
    /// The indicators after the flow's first packet.
    pub open spec fn initial(packet: ParsedPacket) -> Protocols {
        Protocols { has_tcp: packet_has_tcp(packet), has_udp: packet_has_udp(packet) }
    }

    /// The indicators after one more packet: the old values OR-ed with the
    /// packet's.
    pub open spec fn updated(self, packet: ParsedPacket) -> Protocols {
        Protocols {
            has_tcp: self.has_tcp || packet_has_tcp(packet),
            has_udp: self.has_udp || packet_has_udp(packet),
        }
    }

    /// Create the indicators from the flow's first packet.
    pub fn from_packet(packet: &ParsedPacket) -> (r: Protocols)
        ensures
            r == Protocols::initial(*packet),
    {
        match &packet.transport {
            Some(TransportLayer::Tcp { .. }) => Protocols { has_tcp: true, has_udp: false },
            Some(TransportLayer::Udp { .. }) => Protocols { has_tcp: false, has_udp: true },
            _ => Protocols { has_tcp: false, has_udp: false },
        }
    }

    /// Fold one more packet's protocols into the indicators.
    pub fn accumulate(&mut self, packet: &ParsedPacket)
        ensures
            *final(self) == old(self).updated(*packet),
    {
        match &packet.transport {
            Some(TransportLayer::Tcp { .. }) => {
                self.has_tcp = true;
            },
            Some(TransportLayer::Udp { .. }) => {
                self.has_udp = true;
            },
            _ => {},
        }
    }
}

} // verus!
