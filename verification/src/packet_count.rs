//! Per-direction packet counters of a flow.

use vstd::prelude::*;

use crate::flow_identifier::spec_is_forward;
use crate::flow_identifier::is_forward;
use crate::flow_identifier::TransportFlowIdentifier;
use crate::packet_flow::FragmentReasemblyInformation;
use crate::packet_model::ParsedPacket;
use crate::running_stat::capped;
use crate::util::sat_add_u32;

verus! {

/// How many packets one accumulation event stands for: the total fragment
/// count when the event is a reassembled datagram, one otherwise.
pub open spec fn spec_packet_count(
    reasembly_information: Option<FragmentReasemblyInformation>,
) -> u32 {
    match reasembly_information {
        Some(ri) => ri.total_fragments_received_count,
        None => 1,
    }
}

/// Extracts the packet count that one accumulation event stands for.
pub fn extract_packet_count(
    reasembly_information: Option<&FragmentReasemblyInformation>,
) -> (r: u32)
    ensures
        r == spec_packet_count(crate::flow_times::option_deref(reasembly_information)),
{
    match reasembly_information {
        Some(ri) => ri.total_fragments_received_count,
        None => 1,
    }
}

/// Packet counts of a flow, split by direction. The counts saturate at
/// `u32::MAX`.
#[derive(Clone, Copy, Debug, PartialEq, Eq, Structural)]
pub struct PacketCount {
    pub forward_count: u32,
    pub backward_count: u32,
}

impl PacketCount {
    /// The counts after the flow's first packet, which is forward by
    /// definition.
    pub open spec fn initial(
        reasembly_information: Option<FragmentReasemblyInformation>,
    ) -> PacketCount {
        PacketCount {
            forward_count: spec_packet_count(reasembly_information),
            backward_count: 0,
        }
    }

    /// The counts after one more packet: the side the packet travels on
    /// grows by the event's packet count.
    pub open spec fn updated(
        self,
        identifier: TransportFlowIdentifier,
        packet: ParsedPacket,
        reasembly_information: Option<FragmentReasemblyInformation>,
    ) -> PacketCount {
        let count = spec_packet_count(reasembly_information);
        if spec_is_forward(identifier, packet) {
            PacketCount {
                forward_count: capped(self.forward_count + count, u32::MAX as int) as u32,
                backward_count: self.backward_count,
            }
        } else {
            PacketCount {
                forward_count: self.forward_count,
                backward_count: capped(self.backward_count + count, u32::MAX as int) as u32,
            }
        }
    }

    /// Create the counters from the flow's first packet.
    pub fn from_packet(
        reasembly_information: Option<&FragmentReasemblyInformation>,
    ) -> (r: PacketCount)
        ensures
            r == PacketCount::initial(crate::flow_times::option_deref(reasembly_information)),
    {
        PacketCount {
            forward_count: extract_packet_count(reasembly_information),
            backward_count: 0,
        }
    }

    /// Count one more packet on the side it travels on.
    pub fn accumulate(
        &mut self,
        identifier: &TransportFlowIdentifier,
        packet: &ParsedPacket,
        reasembly_information: Option<&FragmentReasemblyInformation>,
    )
        requires
            packet.net is Some,
        ensures
            *final(self) == old(self).updated(
                *identifier,
                *packet,
                crate::flow_times::option_deref(reasembly_information),
            ),
    {
        let count = extract_packet_count(reasembly_information);
        if is_forward(identifier, packet) {
            self.forward_count = sat_add_u32(self.forward_count, count);
        } else {
            self.backward_count = sat_add_u32(self.backward_count, count);
        }
    }
}

} // verus!
