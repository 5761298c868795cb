//! The fixed, ordered composition of all statistic components of a flow.

use vstd::prelude::*;

use crate::activity::Activity;
use crate::activity::ActivityView;
use crate::byte_count::ByteCount;
use crate::byte_count::ByteCountView;
use crate::flow_identifier::TransportFlowIdentifier;
use crate::flow_times::option_deref;
use crate::flow_times::FlowTimes;
use crate::interarrival::Interarrival;
use crate::interarrival::InterarrivalView;
use crate::packet_count::PacketCount;
use crate::packet_flow::FragmentReasemblyInformation;
use crate::packet_model::PacketMeta;
use crate::packet_model::ParsedPacket;
use crate::protocols::Protocols;
use crate::tcp_flags::TcpFlags;
use crate::transport::Transport;

verus! {

/// The model of a flow's complete statistics.
pub struct FlowStatisticsView {
    pub flow_times: FlowTimes,
    pub protocols: Protocols,
    pub packet_count: PacketCount,
    pub byte_count: ByteCountView,
    pub interarrival: InterarrivalView,
    pub tcp_flags: TcpFlags,
    pub transport: Transport,
    pub activity: ActivityView,
}

/// All statistics of one flow. Every component consumes each packet in
/// turn; the flow times are updated first, and the components that need a
/// clock read the updated span.
pub struct FlowStatistics {
    pub flow_times: FlowTimes,
    pub protocols: Protocols,
    pub packet_count: PacketCount,
    pub byte_count: ByteCount,
    pub interarrival: Interarrival,
    pub tcp_flags: TcpFlags,
    pub transport: Transport,
    pub activity: Activity,
}

impl FlowStatistics {
    pub open spec fn view(self) -> FlowStatisticsView {
        FlowStatisticsView {
            flow_times: self.flow_times,
            protocols: self.protocols,
            packet_count: self.packet_count,
            byte_count: self.byte_count.view(),
            interarrival: self.interarrival.view(),
            tcp_flags: self.tcp_flags,
            transport: self.transport,
            activity: self.activity.view(),
        }
    }

    pub open spec fn wf(self) -> bool {
        &&& self.byte_count.wf()
        &&& self.interarrival.wf()
        &&& self.activity.wf()
    }

    /// The statistics a flow starts with, from its first packet.
    pub open spec fn initial(
        meta: PacketMeta,
        packet: ParsedPacket,
        reasembly_information: Option<FragmentReasemblyInformation>,
    ) -> FlowStatisticsView {
        let ft = FlowTimes::initial(meta.time_us, reasembly_information);
        FlowStatisticsView {
            flow_times: ft,
            protocols: Protocols::initial(packet),
            packet_count: PacketCount::initial(reasembly_information),
            byte_count: ByteCount::initial(meta, reasembly_information),
            interarrival: Interarrival::initial(ft),
            tcp_flags: TcpFlags::initial(packet),
            transport: Transport::initial(packet),
            activity: Activity::initial(ft, meta, reasembly_information),
        }
    }

    /// The statistics after one more packet: each component updated in
    /// turn, the clock-reading ones against the already-updated flow
    /// times.
    pub open spec fn updated(
        v: FlowStatisticsView,
        identifier: TransportFlowIdentifier,
        meta: PacketMeta,
        packet: ParsedPacket,
        reasembly_information: Option<FragmentReasemblyInformation>,
    ) -> FlowStatisticsView {
        let ft = v.flow_times.updated(meta.time_us, reasembly_information);
        FlowStatisticsView {
            flow_times: ft,
            protocols: v.protocols.updated(packet),
            packet_count: v.packet_count.updated(identifier, packet, reasembly_information),
            byte_count: ByteCount::updated(
                v.byte_count,
                identifier,
                meta,
                packet,
                reasembly_information,
            ),
            interarrival: Interarrival::updated(v.interarrival, identifier, ft, packet),
            tcp_flags: v.tcp_flags.updated(identifier, packet),
            transport: v.transport.updated(identifier, packet),
            activity: Activity::updated(
                v.activity,
                identifier,
                ft,
                meta,
                packet,
                reasembly_information,
            ),
        }
    }

    /// Create the statistics from the flow's first packet.
    pub fn from_packet(
        meta: &PacketMeta,
        packet: &ParsedPacket,
        reasembly_information: Option<&FragmentReasemblyInformation>,
    ) -> (r: FlowStatistics)
        ensures
            r.wf(),
            r.view() == FlowStatistics::initial(
                *meta,
                *packet,
                option_deref(reasembly_information),
            ),
    {
        let flow_times = FlowTimes::from_packet(meta, reasembly_information);
        FlowStatistics {
            flow_times,
            protocols: Protocols::from_packet(packet),
            packet_count: PacketCount::from_packet(reasembly_information),
            byte_count: ByteCount::from_packet(meta, reasembly_information),
            interarrival: Interarrival::from_packet(&flow_times),
            tcp_flags: TcpFlags::from_packet(packet),
            transport: Transport::from_packet(packet),
            activity: Activity::from_packet(&flow_times, meta, reasembly_information),
        }
    }

    /// Fold one more packet into every component.
    pub fn accumulate(
        &mut self,
        identifier: &TransportFlowIdentifier,
        meta: &PacketMeta,
        packet: &ParsedPacket,
        reasembly_information: Option<&FragmentReasemblyInformation>,
    )
        requires
            old(self).wf(),
            packet.net is Some,
        ensures
            final(self).wf(),
            final(self).view() == FlowStatistics::updated(
                old(self).view(),
                *identifier,
                *meta,
                *packet,
                option_deref(reasembly_information),
            ),
    {
        self.flow_times.accumulate(meta, reasembly_information);
        let flow_times = self.flow_times;
        self.protocols.accumulate(packet);
        self.packet_count.accumulate(identifier, packet, reasembly_information);
        self.byte_count.accumulate(identifier, meta, packet, reasembly_information);
        self.interarrival.accumulate(identifier, &flow_times, packet);
        self.tcp_flags.accumulate(identifier, packet);
        self.transport.accumulate(identifier, packet);
        self.activity.accumulate(identifier, &flow_times, meta, packet, reasembly_information);
    }
}

} // verus!
