//! Per-direction byte statistics of a flow.

use vstd::prelude::*;

use crate::flow_identifier::spec_is_forward;
use crate::flow_identifier::is_forward;
use crate::flow_identifier::TransportFlowIdentifier;
use crate::flow_times::option_deref;
use crate::packet_flow::FragmentReasemblyInformation;
use crate::packet_model::PacketMeta;
use crate::packet_model::ParsedPacket;
use crate::running_stat::RunningStat;

verus! {

/// How many bytes one accumulation event stands for: all bytes received
/// for the datagram when the event is a reassembly, the captured wire
/// length otherwise.
pub open spec fn spec_byte_count(
    meta: PacketMeta,
    reasembly_information: Option<FragmentReasemblyInformation>,
) -> u64 {
    match reasembly_information {
        Some(ri) => ri.total_bytes_received_count as u64,
        None => meta.captured_len as u64,
    }
}

/// Extracts the byte count that one accumulation event stands for.
pub fn extract_byte_count(
    meta: &PacketMeta,
    reasembly_information: Option<&FragmentReasemblyInformation>,
) -> (r: u64)
    ensures
        r == spec_byte_count(*meta, option_deref(reasembly_information)),
{
    match reasembly_information {
        Some(ri) => ri.total_bytes_received_count as u64,
        None => meta.captured_len as u64,
    }
}

/// The streams of byte counts a flow's statistics are computed over, one
/// per direction and one over both.
pub struct ByteCountView {
    pub bidirectional: Seq<u64>,
    pub forward: Seq<u64>,
    pub backward: Seq<u64>,
}

/// Byte statistics of a flow: running statistics over the byte count of
/// every packet, bidirectional and split by direction.
pub struct ByteCount {
    pub bidirectional: RunningStat,
    pub forward: RunningStat,
    pub backward: RunningStat,
}

impl ByteCount {
    /// The streams fed so far.
    pub open spec fn view(self) -> ByteCountView {
        ByteCountView {
            bidirectional: self.bidirectional.values(),
            forward: self.forward.values(),
            backward: self.backward.values(),
        }
    }

    pub open spec fn wf(self) -> bool {
        &&& self.bidirectional.wf()
        &&& self.forward.wf()
        &&& self.backward.wf()
    }

    /// The streams after the flow's first packet, which is forward.
    pub open spec fn initial(
        meta: PacketMeta,
        reasembly_information: Option<FragmentReasemblyInformation>,
    ) -> ByteCountView {
        let count = spec_byte_count(meta, reasembly_information);
        ByteCountView {
            bidirectional: seq![count],
            forward: seq![count],
            backward: Seq::empty(),
        }
    }

    /// The streams after one more packet: its byte count joins the
    /// bidirectional stream and the stream of its direction.
    pub open spec fn updated(
        v: ByteCountView,
        identifier: TransportFlowIdentifier,
        meta: PacketMeta,
        packet: ParsedPacket,
        reasembly_information: Option<FragmentReasemblyInformation>,
    ) -> ByteCountView {
        let count = spec_byte_count(meta, reasembly_information);
        if spec_is_forward(identifier, packet) {
            ByteCountView {
                bidirectional: v.bidirectional.push(count),
                forward: v.forward.push(count),
                backward: v.backward,
            }
        } else {
            ByteCountView {
                bidirectional: v.bidirectional.push(count),
                forward: v.forward,
                backward: v.backward.push(count),
            }
        }
    }

    /// Create the statistics from the flow's first packet.
    pub fn from_packet(
        meta: &PacketMeta,
        reasembly_information: Option<&FragmentReasemblyInformation>,
    ) -> (r: ByteCount)
        ensures
            r.wf(),
            r.view() == ByteCount::initial(*meta, option_deref(reasembly_information)),
    {
        let count = extract_byte_count(meta, reasembly_information);
        let mut bidirectional = RunningStat::new();
        let mut forward = RunningStat::new();
        let backward = RunningStat::new();
        bidirectional.accumulate(count);
        forward.accumulate(count);
        proof {
            assert(bidirectional.values() =~= seq![count]);
            assert(forward.values() =~= seq![count]);
        }
        ByteCount { bidirectional, forward, backward }
    }

    /// Fold one more packet's byte count into the statistics.
    pub fn accumulate(
        &mut self,
        identifier: &TransportFlowIdentifier,
        meta: &PacketMeta,
        packet: &ParsedPacket,
        reasembly_information: Option<&FragmentReasemblyInformation>,
    )
        requires
            old(self).wf(),
            packet.net is Some,
        ensures
            final(self).wf(),
            final(self).view() == ByteCount::updated(
                old(self).view(),
                *identifier,
                *meta,
                *packet,
                option_deref(reasembly_information),
            ),
    {
        let count = extract_byte_count(meta, reasembly_information);
        self.bidirectional.accumulate(count);
        if is_forward(identifier, packet) {
            self.forward.accumulate(count);
        } else {
            self.backward.accumulate(count);
        }
    }
}

} // verus!
