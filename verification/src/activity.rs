//! Active/idle segmentation of a flow's timeline.

use vstd::prelude::*;

use crate::byte_count::spec_byte_count;
use crate::byte_count::extract_byte_count;
use crate::flow_identifier::spec_is_forward;
use crate::flow_identifier::is_forward;
use crate::flow_identifier::TransportFlowIdentifier;
use crate::flow_times::option_deref;
use crate::flow_times::FlowTimes;
use crate::packet_count::spec_packet_count;
use crate::packet_count::extract_packet_count;
use crate::packet_flow::FragmentReasemblyInformation;
use crate::packet_model::PacketMeta;
use crate::packet_model::ParsedPacket;
use crate::running_stat::capped;
use crate::running_stat::RunningStat;
use crate::util::clamp0;
use crate::util::elapsed_clamped;
use crate::util::sat_add_u32;
use crate::util::sat_add_u64;

verus! {

/// The gap, in microseconds, beyond which a flow is considered to have
/// gone idle and a new active group begins.
pub const MAX_DELAY_THRESHOLD_MICROS: i64 = 1_000_000;

/// The recorded segment durations and per-direction totals the activity
/// statistics are computed over.
pub struct ActivityView {
    pub idle_microseconds: Seq<u64>,
    pub active_microseconds: Seq<u64>,
    pub last_active_start: i64,
    pub last_active_end: i64,
    pub active_group_count: u32,
    pub forward_packet_bytes_sum: u64,
    pub backward_packet_bytes_sum: u64,
    pub forward_packet_count: u32,
    pub backward_packet_count: u32,
}

/// Segments a flow into alternating active and idle periods: while
/// successive packets arrive within the delay threshold the open active
/// segment extends; a larger gap closes it, records its duration and the
/// idle gap into running statistics, and opens a new segment. Byte and
/// packet totals per direction accompany the segmentation. Durations are
/// clamped at zero for out-of-order timestamps; counters saturate.
pub struct Activity {
    pub idle_microseconds: RunningStat,
    pub active_microseconds: RunningStat,
    pub last_active_start: i64,
    pub last_active_end: i64,
    pub active_group_count: u32,
    pub forward_packet_bytes_sum: u64,
    pub backward_packet_bytes_sum: u64,
    pub forward_packet_count: u32,
    pub backward_packet_count: u32,
}

impl Activity {
    pub open spec fn view(self) -> ActivityView {
        ActivityView {
            idle_microseconds: self.idle_microseconds.values(),
            active_microseconds: self.active_microseconds.values(),
            last_active_start: self.last_active_start,
            last_active_end: self.last_active_end,
            active_group_count: self.active_group_count,
            forward_packet_bytes_sum: self.forward_packet_bytes_sum,
            backward_packet_bytes_sum: self.backward_packet_bytes_sum,
            forward_packet_count: self.forward_packet_count,
            backward_packet_count: self.backward_packet_count,
        }
    }

    pub open spec fn wf(self) -> bool {
        &&& self.idle_microseconds.wf()
        &&& self.active_microseconds.wf()
    }

    /// The state after the flow's first packet: one open active group
    /// spanning the flow's time span, and the packet's bytes and count on
    /// the forward side.
    pub open spec fn initial(
        flow_times: FlowTimes,
        meta: PacketMeta,
        reasembly_information: Option<FragmentReasemblyInformation>,
    ) -> ActivityView {
        ActivityView {
            idle_microseconds: Seq::empty(),
            active_microseconds: Seq::empty(),
            last_active_start: flow_times.first_packet_time,
            last_active_end: flow_times.last_packet_time,
            active_group_count: 1,
            forward_packet_bytes_sum: spec_byte_count(meta, reasembly_information),
            backward_packet_bytes_sum: 0,
            forward_packet_count: spec_packet_count(reasembly_information),
            backward_packet_count: 0,
        }
    }

    /// The state after one more packet at the flow's new last time `t`.
    /// Within the threshold of the open segment's end, the segment extends
    /// to `t`; otherwise the closed segment's duration and the idle gap
    /// are recorded and a new segment starts at `t`. The packet's bytes
    /// and count go to its direction's totals either way.
    pub open spec fn updated(
        v: ActivityView,
        identifier: TransportFlowIdentifier,
        flow_times: FlowTimes,
        meta: PacketMeta,
        packet: ParsedPacket,
        reasembly_information: Option<FragmentReasemblyInformation>,
    ) -> ActivityView {
        let t = flow_times.last_packet_time;
        let gap = t - v.last_active_end;
        let bytes = spec_byte_count(meta, reasembly_information);
        let count = spec_packet_count(reasembly_information);
        let fwd = spec_is_forward(identifier, packet);
        let timed = if gap < MAX_DELAY_THRESHOLD_MICROS {
            ActivityView { last_active_end: t, ..v }
        } else {
            ActivityView {
                idle_microseconds: v.idle_microseconds.push(clamp0(gap) as u64),
                active_microseconds: v.active_microseconds.push(
                    clamp0(v.last_active_end - v.last_active_start) as u64,
                ),
                last_active_start: t,
                last_active_end: t,
                active_group_count: capped(v.active_group_count + 1, u32::MAX as int) as u32,
                ..v
            }
        };
        if fwd {
            ActivityView {
                forward_packet_bytes_sum:
                    capped(timed.forward_packet_bytes_sum + bytes, u64::MAX as int) as u64,
                forward_packet_count:
                    capped(timed.forward_packet_count + count, u32::MAX as int) as u32,
                ..timed
            }
        } else {
            ActivityView {
                backward_packet_bytes_sum:
                    capped(timed.backward_packet_bytes_sum + bytes, u64::MAX as int) as u64,
                backward_packet_count:
                    capped(timed.backward_packet_count + count, u32::MAX as int) as u32,
                ..timed
            }
        }
    }

    /// Create the segmentation state from the flow's first packet.
    pub fn from_packet(
        flow_times: &FlowTimes,
        meta: &PacketMeta,
        reasembly_information: Option<&FragmentReasemblyInformation>,
    ) -> (r: Activity)
        ensures
            r.wf(),
            r.view() == Activity::initial(
                *flow_times,
                *meta,
                option_deref(reasembly_information),
            ),
    {
        Activity {
            idle_microseconds: RunningStat::new(),
            active_microseconds: RunningStat::new(),
            last_active_start: flow_times.first_packet_time,
            last_active_end: flow_times.last_packet_time,
            active_group_count: 1,
            forward_packet_bytes_sum: extract_byte_count(meta, reasembly_information),
            backward_packet_bytes_sum: 0,
            forward_packet_count: extract_packet_count(reasembly_information),
            backward_packet_count: 0,
        }
    }

    /// Fold one more packet into the segmentation.
    pub fn accumulate(
        &mut self,
        identifier: &TransportFlowIdentifier,
        flow_times: &FlowTimes,
        meta: &PacketMeta,
        packet: &ParsedPacket,
        reasembly_information: Option<&FragmentReasemblyInformation>,
    )
        requires
            old(self).wf(),
            packet.net is Some,
        ensures
            final(self).wf(),
            final(self).view() == Activity::updated(
                old(self).view(),
                *identifier,
                *flow_times,
                *meta,
                *packet,
                option_deref(reasembly_information),
            ),
    {
        let t = flow_times.last_packet_time;
        let byte_count = extract_byte_count(meta, reasembly_information);
        let packet_count = extract_packet_count(reasembly_information);
        let gap_wide: i128 = (t as i128) - (self.last_active_end as i128);
        if gap_wide < MAX_DELAY_THRESHOLD_MICROS as i128 {
            self.last_active_end = t;
        } else {
            let idle = elapsed_clamped(t, self.last_active_end);
            let active = elapsed_clamped(self.last_active_end, self.last_active_start);
            self.idle_microseconds.accumulate(idle);
            self.active_microseconds.accumulate(active);
            self.active_group_count = sat_add_u32(self.active_group_count, 1);
            self.last_active_start = t;
            self.last_active_end = t;
        }
        if is_forward(identifier, packet) {
            self.forward_packet_bytes_sum = sat_add_u64(self.forward_packet_bytes_sum, byte_count);
            self.forward_packet_count = sat_add_u32(self.forward_packet_count, packet_count);
        } else {
            self.backward_packet_bytes_sum = sat_add_u64(self.backward_packet_bytes_sum, byte_count);
            self.backward_packet_count = sat_add_u32(self.backward_packet_count, packet_count);
        }
    }
}

} // verus!
