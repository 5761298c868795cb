//! Inter-arrival timing statistics of a flow.

use vstd::prelude::*;

use crate::flow_identifier::spec_is_forward;
use crate::flow_identifier::is_forward;
use crate::flow_identifier::TransportFlowIdentifier;
use crate::flow_times::FlowTimes;
use crate::packet_model::ParsedPacket;
use crate::running_stat::RunningStat;
use crate::util::clamp0;
use crate::util::elapsed_clamped;

verus! {

/// The last-seen times and delta streams the inter-arrival statistics are
/// computed over.
pub struct InterarrivalView {
    pub bidirectional_last_time: i64,
    pub forward_last_time: i64,
    pub backward_last_time: Option<i64>,
    pub bidirectional_iat: Seq<u64>,
    pub forward_iat: Seq<u64>,
    pub backward_iat: Seq<u64>,
}

/// Inter-arrival times of a flow: for each packet, the microseconds since
/// the previous packet of the same series (bidirectional, forward,
/// backward), fed into a running statistic per series. Deltas are clamped
/// at zero when packets arrive out of timestamp order. The backward series
/// starts only with the second backward packet: the first one merely seeds
/// the backward clock.
pub struct Interarrival {
    pub bidirectional_last_time: i64,
    pub forward_last_time: i64,
    pub backward_last_time: Option<i64>,
    pub bidirectional_iat: RunningStat,
    pub forward_iat: RunningStat,
    pub backward_iat: RunningStat,
}

impl Interarrival {
    pub open spec fn view(self) -> InterarrivalView {
        InterarrivalView {
            bidirectional_last_time: self.bidirectional_last_time,
            forward_last_time: self.forward_last_time,
            backward_last_time: self.backward_last_time,
            bidirectional_iat: self.bidirectional_iat.values(),
            forward_iat: self.forward_iat.values(),
            backward_iat: self.backward_iat.values(),
        }
    }

    pub open spec fn wf(self) -> bool {
        &&& self.bidirectional_iat.wf()
        &&& self.forward_iat.wf()
        &&& self.backward_iat.wf()
    }

    /// The state after the flow's first packet: both clocks seeded with
    /// its time, no deltas yet.
    pub open spec fn initial(flow_times: FlowTimes) -> InterarrivalView {
        InterarrivalView {
            bidirectional_last_time: flow_times.last_packet_time,
            forward_last_time: flow_times.last_packet_time,
            backward_last_time: None,
            bidirectional_iat: Seq::empty(),
            forward_iat: Seq::empty(),
            backward_iat: Seq::empty(),
        }
    }

    /// The state after one more packet at the flow's new last time `t`:
    /// the bidirectional series always records the delta since the last
    /// packet of either direction; the series of the packet's direction
    /// records the delta since the last packet of that direction, the
    /// backward one only once a backward clock exists.
    pub open spec fn updated(
        v: InterarrivalView,
        identifier: TransportFlowIdentifier,
        flow_times: FlowTimes,
        packet: ParsedPacket,
    ) -> InterarrivalView {
        let t = flow_times.last_packet_time;
        let bi = v.bidirectional_iat.push(clamp0(t - v.bidirectional_last_time) as u64);
        if spec_is_forward(identifier, packet) {
            InterarrivalView {
                bidirectional_last_time: t,
                forward_last_time: t,
                backward_last_time: v.backward_last_time,
                bidirectional_iat: bi,
                forward_iat: v.forward_iat.push(clamp0(t - v.forward_last_time) as u64),
                backward_iat: v.backward_iat,
            }
        } else {
            match v.backward_last_time {
                Some(bt) => InterarrivalView {
                    bidirectional_last_time: t,
                    forward_last_time: v.forward_last_time,
                    backward_last_time: Some(t),
                    bidirectional_iat: bi,
                    forward_iat: v.forward_iat,
                    backward_iat: v.backward_iat.push(clamp0(t - bt) as u64),
                },
                None => InterarrivalView {
                    bidirectional_last_time: t,
                    forward_last_time: v.forward_last_time,
                    backward_last_time: Some(t),
                    bidirectional_iat: bi,
                    forward_iat: v.forward_iat,
                    backward_iat: v.backward_iat,
                },
            }
        }
    }

    /// Create the timing state from the flow's first packet.
    pub fn from_packet(flow_times: &FlowTimes) -> (r: Interarrival)
        ensures
            r.wf(),
            r.view() == Interarrival::initial(*flow_times),
    {
        Interarrival {
            bidirectional_last_time: flow_times.last_packet_time,
            forward_last_time: flow_times.last_packet_time,
            backward_last_time: None,
            bidirectional_iat: RunningStat::new(),
            forward_iat: RunningStat::new(),
            backward_iat: RunningStat::new(),
        }
    }

    /// Record the inter-arrival deltas of one more packet.
    pub fn accumulate(
        &mut self,
        identifier: &TransportFlowIdentifier,
        flow_times: &FlowTimes,
        packet: &ParsedPacket,
    )
        requires
            old(self).wf(),
            packet.net is Some,
        ensures
            final(self).wf(),
            final(self).view() == Interarrival::updated(
                old(self).view(),
                *identifier,
                *flow_times,
                *packet,
            ),
    {
        let t = flow_times.last_packet_time;
        let bidirectional_increment = elapsed_clamped(t, self.bidirectional_last_time);
        self.bidirectional_iat.accumulate(bidirectional_increment);
        self.bidirectional_last_time = t;
        if is_forward(identifier, packet) {
            let forward_increment = elapsed_clamped(t, self.forward_last_time);
            self.forward_iat.accumulate(forward_increment);
            self.forward_last_time = t;
        } else {
            match self.backward_last_time {
                Some(bt) => {
                    let backward_increment = elapsed_clamped(t, bt);
                    self.backward_iat.accumulate(backward_increment);
                    self.backward_last_time = Some(t);
                },
                None => {
                    self.backward_last_time = Some(t);
                },
            }
        }
    }
}

} // verus!
