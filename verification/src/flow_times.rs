//! First and last packet time of a flow.

use vstd::prelude::*;

use crate::packet_flow::FragmentReasemblyInformation;
use crate::packet_model::PacketMeta;
use crate::util::max_i64;
use crate::util::min_i64;

verus! {

/// The time span of a flow: the times of its first and last packet, in
/// microseconds. When a packet stands for a reassembled datagram, the span
/// is widened to cover the whole fragment time range.
#[derive(Clone, Copy, Debug, PartialEq, Eq, Structural)]
pub struct FlowTimes {
    pub first_packet_time: i64,
    pub last_packet_time: i64,
}

impl FlowTimes {
    /// The span after a first packet at `time_us`.
    pub open spec fn initial(
        time_us: i64,
        reasembly_information: Option<FragmentReasemblyInformation>,
    ) -> FlowTimes {
        match reasembly_information {
            Some(ri) => FlowTimes {
                first_packet_time: if ri.first_time <= time_us { ri.first_time } else { time_us },
                last_packet_time: if ri.last_time >= time_us { ri.last_time } else { time_us },
            },
            None => FlowTimes { first_packet_time: time_us, last_packet_time: time_us },
        }
    }

    /// The span after one more packet at `time_us`: the last time becomes
    /// the packet's time, and when the packet stands for a reassembled
    /// datagram both ends are widened to cover the whole fragment range.
    pub open spec fn updated(
        self,
        time_us: i64,
        reasembly_information: Option<FragmentReasemblyInformation>,
    ) -> FlowTimes {
        FlowTimes {
            first_packet_time: match reasembly_information {
                Some(ri) => if ri.first_time <= self.first_packet_time {
                    ri.first_time
                } else {
                    self.first_packet_time
                },
                None => self.first_packet_time,
            },
            last_packet_time: match reasembly_information {
                Some(ri) => if ri.last_time >= time_us { ri.last_time } else { time_us },
                None => time_us,
            },
        }
    }

    /// Create the span from the flow's first packet.
    pub fn from_packet(
        meta: &PacketMeta,
        reasembly_information: Option<&FragmentReasemblyInformation>,
    ) -> (r: FlowTimes)
        ensures
            r == FlowTimes::initial(meta.time_us, option_deref(reasembly_information)),
    {
        match reasembly_information {
            Some(ri) => FlowTimes {
                first_packet_time: min_i64(ri.first_time, meta.time_us),
                last_packet_time: max_i64(ri.last_time, meta.time_us),
            },
            None => FlowTimes {
                first_packet_time: meta.time_us,
                last_packet_time: meta.time_us,
            },
        }
    }

    /// Extend the span over one more packet.
    pub fn accumulate(
        &mut self,
        meta: &PacketMeta,
        reasembly_information: Option<&FragmentReasemblyInformation>,
    )
        ensures
            *final(self) == old(self).updated(meta.time_us, option_deref(reasembly_information)),
    {
        match reasembly_information {
            Some(ri) => {
                self.first_packet_time = min_i64(ri.first_time, self.first_packet_time);
                self.last_packet_time = max_i64(ri.last_time, meta.time_us);
            },
            None => {
                self.last_packet_time = meta.time_us;
            },
        }
    }

    /// The flow's duration in microseconds: last time minus first time.
    /// Negative only when packets arrived out of timestamp order.
    pub fn duration_micros(&self) -> (r: i128)
        ensures
            r == self.last_packet_time - self.first_packet_time,
    {
        (self.last_packet_time as i128) - (self.first_packet_time as i128)
    }
}

/// The value behind an optional reference, as an optional value.
pub open spec fn option_deref(
    o: Option<&FragmentReasemblyInformation>,
) -> Option<FragmentReasemblyInformation> {
    match o {
        Some(r) => Some(*r),
        None => None,
    }
}

} // verus!
