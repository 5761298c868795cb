//! TCP flag counters of a flow.

use vstd::prelude::*;

use crate::flow_identifier::spec_is_forward;
use crate::flow_identifier::is_forward;
use crate::flow_identifier::TransportFlowIdentifier;
use crate::packet_model::ParsedPacket;
use crate::packet_model::TransportLayer;
use crate::running_stat::capped;
use crate::util::sat_add_u32;

verus! {

/// The TCP flags of a packet, all false when the packet is not TCP.
pub struct TcpFlagValues {
    pub cwr: bool,
    pub ece: bool,
    pub urg: bool,
    pub ack: bool,
    pub psh: bool,
    pub rst: bool,
    pub syn: bool,
    pub fin: bool,
}

/// The TCP flags carried by a packet; everything false for non-TCP
/// packets, which leave all counters unchanged.
pub open spec fn spec_tcp_flags(packet: ParsedPacket) -> TcpFlagValues {
    match packet.transport {
        Some(TransportLayer::Tcp { cwr, ece, urg, ack, psh, rst, syn, fin, .. }) =>
            TcpFlagValues { cwr, ece, urg, ack, psh, rst, syn, fin },
        _ => TcpFlagValues {
            cwr: false,
            ece: false,
            urg: false,
            ack: false,
            psh: false,
            rst: false,
            syn: false,
            fin: false,
        },
    }
}

/// One more when the condition holds, saturating at `u32::MAX`.
pub open spec fn bump(c: u32, cond: bool) -> u32 {
    if cond {
        capped(c + 1, u32::MAX as int) as u32
    } else {
        c
    }
}

/// Per-flag counters over the TCP packets of a flow: each bidirectional
/// counter grows by one whenever the flag is set on any TCP packet of the
/// flow; the PSH and URG counters are additionally split by direction.
#[derive(Clone, Copy, Debug, PartialEq, Eq, Structural)]
pub struct TcpFlags {
    pub bidirectional_tcp_cwr_flags_count: u32,
    pub bidirectional_tcp_ece_flags_count: u32,
    pub bidirectional_tcp_urg_flags_count: u32,
    pub bidirectional_tcp_ack_flags_count: u32,
    pub bidirectional_tcp_psh_flags_count: u32,
    pub bidirectional_tcp_rst_flags_count: u32,
    pub bidirectional_tcp_syn_flags_count: u32,
    pub bidirectional_tcp_fin_flags_count: u32,
    pub forward_tcp_psh_flags_count: u32,
    pub forward_tcp_urg_flags_count: u32,
    pub backward_tcp_psh_flags_count: u32,
    pub backward_tcp_urg_flags_count: u32,
}

impl TcpFlags {
    /// All counters zero.
    pub open spec fn zeroed() -> TcpFlags {
        TcpFlags {
            bidirectional_tcp_cwr_flags_count: 0,
            bidirectional_tcp_ece_flags_count: 0,
            bidirectional_tcp_urg_flags_count: 0,
            bidirectional_tcp_ack_flags_count: 0,
            bidirectional_tcp_psh_flags_count: 0,
            bidirectional_tcp_rst_flags_count: 0,
            bidirectional_tcp_syn_flags_count: 0,
            bidirectional_tcp_fin_flags_count: 0,
            forward_tcp_psh_flags_count: 0,
            forward_tcp_urg_flags_count: 0,
            backward_tcp_psh_flags_count: 0,
            backward_tcp_urg_flags_count: 0,
        }
    }

    /// The counters after one more packet. Non-TCP packets change nothing;
    /// on a TCP packet every set flag's bidirectional counter grows by one,
    /// and a set PSH or URG flag also grows the counter of the packet's
    /// direction.
    pub open spec fn updated(
        self,
        identifier: TransportFlowIdentifier,
        packet: ParsedPacket,
    ) -> TcpFlags {
        if !(packet.transport matches Some(TransportLayer::Tcp { .. })) {
            self
        } else {
            let f = spec_tcp_flags(packet);
            let fwd = spec_is_forward(identifier, packet);
            TcpFlags {
                bidirectional_tcp_cwr_flags_count: bump(self.bidirectional_tcp_cwr_flags_count, f.cwr),
                bidirectional_tcp_ece_flags_count: bump(self.bidirectional_tcp_ece_flags_count, f.ece),
                bidirectional_tcp_urg_flags_count: bump(self.bidirectional_tcp_urg_flags_count, f.urg),
                bidirectional_tcp_ack_flags_count: bump(self.bidirectional_tcp_ack_flags_count, f.ack),
                bidirectional_tcp_psh_flags_count: bump(self.bidirectional_tcp_psh_flags_count, f.psh),
                bidirectional_tcp_rst_flags_count: bump(self.bidirectional_tcp_rst_flags_count, f.rst),
                bidirectional_tcp_syn_flags_count: bump(self.bidirectional_tcp_syn_flags_count, f.syn),
                bidirectional_tcp_fin_flags_count: bump(self.bidirectional_tcp_fin_flags_count, f.fin),
                forward_tcp_psh_flags_count: bump(self.forward_tcp_psh_flags_count, fwd && f.psh),
                forward_tcp_urg_flags_count: bump(self.forward_tcp_urg_flags_count, fwd && f.urg),
                backward_tcp_psh_flags_count: bump(self.backward_tcp_psh_flags_count, !fwd && f.psh),
                backward_tcp_urg_flags_count: bump(self.backward_tcp_urg_flags_count, !fwd && f.urg),
            }
        }
    }

    /// The counters after the flow's first packet, which is forward.
    pub open spec fn initial(packet: ParsedPacket) -> TcpFlags {
        if !(packet.transport matches Some(TransportLayer::Tcp { .. })) {
            TcpFlags::zeroed()
        } else {
            let f = spec_tcp_flags(packet);
            TcpFlags {
                bidirectional_tcp_cwr_flags_count: if f.cwr { 1 } else { 0 },
                bidirectional_tcp_ece_flags_count: if f.ece { 1 } else { 0 },
                bidirectional_tcp_urg_flags_count: if f.urg { 1 } else { 0 },
                bidirectional_tcp_ack_flags_count: if f.ack { 1 } else { 0 },
                bidirectional_tcp_psh_flags_count: if f.psh { 1 } else { 0 },
                bidirectional_tcp_rst_flags_count: if f.rst { 1 } else { 0 },
                bidirectional_tcp_syn_flags_count: if f.syn { 1 } else { 0 },
                bidirectional_tcp_fin_flags_count: if f.fin { 1 } else { 0 },
                forward_tcp_psh_flags_count: if f.psh { 1 } else { 0 },
                forward_tcp_urg_flags_count: if f.urg { 1 } else { 0 },
                backward_tcp_psh_flags_count: 0,
                backward_tcp_urg_flags_count: 0,
            }
        }
    }

    /// Create the counters from the flow's first packet.
    pub fn from_packet(packet: &ParsedPacket) -> (r: TcpFlags)
        ensures
            r == TcpFlags::initial(*packet),
    {
        match &packet.transport {
            Some(TransportLayer::Tcp { cwr, ece, urg, ack, psh, rst, syn, fin, .. }) => TcpFlags {
                bidirectional_tcp_cwr_flags_count: if *cwr { 1 } else { 0 },
                bidirectional_tcp_ece_flags_count: if *ece { 1 } else { 0 },
                bidirectional_tcp_urg_flags_count: if *urg { 1 } else { 0 },
                bidirectional_tcp_ack_flags_count: if *ack { 1 } else { 0 },
                bidirectional_tcp_psh_flags_count: if *psh { 1 } else { 0 },
                bidirectional_tcp_rst_flags_count: if *rst { 1 } else { 0 },
                bidirectional_tcp_syn_flags_count: if *syn { 1 } else { 0 },
                bidirectional_tcp_fin_flags_count: if *fin { 1 } else { 0 },
                forward_tcp_psh_flags_count: if *psh { 1 } else { 0 },
                forward_tcp_urg_flags_count: if *urg { 1 } else { 0 },
                backward_tcp_psh_flags_count: 0,
                backward_tcp_urg_flags_count: 0,
            },
            _ => TcpFlags {
                bidirectional_tcp_cwr_flags_count: 0,
                bidirectional_tcp_ece_flags_count: 0,
                bidirectional_tcp_urg_flags_count: 0,
                bidirectional_tcp_ack_flags_count: 0,
                bidirectional_tcp_psh_flags_count: 0,
                bidirectional_tcp_rst_flags_count: 0,
                bidirectional_tcp_syn_flags_count: 0,
                bidirectional_tcp_fin_flags_count: 0,
                forward_tcp_psh_flags_count: 0,
                forward_tcp_urg_flags_count: 0,
                backward_tcp_psh_flags_count: 0,
                backward_tcp_urg_flags_count: 0,
            },
        }
    }

    /// Count the flags of one more packet.
    pub fn accumulate(
        &mut self,
        identifier: &TransportFlowIdentifier,
        packet: &ParsedPacket,
    )
        requires
            packet.net is Some,
        ensures
            *final(self) == old(self).updated(*identifier, *packet),
    {
        match &packet.transport {
            Some(TransportLayer::Tcp { cwr, ece, urg, ack, psh, rst, syn, fin, .. }) => {
                if *cwr {
                    self.bidirectional_tcp_cwr_flags_count =
                        sat_add_u32(self.bidirectional_tcp_cwr_flags_count, 1);
                }
                if *ece {
                    self.bidirectional_tcp_ece_flags_count =
                        sat_add_u32(self.bidirectional_tcp_ece_flags_count, 1);
                }
                if *urg {
                    self.bidirectional_tcp_urg_flags_count =
                        sat_add_u32(self.bidirectional_tcp_urg_flags_count, 1);
                }
                if *ack {
                    self.bidirectional_tcp_ack_flags_count =
                        sat_add_u32(self.bidirectional_tcp_ack_flags_count, 1);
                }
                if *psh {
                    self.bidirectional_tcp_psh_flags_count =
                        sat_add_u32(self.bidirectional_tcp_psh_flags_count, 1);
                }
                if *rst {
                    self.bidirectional_tcp_rst_flags_count =
                        sat_add_u32(self.bidirectional_tcp_rst_flags_count, 1);
                }
                if *syn {
                    self.bidirectional_tcp_syn_flags_count =
                        sat_add_u32(self.bidirectional_tcp_syn_flags_count, 1);
                }
                if *fin {
                    self.bidirectional_tcp_fin_flags_count =
                        sat_add_u32(self.bidirectional_tcp_fin_flags_count, 1);
                }
                if is_forward(identifier, packet) {
                    if *psh {
                        self.forward_tcp_psh_flags_count =
                            sat_add_u32(self.forward_tcp_psh_flags_count, 1);
                    }
                    if *urg {
                        self.forward_tcp_urg_flags_count =
                            sat_add_u32(self.forward_tcp_urg_flags_count, 1);
                    }
                } else {
                    if *psh {
                        self.backward_tcp_psh_flags_count =
                            sat_add_u32(self.backward_tcp_psh_flags_count, 1);
                    }
                    if *urg {
                        self.backward_tcp_urg_flags_count =
                            sat_add_u32(self.backward_tcp_urg_flags_count, 1);
                    }
                }
            },
            _ => {},
        }
    }
}

} // verus!
