//! Per-run accounting of processed packets and their outcomes.

use vstd::prelude::*;

use crate::packet_parse::ParseError;
use crate::running_stat::capped;
use crate::util::sat_add_u64;

verus! {

/// Counters over one processing run: packets seen, packets incorporated,
/// failures by kind, fragments discarded with and without a completed
/// reassembly, and flows closed. All counters saturate at `u64::MAX`.
pub struct ExecutionStats {
    pub flow_count: u64,
    pub current_lines_written: u64,
    pub total_count: u64,
    pub valid_count: u64,
    pub packet_error_on_slice_count: u64,
    pub packet_error_on_slice_reasembled_count: u64,
    pub packet_could_not_find_net_layer_count: u64,
    pub packet_could_not_find_transport_layer_count: u64,
    pub unsupported_link_type_count: u64,
    pub unsupported_transport_type_count: u64,
    pub discarded_fragments_ignored_on_reassembly_count: u64,
    pub discarded_fragments_no_reassembly_count: u64,
}

impl Default for ExecutionStats {
    /// All counters start at zero.
    fn default() -> (r: ExecutionStats)
        ensures
            r == ExecutionStats::zeroed(),
    {
        ExecutionStats {
            flow_count: 0,
            current_lines_written: 0,
            total_count: 0,
            valid_count: 0,
            packet_error_on_slice_count: 0,
            packet_error_on_slice_reasembled_count: 0,
            packet_could_not_find_net_layer_count: 0,
            packet_could_not_find_transport_layer_count: 0,
            unsupported_link_type_count: 0,
            unsupported_transport_type_count: 0,
            discarded_fragments_ignored_on_reassembly_count: 0,
            discarded_fragments_no_reassembly_count: 0,
        }
    }
}

/// Report lines as (counter value, description) pairs with the
/// description read as a character sequence.
pub open spec fn report_view(s: Seq<(u64, String)>) -> Seq<(u64, Seq<char>)> {
    s.map_values(|p: (u64, String)| (p.0, p.1@))
}

impl ExecutionStats {
    /// The all-zero counters.
    pub open spec fn zeroed() -> ExecutionStats {
        ExecutionStats {
            flow_count: 0,
            current_lines_written: 0,
            total_count: 0,
            valid_count: 0,
            packet_error_on_slice_count: 0,
            packet_error_on_slice_reasembled_count: 0,
            packet_could_not_find_net_layer_count: 0,
            packet_could_not_find_transport_layer_count: 0,
            unsupported_link_type_count: 0,
            unsupported_transport_type_count: 0,
            discarded_fragments_ignored_on_reassembly_count: 0,
            discarded_fragments_no_reassembly_count: 0,
        }
    }

    /// The counters after one more packet with the given outcome: the
    /// total grows; a success adds its valid and discarded counts, a
    /// failure bumps the counter of its kind.
    pub open spec fn recorded(self, outcome: Result<(u32, u32), ParseError>) -> ExecutionStats {
        let with_total = ExecutionStats {
            total_count: capped(self.total_count + 1, u64::MAX as int) as u64,
            ..self
        };
        match outcome {
            Ok((valid, discarded)) => ExecutionStats {
                valid_count: capped(with_total.valid_count + valid, u64::MAX as int) as u64,
                discarded_fragments_ignored_on_reassembly_count: capped(
                    with_total.discarded_fragments_ignored_on_reassembly_count + discarded,
                    u64::MAX as int,
                ) as u64,
                ..with_total
            },
            Err(e) => match e {
                ParseError::ErrorOnSlicingPacket(_) => ExecutionStats {
                    packet_error_on_slice_count: capped(
                        with_total.packet_error_on_slice_count + 1,
                        u64::MAX as int,
                    ) as u64,
                    ..with_total
                },
                ParseError::ErrorOnSlicingReassembledPacket { .. } => ExecutionStats {
                    packet_error_on_slice_reasembled_count: capped(
                        with_total.packet_error_on_slice_reasembled_count + 1,
                        u64::MAX as int,
                    ) as u64,
                    ..with_total
                },
                ParseError::MissingNetworkLayer => ExecutionStats {
                    packet_could_not_find_net_layer_count: capped(
                        with_total.packet_could_not_find_net_layer_count + 1,
                        u64::MAX as int,
                    ) as u64,
                    ..with_total
                },
                ParseError::MissingTransportLayer => ExecutionStats {
                    packet_could_not_find_transport_layer_count: capped(
                        with_total.packet_could_not_find_transport_layer_count + 1,
                        u64::MAX as int,
                    ) as u64,
                    ..with_total
                },
                ParseError::UnsupportedLinkType => ExecutionStats {
                    unsupported_link_type_count: capped(
                        with_total.unsupported_link_type_count + 1,
                        u64::MAX as int,
                    ) as u64,
                    ..with_total
                },
                ParseError::UnsupportedTransportLayer => ExecutionStats {
                    unsupported_transport_type_count: capped(
                        with_total.unsupported_transport_type_count + 1,
                        u64::MAX as int,
                    ) as u64,
                    ..with_total
                },
            },
        }
    }

    /// Count one processed packet by its outcome.
    pub fn record_packet_outcome(&mut self, outcome: &Result<(u32, u32), ParseError>)
        ensures
            *final(self) == old(self).recorded(*outcome),
    {
        self.total_count = sat_add_u64(self.total_count, 1);
        match outcome {
            Ok((valid, discarded)) => {
                self.valid_count = sat_add_u64(self.valid_count, *valid as u64);
                self.discarded_fragments_ignored_on_reassembly_count = sat_add_u64(
                    self.discarded_fragments_ignored_on_reassembly_count,
                    *discarded as u64,
                );
            },
            Err(ParseError::ErrorOnSlicingPacket(_)) => {
                self.packet_error_on_slice_count = sat_add_u64(
                    self.packet_error_on_slice_count,
                    1,
                );
            },
            Err(ParseError::ErrorOnSlicingReassembledPacket { .. }) => {
                self.packet_error_on_slice_reasembled_count = sat_add_u64(
                    self.packet_error_on_slice_reasembled_count,
                    1,
                );
            },
            Err(ParseError::MissingNetworkLayer) => {
                self.packet_could_not_find_net_layer_count = sat_add_u64(
                    self.packet_could_not_find_net_layer_count,
                    1,
                );
            },
            Err(ParseError::MissingTransportLayer) => {
                self.packet_could_not_find_transport_layer_count = sat_add_u64(
                    self.packet_could_not_find_transport_layer_count,
                    1,
                );
            },
            Err(ParseError::UnsupportedLinkType) => {
                self.unsupported_link_type_count = sat_add_u64(
                    self.unsupported_link_type_count,
                    1,
                );
            },
            Err(ParseError::UnsupportedTransportLayer) => {
                self.unsupported_transport_type_count = sat_add_u64(
                    self.unsupported_transport_type_count,
                    1,
                );
            },
        }
    }

    /// Count one closed flow.
    pub fn record_closed_flow(&mut self)
        ensures
            *final(self) == (ExecutionStats {
                flow_count: capped(old(self).flow_count + 1, u64::MAX as int) as u64,
                ..*old(self)
            }),
    {
        self.flow_count = sat_add_u64(self.flow_count, 1);
    }

    /// Count fragments dropped without a completed reassembly.
    pub fn record_unreassembled_fragments(&mut self, fragments: u32)
        ensures
            *final(self) == (ExecutionStats {
                discarded_fragments_no_reassembly_count: capped(
                    old(self).discarded_fragments_no_reassembly_count + fragments,
                    u64::MAX as int,
                ) as u64,
                ..*old(self)
            }),
    {
        self.discarded_fragments_no_reassembly_count = sat_add_u64(
            self.discarded_fragments_no_reassembly_count,
            fragments as u64,
        );
    }

    /// The run's summary as it is to be reported: the packets seen
    /// always, then, for each other counter that is not zero and in this
    /// fixed order, that counter with its description.
    #[verifier::opaque]
    pub open spec fn spec_report(self) -> Seq<(u64, Seq<char>)> {
        let none = Seq::<(u64, Seq<char>)>::empty();
        seq![(self.total_count, "packets were seen"@)] + (if self.valid_count != 0 {
            seq![(self.valid_count, "packets were valid"@)]
        } else {
            none
        }) + (if self.packet_error_on_slice_count != 0 {
            seq![(self.packet_error_on_slice_count, "packets had issues on slicing"@)]
        } else {
            none
        }) + (if self.packet_error_on_slice_reasembled_count != 0 {
            seq![
                (
                    self.packet_error_on_slice_reasembled_count,
                    "reasembled packets had issues on slicing (invalid/inconsistent fields)"@,
                ),
            ]
        } else {
            none
        }) + (if self.packet_could_not_find_net_layer_count != 0 {
            seq![
                (
                    self.packet_could_not_find_net_layer_count,
                    "packets didn't contain a valid/known network layer"@,
                ),
            ]
        } else {
            none
        }) + (if self.packet_could_not_find_transport_layer_count != 0 {
            seq![
                (
                    self.packet_could_not_find_transport_layer_count,
                    "packets didn't contain a valid/known transport layer"@,
                ),
            ]
        } else {
            none
        }) + (if self.unsupported_link_type_count != 0 {
            seq![
                (self.unsupported_link_type_count, "packets came from an unsupported link type"@),
            ]
        } else {
            none
        }) + (if self.unsupported_transport_type_count != 0 {
            seq![
                (
                    self.unsupported_transport_type_count,
                    "packets came from an unsupported transport type"@,
                ),
            ]
        } else {
            none
        }) + (if self.discarded_fragments_ignored_on_reassembly_count != 0 {
            seq![
                (
                    self.discarded_fragments_ignored_on_reassembly_count,
                    "fragments had to be discarded on reassembling packets (duplicates, possible overlaps, etc.)"@,
                ),
            ]
        } else {
            none
        }) + (if self.discarded_fragments_no_reassembly_count != 0 {
            seq![
                (
                    self.discarded_fragments_no_reassembly_count,
                    "fragments had to be discarded without an associated reassembly"@,
                ),
            ]
        } else {
            none
        })
    }

    /// The run's summary: exactly the (counter, description) pairs of
    /// `spec_report`, the packets seen first, then each non-zero counter
    /// with its description in the fixed order.
    pub fn print_info_results(&self) -> (r: Vec<(u64, String)>)
        ensures
            report_view(r@) == self.spec_report(),
    {
        let mut lines: Vec<(u64, String)> = Vec::new();
        lines.push((self.total_count, String::from_str("packets were seen")));
        proof {
            assert(report_view(lines@) =~= seq![(self.total_count, "packets were seen"@)]);
        }
        append_nonzero(&mut lines, self.valid_count, "packets were valid");
        append_nonzero(&mut lines, self.packet_error_on_slice_count, "packets had issues on slicing");
        append_nonzero(
            &mut lines,
            self.packet_error_on_slice_reasembled_count,
            "reasembled packets had issues on slicing (invalid/inconsistent fields)",
        );
        append_nonzero(
            &mut lines,
            self.packet_could_not_find_net_layer_count,
            "packets didn't contain a valid/known network layer",
        );
        append_nonzero(
            &mut lines,
            self.packet_could_not_find_transport_layer_count,
            "packets didn't contain a valid/known transport layer",
        );
        append_nonzero(
            &mut lines,
            self.unsupported_link_type_count,
            "packets came from an unsupported link type",
        );
        append_nonzero(
            &mut lines,
            self.unsupported_transport_type_count,
            "packets came from an unsupported transport type",
        );
        append_nonzero(
            &mut lines,
            self.discarded_fragments_ignored_on_reassembly_count,
            "fragments had to be discarded on reassembling packets (duplicates, possible overlaps, etc.)",
        );
        append_nonzero(
            &mut lines,
            self.discarded_fragments_no_reassembly_count,
            "fragments had to be discarded without an associated reassembly",
        );
        proof {
            reveal(ExecutionStats::spec_report);
            assert(report_view(lines@) == self.spec_report());
        }
        lines
    }
}

/// Append one report line for a counter, only when it is not zero.
fn append_nonzero(lines: &mut Vec<(u64, String)>, count: u64, text: &str)
    ensures
        report_view(final(lines)@) == report_view(old(lines)@) + (if count != 0 {
            seq![(count, text@)]
        } else {
            Seq::<(u64, Seq<char>)>::empty()
        }),
{
    if count != 0 {
        lines.push((count, String::from_str(text)));
        proof {
            assert(report_view(lines@) =~= report_view(old(lines)@) + seq![(count, text@)]);
        }
    } else {
        proof {
            assert(report_view(lines@) =~= report_view(old(lines)@) + Seq::<(
                u64,
                Seq<char>,
            )>::empty());
        }
    }
}

} // verus!
