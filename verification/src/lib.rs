//! Flow-correlation and statistics engine for captured network traffic.
//!
//! Packets, decoded into a plain-value layered view, are correlated into
//! bidirectional transport-layer flows. Fragmented IPv4 datagrams are
//! buffered and reassembled. Each live flow accumulates online statistics,
//! and flows are evicted oldest-first once idle long enough relative to the
//! latest observed packet time.

pub mod activity;
pub mod byte_count;
pub mod execution_stats;
pub mod flow_group;
pub mod flow_identifier;
pub mod flow_queue;
pub mod flow_statistics;
pub mod flow_times;
pub mod ground_truth;
pub mod interarrival;
pub mod packet_count;
pub mod packet_flow;
pub mod packet_model;
pub mod packet_parse;
pub mod protocols;
pub mod running_stat;
pub mod tcp_flags;
pub mod transport;
pub mod util;

pub use execution_stats::ExecutionStats;
pub use flow_group::FlowGroup;
pub use flow_group::PacketOutcome;
pub use flow_identifier::NetworkFlowIdentifier;
pub use flow_identifier::TransportFlowIdentifier;
pub use flow_statistics::FlowStatistics;
pub use ground_truth::GroundTruth;
pub use packet_flow::FragmentReasemblyInformation;
pub use packet_flow::NetworkFragmentFlow;
pub use packet_flow::TransportFlow;
pub use packet_model::IpAddress;
pub use packet_model::PacketMeta;
pub use packet_model::ParsedPacket;
pub use packet_parse::ParseError;
pub use running_stat::RunningStat;
