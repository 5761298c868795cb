//! Plain-value model of a decoded network packet.
//!
//! The decoding itself is done by an outside parser; the rest of the engine
//! works on these types alone, so everything downstream of decoding can be
//! reasoned about over ordinary integers, booleans and byte vectors.

use vstd::prelude::*;

verus! {

/// A network-layer address, IPv4 or IPv6.
#[derive(Clone, Copy, Debug, PartialEq, Eq, Structural)]
pub enum IpAddress {
    V4(u32),
    V6(u128),
}

/// The decoded transport layer of a packet.
///
/// Protocols other than TCP and UDP never contribute ports or flags to the
/// engine, only their header and payload lengths, so they share one variant.
#[derive(Clone, Debug, PartialEq, Eq, Structural)]
pub enum TransportLayer {
    Tcp {
        source_port: u16,
        dest_port: u16,
        header_len: u32,
        payload_len: u32,
        window_size: u16,
        cwr: bool,
        ece: bool,
        urg: bool,
        ack: bool,
        psh: bool,
        rst: bool,
        syn: bool,
        fin: bool,
    },
    Udp {
        source_port: u16,
        dest_port: u16,
        header_len: u32,
        payload_len: u32,
    },
    Other {
        header_len: u32,
        payload_len: u32,
    },
}

/// The decoded network layer of a packet.
///
/// For IPv4 the payload bytes are carried along, since a fragment's payload
/// must be buffered for reassembly; `frag_offset` is the raw 13-bit wire
/// field, in 8-octet units.
#[derive(Clone, Debug)]
pub enum NetLayer {
    V4 {
        source: u32,
        dest: u32,
        protocol: u8,
        identification: u16,
        frag_offset: u16,
        more_fragments: bool,
        ttl: u8,
        payload: Vec<u8>,
    },
    V6 {
        source: u128,
        dest: u128,
        protocol: u8,
    },
}

/// A packet decoded into its layers, as far as decoding succeeded.
#[derive(Clone, Debug)]
pub struct ParsedPacket {
    pub net: Option<NetLayer>,
    pub transport: Option<TransportLayer>,
}

impl NetLayer {
    /// The network-layer source address.
    pub open spec fn spec_source_address(self) -> IpAddress {
        match self {
            NetLayer::V4 { source, .. } => IpAddress::V4(source),
            NetLayer::V6 { source, .. } => IpAddress::V6(source),
        }
    }

    /// The network-layer destination address.
    pub open spec fn spec_dest_address(self) -> IpAddress {
        match self {
            NetLayer::V4 { dest, .. } => IpAddress::V4(dest),
            NetLayer::V6 { dest, .. } => IpAddress::V6(dest),
        }
    }

    /// The protocol (IPv4) or next-header (IPv6) number.
    pub open spec fn spec_protocol(self) -> u8 {
        match self {
            NetLayer::V4 { protocol, .. } => protocol,
            NetLayer::V6 { protocol, .. } => protocol,
        }
    }

    pub fn source_address(&self) -> (r: IpAddress)
        ensures
            r == self.spec_source_address(),
    {
        match self {
            NetLayer::V4 { source, .. } => IpAddress::V4(*source),
            NetLayer::V6 { source, .. } => IpAddress::V6(*source),
        }
    }

    pub fn dest_address(&self) -> (r: IpAddress)
        ensures
            r == self.spec_dest_address(),
    {
        match self {
            NetLayer::V4 { dest, .. } => IpAddress::V4(*dest),
            NetLayer::V6 { dest, .. } => IpAddress::V6(*dest),
        }
    }

    /// Whether this is an IPv4 header that indicates fragmentation:
    /// a non-zero fragment offset or the more-fragments flag set.
    pub open spec fn spec_is_fragmenting(self) -> bool {
        match self {
            NetLayer::V4 { frag_offset, more_fragments, .. } =>
                frag_offset != 0 || more_fragments,
            NetLayer::V6 { .. } => false,
        }
    }

    pub fn is_fragmenting(&self) -> (r: bool)
        ensures
            r == self.spec_is_fragmenting(),
    {
        match self {
            NetLayer::V4 { frag_offset, more_fragments, .. } =>
                *frag_offset != 0 || *more_fragments,
            NetLayer::V6 { .. } => false,
        }
    }
}

impl ParsedPacket {
    /// Bounds that the outside decoder guarantees: the IPv4 fragment offset
    /// is a 13-bit field and the IPv4 payload length is bounded by the
    /// 16-bit total-length header field.
    pub open spec fn wf(self) -> bool {
        match self.net {
            Some(NetLayer::V4 { frag_offset, payload, .. }) =>
                frag_offset <= 0x1fff && payload.len() <= 0xffff,
            _ => true,
        }
    }
}

/// Capture metadata of one packet: its timestamp in microseconds since the
/// Unix epoch, and the on-wire packet length in bytes.
#[derive(Clone, Copy, Debug, PartialEq, Eq, Structural)]
pub struct PacketMeta {
    pub time_us: i64,
    pub captured_len: u32,
}

/// Converts a capture timestamp, given as whole seconds plus microseconds
/// within the second, to microseconds since the Unix epoch. Returns `None`
/// when the microsecond part is not in `[0, 1_000_000)` or the result does
/// not fit in an `i64`.
pub fn packet_time_micros(tv_sec: i64, tv_usec: i64) -> (r: Option<i64>)
    ensures
        match r {
            Some(t) => {
                &&& 0 <= tv_usec < 1_000_000
                &&& t == tv_sec * 1_000_000 + tv_usec
            },
            None => !(0 <= tv_usec < 1_000_000
                && i64::MIN <= tv_sec * 1_000_000 + tv_usec <= i64::MAX),
        },
{
    if tv_usec < 0 || tv_usec >= 1_000_000 {
        return None;
    }
    if tv_sec > 9_223_372_036_854i64 {
        return None;
    }
    if tv_sec == 9_223_372_036_854i64 && tv_usec > 775_807 {
        return None;
    }
    if tv_sec < -9_223_372_036_855i64 {
        return None;
    }
    if tv_sec == -9_223_372_036_855i64 && tv_usec < 224_192 {
        return None;
    }
    let wide: i128 = (tv_sec as i128) * 1_000_000 + (tv_usec as i128);
    Some(wide as i64)
}

} // verus!
