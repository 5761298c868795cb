//! Flow identifiers and their direction-independent equality.
//!
//! A transport flow identifier is a 5-tuple. Two identifiers name the same
//! flow when their unordered {(ip, port), (ip, port)} endpoint pairs and
//! protocol match, so a request and its reply map to one flow. The literal
//! source fields of the stored identifier are nevertheless retained: they fix
//! which endpoint counts as the "forward" direction for that flow.

use vstd::prelude::*;

use crate::packet_model::IpAddress;
use crate::packet_model::ParsedPacket;

verus! {

/// Whether a packet travels in the forward direction of the flow whose
/// identifier is given: its network-layer source address equals the
/// literal source address retained in the identifier.
pub open spec fn spec_is_forward(identifier: TransportFlowIdentifier, packet: ParsedPacket) -> bool {
    match packet.net {
        Some(net) => net.spec_source_address() == identifier.source_ip,
        None => false,
    }
}

/// Classifies a packet as forward or backward relative to the flow's
/// stored identifier.
pub fn is_forward(identifier: &TransportFlowIdentifier, packet: &ParsedPacket) -> (r: bool)
    requires
        packet.net is Some,
    ensures
        r == spec_is_forward(*identifier, *packet),
{
    match &packet.net {
        Some(net) => {
            let src = net.source_address();
            src == identifier.source_ip
        },
        None => false,
    }
}

/// An identifier for a communication between two hosts in the transport
/// layer: the classic 5-tuple.
#[derive(Clone, Copy, Debug)]
pub struct TransportFlowIdentifier {
    pub source_ip: IpAddress,
    pub source_port: u16,
    pub dest_ip: IpAddress,
    pub dest_port: u16,
    pub transport_protocol: u8,
}

/// An identifier for a communication between two hosts in the network layer,
/// used only while an IPv4 datagram is fragmented and not yet reassembled.
/// Here direction matters, so equality is plain structural equality.
#[derive(Clone, Copy, Debug, PartialEq, Eq, Structural)]
pub struct NetworkFlowIdentifier {
    pub source_ip: IpAddress,
    pub dest_ip: IpAddress,
    pub identifier: u32,
}

/// The numeric value of an address, used only to order the two endpoints of
/// a flow when forming its canonical key.
pub open spec fn ip_value(ip: IpAddress) -> u128 {
    match ip {
        IpAddress::V4(v) => v as u128,
        IpAddress::V6(v) => v,
    }
}

/// A tag telling the two address families apart, so that an IPv4 address
/// never collides with the IPv6 address of the same numeric value.
pub open spec fn ip_tag(ip: IpAddress) -> u64 {
    match ip {
        IpAddress::V4(_) => 0,
        IpAddress::V6(_) => 1,
    }
}

/// One endpoint of a flow, coded as a single integer: the address family
/// tag and the port. Injective in (family, port).
pub open spec fn endpoint_code(ip: IpAddress, port: u16) -> u64 {
    (ip_tag(ip) * 0x1_0000 + port as u64) as u64
}

/// The canonical key of a transport flow identifier: the two (address,
/// endpoint-code) pairs arranged with the smaller pair first, then the
/// protocol. Two identifiers are equal as flows exactly when their canonical
/// keys are equal.
pub open spec fn canonical_key(id: TransportFlowIdentifier) -> (u128, u128, u64, u64, u64) {
    let sv = ip_value(id.source_ip);
    let dv = ip_value(id.dest_ip);
    let sc = endpoint_code(id.source_ip, id.source_port);
    let dc = endpoint_code(id.dest_ip, id.dest_port);
    if sv < dv || (sv == dv && sc <= dc) {
        (sv, dv, sc, dc, id.transport_protocol as u64)
    } else {
        (dv, sv, dc, sc, id.transport_protocol as u64)
    }
}

/// Direction-independent equality of transport flow identifiers: the
/// protocols match and the endpoint pairs match either straight or swapped.
pub open spec fn id_eq(a: TransportFlowIdentifier, b: TransportFlowIdentifier) -> bool {
    &&& a.transport_protocol == b.transport_protocol
    &&& {
        ||| (a.source_ip == b.source_ip && a.source_port == b.source_port
            && a.dest_ip == b.dest_ip && a.dest_port == b.dest_port)
        ||| (a.source_ip == b.dest_ip && a.source_port == b.dest_port
            && a.dest_ip == b.source_ip && a.dest_port == b.source_port)
    }
}

/// The identifier of the reply direction: the endpoint pairs swapped, the
/// protocol kept.
pub open spec fn swapped(id: TransportFlowIdentifier) -> TransportFlowIdentifier {
    TransportFlowIdentifier {
        source_ip: id.dest_ip,
        source_port: id.dest_port,
        dest_ip: id.source_ip,
        dest_port: id.source_port,
        transport_protocol: id.transport_protocol,
    }
}

/// An address is determined by its numeric value together with its family
/// tag.
proof fn lemma_ip_code_injective(a: IpAddress, b: IpAddress)
    requires
        ip_value(a) == ip_value(b),
        ip_tag(a) == ip_tag(b),
    ensures
        a == b,
{
}

/// An endpoint code is determined by, and determines, the family tag and
/// the port.
proof fn lemma_endpoint_code_injective(a: IpAddress, pa: u16, b: IpAddress, pb: u16)
    requires
        endpoint_code(a, pa) == endpoint_code(b, pb),
    ensures
        ip_tag(a) == ip_tag(b),
        pa == pb,
{
    assert(ip_tag(a) * 0x1_0000 + pa as u64 == ip_tag(b) * 0x1_0000 + pb as u64);
}

/// Two transport flow identifiers are equal as flows if and only if their
/// canonical keys are equal.
pub proof fn lemma_id_eq_iff_same_key(a: TransportFlowIdentifier, b: TransportFlowIdentifier)
    ensures
        id_eq(a, b) <==> canonical_key(a) == canonical_key(b),
{
    if canonical_key(a) == canonical_key(b) {
        let ka = canonical_key(a);
        if ip_value(a.source_ip) < ip_value(a.dest_ip)
            || (ip_value(a.source_ip) == ip_value(a.dest_ip)
                && endpoint_code(a.source_ip, a.source_port)
                    <= endpoint_code(a.dest_ip, a.dest_port)) {
            if ip_value(b.source_ip) < ip_value(b.dest_ip)
                || (ip_value(b.source_ip) == ip_value(b.dest_ip)
                    && endpoint_code(b.source_ip, b.source_port)
                        <= endpoint_code(b.dest_ip, b.dest_port)) {
                lemma_endpoint_code_injective(a.source_ip, a.source_port, b.source_ip, b.source_port);
                lemma_endpoint_code_injective(a.dest_ip, a.dest_port, b.dest_ip, b.dest_port);
                lemma_ip_code_injective(a.source_ip, b.source_ip);
                lemma_ip_code_injective(a.dest_ip, b.dest_ip);
            } else {
                lemma_endpoint_code_injective(a.source_ip, a.source_port, b.dest_ip, b.dest_port);
                lemma_endpoint_code_injective(a.dest_ip, a.dest_port, b.source_ip, b.source_port);
                lemma_ip_code_injective(a.source_ip, b.dest_ip);
                lemma_ip_code_injective(a.dest_ip, b.source_ip);
            }
        } else {
            if ip_value(b.source_ip) < ip_value(b.dest_ip)
                || (ip_value(b.source_ip) == ip_value(b.dest_ip)
                    && endpoint_code(b.source_ip, b.source_port)
                        <= endpoint_code(b.dest_ip, b.dest_port)) {
                lemma_endpoint_code_injective(a.dest_ip, a.dest_port, b.source_ip, b.source_port);
                lemma_endpoint_code_injective(a.source_ip, a.source_port, b.dest_ip, b.dest_port);
                lemma_ip_code_injective(a.dest_ip, b.source_ip);
                lemma_ip_code_injective(a.source_ip, b.dest_ip);
            } else {
                lemma_endpoint_code_injective(a.source_ip, a.source_port, b.source_ip, b.source_port);
                lemma_endpoint_code_injective(a.dest_ip, a.dest_port, b.dest_ip, b.dest_port);
                lemma_ip_code_injective(a.source_ip, b.source_ip);
                lemma_ip_code_injective(a.dest_ip, b.dest_ip);
            }
        }
    }
}

/// Identifier symmetry: a request 5-tuple and its reply 5-tuple name the
/// same flow, and their canonical keys — the identity under which flows are
/// stored and looked up — are equal.
pub proof fn lemma_identifier_symmetry(id: TransportFlowIdentifier)
    ensures
        id_eq(id, swapped(id)),
        canonical_key(swapped(id)) == canonical_key(id),
{
    lemma_id_eq_iff_same_key(id, swapped(id));
}

/// Identifier distinctness: changing the protocol, or either single port,
/// while keeping both addresses and the other fields fixed, yields an
/// identifier of a different flow.
pub proof fn lemma_identifier_distinctness(a: TransportFlowIdentifier, b: TransportFlowIdentifier)
    requires
        a.source_ip == b.source_ip,
        a.dest_ip == b.dest_ip,
        (a.transport_protocol != b.transport_protocol
            && a.source_port == b.source_port && a.dest_port == b.dest_port)
            || (a.source_port != b.source_port
                && a.dest_port == b.dest_port
                && a.transport_protocol == b.transport_protocol)
            || (a.dest_port != b.dest_port
                && a.source_port == b.source_port
                && a.transport_protocol == b.transport_protocol),
    ensures
        !id_eq(a, b),
{
}

impl TransportFlowIdentifier {
    /// Create a new flow identifier from the given fields.
    pub fn new(
        source_ip: IpAddress,
        source_port: u16,
        dest_ip: IpAddress,
        dest_port: u16,
        transport_protocol: u8,
    ) -> (r: TransportFlowIdentifier)
        ensures
            r == (TransportFlowIdentifier {
                source_ip,
                source_port,
                dest_ip,
                dest_port,
                transport_protocol,
            }),
    {
        TransportFlowIdentifier {
            source_ip,
            source_port,
            dest_ip,
            dest_port,
            transport_protocol,
        }
    }

    /// The canonical key under which this identifier is stored and looked
    /// up: equal exactly for identifiers of the same flow.
    pub fn key(&self) -> (r: (u128, u128, u64, u64, u64))
        ensures
            r == canonical_key(*self),
    {
        let sv: u128 = match self.source_ip {
            IpAddress::V4(v) => v as u128,
            IpAddress::V6(v) => v,
        };
        let dv: u128 = match self.dest_ip {
            IpAddress::V4(v) => v as u128,
            IpAddress::V6(v) => v,
        };
        let st: u64 = match self.source_ip {
            IpAddress::V4(_) => 0,
            IpAddress::V6(_) => 1,
        };
        let dt: u64 = match self.dest_ip {
            IpAddress::V4(_) => 0,
            IpAddress::V6(_) => 1,
        };
        let sc: u64 = st * 0x1_0000 + self.source_port as u64;
        let dc: u64 = dt * 0x1_0000 + self.dest_port as u64;
        if sv < dv || (sv == dv && sc <= dc) {
            (sv, dv, sc, dc, self.transport_protocol as u64)
        } else {
            (dv, sv, dc, sc, self.transport_protocol as u64)
        }
    }
}

impl PartialEq for TransportFlowIdentifier {
    fn eq(&self, other: &Self) -> (r: bool) {
        self.transport_protocol == other.transport_protocol
            && ((self.source_ip == other.source_ip
                && self.source_port == other.source_port
                && self.dest_ip == other.dest_ip
                && self.dest_port == other.dest_port)
                || (self.source_ip == other.dest_ip
                    && self.source_port == other.dest_port
                    && self.dest_ip == other.source_ip
                    && self.dest_port == other.source_port))
    }
}

impl vstd::std_specs::cmp::PartialEqSpecImpl for TransportFlowIdentifier {
    open spec fn obeys_eq_spec() -> bool {
        true
    }

    open spec fn eq_spec(&self, other: &TransportFlowIdentifier) -> bool {
        id_eq(*self, *other)
    }
}

impl Eq for TransportFlowIdentifier {}

impl NetworkFlowIdentifier {
    /// The plain key of a network flow identifier: source, destination and
    /// the IP identification field, direction kept.
    pub fn key(&self) -> (r: (u128, u128, u64, u64, u64))
        ensures
            r == network_key(*self),
    {
        let sv: u128 = match self.source_ip {
            IpAddress::V4(v) => v as u128,
            IpAddress::V6(v) => v,
        };
        let dv: u128 = match self.dest_ip {
            IpAddress::V4(v) => v as u128,
            IpAddress::V6(v) => v,
        };
        let st: u64 = match self.source_ip {
            IpAddress::V4(_) => 0,
            IpAddress::V6(_) => 1,
        };
        let dt: u64 = match self.dest_ip {
            IpAddress::V4(_) => 0,
            IpAddress::V6(_) => 1,
        };
        (sv, dv, st, dt, self.identifier as u64)
    }
}

/// The key of a network flow identifier. Injective: equal keys mean equal
/// identifiers.
pub open spec fn network_key(id: NetworkFlowIdentifier) -> (u128, u128, u64, u64, u64) {
    (
        ip_value(id.source_ip),
        ip_value(id.dest_ip),
        ip_tag(id.source_ip),
        ip_tag(id.dest_ip),
        id.identifier as u64,
    )
}

/// Equal network keys name equal network flow identifiers.
pub proof fn lemma_network_key_injective(a: NetworkFlowIdentifier, b: NetworkFlowIdentifier)
    requires
        network_key(a) == network_key(b),
    ensures
        a == b,
{
    lemma_ip_code_injective(a.source_ip, b.source_ip);
    lemma_ip_code_injective(a.dest_ip, b.dest_ip);
}

} // verus!
