//! The top-level orchestrator: live transport flows and in-progress
//! fragment buffers, each paired with an eviction queue, plus the eviction
//! clock.
//!
//! Each of the two {store, queue} pairs always holds the same key set:
//! the store owns the flows, the queue orders their keys by the relevant
//! timestamp — a transport flow by the time of its last packet, a fragment
//! buffer by the time of its first fragment. Every mutation maintains this
//! invariant, so eviction can always pop the store entry that the queue
//! head names.

use vstd::prelude::*;

use crate::flow_identifier::canonical_key;
use crate::flow_identifier::NetworkFlowIdentifier;
use crate::flow_identifier::TransportFlowIdentifier;
use crate::flow_queue::queue_change_time;
use crate::flow_queue::queue_entries;
use crate::flow_queue::queue_insert;
use crate::flow_queue::queue_new;
use crate::flow_queue::queue_peek_min;
use crate::flow_queue::queue_pop_min;
use crate::flow_queue::queue_remove;
use crate::flow_queue::FlowQueue;
use crate::flow_times::option_deref;
use crate::packet_flow::FragmentReasemblyInformation;
use crate::packet_flow::NetworkFragmentFlow;
use crate::packet_flow::NetworkFragmentFlowView;
use crate::packet_flow::TransportFlow;
use crate::packet_flow::TransportFlowView;
use crate::packet_model::NetLayer;
use crate::packet_model::PacketMeta;
use crate::packet_model::ParsedPacket;
use crate::packet_parse::spec_flow_identifier;
use crate::packet_parse::FlowIdentifier;
use crate::packet_parse::FragmentationInformation;
use crate::packet_parse::ParseError;

verus! {

/// What feeding one decoded packet into the group produced: either a
/// count of packets made valid and discarded, or — when the packet
/// completed a fragmented datagram — the reassembled payload, the
/// reassembly report, and the triggering fragment's network header
/// fields, from which the caller rebuilds and re-decodes the datagram.
pub enum PacketOutcome {
    Counted(u32, u32),
    Reassembled {
        payload: Vec<u8>,
        reasembly_information: FragmentReasemblyInformation,
        source: u32,
        dest: u32,
        ttl: u8,
        protocol: u8,
    },
}

/// Whether some flow in the sequence has the given canonical key.
pub open spec fn has_transport_key(s: Seq<TransportFlowView>, key: (u128, u128, u64, u64, u64)) -> bool {
    exists|i: int| 0 <= i < s.len() && canonical_key(s[i].identifier) == key
}

/// The index of the flow with the given canonical key; meaningful only
/// when the keys in the sequence are distinct and the key is present.
pub open spec fn transport_index(s: Seq<TransportFlowView>, key: (u128, u128, u64, u64, u64)) -> int {
    choose|i: int| 0 <= i < s.len() && canonical_key(s[i].identifier) == key
}

/// The flow sequence after attributing one packet to `identifier`: the
/// flow of the same canonical key is updated if one lives, else a new
/// flow is appended.
pub open spec fn stored_transport(
    s: Seq<TransportFlowView>,
    identifier: TransportFlowIdentifier,
    meta: PacketMeta,
    packet: ParsedPacket,
    reasembly_information: Option<FragmentReasemblyInformation>,
) -> Seq<TransportFlowView> {
    if has_transport_key(s, canonical_key(identifier)) {
        let i = transport_index(s, canonical_key(identifier));
        s.update(i, s[i].accumulated(meta, packet, reasembly_information))
    } else {
        s.push(TransportFlowView::initial(identifier, meta, packet, reasembly_information))
    }
}

/// Flow conservation under arrival: attributing a packet to an identifier
/// grows the flow store by exactly one flow when no flow of that
/// canonical key lives, and leaves its size unchanged when one does.
/// Together with the eviction contracts — each successful pop removes and
/// returns exactly one live flow, and the unconditional pop returns
/// `None` exactly when no flow lives — draining a group yields one flow
/// per distinct identifier observed, none lost and none duplicated.
pub proof fn lemma_flow_conservation(
    s: Seq<TransportFlowView>,
    identifier: TransportFlowIdentifier,
    meta: PacketMeta,
    packet: ParsedPacket,
    reasembly_information: Option<FragmentReasemblyInformation>,
)
    ensures
        has_transport_key(s, canonical_key(identifier))
            ==> stored_transport(s, identifier, meta, packet, reasembly_information).len()
                == s.len(),
        !has_transport_key(s, canonical_key(identifier))
            ==> stored_transport(s, identifier, meta, packet, reasembly_information).len()
                == s.len() + 1,
        forall|k: (u128, u128, u64, u64, u64)|
            has_transport_key(
                #[trigger] stored_transport(s, identifier, meta, packet, reasembly_information),
                k,
            ) <==> (has_transport_key(s, k) || k == canonical_key(identifier)),
{
    let r = stored_transport(s, identifier, meta, packet, reasembly_information);
    if has_transport_key(s, canonical_key(identifier)) {
        let i = transport_index(s, canonical_key(identifier));
        assert(0 <= i < s.len() && canonical_key(s[i].identifier) == canonical_key(identifier));
        assert forall|k: (u128, u128, u64, u64, u64)| has_transport_key(r, k)
            implies (has_transport_key(s, k) || k == canonical_key(identifier)) by {
            let a = choose|a: int| 0 <= a < r.len() && canonical_key((#[trigger] r[a]).identifier) == k;
            if a != i {
                assert(r[a] == s[a]);
            }
        }
        assert forall|k: (u128, u128, u64, u64, u64)|
            has_transport_key(s, k) || k == canonical_key(identifier)
            implies has_transport_key(r, k) by {
            if has_transport_key(s, k) {
                let a = choose|a: int| 0 <= a < s.len()
                    && canonical_key((#[trigger] s[a]).identifier) == k;
                if a == i {
                    assert(canonical_key(r[i].identifier) == k);
                } else {
                    assert(r[a] == s[a]);
                    assert(canonical_key(r[a].identifier) == k);
                }
            } else {
                assert(canonical_key(r[i].identifier) == canonical_key(identifier));
            }
        }
    } else {
        assert(r[s.len() as int].identifier == identifier);
        assert forall|k: (u128, u128, u64, u64, u64)| has_transport_key(r, k)
            implies (has_transport_key(s, k) || k == canonical_key(identifier)) by {
            let a = choose|a: int| 0 <= a < r.len() && canonical_key((#[trigger] r[a]).identifier) == k;
            if a < s.len() {
                assert(r[a] == s[a]);
            }
        }
        assert forall|k: (u128, u128, u64, u64, u64)|
            has_transport_key(s, k) || k == canonical_key(identifier)
            implies has_transport_key(r, k) by {
            if has_transport_key(s, k) {
                let a = choose|a: int| 0 <= a < s.len()
                    && canonical_key((#[trigger] s[a]).identifier) == k;
                assert(r[a] == s[a]);
                assert(canonical_key(r[a].identifier) == k);
            } else {
                assert(canonical_key(r[s.len() as int].identifier) == k);
            }
        }
    }
}

/// Whether some fragment buffer in the sequence belongs to the given
/// network flow identifier.
pub open spec fn has_network_id(
    s: Seq<(NetworkFlowIdentifier, NetworkFragmentFlowView)>,
    id: NetworkFlowIdentifier,
) -> bool {
    exists|i: int| 0 <= i < s.len() && s[i].0 == id
}

/// The index of the buffer with the given identifier; meaningful only
/// when identifiers are distinct and the identifier is present.
pub open spec fn network_index(
    s: Seq<(NetworkFlowIdentifier, NetworkFragmentFlowView)>,
    id: NetworkFlowIdentifier,
) -> int {
    choose|i: int| 0 <= i < s.len() && s[i].0 == id
}

/// A group of flows: the live transport flows and the in-progress
/// fragment buffers, each with its eviction queue, and the time of the
/// most recently observed packet — the eviction clock.
pub struct FlowGroup {
    transport_flows: Vec<TransportFlow>,
    transport_flows_queue: FlowQueue,
    network_fragment_flows: Vec<(NetworkFlowIdentifier, NetworkFragmentFlow)>,
    network_fragment_flows_queue: FlowQueue,
    latest_time: Option<i64>,
}

impl FlowGroup {
    /// The live transport flows, as mathematical values, in storage order.
    pub closed spec fn transport_view(self) -> Seq<TransportFlowView> {
        self.transport_flows@.map_values(|f: TransportFlow| f.view())
    }

    /// The in-progress fragment buffers, keyed by their network flow
    /// identifiers, in storage order.
    pub closed spec fn network_view(self) -> Seq<(NetworkFlowIdentifier, NetworkFragmentFlowView)> {
        self.network_fragment_flows@.map_values(
            |e: (NetworkFlowIdentifier, NetworkFragmentFlow)| (e.0, e.1.view()),
        )
    }

    /// The eviction clock: the timestamp of the most recently observed
    /// packet, `None` before the first packet.
    pub closed spec fn spec_latest_time(self) -> Option<i64> {
        self.latest_time
    }

    /// The transport store and its queue agree: flows have distinct
    /// canonical keys, every flow is queued under its key at its
    /// last-packet time, and every queued key names a live flow.
    pub closed spec fn transport_wf(self) -> bool {
        let s = self.transport_flows@;
        let q = queue_entries(self.transport_flows_queue);
        &&& forall|i: int, j: int| 0 <= i < j < s.len()
            ==> canonical_key((#[trigger] s[i]).identifier)
                != canonical_key((#[trigger] s[j]).identifier)
        &&& forall|i: int| 0 <= i < s.len() ==> (#[trigger] s[i]).wf()
        &&& forall|i: int| 0 <= i < s.len()
            ==> q.dom().contains(canonical_key((#[trigger] s[i]).identifier))
                && q[canonical_key(s[i].identifier)]
                    == s[i].statistics.flow_times.last_packet_time
        &&& forall|k: (u128, u128, u64, u64, u64)| q.dom().contains(k)
            ==> exists|i: int| 0 <= i < s.len()
                && canonical_key((#[trigger] s[i]).identifier) == k
    }

    /// The fragment store and its queue agree: buffers have distinct
    /// identifiers, every buffer is queued under its identifier's key at
    /// its first-fragment time, and every queued key names a live buffer.
    pub closed spec fn network_wf(self) -> bool {
        let s = self.network_fragment_flows@;
        let q = queue_entries(self.network_fragment_flows_queue);
        &&& forall|i: int, j: int| 0 <= i < j < s.len()
            ==> (#[trigger] s[i]).0 != (#[trigger] s[j]).0
        &&& forall|i: int| 0 <= i < s.len() ==> (#[trigger] s[i]).1.wf()
        &&& forall|i: int| 0 <= i < s.len()
            ==> q.dom().contains(crate::flow_identifier::network_key((#[trigger] s[i]).0))
                && q[crate::flow_identifier::network_key(s[i].0)] == s[i].1.first_time
        &&& forall|k: (u128, u128, u64, u64, u64)| q.dom().contains(k)
            ==> exists|i: int| 0 <= i < s.len()
                && crate::flow_identifier::network_key((#[trigger] s[i]).0) == k
    }

    pub closed spec fn wf(self) -> bool {
        self.transport_wf() && self.network_wf()
    }

    /// Create an empty group of flows.
    pub fn new() -> (r: FlowGroup)
        ensures
            r.wf(),
            r.transport_view() =~= Seq::empty(),
            r.network_view() =~= Seq::empty(),
            r.spec_latest_time() is None,
    {
        FlowGroup {
            transport_flows: Vec::new(),
            transport_flows_queue: queue_new(),
            network_fragment_flows: Vec::new(),
            network_fragment_flows_queue: queue_new(),
            latest_time: None,
        }
    }

    /// The eviction clock.
    pub fn latest_time(&self) -> (r: Option<i64>)
        ensures
            r == self.spec_latest_time(),
    {
        self.latest_time
    }

    /// The number of live transport flows.
    pub fn transport_flow_count(&self) -> (r: usize)
        ensures
            r == self.transport_view().len(),
    {
        self.transport_flows.len()
    }

    /// The number of in-progress fragment buffers.
    pub fn network_flow_count(&self) -> (r: usize)
        ensures
            r == self.network_view().len(),
    {
        self.network_fragment_flows.len()
    }

    /// The index of the live flow with this canonical key, if any.
    fn find_transport(&self, key: (u128, u128, u64, u64, u64)) -> (r: Option<usize>)
        ensures
            match r {
                Some(i) => i < self.transport_view().len()
                    && canonical_key(self.transport_view()[i as int].identifier) == key,
                None => !has_transport_key(self.transport_view(), key),
            },
    {
        let n = self.transport_flows.len();
        let mut i: usize = 0;
        while i < n
            invariant
                0 <= i <= n,
                n == self.transport_flows@.len(),
                forall|j: int| 0 <= j < i
                    ==> canonical_key((#[trigger] self.transport_flows@[j]).identifier) != key,
            decreases n - i,
        {
            let k2 = self.transport_flows[i].identifier.key();
            if k2.0 == key.0 && k2.1 == key.1 && k2.2 == key.2 && k2.3 == key.3 && k2.4 == key.4 {
                proof {
                    assert(self.transport_view()[i as int].identifier
                        == self.transport_flows@[i as int].identifier);
                }
                return Some(i);
            }
            i = i + 1;
        }
        proof {
            assert forall|j: int| 0 <= j < self.transport_view().len()
                implies canonical_key((#[trigger] self.transport_view()[j]).identifier)
                    != key by {
                assert(self.transport_view()[j].identifier
                    == self.transport_flows@[j].identifier);
            }
        }
        None
    }

    /// The index of the fragment buffer with this identifier, if any.
    fn find_network(&self, id: &NetworkFlowIdentifier) -> (r: Option<usize>)
        ensures
            match r {
                Some(i) => i < self.network_view().len()
                    && self.network_view()[i as int].0 == *id,
                None => !has_network_id(self.network_view(), *id),
            },
    {
        let n = self.network_fragment_flows.len();
        let mut i: usize = 0;
        while i < n
            invariant
                0 <= i <= n,
                n == self.network_fragment_flows@.len(),
                forall|j: int| 0 <= j < i
                    ==> (#[trigger] self.network_fragment_flows@[j]).0 != *id,
            decreases n - i,
        {
            if self.network_fragment_flows[i].0 == *id {
                proof {
                    assert(self.network_view()[i as int].0
                        == self.network_fragment_flows@[i as int].0);
                }
                return Some(i);
            }
            i = i + 1;
        }
        proof {
            assert forall|j: int| 0 <= j < self.network_view().len()
                implies (#[trigger] self.network_view()[j]).0 != *id by {
                assert(self.network_view()[j].0 == self.network_fragment_flows@[j].0);
            }
        }
        None
    }

    /// Attribute one packet to the transport flow of `identifier`: the
    /// live flow with the same canonical key absorbs it and its queue
    /// entry moves to the new last-packet time; a first packet opens a new
    /// flow. The fragment side and the clock are untouched.
    pub fn store_transport_flow(
        &mut self,
        identifier: TransportFlowIdentifier,
        meta: &PacketMeta,
        packet: &ParsedPacket,
        reasembly_information: Option<&FragmentReasemblyInformation>,
    )
        requires
            old(self).wf(),
            packet.net is Some,
        ensures
            final(self).wf(),
            final(self).transport_view() == stored_transport(
                old(self).transport_view(),
                identifier,
                *meta,
                *packet,
                option_deref(reasembly_information),
            ),
            final(self).network_view() == old(self).network_view(),
            final(self).spec_latest_time() == old(self).spec_latest_time(),
    {
        let key = identifier.key();
        let ghost oldv = self.transport_view();
        match self.find_transport(key) {
            None => {
                let flow = TransportFlow::from(identifier, meta, packet, reasembly_information);
                queue_insert(
                    &mut self.transport_flows_queue,
                    key,
                    flow.statistics.flow_times.last_packet_time,
                );
                self.transport_flows.push(flow);
                proof {
                    assert(self.transport_view() =~= oldv.push(flow.view()));
                    assert(flow.view() == TransportFlowView::initial(
                        identifier,
                        *meta,
                        *packet,
                        option_deref(reasembly_information),
                    ));
                    assert(self.transport_view() == stored_transport(
                        oldv,
                        identifier,
                        *meta,
                        *packet,
                        option_deref(reasembly_information),
                    ));
                    assert forall|i: int| 0 <= i < self.transport_flows@.len()
                        implies (#[trigger] self.transport_flows@[i]).wf() by {
                        if i < self.transport_flows@.len() - 1 {
                            assert(self.transport_flows@[i] == old(self).transport_flows@[i]);
                        }
                    }
                    assert forall|i: int| 0 <= i < oldv.len()
                        implies canonical_key((#[trigger] oldv[i]).identifier) != key by {
                        assert(oldv[i].identifier == old(self).transport_flows@[i].identifier);
                    }
                    let s1 = old(self).transport_flows@;
                    let s2 = self.transport_flows@;
                    let q1 = queue_entries(old(self).transport_flows_queue);
                    let q2 = queue_entries(self.transport_flows_queue);
                    assert(q2 == q1.insert(key, flow.statistics.flow_times.last_packet_time as int));
                    assert(canonical_key(flow.identifier) == key);
                    assert forall|a: int, b: int| 0 <= a < b < s2.len()
                        implies canonical_key((#[trigger] s2[a]).identifier)
                            != canonical_key((#[trigger] s2[b]).identifier) by {
                        if b == s2.len() - 1 {
                            assert(s2[a] == s1[a]);
                            assert(canonical_key(oldv[a].identifier)
                                == canonical_key(s1[a].identifier));
                        } else {
                            assert(s2[a] == s1[a] && s2[b] == s1[b]);
                        }
                    }
                    assert forall|a: int| 0 <= a < s2.len()
                        implies q2.dom().contains(canonical_key((#[trigger] s2[a]).identifier))
                            && q2[canonical_key(s2[a].identifier)]
                                == s2[a].statistics.flow_times.last_packet_time by {
                        if a == s2.len() - 1 {
                            assert(s2[a] == flow);
                        } else {
                            assert(s2[a] == s1[a]);
                            assert(canonical_key(oldv[a].identifier)
                                == canonical_key(s1[a].identifier));
                            assert(canonical_key(s1[a].identifier) != key);
                        }
                    }
                    assert forall|k: (u128, u128, u64, u64, u64)| q2.dom().contains(k)
                        implies exists|a: int| 0 <= a < s2.len()
                            && canonical_key((#[trigger] s2[a]).identifier) == k by {
                        if k == key {
                            assert(canonical_key(s2[s2.len() - 1].identifier) == k);
                        } else {
                            assert(q1.dom().contains(k));
                            let a = choose|a: int| 0 <= a < s1.len()
                                && canonical_key((#[trigger] s1[a]).identifier) == k;
                            assert(s2[a] == s1[a]);
                            assert(canonical_key(s2[a].identifier) == k);
                        }
                    }
                    assert(final(self).transport_wf());
                }
            },
            Some(i) => {
                let ghost j = transport_index(oldv, canonical_key(identifier));
                proof {
                    assert(oldv[i as int].identifier
                        == old(self).transport_flows@[i as int].identifier);
                    assert(has_transport_key(oldv, canonical_key(identifier)));
                    // the canonical keys are distinct, so the chosen index
                    // is the found one
                    assert(0 <= j < oldv.len()
                        && canonical_key(oldv[j].identifier) == canonical_key(identifier));
                    if i as int != j {
                        assert(oldv[j].identifier
                            == old(self).transport_flows@[j].identifier);
                        assert(false);
                    }
                }
                let mut flow = self.transport_flows.remove(i);
                flow.accumulate(meta, packet, reasembly_information);
                let t = flow.statistics.flow_times.last_packet_time;
                self.transport_flows.insert(i, flow);
                let changed = queue_change_time(&mut self.transport_flows_queue, key, t);
                proof {
                    assert(self.transport_flows@
                        =~= old(self).transport_flows@.update(i as int, flow));
                    assert(self.transport_view()
                        =~= oldv.update(i as int, flow.view()));
                    assert(flow.view() == oldv[i as int].accumulated(
                        *meta,
                        *packet,
                        option_deref(reasembly_information),
                    ));
                    assert(self.transport_view() == stored_transport(
                        oldv,
                        identifier,
                        *meta,
                        *packet,
                        option_deref(reasembly_information),
                    ));
                    let s1 = old(self).transport_flows@;
                    let s2 = self.transport_flows@;
                    let q1 = queue_entries(old(self).transport_flows_queue);
                    let q2 = queue_entries(self.transport_flows_queue);
                    assert(canonical_key(s1[i as int].identifier) == key);
                    assert(changed) by {
                        assert(q1.dom().contains(canonical_key(s1[i as int].identifier)));
                    }
                    assert(q2 == q1.insert(key, t as int));
                    assert(flow.identifier == s1[i as int].identifier);
                    assert forall|a: int, b: int| 0 <= a < b < s2.len()
                        implies canonical_key((#[trigger] s2[a]).identifier)
                            != canonical_key((#[trigger] s2[b]).identifier) by {
                        assert(s2[a].identifier == s1[a].identifier);
                        assert(s2[b].identifier == s1[b].identifier);
                    }
                    assert forall|a: int| 0 <= a < s2.len() implies (#[trigger] s2[a]).wf() by {
                        if a != i as int {
                            assert(s2[a] == s1[a]);
                        }
                    }
                    assert forall|a: int| 0 <= a < s2.len()
                        implies q2.dom().contains(canonical_key((#[trigger] s2[a]).identifier))
                            && q2[canonical_key(s2[a].identifier)]
                                == s2[a].statistics.flow_times.last_packet_time by {
                        assert(s2[a].identifier == s1[a].identifier);
                        if a == i as int {
                            assert(s2[a] == flow);
                        } else {
                            assert(s2[a] == s1[a]);
                            assert(canonical_key(s1[a].identifier) != key);
                        }
                    }
                    assert forall|k: (u128, u128, u64, u64, u64)| q2.dom().contains(k)
                        implies exists|a: int| 0 <= a < s2.len()
                            && canonical_key((#[trigger] s2[a]).identifier) == k by {
                        if k == key {
                            assert(canonical_key(s2[i as int].identifier) == k);
                        } else {
                            assert(q1.dom().contains(k));
                            let a = choose|a: int| 0 <= a < s1.len()
                                && canonical_key((#[trigger] s1[a]).identifier) == k;
                            assert(canonical_key(s2[a].identifier) == k);
                        }
                    }
                    assert(final(self).transport_wf());
                }
            },
        }
    }

    /// The last-packet time of the least recently updated transport flow.
    pub fn get_oldest_time_transport(&self) -> (r: Option<i64>)
        requires
            self.wf(),
        ensures
            match r {
                None => self.transport_view().len() == 0,
                Some(t) => exists|i: int|
                    0 <= i < self.transport_view().len()
                        && (#[trigger] self.transport_view()[i]).statistics.flow_times
                            .last_packet_time == t
                        && oldest_transport_time(self.transport_view(), t as int),
            },
    {
        let ghost s1 = self.transport_flows@;
        match queue_peek_min(&self.transport_flows_queue) {
            None => {
                proof {
                    if s1.len() > 0 {
                        assert(queue_entries(self.transport_flows_queue).dom().contains(
                            canonical_key(s1[0].identifier),
                        ));
                    }
                    assert(self.transport_view().len() == s1.len());
                }
                None
            },
            Some((k, t)) => {
                proof {
                    let q = queue_entries(self.transport_flows_queue);
                    let a = choose|a: int| 0 <= a < s1.len()
                        && canonical_key((#[trigger] s1[a]).identifier) == k;
                    assert(self.transport_view()[a].statistics.flow_times.last_packet_time == t);
                    assert forall|j: int| 0 <= j < self.transport_view().len()
                        implies t as int <= (#[trigger] self.transport_view()[j]).statistics
                            .flow_times.last_packet_time by {
                        assert(q.dom().contains(canonical_key(s1[j].identifier)));
                        assert(self.transport_view()[j].statistics.flow_times.last_packet_time
                            == s1[j].statistics.flow_times.last_packet_time);
                    }
                }
                Some(t)
            },
        }
    }

    /// The first-fragment time of the oldest in-progress fragment buffer.
    pub fn get_oldest_time_network_fragment(&self) -> (r: Option<i64>)
        requires
            self.wf(),
        ensures
            match r {
                None => self.network_view().len() == 0,
                Some(t) => exists|i: int|
                    0 <= i < self.network_view().len()
                        && (#[trigger] self.network_view()[i]).1.first_time == t
                        && oldest_network_time(self.network_view(), t as int),
            },
    {
        let ghost s1 = self.network_fragment_flows@;
        match queue_peek_min(&self.network_fragment_flows_queue) {
            None => {
                proof {
                    if s1.len() > 0 {
                        assert(queue_entries(self.network_fragment_flows_queue).dom().contains(
                            crate::flow_identifier::network_key(s1[0].0),
                        ));
                    }
                    assert(self.network_view().len() == s1.len());
                }
                None
            },
            Some((k, t)) => {
                proof {
                    let q = queue_entries(self.network_fragment_flows_queue);
                    let a = choose|a: int| 0 <= a < s1.len()
                        && crate::flow_identifier::network_key((#[trigger] s1[a]).0) == k;
                    assert(self.network_view()[a].1.first_time == t);
                    assert forall|j: int| 0 <= j < self.network_view().len()
                        implies t as int
                            <= (#[trigger] self.network_view()[j]).1.first_time by {
                        assert(q.dom().contains(crate::flow_identifier::network_key(s1[j].0)));
                        assert(self.network_view()[j].1.first_time == s1[j].1.first_time);
                    }
                }
                Some(t)
            },
        }
    }

    /// Pop the least recently updated transport flow: `None` exactly when
    /// no flow lives; otherwise one flow — with the least last-packet
    /// time — leaves both store and queue and is returned. No flow is
    /// ever lost or duplicated: the rest stay exactly as they were.
    pub fn pop_oldest_transport_flow(&mut self) -> (r: Option<TransportFlow>)
        requires
            old(self).wf(),
        ensures
            final(self).wf(),
            final(self).network_view() == old(self).network_view(),
            final(self).spec_latest_time() == old(self).spec_latest_time(),
            match r {
                None => old(self).transport_view().len() == 0
                    && final(self).transport_view() == old(self).transport_view(),
                Some(flow) => {
                    &&& flow.wf()
                    &&& exists|i: int| 0 <= i < old(self).transport_view().len()
                        && (#[trigger] old(self).transport_view()[i]) == flow.view()
                        && final(self).transport_view()
                            == old(self).transport_view().remove(i)
                    &&& oldest_transport_time(
                        old(self).transport_view(),
                        flow.view().statistics.flow_times.last_packet_time as int,
                    )
                },
            },
    {
        let ghost s1 = self.transport_flows@;
        let ghost oldv = self.transport_view();
        match queue_pop_min(&mut self.transport_flows_queue) {
            None => {
                proof {
                    if s1.len() > 0 {
                        assert(queue_entries(old(self).transport_flows_queue).dom().contains(
                            canonical_key(s1[0].identifier),
                        ));
                    }
                }
                None
            },
            Some((k, t)) => {
                let index = match self.find_transport(k) {
                    Some(i) => i,
                    None => {
                        proof {
                            let a = choose|a: int| 0 <= a < s1.len()
                                && canonical_key((#[trigger] s1[a]).identifier) == k;
                            assert(canonical_key(oldv[a].identifier) == k);
                            assert(false);
                        }
                        0
                    },
                };
                let ghost i = index as int;
                let flow = self.transport_flows.remove(index);
                proof {
                    let q1 = queue_entries(old(self).transport_flows_queue);
                    let q2 = queue_entries(self.transport_flows_queue);
                    let s2 = self.transport_flows@;
                    assert(flow == s1[i]);
                    assert(s2 =~= s1.remove(i));
                    assert(self.transport_view() =~= oldv.remove(i));
                    assert(oldv[i] == flow.view());
                    assert(canonical_key(flow.identifier) == k);
                    assert(flow.view().statistics.flow_times.last_packet_time
                        == flow.statistics.flow_times.last_packet_time);
                    assert(t == flow.statistics.flow_times.last_packet_time);
                    assert forall|j: int| 0 <= j < oldv.len()
                        implies t as int <= (#[trigger] oldv[j]).statistics.flow_times
                            .last_packet_time by {
                        assert(q1.dom().contains(canonical_key(s1[j].identifier)));
                        assert(oldv[j].statistics.flow_times.last_packet_time
                            == s1[j].statistics.flow_times.last_packet_time);
                    }
                    // the remaining flows still satisfy the invariant
                    assert forall|a: int, b: int| 0 <= a < b < s2.len()
                        implies canonical_key((#[trigger] s2[a]).identifier)
                            != canonical_key((#[trigger] s2[b]).identifier) by {
                        assert(s2[a] == if a < i { s1[a] } else { s1[a + 1] });
                        assert(s2[b] == if b < i { s1[b] } else { s1[b + 1] });
                    }
                    assert forall|a: int| 0 <= a < s2.len() implies (#[trigger] s2[a]).wf()
                        && q2.dom().contains(canonical_key(s2[a].identifier))
                        && q2[canonical_key(s2[a].identifier)]
                            == s2[a].statistics.flow_times.last_packet_time by {
                        let b = if a < i { a } else { a + 1 };
                        assert(s2[a] == s1[b]);
                        assert(canonical_key(s1[b].identifier) != k);
                        assert(q1.dom().contains(canonical_key(s1[b].identifier)));
                    }
                    assert forall|k2: (u128, u128, u64, u64, u64)| q2.dom().contains(k2)
                        implies exists|a: int| 0 <= a < s2.len()
                            && canonical_key((#[trigger] s2[a]).identifier) == k2 by {
                        assert(q1.dom().contains(k2) && k2 != k);
                        let b = choose|b: int| 0 <= b < s1.len()
                            && canonical_key((#[trigger] s1[b]).identifier) == k2;
                        assert(b != i);
                        let a = if b < i { b } else { b - 1 };
                        assert(s2[a] == s1[b]);
                        assert(canonical_key(s2[a].identifier) == k2);
                    }
                    assert(final(self).transport_wf());
                }
                Some(flow)
            },
        }
    }

    /// Pop the least recently updated transport flow only if it has been
    /// idle strictly longer than `time_delta` microseconds relative to
    /// the eviction clock. A gap exactly equal to the threshold does not
    /// evict.
    pub fn pop_oldest_transport_flow_if_older_than(&mut self, time_delta: i64) -> (r: Option<
        TransportFlow,
    >)
        requires
            old(self).wf(),
        ensures
            final(self).wf(),
            final(self).network_view() == old(self).network_view(),
            final(self).spec_latest_time() == old(self).spec_latest_time(),
            match r {
                None => {
                    &&& final(self).transport_view() == old(self).transport_view()
                    &&& !(old(self).spec_latest_time() matches Some(lt)
                        && exists|i: int| 0 <= i < old(self).transport_view().len()
                            && lt - (#[trigger] old(self).transport_view()[i]).statistics
                                .flow_times.last_packet_time > time_delta)
                },
                Some(flow) => {
                    &&& flow.wf()
                    &&& exists|i: int| 0 <= i < old(self).transport_view().len()
                        && (#[trigger] old(self).transport_view()[i]) == flow.view()
                        && final(self).transport_view()
                            == old(self).transport_view().remove(i)
                    &&& oldest_transport_time(
                        old(self).transport_view(),
                        flow.view().statistics.flow_times.last_packet_time as int,
                    )
                    &&& old(self).spec_latest_time() matches Some(lt)
                        && lt - flow.view().statistics.flow_times.last_packet_time > time_delta
                },
            },
    {
        let latest = match self.latest_time {
            None => {
                return None;
            },
            Some(lt) => lt,
        };
        let oldest = match self.get_oldest_time_transport() {
            None => {
                return None;
            },
            Some(t) => t,
        };
        let gap: i128 = (latest as i128) - (oldest as i128);
        if (time_delta as i128) < gap {
            let r = self.pop_oldest_transport_flow();
            proof {
                assert(r is Some);
            }
            r
        } else {
            proof {
                assert forall|i: int| 0 <= i < self.transport_view().len()
                    implies !(latest - (#[trigger] self.transport_view()[i]).statistics
                        .flow_times.last_packet_time > time_delta) by {
                    assert(oldest as int
                        <= self.transport_view()[i].statistics.flow_times.last_packet_time);
                }
            }
            None
        }
    }

    /// Pop the oldest in-progress fragment buffer: `None` exactly when
    /// none lives; otherwise the buffer whose first fragment is oldest is
    /// dropped and its total received fragment count — all of them now
    /// discarded — is returned.
    pub fn pop_oldest_network_flow(&mut self) -> (r: Option<u32>)
        requires
            old(self).wf(),
        ensures
            final(self).wf(),
            final(self).transport_view() == old(self).transport_view(),
            final(self).spec_latest_time() == old(self).spec_latest_time(),
            match r {
                None => old(self).network_view().len() == 0
                    && final(self).network_view() == old(self).network_view(),
                Some(n) => {
                    &&& exists|i: int| 0 <= i < old(self).network_view().len()
                        && n == (#[trigger] old(self).network_view()[i]).1
                            .total_fragments_received_count
                        && final(self).network_view() == old(self).network_view().remove(i)
                        && oldest_network_time(
                            old(self).network_view(),
                            old(self).network_view()[i].1.first_time as int,
                        )
                },
            },
    {
        let ghost s1 = self.network_fragment_flows@;
        let ghost oldv = self.network_view();
        match queue_pop_min(&mut self.network_fragment_flows_queue) {
            None => {
                proof {
                    if s1.len() > 0 {
                        assert(queue_entries(old(self).network_fragment_flows_queue).dom()
                            .contains(crate::flow_identifier::network_key(s1[0].0)));
                    }
                }
                None
            },
            Some((k, t)) => {
                let ghost a0 = choose|a: int| 0 <= a < s1.len()
                    && crate::flow_identifier::network_key((#[trigger] s1[a]).0) == k;
                let index = match self.find_network_by_key(k) {
                    Some(i) => i,
                    None => {
                        proof {
                            assert(crate::flow_identifier::network_key(s1[a0].0) == k);
                            assert(oldv[a0].0 == s1[a0].0);
                            assert(false);
                        }
                        0
                    },
                };
                let ghost i = index as int;
                let entry = self.network_fragment_flows.remove(index);
                let count = entry.1.total_fragments_received_count;
                proof {
                    let q1 = queue_entries(old(self).network_fragment_flows_queue);
                    let q2 = queue_entries(self.network_fragment_flows_queue);
                    let s2 = self.network_fragment_flows@;
                    assert(entry == s1[i]);
                    assert(s2 =~= s1.remove(i));
                    assert(self.network_view() =~= oldv.remove(i));
                    assert(crate::flow_identifier::network_key(entry.0) == k);
                    assert(t == entry.1.first_time);
                    assert(oldv[i].1.total_fragments_received_count == count);
                    assert(oldv[i].1.first_time == t);
                    assert forall|j: int| 0 <= j < oldv.len()
                        implies t as int <= (#[trigger] oldv[j]).1.first_time by {
                        assert(q1.dom().contains(crate::flow_identifier::network_key(s1[j].0)));
                        assert(oldv[j].1.first_time == s1[j].1.first_time);
                    }
                    assert forall|a: int, b: int| 0 <= a < b < s2.len()
                        implies (#[trigger] s2[a]).0 != (#[trigger] s2[b]).0 by {
                        assert(s2[a] == if a < i { s1[a] } else { s1[a + 1] });
                        assert(s2[b] == if b < i { s1[b] } else { s1[b + 1] });
                    }
                    assert forall|a: int| 0 <= a < s2.len() implies (#[trigger] s2[a]).1.wf()
                        && q2.dom().contains(crate::flow_identifier::network_key(s2[a].0))
                        && q2[crate::flow_identifier::network_key(s2[a].0)]
                            == s2[a].1.first_time by {
                        let b = if a < i { a } else { a + 1 };
                        assert(s2[a] == s1[b]);
                        if crate::flow_identifier::network_key(s1[b].0) == k {
                            crate::flow_identifier::lemma_network_key_injective(s1[b].0, entry.0);
                            assert(false);
                        }
                        assert(q1.dom().contains(crate::flow_identifier::network_key(s1[b].0)));
                    }
                    assert forall|k2: (u128, u128, u64, u64, u64)| q2.dom().contains(k2)
                        implies exists|a: int| 0 <= a < s2.len()
                            && crate::flow_identifier::network_key((#[trigger] s2[a]).0)
                                == k2 by {
                        assert(q1.dom().contains(k2) && k2 != k);
                        let b = choose|b: int| 0 <= b < s1.len()
                            && crate::flow_identifier::network_key((#[trigger] s1[b]).0) == k2;
                        assert(b != i);
                        let a = if b < i { b } else { b - 1 };
                        assert(s2[a] == s1[b]);
                        assert(crate::flow_identifier::network_key(s2[a].0) == k2);
                    }
                    assert(final(self).network_wf());
                }
                Some(count)
            },
        }
    }

    /// Pop the oldest in-progress fragment buffer only if its first
    /// fragment arrived strictly more than `time_delta` microseconds
    /// before the eviction clock. A gap exactly equal to the threshold
    /// does not evict.
    pub fn pop_oldest_network_flow_if_older_than(&mut self, time_delta: i64) -> (r: Option<u32>)
        requires
            old(self).wf(),
        ensures
            final(self).wf(),
            final(self).transport_view() == old(self).transport_view(),
            final(self).spec_latest_time() == old(self).spec_latest_time(),
            match r {
                None => {
                    &&& final(self).network_view() == old(self).network_view()
                    &&& !(old(self).spec_latest_time() matches Some(lt)
                        && exists|i: int| 0 <= i < old(self).network_view().len()
                            && lt - (#[trigger] old(self).network_view()[i]).1.first_time
                                > time_delta)
                },
                Some(n) => {
                    &&& exists|i: int| 0 <= i < old(self).network_view().len()
                        && n == (#[trigger] old(self).network_view()[i]).1
                            .total_fragments_received_count
                        && final(self).network_view() == old(self).network_view().remove(i)
                        && oldest_network_time(
                            old(self).network_view(),
                            old(self).network_view()[i].1.first_time as int,
                        )
                        && (old(self).spec_latest_time() matches Some(lt)
                            && lt - old(self).network_view()[i].1.first_time > time_delta)
                },
            },
    {
        let latest = match self.latest_time {
            None => {
                return None;
            },
            Some(lt) => lt,
        };
        let oldest = match self.get_oldest_time_network_fragment() {
            None => {
                return None;
            },
            Some(t) => t,
        };
        let gap: i128 = (latest as i128) - (oldest as i128);
        if (time_delta as i128) < gap {
            let r = self.pop_oldest_network_flow();
            proof {
                assert(r is Some);
                // the popped buffer's first-fragment time is the minimal
                // one the gap was measured against
                let i = choose|i: int| 0 <= i < old(self).network_view().len()
                    && r->Some_0 == (#[trigger] old(self).network_view()[i]).1
                        .total_fragments_received_count
                    && self.network_view() == old(self).network_view().remove(i)
                    && oldest_network_time(
                        old(self).network_view(),
                        old(self).network_view()[i].1.first_time as int,
                    );
                let j = choose|j: int| 0 <= j < old(self).network_view().len()
                    && (#[trigger] old(self).network_view()[j]).1.first_time == oldest
                    && oldest_network_time(old(self).network_view(), oldest as int);
                assert(old(self).network_view()[i].1.first_time == oldest);
            }
            r
        } else {
            proof {
                assert forall|i: int| 0 <= i < self.network_view().len()
                    implies !(latest - (#[trigger] self.network_view()[i]).1.first_time
                        > time_delta) by {
                    assert(oldest as int <= self.network_view()[i].1.first_time);
                }
            }
            None
        }
    }

    /// Fold one IPv4 fragment into the buffer of its network flow: a
    /// first fragment opens a buffer, a later one is inserted by offset.
    /// When the fragment completes its datagram, the buffer leaves both
    /// store and queue and the reassembled payload is returned with the
    /// reassembly report. The transport side and the clock are untouched.
    pub fn store_fragment(
        &mut self,
        network_flow_identifier: NetworkFlowIdentifier,
        meta: &PacketMeta,
        ip_payload: Vec<u8>,
        fragmentation_offset: u16,
        more_packets: bool,
    ) -> (r: Option<(Vec<u8>, FragmentReasemblyInformation)>)
        requires
            old(self).wf(),
            fragmentation_offset <= 0x1fff,
            ip_payload@.len() <= crate::packet_flow::MAX_FRAGMENT_PAYLOAD,
        ensures
            final(self).wf(),
            final(self).transport_view() == old(self).transport_view(),
            final(self).spec_latest_time() == old(self).spec_latest_time(),
            final(self).network_view() == stored_fragment(
                old(self).network_view(),
                network_flow_identifier,
                *meta,
                ip_payload@,
                fragmentation_offset,
                more_packets,
            ).0,
            match r {
                None => stored_fragment(
                    old(self).network_view(),
                    network_flow_identifier,
                    *meta,
                    ip_payload@,
                    fragmentation_offset,
                    more_packets,
                ).1 is None,
                Some((bytes, info)) => {
                    let completed = stored_fragment(
                        old(self).network_view(),
                        network_flow_identifier,
                        *meta,
                        ip_payload@,
                        fragmentation_offset,
                        more_packets,
                    ).1;
                    &&& completed matches Some(f2)
                        && bytes@ == crate::packet_flow::assembled(
                            f2.frags,
                            f2.frags.len() as int,
                            f2.expected_size->Some_0 as int,
                        )
                        && info == f2.report()
                    &&& info.different_offset_fragment_received_count
                        <= info.total_fragments_received_count
                },
            },
    {
        let ghost s1 = self.network_fragment_flows@;
        let ghost oldv = self.network_view();
        let key = network_flow_identifier.key();
        match self.find_network(&network_flow_identifier) {
            None => {
                let flow = NetworkFragmentFlow::from(
                    meta,
                    ip_payload,
                    fragmentation_offset,
                    more_packets,
                );
                queue_insert(&mut self.network_fragment_flows_queue, key, flow.first_time);
                self.network_fragment_flows.push((network_flow_identifier, flow));
                proof {
                    let s2 = self.network_fragment_flows@;
                    let q1 = queue_entries(old(self).network_fragment_flows_queue);
                    let q2 = queue_entries(self.network_fragment_flows_queue);
                    assert(flow.view() =~= NetworkFragmentFlowView::initial(
                        *meta,
                        ip_payload@,
                        fragmentation_offset,
                        more_packets,
                    ));
                    assert(self.network_view() =~= oldv.push((network_flow_identifier, flow.view())));
                    assert forall|a: int| 0 <= a < s1.len()
                        implies (#[trigger] s1[a]).0 != network_flow_identifier by {
                        assert(oldv[a].0 == s1[a].0);
                    }
                    assert forall|a: int, b: int| 0 <= a < b < s2.len()
                        implies (#[trigger] s2[a]).0 != (#[trigger] s2[b]).0 by {
                        if b < s2.len() - 1 {
                            assert(s2[a] == s1[a] && s2[b] == s1[b]);
                        } else {
                            assert(s2[a] == s1[a]);
                        }
                    }
                    assert forall|a: int| 0 <= a < s2.len() implies (#[trigger] s2[a]).1.wf()
                        && q2.dom().contains(crate::flow_identifier::network_key(s2[a].0))
                        && q2[crate::flow_identifier::network_key(s2[a].0)]
                            == s2[a].1.first_time by {
                        if a == s2.len() - 1 {
                            assert(s2[a] == (network_flow_identifier, flow));
                        } else {
                            assert(s2[a] == s1[a]);
                            if crate::flow_identifier::network_key(s1[a].0) == key {
                                crate::flow_identifier::lemma_network_key_injective(
                                    s1[a].0,
                                    network_flow_identifier,
                                );
                                assert(false);
                            }
                        }
                    }
                    assert forall|k2: (u128, u128, u64, u64, u64)| q2.dom().contains(k2)
                        implies exists|a: int| 0 <= a < s2.len()
                            && crate::flow_identifier::network_key((#[trigger] s2[a]).0)
                                == k2 by {
                        if k2 == key {
                            assert(crate::flow_identifier::network_key(
                                s2[s2.len() - 1].0,
                            ) == k2);
                        } else {
                            assert(q1.dom().contains(k2));
                            let a = choose|a: int| 0 <= a < s1.len()
                                && crate::flow_identifier::network_key((#[trigger] s1[a]).0)
                                    == k2;
                            assert(s2[a] == s1[a]);
                            assert(crate::flow_identifier::network_key(s2[a].0) == k2);
                        }
                    }
                    assert(final(self).network_wf());
                }
                None
            },
            Some(index) => {
                let ghost j = network_index(oldv, network_flow_identifier);
                proof {
                    assert(has_network_id(oldv, network_flow_identifier));
                    assert(0 <= j < oldv.len() && oldv[j].0 == network_flow_identifier);
                    if index as int != j {
                        assert(oldv[j].0 == s1[j].0);
                        assert(oldv[index as int].0 == s1[index as int].0);
                        assert(false);
                    }
                }
                let ghost i = index as int;
                let entry = self.network_fragment_flows.remove(index);
                let (entry_id, mut flow) = entry;
                proof {
                    assert((entry_id, flow) == s1[i]);
                    assert(flow.view() == oldv[i].1);
                }
                flow.accumulate(meta, ip_payload, fragmentation_offset, more_packets);
                let ghost f2 = oldv[i].1.accumulated(
                    *meta,
                    ip_payload@,
                    fragmentation_offset,
                    more_packets,
                );
                proof {
                    assert(flow.view() =~= f2);
                }
                if flow.is_complete() {
                    let removed = queue_remove(&mut self.network_fragment_flows_queue, key);
                    let result = flow.try_reasemble();
                    match result {
                        Some((bytes, info)) => {
                            proof {
                                let s2 = self.network_fragment_flows@;
                                let q1 = queue_entries(old(self).network_fragment_flows_queue);
                                let q2 = queue_entries(self.network_fragment_flows_queue);
                                assert(s2 =~= s1.remove(i));
                                assert(self.network_view() =~= oldv.remove(i));
                                assert(removed) by {
                                    assert(q1.dom().contains(
                                        crate::flow_identifier::network_key(s1[i].0),
                                    ));
                                }
                                assert(f2.complete());
                                assert(info == f2.report());
                                assert forall|a: int, b: int| 0 <= a < b < s2.len()
                                    implies (#[trigger] s2[a]).0 != (#[trigger] s2[b]).0 by {
                                    assert(s2[a] == if a < i { s1[a] } else { s1[a + 1] });
                                    assert(s2[b] == if b < i { s1[b] } else { s1[b + 1] });
                                }
                                assert forall|a: int| 0 <= a < s2.len()
                                    implies (#[trigger] s2[a]).1.wf()
                                        && q2.dom().contains(
                                            crate::flow_identifier::network_key(s2[a].0),
                                        )
                                        && q2[crate::flow_identifier::network_key(s2[a].0)]
                                            == s2[a].1.first_time by {
                                    let b = if a < i { a } else { a + 1 };
                                    assert(s2[a] == s1[b]);
                                    if crate::flow_identifier::network_key(s1[b].0) == key {
                                        crate::flow_identifier::lemma_network_key_injective(
                                            s1[b].0,
                                            entry_id,
                                        );
                                        assert(false);
                                    }
                                    assert(q1.dom().contains(
                                        crate::flow_identifier::network_key(s1[b].0),
                                    ));
                                }
                                assert forall|k2: (u128, u128, u64, u64, u64)|
                                    q2.dom().contains(k2)
                                    implies exists|a: int| 0 <= a < s2.len()
                                        && crate::flow_identifier::network_key(
                                            (#[trigger] s2[a]).0,
                                        ) == k2 by {
                                    assert(q1.dom().contains(k2) && k2 != key);
                                    let b = choose|b: int| 0 <= b < s1.len()
                                        && crate::flow_identifier::network_key(
                                            (#[trigger] s1[b]).0,
                                        ) == k2;
                                    if b == i {
                                        assert(false);
                                    }
                                    let a = if b < i { b } else { b - 1 };
                                    assert(s2[a] == s1[b]);
                                    assert(crate::flow_identifier::network_key(s2[a].0) == k2);
                                }
                                assert(final(self).network_wf());
                            }
                            Some((bytes, info))
                        },
                        None => {
                            proof {
                                assert(false);
                            }
                            None
                        },
                    }
                } else {
                    self.network_fragment_flows.insert(index, (entry_id, flow));
                    proof {
                        let s2 = self.network_fragment_flows@;
                        let q1 = queue_entries(old(self).network_fragment_flows_queue);
                        let q2 = queue_entries(self.network_fragment_flows_queue);
                        assert(q2 == q1);
                        assert(s2 =~= s1.update(i, (entry_id, flow)));
                        assert(self.network_view() =~= oldv.update(i, (entry_id, f2)));
                        assert(!f2.complete());
                        assert(flow.first_time == s1[i].1.first_time);
                        assert forall|a: int, b: int| 0 <= a < b < s2.len()
                            implies (#[trigger] s2[a]).0 != (#[trigger] s2[b]).0 by {
                            assert(s2[a].0 == s1[a].0);
                            assert(s2[b].0 == s1[b].0);
                        }
                        assert forall|a: int| 0 <= a < s2.len()
                            implies (#[trigger] s2[a]).1.wf()
                                && q2.dom().contains(
                                    crate::flow_identifier::network_key(s2[a].0),
                                )
                                && q2[crate::flow_identifier::network_key(s2[a].0)]
                                    == s2[a].1.first_time by {
                            if a != i {
                                assert(s2[a] == s1[a]);
                            }
                        }
                        assert forall|k2: (u128, u128, u64, u64, u64)| q2.dom().contains(k2)
                            implies exists|a: int| 0 <= a < s2.len()
                                && crate::flow_identifier::network_key((#[trigger] s2[a]).0)
                                    == k2 by {
                            let a = choose|a: int| 0 <= a < s1.len()
                                && crate::flow_identifier::network_key((#[trigger] s1[a]).0)
                                    == k2;
                            assert(crate::flow_identifier::network_key(s2[a].0) == k2);
                        }
                        assert(final(self).network_wf());
                    }
                    None
                }
            },
        }
    }

    /// Route one decoded packet into the group: the eviction clock
    /// advances to the packet's time unconditionally; a packet with a
    /// transport identifier updates or opens its transport flow; an IPv4
    /// fragment goes to its reassembly buffer, and completing one hands
    /// back the reassembled payload with the original header's
    /// addressing, for the caller to re-decode. A packet that yields no
    /// identifier reports why and changes no flow.
    pub fn accumulate_parsed(&mut self, meta: &PacketMeta, packet: ParsedPacket) -> (r: Result<
        PacketOutcome,
        ParseError,
    >)
        requires
            old(self).wf(),
            packet.wf(),
        ensures
            final(self).wf(),
            final(self).spec_latest_time() == Some(meta.time_us),
            match spec_flow_identifier(packet) {
                Err(e) => r == Err::<PacketOutcome, ParseError>(e)
                    && final(self).transport_view() == old(self).transport_view()
                    && final(self).network_view() == old(self).network_view(),
                Ok((FlowIdentifier::TransportFlowIdentifier(id), _)) => r == Ok::<
                    PacketOutcome,
                    ParseError,
                >(PacketOutcome::Counted(1, 0))
                    && final(self).transport_view() == stored_transport(
                        old(self).transport_view(),
                        id,
                        *meta,
                        packet,
                        None,
                    )
                    && final(self).network_view() == old(self).network_view(),
                Ok((FlowIdentifier::NetworkFlowIdentifier(nid), frag)) => match frag {
                    FragmentationInformation::NoFragmentation => r == Err::<
                        PacketOutcome,
                        ParseError,
                    >(ParseError::MissingTransportLayer)
                        && final(self).transport_view() == old(self).transport_view()
                        && final(self).network_view() == old(self).network_view(),
                    FragmentationInformation::FragmentedIpv4Packet {
                        fragmentation_offset,
                        more_packets,
                    } => {
                        let payload = packet.net->Some_0->V4_payload@;
                        let sf = stored_fragment(
                            old(self).network_view(),
                            nid,
                            *meta,
                            payload,
                            fragmentation_offset,
                            more_packets,
                        );
                        &&& final(self).transport_view() == old(self).transport_view()
                        &&& final(self).network_view() == sf.0
                        &&& match r {
                            Ok(PacketOutcome::Counted(v, d)) => sf.1 is None && v == 0 && d == 0,
                            Ok(PacketOutcome::Reassembled {
                                payload: bytes,
                                reasembly_information: info,
                                source,
                                dest,
                                ttl,
                                protocol,
                            }) => {
                                &&& sf.1 matches Some(f2)
                                    && bytes@ == crate::packet_flow::assembled(
                                        f2.frags,
                                        f2.frags.len() as int,
                                        f2.expected_size->Some_0 as int,
                                    )
                                    && info == f2.report()
                                &&& info.different_offset_fragment_received_count
                                    <= info.total_fragments_received_count
                                &&& source == packet.net->Some_0->V4_source
                                &&& dest == packet.net->Some_0->V4_dest
                                &&& ttl == packet.net->Some_0->V4_ttl
                                &&& protocol == packet.net->Some_0->V4_protocol
                            },
                            Err(_) => false,
                        }
                    },
                },
            },
    {
        self.latest_time = Some(meta.time_us);
        let identification = FlowIdentifier::from_sliced_packet(&packet);
        match identification {
            Err(e) => Err(e),
            Ok((FlowIdentifier::TransportFlowIdentifier(id), _)) => {
                self.store_transport_flow(id, meta, &packet, None);
                Ok(PacketOutcome::Counted(1, 0))
            },
            Ok((FlowIdentifier::NetworkFlowIdentifier(_), FragmentationInformation::NoFragmentation)) => {
                Err(ParseError::MissingTransportLayer)
            },
            Ok(
                (
                    FlowIdentifier::NetworkFlowIdentifier(nid),
                    FragmentationInformation::FragmentedIpv4Packet {
                        fragmentation_offset,
                        more_packets,
                    },
                ),
            ) => {
                match packet.net {
                    Some(NetLayer::V4 { source, dest, protocol, ttl, payload, .. }) => {
                        match self.store_fragment(
                            nid,
                            meta,
                            payload,
                            fragmentation_offset,
                            more_packets,
                        ) {
                            None => Ok(PacketOutcome::Counted(0, 0)),
                            Some((bytes, info)) => Ok(
                                PacketOutcome::Reassembled {
                                    payload: bytes,
                                    reasembly_information: info,
                                    source,
                                    dest,
                                    ttl,
                                    protocol,
                                },
                            ),
                        }
                    },
                    _ => {
                        proof {
                            assert(false);
                        }
                        Err(ParseError::MissingNetworkLayer)
                    },
                }
            },
        }
    }

    /// Attribute a reassembled, re-decoded datagram to its transport
    /// flow, carrying the reassembly report into the statistics. Returns
    /// the valid and discarded fragment counts: valid is the number of
    /// distinct offsets that fed the buffer, discarded the rest of the
    /// received fragments. A datagram that yields no transport identifier
    /// reports why; its fragments are already gone either way.
    pub fn accumulate_reassembled(
        &mut self,
        meta: &PacketMeta,
        packet: ParsedPacket,
        reasembly_information: &FragmentReasemblyInformation,
    ) -> (r: Result<(u32, u32), ParseError>)
        requires
            old(self).wf(),
            reasembly_information.different_offset_fragment_received_count
                <= reasembly_information.total_fragments_received_count,
        ensures
            final(self).wf(),
            final(self).network_view() == old(self).network_view(),
            final(self).spec_latest_time() == old(self).spec_latest_time(),
            match spec_flow_identifier(packet) {
                Ok((FlowIdentifier::TransportFlowIdentifier(id), _)) => {
                    &&& r == Ok::<(u32, u32), ParseError>(
                        (
                            reasembly_information.different_offset_fragment_received_count,
                            (reasembly_information.total_fragments_received_count
                                - reasembly_information.different_offset_fragment_received_count) as u32,
                        ),
                    )
                    &&& final(self).transport_view() == stored_transport(
                        old(self).transport_view(),
                        id,
                        *meta,
                        packet,
                        Some(*reasembly_information),
                    )
                },
                Ok((FlowIdentifier::NetworkFlowIdentifier(_), _)) => r == Err::<
                    (u32, u32),
                    ParseError,
                >(ParseError::MissingTransportLayer)
                    && final(self).transport_view() == old(self).transport_view(),
                Err(e) => r == Err::<(u32, u32), ParseError>(e)
                    && final(self).transport_view() == old(self).transport_view(),
            },
    {
        match FlowIdentifier::from_sliced_packet(&packet) {
            Err(e) => Err(e),
            Ok((FlowIdentifier::NetworkFlowIdentifier(_), _)) => {
                Err(ParseError::MissingTransportLayer)
            },
            Ok((FlowIdentifier::TransportFlowIdentifier(id), _)) => {
                self.store_transport_flow(id, meta, &packet, Some(reasembly_information));
                let valid = reasembly_information.different_offset_fragment_received_count;
                let discarded = reasembly_information.total_fragments_received_count - valid;
                Ok((valid, discarded))
            },
        }
    }

    /// Feed one captured frame into the group: the eviction clock
    /// advances to the frame's time even when decoding fails. On success
    /// the returned pair counts the packets made valid and discarded by
    /// this frame: `(1, 0)` for an ordinary packet, `(0, 0)` for a
    /// buffered fragment, and the distinct-offset and discarded fragment
    /// counts when this frame completed a reassembly. The reassembled
    /// datagram is rebuilt from the triggering fragment's network header
    /// and re-decoded; if the re-decode fails, the error carries the
    /// count of the fragments lost with it.
    pub fn accumulate(&mut self, link_type: i32, meta: &PacketMeta, data: &[u8]) -> (r: Result<
        (u32, u32),
        ParseError,
    >)
        requires
            old(self).wf(),
        ensures
            final(self).wf(),
            final(self).spec_latest_time() == Some(meta.time_us),
            (link_type != crate::packet_parse::LINKTYPE_ETHERNET
                && link_type != crate::packet_parse::LINKTYPE_LINUX_SLL) <==> r == Err::<
                (u32, u32),
                ParseError,
            >(ParseError::UnsupportedLinkType),
            r == Err::<(u32, u32), ParseError>(ParseError::UnsupportedLinkType)
                ==> final(self).transport_view() == old(self).transport_view()
                    && final(self).network_view() == old(self).network_view(),
            link_type == crate::packet_parse::LINKTYPE_ETHERNET ==> match crate::packet_parse::decoded_ethernet(
                data@,
            ) {
                Err(e) => (r matches Err(ParseError::ErrorOnSlicingPacket(d)) && d@ == e)
                    && final(self).transport_view() == old(self).transport_view()
                    && final(self).network_view() == old(self).network_view(),
                Ok(p) => accumulate_post(
                    old(self).transport_view(),
                    old(self).network_view(),
                    final(self).transport_view(),
                    final(self).network_view(),
                    *meta,
                    p,
                    r,
                ),
            },
            link_type == crate::packet_parse::LINKTYPE_LINUX_SLL ==> match crate::packet_parse::decoded_linux_sll(
                data@,
            ) {
                Err(e) => (r matches Err(ParseError::ErrorOnSlicingPacket(d)) && d@ == e)
                    && final(self).transport_view() == old(self).transport_view()
                    && final(self).network_view() == old(self).network_view(),
                Ok(p) => accumulate_post(
                    old(self).transport_view(),
                    old(self).network_view(),
                    final(self).transport_view(),
                    final(self).network_view(),
                    *meta,
                    p,
                    r,
                ),
            },
    {
        self.latest_time = Some(meta.time_us);
        let packet = match crate::packet_parse::try_parse_packet(link_type, data) {
            Ok(p) => p,
            Err(e) => {
                return Err(e);
            },
        };
        match self.accumulate_parsed(meta, packet) {
            Err(e) => {
                proof {
                    crate::packet_parse::lemma_flow_identifier_errors(packet);
                }
                Err(e)
            },
            Ok(PacketOutcome::Counted(valid, discarded)) => Ok((valid, discarded)),
            Ok(
                PacketOutcome::Reassembled {
                    payload,
                    reasembly_information,
                    source,
                    dest,
                    ttl,
                    protocol,
                },
            ) => {
                let built = crate::packet_parse::build_ipv4_packet(
                    source,
                    dest,
                    ttl,
                    protocol,
                    payload.as_slice(),
                );
                match built {
                    Err(error) => Err(
                        ParseError::ErrorOnSlicingReassembledPacket {
                            error,
                            invalid_fragments:
                                reasembly_information.total_fragments_received_count,
                        },
                    ),
                    Ok(bytes) => {
                        match crate::packet_parse::try_parse_ip_datagram(bytes.as_slice()) {
                            Err(error) => Err(
                                ParseError::ErrorOnSlicingReassembledPacket {
                                    error,
                                    invalid_fragments:
                                        reasembly_information.total_fragments_received_count,
                                },
                            ),
                            Ok(packet2) => self.accumulate_reassembled(
                                meta,
                                packet2,
                                &reasembly_information,
                            ),
                        }
                    },
                }
            },
        }
    }

    /// The index of the fragment buffer whose identifier has this key, if
    /// any.
    fn find_network_by_key(&self, key: (u128, u128, u64, u64, u64)) -> (r: Option<usize>)
        ensures
            match r {
                Some(i) => i < self.network_view().len()
                    && crate::flow_identifier::network_key(self.network_view()[i as int].0)
                        == key,
                None => forall|j: int| 0 <= j < self.network_view().len()
                    ==> crate::flow_identifier::network_key(
                        (#[trigger] self.network_view()[j]).0,
                    ) != key,
            },
    {
        let n = self.network_fragment_flows.len();
        let mut i: usize = 0;
        while i < n
            invariant
                0 <= i <= n,
                n == self.network_fragment_flows@.len(),
                forall|j: int| 0 <= j < i
                    ==> crate::flow_identifier::network_key(
                        (#[trigger] self.network_fragment_flows@[j]).0,
                    ) != key,
            decreases n - i,
        {
            let k2 = self.network_fragment_flows[i].0.key();
            if k2.0 == key.0 && k2.1 == key.1 && k2.2 == key.2 && k2.3 == key.3 && k2.4 == key.4 {
                proof {
                    assert(self.network_view()[i as int].0
                        == self.network_fragment_flows@[i as int].0);
                }
                return Some(i);
            }
            i = i + 1;
        }
        proof {
            assert forall|j: int| 0 <= j < self.network_view().len()
                implies crate::flow_identifier::network_key(
                    (#[trigger] self.network_view()[j]).0,
                ) != key by {
                assert(self.network_view()[j].0 == self.network_fragment_flows@[j].0);
            }
        }
        None
    }
}

/// The fragment store after folding in one fragment for `id`, together
/// with the completed buffer when this fragment finishes its datagram: a
/// first fragment opens a new buffer; a later one updates the live
/// buffer, which leaves the store once complete.
pub open spec fn stored_fragment(
    s: Seq<(NetworkFlowIdentifier, NetworkFragmentFlowView)>,
    id: NetworkFlowIdentifier,
    meta: PacketMeta,
    payload: Seq<u8>,
    fragmentation_offset: u16,
    more_packets: bool,
) -> (Seq<(NetworkFlowIdentifier, NetworkFragmentFlowView)>, Option<NetworkFragmentFlowView>) {
    if !has_network_id(s, id) {
        (
            s.push(
                (id, NetworkFragmentFlowView::initial(meta, payload, fragmentation_offset, more_packets)),
            ),
            None,
        )
    } else {
        let i = network_index(s, id);
        let f2 = s[i].1.accumulated(meta, payload, fragmentation_offset, more_packets);
        if f2.complete() {
            (s.remove(i), Some(f2))
        } else {
            (s.update(i, (id, f2)), None)
        }
    }
}

/// How the transport store changes, and what comes back, once a packet
/// completes the reassembly of buffer `f2`: the datagram is rebuilt from
/// the triggering fragment's network header fields around the assembled
/// payload and re-decoded. A datagram with a transport identifier updates
/// its flow and the valid/discarded fragment counts come back; a build or
/// re-decode failure is reported as `ErrorOnSlicingReassembledPacket`
/// carrying the decoder's detail and the report's total fragment count —
/// the one path where a successful reassembly is still an error — and a
/// datagram without a usable identifier reports why. In every failure the
/// transport store is unchanged; the fragments are gone either way.
pub open spec fn reassembly_post(
    tv0: Seq<TransportFlowView>,
    tv1: Seq<TransportFlowView>,
    meta: PacketMeta,
    packet: ParsedPacket,
    f2: NetworkFragmentFlowView,
    r: Result<(u32, u32), ParseError>,
) -> bool {
    let info = f2.report();
    let bytes = crate::packet_flow::assembled(
        f2.frags,
        f2.frags.len() as int,
        f2.expected_size->Some_0 as int,
    );
    let net = packet.net->Some_0;
    match crate::packet_parse::built_ipv4(
        net->V4_source,
        net->V4_dest,
        net->V4_ttl,
        net->V4_protocol,
        bytes,
    ) {
        Err(be) => tv1 == tv0 && (r matches Err(
            ParseError::ErrorOnSlicingReassembledPacket { error, invalid_fragments },
        ) && error@ == be && invalid_fragments == info.total_fragments_received_count),
        Ok(datagram) => match crate::packet_parse::decoded_ip(datagram) {
            Err(de) => tv1 == tv0 && (r matches Err(
                ParseError::ErrorOnSlicingReassembledPacket { error, invalid_fragments },
            ) && error@ == de && invalid_fragments == info.total_fragments_received_count),
            Ok(p2) => match spec_flow_identifier(p2) {
                Ok((FlowIdentifier::TransportFlowIdentifier(id2), _)) => {
                    &&& r == Ok::<(u32, u32), ParseError>(
                        (
                            info.different_offset_fragment_received_count,
                            (info.total_fragments_received_count
                                - info.different_offset_fragment_received_count) as u32,
                        ),
                    )
                    &&& tv1 == stored_transport(tv0, id2, meta, p2, Some(info))
                },
                Ok((FlowIdentifier::NetworkFlowIdentifier(_), _)) => r == Err::<
                    (u32, u32),
                    ParseError,
                >(ParseError::MissingTransportLayer) && tv1 == tv0,
                Err(e2) => r == Err::<(u32, u32), ParseError>(e2) && tv1 == tv0,
            },
        },
    }
}

/// What feeding one decoded packet through the whole pipeline does to the
/// group: the identifier decides as in `spec_flow_identifier`; a
/// transport packet updates its flow and counts `(1, 0)`; a buffered
/// fragment counts `(0, 0)`; a fragment that completes its datagram goes
/// on as `reassembly_post` says.
pub open spec fn accumulate_post(
    tv0: Seq<TransportFlowView>,
    nv0: Seq<(NetworkFlowIdentifier, NetworkFragmentFlowView)>,
    tv1: Seq<TransportFlowView>,
    nv1: Seq<(NetworkFlowIdentifier, NetworkFragmentFlowView)>,
    meta: PacketMeta,
    packet: ParsedPacket,
    r: Result<(u32, u32), ParseError>,
) -> bool {
    match spec_flow_identifier(packet) {
        Err(e) => r == Err::<(u32, u32), ParseError>(e) && tv1 == tv0 && nv1 == nv0,
        Ok((FlowIdentifier::TransportFlowIdentifier(id), _)) => {
            &&& r == Ok::<(u32, u32), ParseError>((1, 0))
            &&& tv1 == stored_transport(tv0, id, meta, packet, None)
            &&& nv1 == nv0
        },
        Ok((FlowIdentifier::NetworkFlowIdentifier(nid), frag)) => match frag {
            FragmentationInformation::NoFragmentation => r == Err::<(u32, u32), ParseError>(
                ParseError::MissingTransportLayer,
            ) && tv1 == tv0 && nv1 == nv0,
            FragmentationInformation::FragmentedIpv4Packet {
                fragmentation_offset,
                more_packets,
            } => {
                let payload = packet.net->Some_0->V4_payload@;
                let sf = stored_fragment(nv0, nid, meta, payload, fragmentation_offset, more_packets);
                &&& nv1 == sf.0
                &&& match sf.1 {
                    None => r == Ok::<(u32, u32), ParseError>((0, 0)) && tv1 == tv0,
                    Some(f2) => reassembly_post(tv0, tv1, meta, packet, f2, r),
                }
            },
        },
    }
}

/// `t` is at most every live transport flow's last-packet time.
pub open spec fn oldest_transport_time(s: Seq<TransportFlowView>, t: int) -> bool {
    forall|j: int| 0 <= j < s.len()
        ==> t <= (#[trigger] s[j]).statistics.flow_times.last_packet_time
}

/// `t` is at most every in-progress fragment buffer's first-fragment
/// time.
pub open spec fn oldest_network_time(
    s: Seq<(NetworkFlowIdentifier, NetworkFragmentFlowView)>,
    t: int,
) -> bool {
    forall|j: int| 0 <= j < s.len() ==> t <= (#[trigger] s[j]).1.first_time
}

} // verus!
