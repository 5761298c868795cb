//! Fragment reassembly buffers and transport flows.

use vstd::prelude::*;

use crate::flow_identifier::TransportFlowIdentifier;
use crate::flow_statistics::FlowStatistics;
use crate::flow_statistics::FlowStatisticsView;
use crate::flow_times::option_deref;
use crate::packet_model::PacketMeta;
use crate::packet_model::ParsedPacket;
use crate::running_stat::capped;
use crate::util::sat_add_u32;

verus! {

/// The greatest byte offset a fragment can have: the 13-bit wire field
/// times eight.
pub const MAX_FRAGMENT_OFFSET_BYTES: u16 = 65528;

/// The greatest payload length of a single IPv4 fragment, bounded by the
/// 16-bit total-length header field.
pub const MAX_FRAGMENT_PAYLOAD: u32 = 65535;

/// What a completed reassembly reports about the fragments that fed it.
#[derive(Clone, Copy, Debug, PartialEq, Eq, Structural)]
pub struct FragmentReasemblyInformation {
    /// The first time a fragment of the datagram was received.
    pub first_time: i64,
    /// The last time a fragment of the datagram was received.
    pub last_time: i64,
    /// The number of distinct fragment offsets received.
    pub different_offset_fragment_received_count: u32,
    /// The total number of fragments received, duplicates included.
    pub total_fragments_received_count: u32,
    /// The IP-layer size of the reassembled datagram payload.
    pub reasembled_ip_packet_length: u32,
    /// All bytes received for the datagram, link headers included.
    pub total_bytes_received_count: u32,
}

/// The buffered fragments, sorted strictly by byte offset: at most one
/// entry per offset.
pub open spec fn frags_sorted(s: Seq<(u16, Seq<u8>)>) -> bool {
    forall|i: int, j: int| 0 <= i < j < s.len() ==> s[i].0 < s[j].0
}

/// Every buffered fragment respects the wire-format bounds.
pub open spec fn frags_bounded(s: Seq<(u16, Seq<u8>)>) -> bool {
    forall|i: int| 0 <= i < s.len()
        ==> (#[trigger] s[i]).0 <= MAX_FRAGMENT_OFFSET_BYTES
            && s[i].1.len() <= MAX_FRAGMENT_PAYLOAD
}

/// A sorted buffer after inserting a fragment at `off`: an entry already
/// at `off` is overwritten (last write wins), otherwise the new entry goes
/// in front of the first larger offset.
pub open spec fn insert_fragment(
    s: Seq<(u16, Seq<u8>)>,
    off: u16,
    data: Seq<u8>,
) -> Seq<(u16, Seq<u8>)>
    decreases s.len(),
{
    if s.len() == 0 {
        seq![(off, data)]
    } else if s[0].0 < off {
        seq![s[0]] + insert_fragment(s.drop_first(), off, data)
    } else if s[0].0 == off {
        seq![(off, data)] + s.drop_first()
    } else {
        seq![(off, data)] + s
    }
}

/// Inserting at an offset already present overwrites that entry in place.
proof fn lemma_insert_replace(s: Seq<(u16, Seq<u8>)>, off: u16, data: Seq<u8>, p: int)
    requires
        frags_sorted(s),
        0 <= p < s.len(),
        s[p].0 == off,
    ensures
        insert_fragment(s, off, data) =~= s.update(p, (off, data)),
    decreases s.len(),
{
    if p == 0 {
        assert(insert_fragment(s, off, data) =~= s.update(0, (off, data)));
    } else {
        assert(s[0].0 < s[p].0);
        lemma_insert_replace(s.drop_first(), off, data, p - 1);
        assert(insert_fragment(s, off, data)
            =~= seq![s[0]] + s.drop_first().update(p - 1, (off, data)));
    }
}

/// Inserting at a fresh offset splices the new entry in at the position
/// `p` that keeps the buffer sorted.
proof fn lemma_insert_new(s: Seq<(u16, Seq<u8>)>, off: u16, data: Seq<u8>, p: int)
    requires
        frags_sorted(s),
        0 <= p <= s.len(),
        forall|i: int| 0 <= i < p ==> (#[trigger] s[i]).0 < off,
        forall|i: int| p <= i < s.len() ==> (#[trigger] s[i]).0 > off,
    ensures
        insert_fragment(s, off, data)
            =~= s.subrange(0, p) + seq![(off, data)] + s.subrange(p, s.len() as int),
    decreases s.len(),
{
    if s.len() == 0 {
    } else if p == 0 {
        assert(s[0].0 > off);
        assert(insert_fragment(s, off, data) =~= seq![(off, data)] + s);
        assert(s.subrange(0, 0) + seq![(off, data)] + s.subrange(0, s.len() as int)
            =~= seq![(off, data)] + s);
    } else {
        assert(s[0].0 < off);
        lemma_insert_new(s.drop_first(), off, data, p - 1);
        assert(s.drop_first().subrange(0, p - 1) =~= s.subrange(1, p));
        assert(s.drop_first().subrange(p - 1, s.drop_first().len() as int)
            =~= s.subrange(p, s.len() as int));
        assert(insert_fragment(s, off, data)
            =~= seq![s[0]] + (s.subrange(1, p) + seq![(off, data)]
                + s.subrange(p, s.len() as int)));
        assert(seq![s[0]] + s.subrange(1, p) =~= s.subrange(0, p));
    }
}

/// Inserting preserves sortedness and the wire-format bounds, and grows
/// the buffer by at most one entry.
proof fn lemma_insert_preserves(s: Seq<(u16, Seq<u8>)>, off: u16, data: Seq<u8>)
    requires
        frags_sorted(s),
        frags_bounded(s),
        off <= MAX_FRAGMENT_OFFSET_BYTES,
        data.len() <= MAX_FRAGMENT_PAYLOAD,
    ensures
        frags_sorted(insert_fragment(s, off, data)),
        frags_bounded(insert_fragment(s, off, data)),
        s.len() <= insert_fragment(s, off, data).len() <= s.len() + 1,
        exists|i: int|
            0 <= i < insert_fragment(s, off, data).len()
                && (#[trigger] insert_fragment(s, off, data)[i]) == (off, data),
        forall|i: int| 0 <= i < insert_fragment(s, off, data).len()
            ==> (#[trigger] insert_fragment(s, off, data)[i]) == (off, data)
                || s.contains(insert_fragment(s, off, data)[i]),
    decreases s.len(),
{
    let r = insert_fragment(s, off, data);
    if s.len() == 0 {
        assert(r[0] == (off, data));
    } else if s[0].0 < off {
        let t = s.drop_first();
        lemma_insert_preserves(t, off, data);
        let rt = insert_fragment(t, off, data);
        assert forall|x: (u16, Seq<u8>)| t.contains(x) implies s.contains(x) by {
            let k = choose|k: int| 0 <= k < t.len() && t[k] == x;
            assert(s[k + 1] == x);
        }
        assert forall|i: int| 0 <= i < rt.len() implies (#[trigger] rt[i]).0 > s[0].0 by {
            if rt[i] != (off, data) {
                let k = choose|k: int| 0 <= k < t.len() && t[k] == rt[i];
                assert(s[k + 1] == rt[i]);
                assert(s[0].0 < s[k + 1].0);
            }
        }
        assert forall|i: int, j: int| 0 <= i < j < r.len() implies r[i].0 < r[j].0 by {
            assert(r[j] == rt[j - 1]);
            if i == 0 {
                assert(r[0] == s[0]);
                assert(rt[j - 1].0 > s[0].0);
            } else {
                assert(r[i] == rt[i - 1]);
                assert(rt[i - 1].0 < rt[j - 1].0);
            }
        }
        assert forall|i: int| 0 <= i < r.len()
            implies (#[trigger] r[i]) == (off, data) || s.contains(r[i]) by {
            if i == 0 {
                assert(r[0] == s[0]);
                assert(s.contains(s[0]));
            } else {
                assert(r[i] == rt[i - 1]);
            }
        }
        assert(frags_bounded(r)) by {
            assert(forall|i: int| 1 <= i < r.len() ==> r[i] == (#[trigger] rt[i - 1]));
        }
        let w = choose|w: int| 0 <= w < rt.len() && (#[trigger] rt[w]) == (off, data);
        assert(r[w + 1] == (off, data));
    } else if s[0].0 == off {
        lemma_insert_replace(s, off, data, 0);
        assert(r =~= s.update(0, (off, data)));
        assert(r[0] == (off, data));
        assert forall|i: int| 0 <= i < r.len()
            implies (#[trigger] r[i]) == (off, data) || s.contains(r[i]) by {
            if i > 0 {
                assert(r[i] == s[i]);
                assert(s.contains(s[i]));
            }
        }
    } else {
        assert(r[0] == (off, data));
        assert forall|i: int| 0 <= i < r.len()
            implies (#[trigger] r[i]) == (off, data) || s.contains(r[i]) by {
            if i > 0 {
                assert(r[i] == s[i - 1]);
                assert(s.contains(s[i - 1]));
            }
        }
        assert forall|i: int, j: int| 0 <= i < j < r.len() implies r[i].0 < r[j].0 by {
            assert(r[j] == s[j - 1]);
            if i == 0 {
                assert(off < s[0].0);
                if j > 1 {
                    assert(s[0].0 < s[j - 1].0);
                }
            } else {
                assert(r[i] == s[i - 1]);
            }
        }
    }
}

/// A sorted buffer of strictly increasing 16-bit offsets can hold at most
/// 65536 entries: the offset at index `i` is at least `i`.
proof fn lemma_sorted_offset_lower(s: Seq<(u16, Seq<u8>)>, i: int)
    requires
        frags_sorted(s),
        0 <= i < s.len(),
    ensures
        s[i].0 >= i,
    decreases i,
{
    if i > 0 {
        lemma_sorted_offset_lower(s, i - 1);
    }
}

proof fn lemma_sorted_len(s: Seq<(u16, Seq<u8>)>)
    requires
        frags_sorted(s),
    ensures
        s.len() <= 65536,
{
    if s.len() > 65536 {
        lemma_sorted_offset_lower(s, 65536);
    }
}

/// The coverage cursor after walking the first `n` fragments: each step
/// moves the cursor to that fragment's end, `offset + length`.
pub open spec fn cursor_after(s: Seq<(u16, Seq<u8>)>, n: int) -> int
    decreases n,
{
    if n <= 0 {
        0
    } else {
        s[n - 1].0 + s[n - 1].1.len()
    }
}

/// No hole among the first `n` fragments: every fragment starts at or
/// before the cursor left by its predecessors.
pub open spec fn no_hole(s: Seq<(u16, Seq<u8>)>, n: int) -> bool
    decreases n,
{
    if n <= 0 {
        true
    } else {
        no_hole(s, n - 1) && s[n - 1].0 <= cursor_after(s, n - 1)
    }
}

/// A buffer of `size` zero bytes with the first `n` fragments pasted over
/// it in order, each at its offset, clipped to the buffer.
pub open spec fn assembled(s: Seq<(u16, Seq<u8>)>, n: int, size: int) -> Seq<u8>
    decreases n,
{
    if n <= 0 {
        Seq::new(size as nat, |k: int| 0u8)
    } else {
        paste(assembled(s, n - 1, size), s[n - 1].0 as int, s[n - 1].1)
    }
}

/// `data` written over `buf` starting at `off`, clipped to `buf`'s length.
pub open spec fn paste(buf: Seq<u8>, off: int, data: Seq<u8>) -> Seq<u8> {
    Seq::new(
        buf.len(),
        |k: int| if off <= k < off + data.len() {
            data[k - off]
        } else {
            buf[k]
        },
    )
}

/// The fragments of one not-yet-reassembled IPv4 datagram, keyed by a
/// network flow identifier, together with the timing and accounting that
/// reassembly reports.
pub struct NetworkFragmentFlow {
    /// The first time a fragment was received.
    pub first_time: i64,
    /// The last time a fragment was received.
    pub last_time: i64,
    /// The expected size of the reassembled payload, known once the
    /// terminal fragment (more-fragments clear) has been seen; set once
    /// and never revised.
    pub expected_size: Option<u32>,
    /// The fragments received, as (byte offset, payload) pairs, sorted and
    /// deduplicated by offset; a repeated offset keeps the later payload.
    pub fragments_data: Vec<(u16, Vec<u8>)>,
    /// The total count of fragments received, duplicates included;
    /// saturates.
    pub total_fragments_received_count: u32,
    /// The count of all received bytes, link headers included; saturates.
    pub total_bytes_received_count: u32,
}

impl NetworkFragmentFlow {
    /// The buffered fragments as a mathematical sequence of (offset,
    /// bytes) pairs.
    pub open spec fn frags(self) -> Seq<(u16, Seq<u8>)> {
        self.fragments_data@.map_values(|f: (u16, Vec<u8>)| (f.0, f.1@))
    }

    pub open spec fn wf(self) -> bool {
        &&& frags_sorted(self.frags())
        &&& frags_bounded(self.frags())
        &&& self.frags().len() >= 1
        &&& self.frags().len() <= self.total_fragments_received_count
        &&& match self.expected_size {
            Some(sz) => sz <= MAX_FRAGMENT_OFFSET_BYTES as int + MAX_FRAGMENT_PAYLOAD as int,
            None => true,
        }
    }

    /// Whether the buffered fragments cover the expected payload without a
    /// hole: the expected size is known, every fragment starts at or
    /// before the coverage cursor of its predecessors, and the final
    /// cursor reaches the expected size.
    pub open spec fn spec_is_complete(self) -> bool {
        match self.expected_size {
            None => false,
            Some(sz) => no_hole(self.frags(), self.frags().len() as int)
                && sz <= cursor_after(self.frags(), self.frags().len() as int),
        }
    }

    /// Create a buffer from the datagram's first seen fragment. The
    /// offset is the raw 13-bit wire field, in 8-octet units; the expected
    /// size becomes known only if this is the terminal fragment.
    pub fn from(
        meta: &PacketMeta,
        ip_payload: Vec<u8>,
        fragmentation_offset: u16,
        more_packets: bool,
    ) -> (r: NetworkFragmentFlow)
        requires
            fragmentation_offset <= 0x1fff,
            ip_payload.len() <= MAX_FRAGMENT_PAYLOAD,
        ensures
            r.wf(),
            r.first_time == meta.time_us,
            r.last_time == meta.time_us,
            r.frags() =~= seq![
                ((fragmentation_offset * 8) as u16, ip_payload@),
            ],
            r.expected_size == if more_packets {
                Option::<u32>::None
            } else {
                Some((fragmentation_offset * 8 + ip_payload@.len()) as u32)
            },
            r.total_fragments_received_count == 1,
            r.total_bytes_received_count == meta.captured_len,
    {
        let offset: u16 = fragmentation_offset * 8;
        let payload_len: u32 = ip_payload.len() as u32;
        let expected_size: Option<u32> = if more_packets {
            None
        } else {
            Some(offset as u32 + payload_len)
        };
        let mut fragments_data: Vec<(u16, Vec<u8>)> = Vec::new();
        fragments_data.push((offset, ip_payload));
        NetworkFragmentFlow {
            first_time: meta.time_us,
            last_time: meta.time_us,
            expected_size,
            fragments_data,
            total_fragments_received_count: 1,
            total_bytes_received_count: meta.captured_len,
        }
    }

    /// Fold one more fragment into the buffer: the last time advances to
    /// the packet's time, the expected size is set if this is the first
    /// terminal fragment, the payload is inserted by offset with last
    /// write winning, and the diagnostic counters grow.
    pub fn accumulate(
        &mut self,
        meta: &PacketMeta,
        ip_payload: Vec<u8>,
        fragmentation_offset: u16,
        more_packets: bool,
    )
        requires
            old(self).wf(),
            fragmentation_offset <= 0x1fff,
            ip_payload.len() <= MAX_FRAGMENT_PAYLOAD,
        ensures
            final(self).wf(),
            final(self).first_time == old(self).first_time,
            final(self).last_time == meta.time_us,
            final(self).frags() =~= insert_fragment(
                old(self).frags(),
                (fragmentation_offset * 8) as u16,
                ip_payload@,
            ),
            final(self).expected_size == if !more_packets && old(self).expected_size is None {
                Some((fragmentation_offset * 8 + ip_payload@.len()) as u32)
            } else {
                old(self).expected_size
            },
            final(self).total_fragments_received_count
                == capped(old(self).total_fragments_received_count + 1, u32::MAX as int),
            final(self).total_bytes_received_count
                == capped(
                    old(self).total_bytes_received_count + meta.captured_len,
                    u32::MAX as int,
                ),
    {
        self.last_time = meta.time_us;
        let offset: u16 = fragmentation_offset * 8;
        let payload_len: u32 = ip_payload.len() as u32;
        if !more_packets && self.expected_size.is_none() {
            self.expected_size = Some(offset as u32 + payload_len);
        }

        let ghost s = self.frags();
        let ghost data = ip_payload@;

        // binary search for the leftmost entry at or beyond the offset
        let mut lo: usize = 0;
        let mut hi: usize = self.fragments_data.len();
        while lo < hi
            invariant
                0 <= lo <= hi <= s.len(),
                s == self.frags(),
                frags_sorted(s),
                forall|i: int| 0 <= i < lo ==> (#[trigger] s[i]).0 < offset,
                forall|i: int| hi <= i < s.len() ==> (#[trigger] s[i]).0 >= offset,
            decreases hi - lo,
        {
            let mid = lo + (hi - lo) / 2;
            if self.fragments_data[mid].0 < offset {
                proof {
                    assert forall|i: int| 0 <= i < mid + 1 implies (#[trigger] s[i]).0 < offset by {
                        if i < mid {
                            assert(s[i].0 < s[mid as int].0);
                        }
                    }
                }
                lo = mid + 1;
            } else {
                proof {
                    assert forall|i: int| mid <= i < s.len()
                        implies (#[trigger] s[i]).0 >= offset by {
                        if i > mid {
                            assert(s[mid as int].0 < s[i].0);
                        }
                    }
                }
                hi = mid;
            }
        }

        proof {
            lemma_insert_preserves(s, offset, data);
        }
        if lo < self.fragments_data.len() && self.fragments_data[lo].0 == offset {
            self.fragments_data[lo] = (offset, ip_payload);
            proof {
                lemma_insert_replace(s, offset, data, lo as int);
                assert(self.frags() =~= s.update(lo as int, (offset, data)));
            }
        } else {
            self.fragments_data.insert(lo, (offset, ip_payload));
            proof {
                assert forall|i: int| lo <= i < s.len() implies (#[trigger] s[i]).0 > offset by {
                    if i > lo {
                        assert(s[lo as int].0 < s[i].0);
                    }
                }
                lemma_insert_new(s, offset, data, lo as int);
                assert(self.frags() =~= s.subrange(0, lo as int) + seq![(offset, data)]
                    + s.subrange(lo as int, s.len() as int));
            }
        }

        self.total_fragments_received_count = sat_add_u32(self.total_fragments_received_count, 1);
        self.total_bytes_received_count =
            sat_add_u32(self.total_bytes_received_count, meta.captured_len);
        proof {
            lemma_sorted_len(self.frags());
        }
    }

    /// Whether the buffered fragments can be reassembled into the complete
    /// datagram payload.
    pub fn is_complete(&self) -> (r: bool)
        requires
            self.wf(),
        ensures
            r == self.spec_is_complete(),
    {
        match self.expected_size {
            None => false,
            Some(size) => {
                let ghost s = self.frags();
                let mut next_byte: u32 = 0;
                let mut i: usize = 0;
                let n = self.fragments_data.len();
                while i < n
                    invariant
                        0 <= i <= n,
                        n == s.len(),
                        s == self.frags(),
                        frags_bounded(s),
                        no_hole(s, i as int),
                        next_byte == cursor_after(s, i as int),
                        next_byte <= MAX_FRAGMENT_OFFSET_BYTES as int
                            + MAX_FRAGMENT_PAYLOAD as int,
                    decreases n - i,
                {
                    let offset = self.fragments_data[i].0;
                    proof {
                        assert(s[i as int] == (self.fragments_data@[i as int].0,
                            self.fragments_data@[i as int].1@));
                        assert(s[i as int].0 <= MAX_FRAGMENT_OFFSET_BYTES
                            && s[i as int].1.len() <= MAX_FRAGMENT_PAYLOAD);
                    }
                    if next_byte < offset as u32 {
                        assert(!no_hole(s, s.len() as int)) by {
                            lemma_hole_persists(s, i as int + 1, s.len() as int);
                        }
                        return false;
                    }
                    next_byte = offset as u32 + self.fragments_data[i].1.len() as u32;
                    i = i + 1;
                }
                size <= next_byte
            },
        }
    }

    /// Reassemble the datagram payload when the buffer is complete: a
    /// buffer of the expected size is filled with every fragment's payload
    /// at its offset, in offset order, clipped to the buffer, later
    /// fragments overwriting earlier ones where they overlap. Returns the
    /// payload together with the reassembly report, or `None` while the
    /// buffer is incomplete.
    pub fn try_reasemble(&self) -> (r: Option<(Vec<u8>, FragmentReasemblyInformation)>)
        requires
            self.wf(),
        ensures
            match r {
                None => !self.spec_is_complete(),
                Some((bytes, info)) => {
                    &&& self.spec_is_complete()
                    &&& self.expected_size matches Some(sz)
                        && bytes@ =~= assembled(
                            self.frags(),
                            self.frags().len() as int,
                            sz as int,
                        )
                    &&& info == (FragmentReasemblyInformation {
                        first_time: self.first_time,
                        last_time: self.last_time,
                        different_offset_fragment_received_count:
                            self.frags().len() as u32,
                        total_fragments_received_count:
                            self.total_fragments_received_count,
                        reasembled_ip_packet_length: self.expected_size->Some_0,
                        total_bytes_received_count: self.total_bytes_received_count,
                    })
                },
            },
    {
        if !self.is_complete() {
            return None;
        }
        let size: u32 = match self.expected_size {
            Some(s) => s,
            None => 0,
        };
        let ghost s = self.frags();

        let mut buffer: Vec<u8> = Vec::new();
        while buffer.len() < size as usize
            invariant
                buffer@.len() <= size,
                buffer@ =~= Seq::new(buffer@.len(), |k: int| 0u8),
            decreases size - buffer.len(),
        {
            buffer.push(0);
        }
        proof {
            assert(buffer@ =~= assembled(s, 0, size as int));
        }

        let n = self.fragments_data.len();
        let mut i: usize = 0;
        while i < n
            invariant
                0 <= i <= n,
                n == s.len(),
                s == self.frags(),
                frags_bounded(s),
                buffer@.len() == size,
                buffer@ =~= assembled(s, i as int, size as int),
                self.wf(),
            decreases n - i,
        {
            let offset = self.fragments_data[i].0 as usize;
            let data_len = self.fragments_data[i].1.len();
            proof {
                assert(s[i as int] == (self.fragments_data@[i as int].0,
                    self.fragments_data@[i as int].1@));
                assert(s[i as int].0 <= MAX_FRAGMENT_OFFSET_BYTES
                    && s[i as int].1.len() <= MAX_FRAGMENT_PAYLOAD);
            }
            let ghost before = buffer@;
            if offset < size as usize {
                let buffer_max = if offset + data_len < size as usize {
                    offset + data_len
                } else {
                    size as usize
                };
                let mut j: usize = 0;
                while offset + j < buffer_max
                    invariant
                        0 <= j,
                        offset + j <= buffer_max,
                        buffer_max <= buffer@.len(),
                        buffer_max <= offset + data_len,
                        data_len == s[i as int].1.len(),
                        offset == s[i as int].0,
                        0 <= i < s.len(),
                        s == self.frags(),
                        buffer@.len() == before.len(),
                        forall|k: int| 0 <= k < buffer@.len()
                            && !(offset <= k < offset + j)
                            ==> buffer@[k] == before[k],
                        forall|k: int| offset <= k < offset + j
                            ==> buffer@[k] == s[i as int].1[k - offset],
                    decreases buffer_max - (offset + j),
                {
                    let b = self.fragments_data[i].1[j];
                    buffer[offset + j] = b;
                    j = j + 1;
                }
                proof {
                    assert(buffer@ =~= paste(before, offset as int, s[i as int].1));
                }
            } else {
                proof {
                    assert(buffer@ =~= paste(before, offset as int, s[i as int].1));
                }
            }
            i = i + 1;
        }

        proof {
            lemma_sorted_len(s);
        }
        let different: u32 = self.fragments_data.len() as u32;
        Some((
            buffer,
            FragmentReasemblyInformation {
                first_time: self.first_time,
                last_time: self.last_time,
                different_offset_fragment_received_count: different,
                total_fragments_received_count: self.total_fragments_received_count,
                reasembled_ip_packet_length: size,
                total_bytes_received_count: self.total_bytes_received_count,
            },
        ))
    }
}

/// The model of a fragment buffer.
#[verifier::ext_equal]
pub struct NetworkFragmentFlowView {
    pub first_time: i64,
    pub last_time: i64,
    pub expected_size: Option<u32>,
    pub frags: Seq<(u16, Seq<u8>)>,
    pub total_fragments_received_count: u32,
    pub total_bytes_received_count: u32,
}

impl NetworkFragmentFlow {
    /// The buffer as a mathematical value.
    pub open spec fn view(self) -> NetworkFragmentFlowView {
        NetworkFragmentFlowView {
            first_time: self.first_time,
            last_time: self.last_time,
            expected_size: self.expected_size,
            frags: self.frags(),
            total_fragments_received_count: self.total_fragments_received_count,
            total_bytes_received_count: self.total_bytes_received_count,
        }
    }
}

impl NetworkFragmentFlowView {
    /// The buffer holding one first fragment.
    pub open spec fn initial(
        meta: PacketMeta,
        payload: Seq<u8>,
        fragmentation_offset: u16,
        more_packets: bool,
    ) -> NetworkFragmentFlowView {
        NetworkFragmentFlowView {
            first_time: meta.time_us,
            last_time: meta.time_us,
            expected_size: if more_packets {
                None
            } else {
                Some((fragmentation_offset * 8 + payload.len()) as u32)
            },
            frags: seq![((fragmentation_offset * 8) as u16, payload)],
            total_fragments_received_count: 1,
            total_bytes_received_count: meta.captured_len,
        }
    }

    /// The buffer after one more fragment.
    pub open spec fn accumulated(
        self,
        meta: PacketMeta,
        payload: Seq<u8>,
        fragmentation_offset: u16,
        more_packets: bool,
    ) -> NetworkFragmentFlowView {
        NetworkFragmentFlowView {
            first_time: self.first_time,
            last_time: meta.time_us,
            expected_size: if !more_packets && self.expected_size is None {
                Some((fragmentation_offset * 8 + payload.len()) as u32)
            } else {
                self.expected_size
            },
            frags: insert_fragment(self.frags, (fragmentation_offset * 8) as u16, payload),
            total_fragments_received_count: capped(
                self.total_fragments_received_count + 1,
                u32::MAX as int,
            ) as u32,
            total_bytes_received_count: capped(
                self.total_bytes_received_count + meta.captured_len,
                u32::MAX as int,
            ) as u32,
        }
    }

    /// Whether the buffered fragments cover the expected payload without a
    /// hole.
    pub open spec fn complete(self) -> bool {
        match self.expected_size {
            None => false,
            Some(sz) => no_hole(self.frags, self.frags.len() as int)
                && sz <= cursor_after(self.frags, self.frags.len() as int),
        }
    }

    /// The reassembly report of a complete buffer.
    pub open spec fn report(self) -> FragmentReasemblyInformation {
        FragmentReasemblyInformation {
            first_time: self.first_time,
            last_time: self.last_time,
            different_offset_fragment_received_count: self.frags.len() as u32,
            total_fragments_received_count: self.total_fragments_received_count,
            reasembled_ip_packet_length: self.expected_size->Some_0,
            total_bytes_received_count: self.total_bytes_received_count,
        }
    }
}

/// The model of a transport flow: its identifier, its statistics, and its
/// label if one was assigned on close.
#[verifier::ext_equal]
pub struct TransportFlowView {
    pub identifier: TransportFlowIdentifier,
    pub statistics: FlowStatisticsView,
    pub label: Option<Seq<char>>,
}

impl TransportFlowView {
    /// The flow a first packet opens: statistics seeded from the packet,
    /// no label.
    pub open spec fn initial(
        identifier: TransportFlowIdentifier,
        meta: PacketMeta,
        packet: ParsedPacket,
        reasembly_information: Option<FragmentReasemblyInformation>,
    ) -> TransportFlowView {
        TransportFlowView {
            identifier,
            statistics: FlowStatistics::initial(meta, packet, reasembly_information),
            label: None,
        }
    }

    /// The flow after one more packet: same identifier and label, the
    /// statistics updated.
    pub open spec fn accumulated(
        self,
        meta: PacketMeta,
        packet: ParsedPacket,
        reasembly_information: Option<FragmentReasemblyInformation>,
    ) -> TransportFlowView {
        TransportFlowView {
            identifier: self.identifier,
            statistics: FlowStatistics::updated(
                self.statistics,
                self.identifier,
                meta,
                packet,
                reasembly_information,
            ),
            label: self.label,
        }
    }
}

/// The cumulative record of one bidirectional transport flow: the
/// identifier whose literal source fixes the forward direction, the
/// statistics over every packet attributed to the flow, and an optional
/// label attached when the flow is closed.
pub struct TransportFlow {
    pub identifier: TransportFlowIdentifier,
    pub statistics: FlowStatistics,
    pub label: Option<String>,
}

impl TransportFlow {
    /// The flow as a mathematical value.
    pub open spec fn view(self) -> TransportFlowView {
        TransportFlowView {
            identifier: self.identifier,
            statistics: self.statistics.view(),
            label: match self.label {
                Some(l) => Some(l@),
                None => None,
            },
        }
    }

    pub open spec fn wf(self) -> bool {
        self.statistics.wf()
    }

    /// Open a flow from its first packet.
    pub fn from(
        identifier: TransportFlowIdentifier,
        meta: &PacketMeta,
        packet: &ParsedPacket,
        reasembly_information: Option<&FragmentReasemblyInformation>,
    ) -> (r: TransportFlow)
        ensures
            r.wf(),
            r.view() == TransportFlowView::initial(
                identifier,
                *meta,
                *packet,
                option_deref(reasembly_information),
            ),
    {
        TransportFlow {
            identifier,
            statistics: FlowStatistics::from_packet(meta, packet, reasembly_information),
            label: None,
        }
    }

    /// Assign a label to the flow.
    pub fn set_label(&mut self, label: String)
        ensures
            final(self).view() == (TransportFlowView {
                label: Some(label@),
                ..old(self).view()
            }),
            final(self).wf() == old(self).wf(),
    {
        self.label = Some(label);
    }

    /// The flow's label, if one has been assigned.
    pub fn label(&self) -> (r: &Option<String>)
        ensures
            self.view().label == match r {
                Some(l) => Some(l@),
                None => None::<Seq<char>>,
            },
    {
        &self.label
    }

    /// Fold one more packet of the flow into its statistics.
    pub fn accumulate(
        &mut self,
        meta: &PacketMeta,
        packet: &ParsedPacket,
        reasembly_information: Option<&FragmentReasemblyInformation>,
    )
        requires
            old(self).wf(),
            packet.net is Some,
        ensures
            final(self).wf(),
            final(self).view() == old(self).view().accumulated(
                *meta,
                *packet,
                option_deref(reasembly_information),
            ),
            final(self).identifier == old(self).identifier,
    {
        let identifier = self.identifier;
        self.statistics.accumulate(&identifier, meta, packet, reasembly_information);
    }
}

/// Once a hole has appeared among the first `n` fragments it persists in
/// every longer prefix.
proof fn lemma_hole_persists(s: Seq<(u16, Seq<u8>)>, n: int, m: int)
    requires
        !no_hole(s, n),
        n <= m,
    ensures
        !no_hole(s, m),
    decreases m,
{
    if n < m {
        lemma_hole_persists(s, n, m - 1);
    }
}

} // verus!
