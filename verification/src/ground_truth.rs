//! Ground-truth labels: user-supplied, non-overlapping time intervals per
//! host pair, looked up by interval overlap when a flow closes.

use vstd::prelude::*;

use crate::packet_flow::TransportFlow;
use crate::packet_model::IpAddress;

verus! {

/// A labelled time interval. Invariant: `start <= end`.
pub struct Label {
    pub start: i64,
    pub end: i64,
    pub label: String,
}

impl Label {
    pub open spec fn wf(self) -> bool {
        self.start <= self.end
    }

    /// Create a label over `[timestamp_micro_start, timestamp_micro_end]`;
    /// an inverted interval is rejected.
    pub fn from(
        timestamp_micro_start: i64,
        timestamp_micro_end: i64,
        label: String,
    ) -> (r: Result<Label, String>)
        ensures
            match r {
                Ok(l) => {
                    &&& timestamp_micro_start <= timestamp_micro_end
                    &&& l.start == timestamp_micro_start
                    &&& l.end == timestamp_micro_end
                    &&& l.label@ == label@
                    &&& l.wf()
                },
                Err(_) => timestamp_micro_end < timestamp_micro_start,
            },
    {
        if timestamp_micro_end < timestamp_micro_start {
            return Err(String::from_str("end timestamp cannot be previous than start timestamp"));
        }
        Ok(Label { start: timestamp_micro_start, end: timestamp_micro_end, label })
    }

    /// How long this label's interval and `[start, end]` overlap, in
    /// microseconds; zero when they are disjoint.
    pub open spec fn spec_overlap(self, start: i64, end: i64) -> int {
        if self.end < start || end < self.start {
            0
        } else {
            (if self.end <= end { self.end as int } else { end as int })
                - (if self.start >= start { self.start as int } else { start as int })
        }
    }

    /// Compute the overlap duration with `[start, end]`.
    pub fn compute_overlap(&self, start: i64, end: i64) -> (r: i128)
        requires
            self.wf(),
            start <= end,
        ensures
            r == self.spec_overlap(start, end),
    {
        if self.end < start || end < self.start {
            0
        } else {
            let hi: i128 = if self.end <= end {
                self.end as i128
            } else {
                end as i128
            };
            let lo: i128 = if self.start >= start {
                self.start as i128
            } else {
                start as i128
            };
            hi - lo
        }
    }
}

/// Whether two labelled intervals touch or overlap.
pub open spec fn labels_overlap(a: Label, b: Label) -> bool {
    a.start <= b.end && b.start <= a.end
}

/// Whether a label's interval touches `[start, end]`.
pub open spec fn label_overlaps_range(l: Label, start: i64, end: i64) -> bool {
    l.start <= end && start <= l.end
}

/// No stored label's interval touches `[start, end]`.
pub open spec fn no_overlapping_label(labels: Seq<Label>, start: i64, end: i64) -> bool {
    forall|i: int| 0 <= i < labels.len()
        ==> !label_overlaps_range((#[trigger] labels[i]), start, end)
}

/// `l` is the text of a stored label that overlaps `[start, end]` at
/// least as long as every stored label, later labels winning ties.
pub open spec fn best_overlap_label(labels: Seq<Label>, start: i64, end: i64, l: Seq<char>) -> bool {
    exists|i: int|
        {
            &&& 0 <= i < labels.len()
            &&& (#[trigger] labels[i]).label@ == l
            &&& label_overlaps_range(labels[i], start, end)
            &&& forall|j: int| 0 <= j < labels.len()
                ==> (#[trigger] labels[j]).spec_overlap(start, end)
                    <= labels[i].spec_overlap(start, end)
            &&& forall|j: int| i < j < labels.len()
                && label_overlaps_range((#[trigger] labels[j]), start, end)
                ==> labels[j].spec_overlap(start, end) < labels[i].spec_overlap(start, end)
        }
}

/// Labels as plain (start, end, text) triples.
pub open spec fn labels_view(labels: Seq<Label>) -> Seq<(i64, i64, Seq<char>)> {
    labels.map_values(|l: Label| (l.start, l.end, l.label@))
}

/// The label collection after filing one interval for a pair: the pair's
/// list — which the interval overlapped nowhere — gains it at some
/// position, or a new entry holding just this interval is appended for
/// an unseen pair; every other entry is untouched.
pub open spec fn recorded_label(
    s0: Seq<(HostPair, SortedLabelList)>,
    s1: Seq<(HostPair, SortedLabelList)>,
    host_pair: HostPair,
    start: i64,
    end: i64,
    text: Seq<char>,
) -> bool {
    if exists|i: int| 0 <= i < s0.len() && (#[trigger] s0[i]).0 == host_pair {
        let i = choose|i: int| 0 <= i < s0.len() && (#[trigger] s0[i]).0 == host_pair;
        &&& s1.len() == s0.len()
        &&& forall|j: int| 0 <= j < s0.len() && j != i ==> (#[trigger] s1[j]) == s0[j]
        &&& s1[i].0 == host_pair
        &&& no_overlapping_label(s0[i].1.0@, start, end)
        &&& exists|p: int| 0 <= p <= s0[i].1.0@.len()
            && labels_view(s1[i].1.0@) == labels_view(s0[i].1.0@).insert(p, (start, end, text))
    } else {
        &&& s1.len() == s0.len() + 1
        &&& forall|j: int| 0 <= j < s0.len() ==> (#[trigger] s1[j]) == s0[j]
        &&& s1[s0.len() as int].0 == host_pair
        &&& labels_view(s1[s0.len() as int].1.0@) == seq![(start, end, text)]
    }
}

/// Labels of one host pair, sorted by start and pairwise disjoint.
pub struct SortedLabelList(pub Vec<Label>);

impl SortedLabelList {
    /// Every interval is proper, and they are sorted and strictly
    /// disjoint: each ends before the next begins.
    pub open spec fn wf(self) -> bool {
        &&& forall|i: int| 0 <= i < self.0@.len() ==> (#[trigger] self.0@[i]).wf()
        &&& forall|i: int, j: int| 0 <= i < j < self.0@.len()
            ==> (#[trigger] self.0@[i]).end < (#[trigger] self.0@[j]).start
    }

    /// A list of one label.
    pub fn new(label: Label) -> (r: SortedLabelList)
        requires
            label.wf(),
        ensures
            r.wf(),
            r.0@.len() == 1,
            r.0@[0] == label,
    {
        let mut v: Vec<Label> = Vec::new();
        v.push(label);
        SortedLabelList(v)
    }

    /// Insert a label, keeping the list sorted; a label that touches or
    /// overlaps any stored interval is rejected and the list unchanged.
    pub fn push(&mut self, label: Label) -> (r: Result<(), String>)
        requires
            old(self).wf(),
            label.wf(),
        ensures
            final(self).wf(),
            match r {
                Err(_) => {
                    &&& exists|i: int| 0 <= i < old(self).0@.len()
                        && labels_overlap((#[trigger] old(self).0@[i]), label)
                    &&& *final(self) == *old(self)
                },
                Ok(_) => {
                    &&& forall|i: int| 0 <= i < old(self).0@.len()
                        ==> !labels_overlap((#[trigger] old(self).0@[i]), label)
                    &&& exists|p: int| 0 <= p <= old(self).0@.len()
                        && final(self).0@ == old(self).0@.insert(p, label)
                    &&& final(self).0@.len() == old(self).0@.len() + 1
                },
            },
    {
        let n = self.0.len();
        let mut i: usize = 0;
        // find the insertion position: the first stored label that starts
        // after the new one ends
        while i < n && self.0[i].end < label.start
            invariant
                0 <= i <= n,
                n == self.0@.len(),
                forall|j: int| 0 <= j < i ==> (#[trigger] self.0@[j]).end < label.start,
            decreases n - i,
        {
            i = i + 1;
        }
        if i < n && self.0[i].start <= label.end {
            proof {
                assert(labels_overlap(self.0@[i as int], label));
            }
            return Err(String::from_str("timestamp intervals between two hosts cannot overlap"));
        }
        proof {
            assert forall|j: int| 0 <= j < self.0@.len()
                implies !labels_overlap((#[trigger] self.0@[j]), label) by {
                if j >= i {
                    if i < self.0@.len() {
                        if j > i {
                            assert(self.0@[i as int].end < self.0@[j].start);
                            assert(label.end < self.0@[i as int].start
                                || self.0@[i as int].start > label.end);
                        }
                    }
                }
            }
        }
        let ghost s1 = self.0@;
        self.0.insert(i, label);
        proof {
            assert(self.0@ == s1.insert(i as int, label));
            assert forall|a: int, b: int| 0 <= a < b < self.0@.len()
                implies (#[trigger] self.0@[a]).end < (#[trigger] self.0@[b]).start by {
                if a < i && b == i {
                    assert(self.0@[a] == s1[a]);
                } else if a == i as int {
                    assert(self.0@[b] == s1[b - 1]);
                    assert(!labels_overlap(s1[b - 1], label));
                } else if a < i && b > i {
                    assert(self.0@[a] == s1[a] && self.0@[b] == s1[b - 1]);
                    if a == b - 1 {
                        assert(s1[a].end < label.start);
                        assert(!labels_overlap(s1[b - 1], label));
                    }
                } else if a > i {
                    assert(self.0@[a] == s1[a - 1] && self.0@[b] == s1[b - 1]);
                }
            }
        }
        Ok(())
    }

    /// The least and greatest indices of stored labels that overlap
    /// `[first_time, last_time]`, or `None` when none does.
    pub fn find_overlap_indicies(&self, first_time: i64, last_time: i64) -> (r: Option<
        (usize, usize),
    >)
        requires
            self.wf(),
            first_time <= last_time,
        ensures
            match r {
                None => no_overlapping_label(self.0@, first_time, last_time),
                Some((a, b)) => {
                    &&& a <= b < self.0@.len()
                    &&& label_overlaps_range(self.0@[a as int], first_time, last_time)
                    &&& label_overlaps_range(self.0@[b as int], first_time, last_time)
                    &&& forall|i: int| 0 <= i < a
                        ==> !label_overlaps_range(
                            (#[trigger] self.0@[i]),
                            first_time,
                            last_time,
                        )
                    &&& forall|i: int| b < i < self.0@.len()
                        ==> !label_overlaps_range(
                            (#[trigger] self.0@[i]),
                            first_time,
                            last_time,
                        )
                },
            },
    {
        let n = self.0.len();
        let mut first: usize = 0;
        let mut found_first = false;
        let mut last: usize = 0;
        let mut found_last = false;
        let mut i: usize = 0;
        while i < n
            invariant
                0 <= i <= n,
                n == self.0@.len(),
                found_first ==> first < i
                    && label_overlaps_range(self.0@[first as int], first_time, last_time),
                found_last ==> found_first && last < i && first <= last
                    && label_overlaps_range(self.0@[last as int], first_time, last_time),
                found_first == found_last,
                forall|j: int| 0 <= j < i && !(found_first && first <= j)
                    ==> !label_overlaps_range((#[trigger] self.0@[j]), first_time, last_time),
                forall|j: int| 0 <= j < i && found_last && last < j
                    ==> !label_overlaps_range((#[trigger] self.0@[j]), first_time, last_time),
            decreases n - i,
        {
            let l = &self.0[i];
            let overlapping = l.start <= last_time && first_time <= l.end;
            if overlapping {
                if !found_first {
                    first = i;
                    found_first = true;
                }
                last = i;
                found_last = true;
            }
            i = i + 1;
        }
        if found_first {
            Some((first, last))
        } else {
            None
        }
    }

    /// The label whose interval overlaps `[first_time, last_time]` the
    /// longest, later labels winning ties; `None` when no label overlaps.
    pub fn find_label(&self, first_time: i64, last_time: i64) -> (r: Option<&String>)
        requires
            self.wf(),
            first_time <= last_time,
        ensures
            match r {
                None => no_overlapping_label(self.0@, first_time, last_time),
                Some(l) => best_overlap_label(self.0@, first_time, last_time, l@),
            },
    {
        let (first, last) = match self.find_overlap_indicies(first_time, last_time) {
            None => {
                return None;
            },
            Some(pair) => pair,
        };
        let n = self.0.len();
        proof {
            assert(last < n);
        }
        let mut best: usize = first;
        let mut best_overlap: i128 = self.0[first].compute_overlap(first_time, last_time);
        let mut i: usize = first + 1;
        while i <= last
            invariant
                self.wf(),
                first_time <= last_time,
                first <= best < i <= last + 1,
                last < n,
                n == self.0@.len(),
                best_overlap == self.0@[best as int].spec_overlap(first_time, last_time),
                forall|j: int| first <= j < i
                    ==> (#[trigger] self.0@[j]).spec_overlap(first_time, last_time)
                        <= best_overlap,
                forall|j: int| best < j < i
                    ==> (#[trigger] self.0@[j]).spec_overlap(first_time, last_time)
                        < best_overlap,
            decreases last + 1 - i,
        {
            let o = self.0[i].compute_overlap(first_time, last_time);
            if o >= best_overlap {
                best = i;
                best_overlap = o;
            }
            i = i + 1;
        }
        proof {
            assert(label_overlaps_range(self.0@[best as int], first_time, last_time)) by {
                if !(self.0@[best as int].start <= last_time
                    && first_time <= self.0@[best as int].end) {
                    assert(self.0@[best as int].spec_overlap(first_time, last_time) == 0);
                    assert(self.0@[first as int].spec_overlap(first_time, last_time) >= 0);
                    assert(label_overlaps_range(self.0@[first as int], first_time, last_time));
                }
            }
            assert forall|j: int| 0 <= j < self.0@.len()
                implies (#[trigger] self.0@[j]).spec_overlap(first_time, last_time)
                    <= self.0@[best as int].spec_overlap(first_time, last_time) by {
                if j < first || j > last {
                    assert(!label_overlaps_range(self.0@[j], first_time, last_time));
                    assert(self.0@[j].spec_overlap(first_time, last_time) == 0);
                    assert(label_overlaps_range(self.0@[best as int], first_time, last_time));
                    assert(self.0@[best as int].wf());
                    assert(self.0@[best as int].spec_overlap(first_time, last_time) >= 0);
                }
            }
            assert forall|j: int| best < j < self.0@.len()
                && label_overlaps_range((#[trigger] self.0@[j]), first_time, last_time)
                implies self.0@[j].spec_overlap(first_time, last_time)
                    < self.0@[best as int].spec_overlap(first_time, last_time) by {
                assert(j <= last);
            }
        }
        Some(&self.0[best].label)
    }
}

/// A pair of hosts and a transport protocol, direction ignored, under
/// which ground-truth labels are filed.
#[derive(Clone, Copy, Debug, PartialEq, Eq, Structural)]
pub struct HostPair {
    pub lower_ip: IpAddress,
    pub higher_ip: IpAddress,
    pub transport_protocol: u8,
}

impl HostPair {
    /// File a pair under the given addresses as they come.
    pub fn from(lower_ip: IpAddress, higher_ip: IpAddress, transport_protocol: u8) -> (r:
        HostPair)
        ensures
            r == (HostPair { lower_ip, higher_ip, transport_protocol }),
    {
        HostPair { lower_ip, higher_ip, transport_protocol }
    }
}

/// The collection of ground-truth labels, filed per host pair. Assumed
/// true; queried once per flow on close.
pub struct GroundTruth {
    pub flows: Vec<(HostPair, SortedLabelList)>,
}

impl GroundTruth {
    pub open spec fn wf(self) -> bool {
        &&& forall|i: int| 0 <= i < self.flows@.len() ==> (#[trigger] self.flows@[i]).1.wf()
        &&& forall|i: int, j: int| 0 <= i < j < self.flows@.len()
            ==> (#[trigger] self.flows@[i]).0 != (#[trigger] self.flows@[j]).0
    }

    /// An empty collection.
    pub fn new() -> (r: GroundTruth)
        ensures
            r.wf(),
            r.flows@.len() == 0,
    {
        GroundTruth { flows: Vec::new() }
    }

    /// File one record: a labelled interval for a host pair. The record
    /// is rejected — and the collection left as it was — when its
    /// interval is inverted or touches an interval already filed for the
    /// same pair; otherwise it is filed as `recorded_label` says.
    pub fn add_record(
        &mut self,
        host_pair: HostPair,
        timestamp_micro_start: i64,
        timestamp_micro_end: i64,
        label: String,
    ) -> (r: Result<(), String>)
        requires
            old(self).wf(),
        ensures
            final(self).wf(),
            match r {
                Err(_) => {
                    &&& final(self).flows@ == old(self).flows@
                    &&& (timestamp_micro_end < timestamp_micro_start
                        || exists|i: int| 0 <= i < old(self).flows@.len()
                            && (#[trigger] old(self).flows@[i]).0 == host_pair
                            && !no_overlapping_label(
                                old(self).flows@[i].1.0@,
                                timestamp_micro_start,
                                timestamp_micro_end,
                            ))
                },
                Ok(_) => {
                    &&& timestamp_micro_start <= timestamp_micro_end
                    &&& recorded_label(
                        old(self).flows@,
                        final(self).flows@,
                        host_pair,
                        timestamp_micro_start,
                        timestamp_micro_end,
                        label@,
                    )
                },
            },
    {
        let ghost text = label@;
        let label = match Label::from(timestamp_micro_start, timestamp_micro_end, label) {
            Ok(l) => l,
            Err(e) => {
                return Err(e);
            },
        };
        let n = self.flows.len();
        let mut found: Option<usize> = None;
        let mut i: usize = 0;
        while i < n
            invariant
                0 <= i <= n,
                n == self.flows@.len(),
                match found {
                    None => forall|j: int| 0 <= j < i
                        ==> (#[trigger] self.flows@[j]).0 != host_pair,
                    Some(k) => k < n && self.flows@[k as int].0 == host_pair,
                },
            decreases n - i,
        {
            if found.is_none() && self.flows[i].0 == host_pair {
                found = Some(i);
            }
            i = i + 1;
        }
        match found {
            None => {
                let ghost s1 = self.flows@;
                self.flows.push((host_pair, SortedLabelList::new(label)));
                proof {
                    assert forall|a: int, b: int| 0 <= a < b < self.flows@.len()
                        implies (#[trigger] self.flows@[a]).0
                            != (#[trigger] self.flows@[b]).0 by {
                        if b == self.flows@.len() - 1 {
                            assert(self.flows@[a] == s1[a]);
                        } else {
                            assert(self.flows@[a] == s1[a] && self.flows@[b] == s1[b]);
                        }
                    }
                    assert forall|a: int| 0 <= a < self.flows@.len()
                        implies (#[trigger] self.flows@[a]).1.wf() by {
                        if a < self.flows@.len() - 1 {
                            assert(self.flows@[a] == s1[a]);
                        }
                    }
                    assert(labels_view(self.flows@[s1.len() as int].1.0@)
                        =~= seq![(timestamp_micro_start, timestamp_micro_end, text)]);
                    assert(recorded_label(
                        s1,
                        self.flows@,
                        host_pair,
                        timestamp_micro_start,
                        timestamp_micro_end,
                        text,
                    ));
                }
                Ok(())
            },
            Some(index) => {
                let ghost s1 = self.flows@;
                let ghost i = index as int;
                proof {
                    // the pair is filed at most once, so this entry is
                    // the one `recorded_label` chooses
                    assert forall|j: int| 0 <= j < s1.len() && (#[trigger] s1[j]).0 == host_pair
                        implies j == i by {
                        if j < i {
                            assert(s1[j].0 != s1[i].0);
                        } else if j > i {
                            assert(s1[i].0 != s1[j].0);
                        }
                    }
                }
                let entry = self.flows.remove(index);
                let (pair, mut list) = entry;
                let ghost list0 = list.0@;
                let result = list.push(label);
                self.flows.insert(index, (pair, list));
                proof {
                    assert(self.flows@ =~= s1.update(i, (pair, list)));
                    assert forall|a: int| 0 <= a < self.flows@.len()
                        implies (#[trigger] self.flows@[a]).1.wf() by {
                        if a != i {
                            assert(self.flows@[a] == s1[a]);
                        }
                    }
                    assert forall|a: int, b: int| 0 <= a < b < self.flows@.len()
                        implies (#[trigger] self.flows@[a]).0
                            != (#[trigger] self.flows@[b]).0 by {
                        assert(self.flows@[a].0 == s1[a].0);
                        assert(self.flows@[b].0 == s1[b].0);
                    }
                    assert(s1[i].1.0@ == list0);
                    if result is Ok {
                        assert forall|j: int| 0 <= j < list0.len()
                            implies !label_overlaps_range(
                                (#[trigger] list0[j]),
                                timestamp_micro_start,
                                timestamp_micro_end,
                            ) by {
                            assert(!labels_overlap(list0[j], label));
                        }
                        let p = choose|p: int| 0 <= p <= list0.len()
                            && list.0@ == list0.insert(p, label);
                        assert(labels_view(list.0@)
                            =~= labels_view(list0).insert(
                            p,
                            (timestamp_micro_start, timestamp_micro_end, text),
                        ));
                        let i0 = choose|i0: int| 0 <= i0 < s1.len()
                            && (#[trigger] s1[i0]).0 == host_pair;
                        assert(s1[i].0 == host_pair);
                        assert(i0 == i);
                        assert(self.flows@[i] == (pair, list));
                        assert(recorded_label(
                            s1,
                            self.flows@,
                            host_pair,
                            timestamp_micro_start,
                            timestamp_micro_end,
                            text,
                        ));
                    } else {
                        let j = choose|j: int| 0 <= j < list0.len()
                            && labels_overlap((#[trigger] list0[j]), label);
                        assert(label_overlaps_range(
                            list0[j],
                            timestamp_micro_start,
                            timestamp_micro_end,
                        ));
                        assert((pair, list) == s1[i]);
                        assert(self.flows@ =~= s1);
                        assert(s1[i].0 == host_pair && !no_overlapping_label(
                            s1[i].1.0@,
                            timestamp_micro_start,
                            timestamp_micro_end,
                        ));
                    }
                }
                result
            },
        }
    }

    /// Find the label matching a closed flow: the flow's hosts and
    /// protocol name the pair — filed under the flow's own source and
    /// destination order — and the best-overlapping interval around the
    /// flow's time span gives the label.
    pub fn find_label(&self, flow: &TransportFlow) -> (r: Option<&String>)
        requires
            self.wf(),
            flow.statistics.flow_times.first_packet_time
                <= flow.statistics.flow_times.last_packet_time,
        ensures
            match r {
                None => forall|i: int| 0 <= i < self.flows@.len()
                    && (#[trigger] self.flows@[i]).0 == flow_host_pair(*flow)
                    ==> no_overlapping_label(
                        self.flows@[i].1.0@,
                        flow.statistics.flow_times.first_packet_time,
                        flow.statistics.flow_times.last_packet_time,
                    ),
                Some(l) => exists|i: int| 0 <= i < self.flows@.len()
                    && (#[trigger] self.flows@[i]).0 == flow_host_pair(*flow)
                    && best_overlap_label(
                        self.flows@[i].1.0@,
                        flow.statistics.flow_times.first_packet_time,
                        flow.statistics.flow_times.last_packet_time,
                        l@,
                    ),
            },
    {
        let pair = HostPair {
            lower_ip: flow.identifier.source_ip,
            higher_ip: flow.identifier.dest_ip,
            transport_protocol: flow.identifier.transport_protocol,
        };
        let n = self.flows.len();
        let mut i: usize = 0;
        while i < n
            invariant
                0 <= i <= n,
                n == self.flows@.len(),
                self.wf(),
                pair == flow_host_pair(*flow),
                flow.statistics.flow_times.first_packet_time
                    <= flow.statistics.flow_times.last_packet_time,
                forall|j: int| 0 <= j < i ==> (#[trigger] self.flows@[j]).0 != pair,
            decreases n - i,
        {
            if self.flows[i].0 == pair {
                let r = self.flows[i].1.find_label(
                    flow.statistics.flow_times.first_packet_time,
                    flow.statistics.flow_times.last_packet_time,
                );
                proof {
                    // the pair is filed at most once, so the scanned entry
                    // is the only one the answer must speak of
                    assert forall|j: int| 0 <= j < self.flows@.len()
                        && (#[trigger] self.flows@[j]).0 == pair implies j == i by {
                        if j < i as int {
                        } else if j > i as int {
                            assert(self.flows@[i as int].0 != self.flows@[j].0);
                        }
                    }
                }
                return r;
            }
            i = i + 1;
        }
        None
    }
}

/// The host pair a flow's labels are filed under: the flow's own source
/// and destination order, with its protocol.
pub open spec fn flow_host_pair(flow: TransportFlow) -> HostPair {
    HostPair {
        lower_ip: flow.identifier.source_ip,
        higher_ip: flow.identifier.dest_ip,
        transport_protocol: flow.identifier.transport_protocol,
    }
}

} // verus!
