//! An eviction queue over flow keys, ordered by time, oldest first.
//!
//! The queue is an outside priority queue of (key, time) entries held
//! behind a small trusted surface: `queue_entries` names what it holds,
//! and each wrapper states what the outside operation does to that map.
//! Keys are plain tuples of integers, so their equality and hashing are
//! the standard structural ones.

use vstd::prelude::*;

use priority_queue::PriorityQueue;
use std::cmp::Reverse;

verus! {

/// A queue of flow keys, each with a timestamp in microseconds; the head
/// is an entry with the least timestamp.
#[verifier::external_body]
pub struct FlowQueue {
    q: PriorityQueue<(u128, u128, u64, u64, u64), Reverse<i64>>,
}

/// The entries the queue holds: each key at most once, mapped to its
/// timestamp.
pub uninterp spec fn queue_entries(q: FlowQueue) -> Map<(u128, u128, u64, u64, u64), int>;

/// The entry map of an empty queue.
pub open spec fn no_entries() -> Map<(u128, u128, u64, u64, u64), int> {
    Map::empty()
}

/// Relies on priority_queue::PriorityQueue::new: a fresh queue is empty.
#[verifier::external_body]
pub fn queue_new() -> (q: FlowQueue)
    ensures
        queue_entries(q) == no_entries(),
{
    FlowQueue { q: PriorityQueue::new() }
}

/// Relies on priority_queue::PriorityQueue::push: the key is inserted, or
/// its priority replaced if it is already queued.
#[verifier::external_body]
pub fn queue_insert(q: &mut FlowQueue, key: (u128, u128, u64, u64, u64), time: i64)
    ensures
        queue_entries(*final(q)) == queue_entries(*old(q)).insert(key, time as int),
{
    q.q.push(key, Reverse(time));
}

/// Relies on priority_queue::PriorityQueue::change_priority: a queued
/// key's timestamp is replaced; an absent key leaves the queue unchanged.
#[verifier::external_body]
pub fn queue_change_time(q: &mut FlowQueue, key: (u128, u128, u64, u64, u64), time: i64) -> (r:
    bool)
    ensures
        r == queue_entries(*old(q)).dom().contains(key),
        queue_entries(*final(q)) == if queue_entries(*old(q)).dom().contains(key) {
            queue_entries(*old(q)).insert(key, time as int)
        } else {
            queue_entries(*old(q))
        },
{
    q.q.change_priority(&key, Reverse(time)).is_some()
}

/// Relies on priority_queue::PriorityQueue::peek: an entry with the
/// greatest `Reverse` priority — the least timestamp — or `None` when the
/// queue is empty.
#[verifier::external_body]
pub fn queue_peek_min(q: &FlowQueue) -> (r: Option<((u128, u128, u64, u64, u64), i64)>)
    ensures
        match r {
            None => queue_entries(*q).dom() =~= Set::empty(),
            Some((key, time)) => {
                &&& queue_entries(*q).dom().contains(key)
                &&& queue_entries(*q)[key] == time as int
                &&& forall|k2: (u128, u128, u64, u64, u64)|
                    queue_entries(*q).dom().contains(k2) ==> time as int <= queue_entries(*q)[k2]
            },
        },
{
    match q.q.peek() {
        Some((k, Reverse(t))) => Some((*k, *t)),
        None => None,
    }
}

/// Relies on priority_queue::PriorityQueue::pop: removes and returns an
/// entry with the least timestamp, or `None` when the queue is empty.
#[verifier::external_body]
pub fn queue_pop_min(q: &mut FlowQueue) -> (r: Option<((u128, u128, u64, u64, u64), i64)>)
    ensures
        match r {
            None => {
                &&& queue_entries(*old(q)).dom() =~= Set::empty()
                &&& queue_entries(*final(q)) == queue_entries(*old(q))
            },
            Some((key, time)) => {
                &&& queue_entries(*old(q)).dom().contains(key)
                &&& queue_entries(*old(q))[key] == time as int
                &&& forall|k2: (u128, u128, u64, u64, u64)|
                    queue_entries(*old(q)).dom().contains(k2)
                        ==> time as int <= queue_entries(*old(q))[k2]
                &&& queue_entries(*final(q)) == queue_entries(*old(q)).remove(key)
            },
        },
{
    match q.q.pop() {
        Some((k, Reverse(t))) => Some((k, t)),
        None => None,
    }
}

/// Relies on priority_queue::PriorityQueue::remove: removes the key's
/// entry if it is queued.
#[verifier::external_body]
pub fn queue_remove(q: &mut FlowQueue, key: (u128, u128, u64, u64, u64)) -> (r: bool)
    ensures
        r == queue_entries(*old(q)).dom().contains(key),
        queue_entries(*final(q)) == if queue_entries(*old(q)).dom().contains(key) {
            queue_entries(*old(q)).remove(key)
        } else {
            queue_entries(*old(q))
        },
{
    q.q.remove(&key).is_some()
}

} // verus!
