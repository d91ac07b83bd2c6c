//! Suppression of repeated reports of one ordered address pair.
//!
//! The tracker keeps the pairs it has let through since its last reset. A
//! call made more than a window after that reset first forgets them all; the
//! window is shared by every pair, not kept per pair.
use vstd::prelude::*;
use std::collections::HashMap;
use crate::addr::Ipv4;

verus! {

broadcast use vstd::std_specs::hash::group_hash_axioms;

/// The length of the dedup window, in milliseconds.
pub const WINDOW_MS: u64 = 60_000;

/// The key of an ordered pair: the source in the high half, the destination
/// in the low half.
pub open spec fn pair_key(src: Ipv4, dst: Ipv4) -> u64 {
    (src.bits * 0x1_0000_0000 + dst.bits) as u64
}

/// The tracker's state in the abstract: the keys seen since the last reset
/// and the time of that reset.
pub struct TrackerView {
    pub seen: Set<u64>,
    pub last_cleanup: u64,
}

/// Whether a call at `now` finds the window of a reset at `last` expired.
pub open spec fn window_expired(last: u64, now: u64) -> bool {
    now - last > WINDOW_MS
}

/// A call at `now` for `(src, dst)`: the tracker after it, and whether the
/// pair was new.
pub open spec fn tracker_step(t: TrackerView, src: Ipv4, dst: Ipv4, now: u64) -> (TrackerView, bool) {
    let base = if window_expired(t.last_cleanup, now) {
        TrackerView { seen: Set::empty(), last_cleanup: now }
    } else {
        t
    };
    let k = pair_key(src, dst);
    (TrackerView { seen: base.seen.insert(k), last_cleanup: base.last_cleanup }, !base.seen.contains(k))
}

/// Remembers which ordered address pairs were reported in the current window,
/// with the time each was first reported.
pub struct ConnectionTracker {
    connections: HashMap<u64, u64>,
    last_cleanup: u64,
}

impl View for ConnectionTracker {
    type V = TrackerView;

    closed spec fn view(&self) -> TrackerView {
        TrackerView { seen: self.connections@.dom(), last_cleanup: self.last_cleanup }
    }
}

fn key_of(src: Ipv4, dst: Ipv4) -> (k: u64)
    ensures
        k == pair_key(src, dst),
{
    (src.bits as u64) * 0x1_0000_0000 + (dst.bits as u64)
}

impl ConnectionTracker {
    /// An empty tracker whose window starts at `now` (milliseconds).
    pub fn new(now: u64) -> (t: ConnectionTracker)
        ensures
            t@.seen == Set::<u64>::empty(),
            t@.seen.finite(),
            t@.last_cleanup == now,
    {
        let t = ConnectionTracker { connections: HashMap::new(), last_cleanup: now };
        assert(t@.seen =~= Set::<u64>::empty());
        t
    }

    /// Whether `(src, dst)` has not been reported in the current window,
    /// recording it. A call more than a window after the last reset first
    /// clears every pair and starts a new window at `now`.
    pub fn is_new_connection(&mut self, src: Ipv4, dst: Ipv4, now: u64) -> (r: bool)
        ensures
            (final(self)@, r) == tracker_step(old(self)@, src, dst, now),
            final(self)@.seen.finite(),
    {
        if now > self.last_cleanup && now - self.last_cleanup > WINDOW_MS {
            self.connections.clear();
            self.last_cleanup = now;
            assert(self@.seen =~= Set::<u64>::empty());
        }
        let k = key_of(src, dst);
        if self.connections.contains_key(&k) {
            assert(self@.seen.insert(k) =~= self@.seen);
            return false;
        }
        self.connections.insert(k, now);
        true
    }

    /// Whether `(src, dst)` is recorded in the current window.
    pub fn has_seen(&self, src: Ipv4, dst: Ipv4) -> (r: bool)
        ensures
            r == self@.seen.contains(pair_key(src, dst)),
    {
        let k = key_of(src, dst);
        self.connections.contains_key(&k)
    }
}

/// Distinct ordered pairs have distinct keys.
pub proof fn lemma_pair_key_injective(s1: Ipv4, d1: Ipv4, s2: Ipv4, d2: Ipv4)
    requires
        pair_key(s1, d1) == pair_key(s2, d2),
    ensures
        s1 == s2,
        d1 == d2,
{
    assert(s1.bits == s2.bits && d1.bits == d2.bits) by (nonlinear_arith)
        requires
            s1.bits * 0x1_0000_0000 + d1.bits == s2.bits * 0x1_0000_0000 + d2.bits,
            0 <= d1.bits < 0x1_0000_0000,
            0 <= d2.bits < 0x1_0000_0000,
    ;
}

/// The calls `calls` (source, destination, time) made in order from `t`: the
/// tracker after them, and each call's answer.
pub open spec fn tracker_run(t: TrackerView, calls: Seq<(Ipv4, Ipv4, u64)>) -> (TrackerView, Seq<bool>)
    decreases calls.len(),
{
    if calls.len() == 0 {
        (t, Seq::empty())
    } else {
        let (t1, fresh) = tracker_step(t, calls[0].0, calls[0].1, calls[0].2);
        let (t2, rest) = tracker_run(t1, calls.drop_first());
        (t2, seq![fresh] + rest)
    }
}

/// None of the calls finds the window that started at `last` expired.
pub open spec fn within_window(last: u64, calls: Seq<(Ipv4, Ipv4, u64)>) -> bool {
    forall|k: int| 0 <= k < calls.len() ==> !window_expired(last, #[trigger] calls[k].2)
}

proof fn lemma_run_len(t: TrackerView, calls: Seq<(Ipv4, Ipv4, u64)>)
    ensures
        tracker_run(t, calls).1.len() == calls.len(),
    decreases calls.len(),
{
    if calls.len() > 0 {
        let (t1, fresh) = tracker_step(t, calls[0].0, calls[0].1, calls[0].2);
        lemma_run_len(t1, calls.drop_first());
    }
}

/// A pair already recorded is not new again for the rest of a run within the window.
proof fn lemma_seen_stays_seen(t: TrackerView, calls: Seq<(Ipv4, Ipv4, u64)>, src: Ipv4, dst: Ipv4, j: int)
    requires
        within_window(t.last_cleanup, calls),
        t.seen.contains(pair_key(src, dst)),
        0 <= j < calls.len(),
        calls[j].0 == src && calls[j].1 == dst,
    ensures
        !tracker_run(t, calls).1[j],
    decreases calls.len(),
{
    let (t1, fresh) = tracker_step(t, calls[0].0, calls[0].1, calls[0].2);
    assert(!window_expired(t.last_cleanup, calls[0].2));
    let rest = calls.drop_first();
    lemma_run_len(t1, rest);
    assert(tracker_run(t, calls).1 == seq![fresh] + tracker_run(t1, rest).1);
    if j > 0 {
        assert forall|k: int| 0 <= k < rest.len() implies !window_expired(t1.last_cleanup, #[trigger] rest[k].2) by {
            assert(rest[k] == calls[k + 1]);
        }
        assert(rest[j - 1] == calls[j]);
        lemma_seen_stays_seen(t1, rest, src, dst, j - 1);
        assert(tracker_run(t, calls).1[j] == tracker_run(t1, rest).1[j - 1]);
    }
}

/// Within one window a pair is reported at most once: in a run of calls none
/// of which finds the window expired, a call for a pair that an earlier call
/// of the run already named answers `false`, whatever other pairs came
/// between.
pub proof fn lemma_once_per_window(t: TrackerView, calls: Seq<(Ipv4, Ipv4, u64)>, i: int, j: int)
    requires
        within_window(t.last_cleanup, calls),
        0 <= i < j < calls.len(),
        calls[i].0 == calls[j].0,
        calls[i].1 == calls[j].1,
    ensures
        !tracker_run(t, calls).1[j],
    decreases calls.len(),
{
    let (t1, fresh) = tracker_step(t, calls[0].0, calls[0].1, calls[0].2);
    assert(!window_expired(t.last_cleanup, calls[0].2));
    let rest = calls.drop_first();
    lemma_run_len(t1, rest);
    assert(tracker_run(t, calls).1 == seq![fresh] + tracker_run(t1, rest).1);
    assert forall|k: int| 0 <= k < rest.len() implies !window_expired(t1.last_cleanup, #[trigger] rest[k].2) by {
        assert(rest[k] == calls[k + 1]);
    }
    assert(rest[j - 1] == calls[j]);
    if i == 0 {
        lemma_seen_stays_seen(t1, rest, calls[j].0, calls[j].1, j - 1);
    } else {
        assert(rest[i - 1] == calls[i]);
        lemma_once_per_window(t1, rest, i - 1, j - 1);
    }
    assert(tracker_run(t, calls).1[j] == tracker_run(t1, rest).1[j - 1]);
}

/// After a reset a pair may be reported again: a call that finds the window
/// expired answers `true`, whatever was recorded before.
pub proof fn lemma_new_after_reset(t: TrackerView, src: Ipv4, dst: Ipv4, now: u64)
    requires
        window_expired(t.last_cleanup, now),
    ensures
        tracker_step(t, src, dst, now).1,
{
}

/// A call for one pair leaves the answer for every other pair within the
/// same window unchanged.
pub proof fn lemma_pairs_independent(t: TrackerView, s1: Ipv4, d1: Ipv4, s2: Ipv4, d2: Ipv4, n1: u64, n2: u64)
    requires
        s1 != s2 || d1 != d2,
        !window_expired(t.last_cleanup, n1),
        !window_expired(t.last_cleanup, n2),
    ensures
        tracker_step(tracker_step(t, s1, d1, n1).0, s2, d2, n2).1 == tracker_step(t, s2, d2, n2).1,
{
    if pair_key(s1, d1) == pair_key(s2, d2) {
        lemma_pair_key_injective(s1, d1, s2, d2);
    }
}

} // verus!
