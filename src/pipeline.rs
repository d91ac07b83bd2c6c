//! The capture-side pipeline for one frame: decode, filter, suppress
//! repeats, locate both ends and build the event to publish.
//!
//! Under the strict location policy an event is built only when both ends
//! have coordinates; under the lenient one it is built whatever the resolver
//! found, with absent locations left out.
use vstd::prelude::*;
use crate::addr::Ipv4;
use crate::parser::{ParsedConnection, Transport, parse_spec, parse_frame};
use crate::filter::{FilterPolicy, pair_admitted, hard_excluded};
use crate::dedup::{ConnectionTracker, TrackerView, tracker_step, window_expired, pair_key};
use crate::geo::{GeoLocation, GeoLocationView, GeoResolver, location_view};

verus! {

/// Whether an event needs both ends located.
#[derive(Clone, Copy, Debug, PartialEq, Eq, Structural)]
pub enum LocationPolicy {
    /// Drop the event unless both ends have coordinates.
    Strict,
    /// Emit the event with whatever locations were found.
    Lenient,
}

/// One end of a reported conversation.
#[derive(Clone, Debug)]
pub struct Endpoint {
    pub ip: Ipv4,
    pub port: u16,
    pub location: Option<GeoLocation>,
}

pub struct EndpointView {
    pub ip: Ipv4,
    pub port: u16,
    pub location: Option<GeoLocationView>,
}

impl View for Endpoint {
    type V = EndpointView;

    open spec fn view(&self) -> EndpointView {
        EndpointView { ip: self.ip, port: self.port, location: location_view(self.location) }
    }
}

/// A conversation as published to viewers.
#[derive(Clone, Debug)]
pub struct ConnectionEvent {
    pub source: Endpoint,
    pub destination: Endpoint,
    pub protocol: Transport,
    /// As given by the caller for the frame.
    pub timestamp: u64,
}

pub struct ConnectionEventView {
    pub source: EndpointView,
    pub destination: EndpointView,
    pub protocol: Transport,
    pub timestamp: u64,
}

impl View for ConnectionEvent {
    type V = ConnectionEventView;

    open spec fn view(&self) -> ConnectionEventView {
        ConnectionEventView {
            source: self.source@,
            destination: self.destination@,
            protocol: self.protocol,
            timestamp: self.timestamp,
        }
    }
}

pub open spec fn event_view(e: Option<ConnectionEvent>) -> Option<ConnectionEventView> {
    match e {
        Some(v) => Some(v@),
        None => None,
    }
}

/// The location is known and has coordinates.
pub open spec fn located(l: Option<GeoLocationView>) -> bool {
    l is Some && l->0.point is Some
}

/// The event for connection `c` with the ends located at `src` and `dst`.
pub open spec fn event_spec(
    c: ParsedConnection,
    src: Option<GeoLocationView>,
    dst: Option<GeoLocationView>,
    policy: LocationPolicy,
    timestamp: u64,
) -> Option<ConnectionEventView> {
    if policy == LocationPolicy::Strict && !(located(src) && located(dst)) {
        None
    } else {
        Some(
            ConnectionEventView {
                source: EndpointView { ip: c.src_ip, port: c.src_port, location: src },
                destination: EndpointView { ip: c.dst_ip, port: c.dst_port, location: dst },
                protocol: c.protocol,
                timestamp,
            },
        )
    }
}

fn is_located(l: &Option<GeoLocation>) -> (r: bool)
    ensures
        r == located(location_view(*l)),
{
    match l {
        Some(g) => g.point.is_some(),
        None => false,
    }
}

/// The event for connection `c` with the ends located at `src` and `dst`,
/// or `None` where the policy drops it.
pub fn build_event(
    c: ParsedConnection,
    src: Option<GeoLocation>,
    dst: Option<GeoLocation>,
    policy: LocationPolicy,
    timestamp: u64,
) -> (r: Option<ConnectionEvent>)
    ensures
        event_view(r) == event_spec(c, location_view(src), location_view(dst), policy, timestamp),
{
    if policy == LocationPolicy::Strict && !(is_located(&src) && is_located(&dst)) {
        return None;
    }
    Some(
        ConnectionEvent {
            source: Endpoint { ip: c.src_ip, port: c.src_port, location: src },
            destination: Endpoint { ip: c.dst_ip, port: c.dst_port, location: dst },
            protocol: c.protocol,
            timestamp,
        },
    )
}

/// What accepting a frame at `now` does: the tracker after it, and the
/// connection that passed decoding, the filter and the dedup window.
pub open spec fn accept_spec(
    policy: FilterPolicy,
    t: TrackerView,
    frame: Seq<u8>,
    now: u64,
) -> (TrackerView, Option<ParsedConnection>) {
    match parse_spec(frame) {
        None => (t, None),
        Some(c) => if !pair_admitted(policy.rule, policy.allow_list@, c.src_ip, c.dst_ip) {
            (t, None)
        } else {
            let (t2, fresh) = tracker_step(t, c.src_ip, c.dst_ip, now);
            (t2, if fresh { Some(c) } else { None })
        },
    }
}

/// The state that the capture loop carries from frame to frame.
pub struct CaptureState {
    pub filter: FilterPolicy,
    pub location_policy: LocationPolicy,
    pub tracker: ConnectionTracker,
}

impl CaptureState {
    /// A state with no pair seen, its dedup window starting at `now`.
    pub fn new(filter: FilterPolicy, location_policy: LocationPolicy, now: u64) -> (s: CaptureState)
        ensures
            s.filter == filter,
            s.location_policy == location_policy,
            s.tracker@ == (TrackerView { seen: Set::empty(), last_cleanup: now }),
    {
        CaptureState { filter, location_policy, tracker: ConnectionTracker::new(now) }
    }

    /// Decodes a frame and lets it through only if its pair passes the
    /// filter and has not been reported in the current window.
    pub fn accept_frame(&mut self, frame: &[u8], now: u64) -> (r: Option<ParsedConnection>)
        ensures
            (final(self).tracker@, r) == accept_spec(old(self).filter, old(self).tracker@, frame@, now),
            final(self).filter == old(self).filter,
            final(self).location_policy == old(self).location_policy,
    {
        let c = match parse_frame(frame) {
            Some(c) => c,
            None => return None,
        };
        if !self.filter.admits(c.src_ip, c.dst_ip) {
            return None;
        }
        if self.tracker.is_new_connection(c.src_ip, c.dst_ip, now) {
            Some(c)
        } else {
            None
        }
    }

    /// Runs one captured frame through the pipeline: the event to publish,
    /// if any. `now` is a monotonic time in milliseconds, which the dedup
    /// window is measured in; `timestamp` is what the event carries.
    pub fn process_frame(&mut self, frame: &[u8], now: u64, timestamp: u64, resolver: &GeoResolver) -> (r: Option<ConnectionEvent>)
        ensures
            ({
                let (t, admitted) = accept_spec(old(self).filter, old(self).tracker@, frame@, now);
                &&& final(self).tracker@ == t
                &&& match admitted {
                    None => r is None,
                    Some(c) => event_view(r) == event_spec(
                        c,
                        resolver.resolved(c.src_ip),
                        resolver.resolved(c.dst_ip),
                        old(self).location_policy,
                        timestamp,
                    ),
                }
            }),
            parse_spec(frame@) is None ==> r is None && final(self).tracker@ == old(self).tracker@,
            parse_spec(frame@) matches Some(c) && (hard_excluded(c.src_ip) || hard_excluded(c.dst_ip))
                ==> r is None,
            final(self).filter == old(self).filter,
            final(self).location_policy == old(self).location_policy,
    {
        let c = match self.accept_frame(frame, now) {
            Some(c) => c,
            None => return None,
        };
        let src = resolver.resolve(c.src_ip);
        let dst = resolver.resolve(c.dst_ip);
        build_event(c, src, dst, self.location_policy, timestamp)
    }
}

/// Within one dedup window a frame's pair yields at most one connection: once
/// a frame was accepted or refused, the same frame again in the same window
/// is refused.
pub proof fn lemma_repeat_within_window(policy: FilterPolicy, t: TrackerView, frame: Seq<u8>, n1: u64, n2: u64)
    ensures
        ({
            let t1 = accept_spec(policy, t, frame, n1).0;
            !window_expired(t1.last_cleanup, n2) ==> accept_spec(policy, t1, frame, n2).1 is None
        }),
{
}

/// After the window expired a frame whose pair passes the filter is accepted
/// again, whatever was seen before.
pub proof fn lemma_accepted_after_reset(policy: FilterPolicy, t: TrackerView, frame: Seq<u8>, now: u64)
    requires
        window_expired(t.last_cleanup, now),
        parse_spec(frame) matches Some(c) && pair_admitted(policy.rule, policy.allow_list@, c.src_ip, c.dst_ip),
    ensures
        accept_spec(policy, t, frame, now).1 == parse_spec(frame),
{
}

/// The frames `frames` (bytes, time) accepted in order from `t`: the tracker
/// after them, and what each yielded.
pub open spec fn accept_run(policy: FilterPolicy, t: TrackerView, frames: Seq<(Seq<u8>, u64)>) -> (
    TrackerView,
    Seq<Option<ParsedConnection>>,
)
    decreases frames.len(),
{
    if frames.len() == 0 {
        (t, Seq::empty())
    } else {
        let (t1, c) = accept_spec(policy, t, frames[0].0, frames[0].1);
        let (t2, rest) = accept_run(policy, t1, frames.drop_first());
        (t2, seq![c] + rest)
    }
}

/// None of the frames comes more than a window after the reset at `last`.
pub open spec fn frames_within_window(last: u64, frames: Seq<(Seq<u8>, u64)>) -> bool {
    forall|k: int| 0 <= k < frames.len() ==> !window_expired(last, #[trigger] frames[k].1)
}

/// Both frames decode, to the same ordered address pair.
pub open spec fn same_pair(a: Seq<u8>, b: Seq<u8>) -> bool {
    &&& parse_spec(a) is Some
    &&& parse_spec(b) is Some
    &&& parse_spec(a)->0.src_ip == parse_spec(b)->0.src_ip
    &&& parse_spec(a)->0.dst_ip == parse_spec(b)->0.dst_ip
}

proof fn lemma_accept_run_len(policy: FilterPolicy, t: TrackerView, frames: Seq<(Seq<u8>, u64)>)
    ensures
        accept_run(policy, t, frames).1.len() == frames.len(),
    decreases frames.len(),
{
    if frames.len() > 0 {
        let (t1, c) = accept_spec(policy, t, frames[0].0, frames[0].1);
        lemma_accept_run_len(policy, t1, frames.drop_first());
    }
}

/// A frame whose pair the filter refuses, or whose pair is already recorded,
/// yields nothing later in a run within the window.
proof fn lemma_refused_stays_refused(policy: FilterPolicy, t: TrackerView, frames: Seq<(Seq<u8>, u64)>, j: int)
    requires
        frames_within_window(t.last_cleanup, frames),
        0 <= j < frames.len(),
        parse_spec(frames[j].0) matches Some(c) && (!pair_admitted(policy.rule, policy.allow_list@, c.src_ip, c.dst_ip)
            || t.seen.contains(pair_key(c.src_ip, c.dst_ip))),
    ensures
        accept_run(policy, t, frames).1[j] is None,
    decreases frames.len(),
{
    let (t1, c0) = accept_spec(policy, t, frames[0].0, frames[0].1);
    assert(!window_expired(t.last_cleanup, frames[0].1));
    let rest = frames.drop_first();
    lemma_accept_run_len(policy, t1, rest);
    assert(accept_run(policy, t, frames).1 == seq![c0] + accept_run(policy, t1, rest).1);
    if j > 0 {
        assert forall|k: int| 0 <= k < rest.len() implies !window_expired(t1.last_cleanup, #[trigger] rest[k].1) by {
            assert(rest[k] == frames[k + 1]);
        }
        assert(rest[j - 1] == frames[j]);
        lemma_refused_stays_refused(policy, t1, rest, j - 1);
        assert(accept_run(policy, t, frames).1[j] == accept_run(policy, t1, rest).1[j - 1]);
    }
}

/// Within one dedup window an ordered pair yields at most one connection:
/// in a run of frames none of which comes after the window expired, a frame
/// of a pair that an earlier frame of the run already carried yields
/// nothing, whatever frames came between.
pub proof fn lemma_once_per_window_frames(policy: FilterPolicy, t: TrackerView, frames: Seq<(Seq<u8>, u64)>, i: int, j: int)
    requires
        frames_within_window(t.last_cleanup, frames),
        0 <= i < j < frames.len(),
        same_pair(frames[i].0, frames[j].0),
    ensures
        accept_run(policy, t, frames).1[j] is None,
    decreases frames.len(),
{
    let (t1, c0) = accept_spec(policy, t, frames[0].0, frames[0].1);
    assert(!window_expired(t.last_cleanup, frames[0].1));
    let rest = frames.drop_first();
    lemma_accept_run_len(policy, t1, rest);
    assert(accept_run(policy, t, frames).1 == seq![c0] + accept_run(policy, t1, rest).1);
    assert forall|k: int| 0 <= k < rest.len() implies !window_expired(t1.last_cleanup, #[trigger] rest[k].1) by {
        assert(rest[k] == frames[k + 1]);
    }
    assert(rest[j - 1] == frames[j]);
    if i == 0 {
        lemma_refused_stays_refused(policy, t1, rest, j - 1);
    } else {
        assert(rest[i - 1] == frames[i]);
        lemma_once_per_window_frames(policy, t1, rest, i - 1, j - 1);
    }
    assert(accept_run(policy, t, frames).1[j] == accept_run(policy, t1, rest).1[j - 1]);
}

} // verus!
