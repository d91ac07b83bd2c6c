//! Which address pairs are worth reporting.
//!
//! A pair is never reported when either side is loopback, unspecified or
//! broadcast. Beyond that, a side is eligible when it lies outside the
//! private ranges or is on the allow-list, and the pair rule decides whether
//! one eligible side suffices or both are needed. The default policy asks for
//! one eligible side and allow-lists two public resolvers.
use vstd::prelude::*;
use crate::addr::{Ipv4, is_loopback, is_unspecified, is_broadcast, is_private};

verus! {

/// How the eligibility of the two sides combines.
#[derive(Clone, Copy, Debug, PartialEq, Eq, Structural)]
pub enum PairRule {
    /// At least one side must be eligible.
    EitherSide,
    /// Both sides must be eligible.
    BothSides,
}

/// The filter's configuration.
#[derive(Clone, Debug)]
pub struct FilterPolicy {
    pub rule: PairRule,
    /// Addresses that count as eligible although they lie in a private range.
    pub allow_list: Vec<Ipv4>,
}

/// Loopback, unspecified and broadcast addresses, which no policy admits.
pub open spec fn hard_excluded(a: Ipv4) -> bool {
    is_loopback(a) || is_unspecified(a) || is_broadcast(a)
}

/// One side is eligible under the policy's allow-list.
pub open spec fn side_eligible(allow: Seq<Ipv4>, a: Ipv4) -> bool {
    !hard_excluded(a) && (allow.contains(a) || !is_private(a))
}

/// The pair `(src, dst)` passes the filter.
pub open spec fn pair_admitted(rule: PairRule, allow: Seq<Ipv4>, src: Ipv4, dst: Ipv4) -> bool {
    &&& !hard_excluded(src)
    &&& !hard_excluded(dst)
    &&& match rule {
        PairRule::EitherSide => side_eligible(allow, src) || side_eligible(allow, dst),
        PairRule::BothSides => side_eligible(allow, src) && side_eligible(allow, dst),
    }
}

impl FilterPolicy {
    /// One eligible side suffices; `8.8.8.8` and `8.8.4.4` are allow-listed.
    pub fn default_policy() -> (p: FilterPolicy)
        ensures
            p.rule == PairRule::EitherSide,
            p.allow_list@ == seq![Ipv4 { bits: 0x0808_0808 }, Ipv4 { bits: 0x0808_0404 }],
    {
        let mut allow_list: Vec<Ipv4> = Vec::new();
        allow_list.push(Ipv4 { bits: 0x0808_0808 });
        allow_list.push(Ipv4 { bits: 0x0808_0404 });
        FilterPolicy { rule: PairRule::EitherSide, allow_list }
    }

    /// Whether `ip` is on the allow-list.
    pub fn allows(&self, ip: Ipv4) -> (r: bool)
        ensures
            r == self.allow_list@.contains(ip),
    {
        let mut i: usize = 0;
        while i < self.allow_list.len()
            invariant
                i <= self.allow_list@.len(),
                forall|j: int| 0 <= j < i ==> self.allow_list@[j] != ip,
            decreases self.allow_list@.len() - i,
        {
            if self.allow_list[i] == ip {
                assert(self.allow_list@[i as int] == ip);
                return true;
            }
            i = i + 1;
        }
        false
    }

    /// Whether one side of a pair is eligible on its own.
    pub fn should_track_ip(&self, ip: Ipv4) -> (r: bool)
        ensures
            r == side_eligible(self.allow_list@, ip),
    {
        if ip.is_loopback() || ip.is_broadcast() || ip.is_unspecified() {
            return false;
        }
        if self.allows(ip) {
            return true;
        }
        !ip.is_private()
    }

    /// Whether the pair `(src, dst)` passes the filter.
    pub fn admits(&self, src: Ipv4, dst: Ipv4) -> (r: bool)
        ensures
            r == pair_admitted(self.rule, self.allow_list@, src, dst),
    {
        if src.is_loopback() || src.is_broadcast() || src.is_unspecified() {
            return false;
        }
        if dst.is_loopback() || dst.is_broadcast() || dst.is_unspecified() {
            return false;
        }
        let s = self.should_track_ip(src);
        let d = self.should_track_ip(dst);
        match self.rule {
            PairRule::EitherSide => s || d,
            PairRule::BothSides => s && d,
        }
    }
}

/// No policy admits a pair one of whose sides is loopback, unspecified or
/// broadcast, whatever its allow-list holds.
pub proof fn lemma_excluded_never_admitted(rule: PairRule, allow: Seq<Ipv4>, src: Ipv4, dst: Ipv4)
    requires
        hard_excluded(src) || hard_excluded(dst),
    ensures
        !pair_admitted(rule, allow, src, dst),
{
}

} // verus!
