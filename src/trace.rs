//! Traceroute bookkeeping: one hop per TTL, probes per hop, and the stop
//! rule (the first hop that answers from the target ends the trace).

use vstd::prelude::*;

verus! {

/// One TTL of a trace: who answered, and each probe's round trip in
/// microseconds (`None` for no answer).
#[derive(Debug, Clone)]
pub struct Hop {
    pub ttl: u8,
    pub address: Option<String>,
    pub hostname: Option<String>,
    pub rtts_us: Vec<Option<u64>>,
    pub is_destination: bool,
}

impl Hop {
    /// A hop with no probe sent yet.
    pub fn new(ttl: u8) -> (r: Self)
        ensures
            r.ttl == ttl,
            r.address is None,
            r.hostname is None,
            r.rtts_us@ == Seq::<Option<u64>>::empty(),
            !r.is_destination,
    {
        Hop { ttl, address: None, hostname: None, rtts_us: Vec::new(), is_destination: false }
    }

    /// A probe answered by `address` after `rtt_us`; an answer from the
    /// target makes this the destination hop.
    pub fn record_reply(&mut self, address: String, rtt_us: u64, from_target: bool)
        ensures
            final(self).ttl == old(self).ttl,
            final(self).hostname == old(self).hostname,
            final(self).address == Some(address),
            final(self).rtts_us@ == old(self).rtts_us@.push(Some(rtt_us)),
            final(self).is_destination == (old(self).is_destination || from_target),
    {
        self.address = Some(address);
        self.rtts_us.push(Some(rtt_us));
        self.is_destination = self.is_destination || from_target;
    }

    /// A probe that got no answer in time.
    pub fn record_timeout(&mut self)
        ensures
            final(self).ttl == old(self).ttl,
            final(self).hostname == old(self).hostname,
            final(self).address == old(self).address,
            final(self).rtts_us@ == old(self).rtts_us@.push(None),
            final(self).is_destination == old(self).is_destination,
    {
        self.rtts_us.push(None);
    }
}

/// A trace in progress.
#[derive(Debug, Clone)]
pub struct TraceRun {
    hops: Vec<Hop>,
    max_hops: u8,
}

/// The finished trace.
#[derive(Debug, Clone)]
pub struct TraceSummary {
    pub hops: Vec<Hop>,
    pub reached_destination: bool,
    pub total_hops: u8,
}

impl TraceRun {
    pub closed spec fn hops_spec(&self) -> Seq<Hop> {
        self.hops@
    }

    pub closed spec fn max_hops_spec(&self) -> u8 {
        self.max_hops
    }

    /// Hops carry TTLs 1, 2, ...; no hop but the last reached the target;
    /// there are at most `max_hops`.
    pub open spec fn wf(&self) -> bool {
        &&& self.hops_spec().len() <= self.max_hops_spec()
        &&& forall|i: int|
            0 <= i < self.hops_spec().len() ==> (#[trigger] self.hops_spec()[i]).ttl == i + 1
        &&& forall|i: int|
            0 <= i < self.hops_spec().len() - 1 ==> !(#[trigger] self.hops_spec()[i]).is_destination
    }

    /// Whether the trace is over: the target answered or the TTL limit is
    /// reached.
    pub open spec fn done_spec(&self) -> bool {
        self.hops_spec().len() >= self.max_hops_spec() || (self.hops_spec().len() > 0
            && self.hops_spec().last().is_destination)
    }

    pub fn new(max_hops: u8) -> (r: Self)
        ensures
            r.wf(),
            r.hops_spec() == Seq::<Hop>::empty(),
            r.max_hops_spec() == max_hops,
    {
        TraceRun { hops: Vec::new(), max_hops }
    }

    /// The TTL to probe next, or `None` once the trace is over.
    pub fn next_ttl(&self) -> (r: Option<u8>)
        requires
            self.wf(),
        ensures
            self.done_spec() ==> r is None,
            !self.done_spec() ==> r == Some((self.hops_spec().len() + 1) as u8),
    {
        let n = self.hops.len();
        if n >= self.max_hops as usize || (n > 0 && self.hops[n - 1].is_destination) {
            None
        } else {
            Some((n + 1) as u8)
        }
    }

    /// Appends the hop probed at the TTL `next_ttl` gave.
    pub fn push_hop(&mut self, hop: Hop)
        requires
            old(self).wf(),
            !old(self).done_spec(),
            hop.ttl == old(self).hops_spec().len() + 1,
        ensures
            final(self).wf(),
            final(self).hops_spec() == old(self).hops_spec().push(hop),
            final(self).max_hops_spec() == old(self).max_hops_spec(),
    {
        self.hops.push(hop);
    }

    /// The trace as a result: the destination was reached when its last
    /// hop answered from the target.
    pub fn finish(self) -> (r: TraceSummary)
        requires
            self.wf(),
        ensures
            r.hops@ == self.hops_spec(),
            r.total_hops == self.hops_spec().len(),
            r.reached_destination == (self.hops_spec().len() > 0
                && self.hops_spec().last().is_destination),
            r.reached_destination <==> exists|i: int|
                0 <= i < r.hops@.len() && (#[trigger] r.hops@[i]).is_destination,
    {
        let n = self.hops.len();
        let reached = n > 0 && self.hops[n - 1].is_destination;
        proof {
            if reached {
                assert(self.hops@[n - 1].is_destination);
            }
        }
        TraceSummary { hops: self.hops, reached_destination: reached, total_hops: n as u8 }
    }
}

} // verus!
