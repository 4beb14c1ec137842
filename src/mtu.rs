//! Path-MTU discovery: the binary search over probe sizes, as a state
//! machine. The caller sends each probe the machine asks for and reports
//! whether a reply came back.

use vstd::prelude::*;

verus! {

#[derive(Debug, Clone, Copy, PartialEq, Eq, Structural)]
pub enum MtuPhase {
    /// The largest size is probed first.
    TryMax,
    /// Then the smallest.
    TryMin,
    /// Then the interval `(low, high)` is halved.
    Bisect,
    Done,
}

/// Search state: `low` is the largest size known to pass, `high` the smallest
/// known to fail, `result` the answer so far.
#[derive(Debug, Clone, Copy, PartialEq, Eq, Structural)]
pub struct MtuState {
    pub min_mtu: u16,
    pub max_mtu: u16,
    pub low: u16,
    pub high: u16,
    pub result: u16,
    pub phase: MtuPhase,
}

/// One probe sent: its size, whether it got through, and its round trip in
/// microseconds when it did.
#[derive(Debug, Clone, Copy, PartialEq, Eq, Structural)]
pub struct MtuProbe {
    pub mtu_size: u16,
    pub success: bool,
    pub rtt_us: Option<u64>,
}

pub open spec fn initial_state(min_mtu: u16, max_mtu: u16) -> MtuState {
    MtuState {
        min_mtu,
        max_mtu,
        low: min_mtu,
        high: max_mtu,
        result: min_mtu,
        phase: MtuPhase::TryMax,
    }
}

/// The size to probe next; `None` once the search is over.
pub open spec fn next_size(s: MtuState) -> Option<u16> {
    match s.phase {
        MtuPhase::TryMax => Some(s.max_mtu),
        MtuPhase::TryMin => Some(s.min_mtu),
        MtuPhase::Bisect => Some(((s.low + s.high) / 2) as u16),
        MtuPhase::Done => None,
    }
}

/// Bisection goes on while a size lies strictly between `low` and `high`.
pub open spec fn bisect_or_done(low: u16, high: u16) -> MtuPhase {
    if low + 1 < high {
        MtuPhase::Bisect
    } else {
        MtuPhase::Done
    }
}

/// The state after the probe of `next_size(s)` passed (`ok`) or failed.
/// A passing maximum ends the search at the maximum; a failing minimum
/// ends it at the minimum.
pub open spec fn step(s: MtuState, ok: bool) -> MtuState {
    match s.phase {
        MtuPhase::TryMax => if ok {
            MtuState { result: s.max_mtu, phase: MtuPhase::Done, ..s }
        } else {
            MtuState { phase: MtuPhase::TryMin, ..s }
        },
        MtuPhase::TryMin => if ok {
            MtuState {
                low: s.min_mtu,
                high: s.max_mtu,
                result: s.min_mtu,
                phase: bisect_or_done(s.min_mtu, s.max_mtu),
                ..s
            }
        } else {
            MtuState { result: s.min_mtu, phase: MtuPhase::Done, ..s }
        },
        MtuPhase::Bisect => {
            let mid = ((s.low + s.high) / 2) as u16;
            if ok {
                MtuState { low: mid, result: mid, phase: bisect_or_done(mid, s.high), ..s }
            } else {
                MtuState { high: mid, phase: bisect_or_done(s.low, mid), ..s }
            }
        },
        MtuPhase::Done => s,
    }
}

pub open spec fn measure(s: MtuState) -> int {
    match s.phase {
        MtuPhase::TryMax => 200000,
        MtuPhase::TryMin => 100000,
        MtuPhase::Bisect => s.high - s.low,
        MtuPhase::Done => 0,
    }
}

/// Bisection states keep `low < high`.
pub open spec fn state_ok(s: MtuState) -> bool {
    s.phase == MtuPhase::Bisect ==> s.low + 1 < s.high
}

/// The search run to its end against a path that passes exactly the sizes
/// up to `limit`.
pub open spec fn run_against(s: MtuState, limit: u16) -> MtuState
    decreases measure(s),
    when state_ok(s)
{
    match next_size(s) {
        None => s,
        Some(size) => run_against(step(s, size <= limit), limit),
    }
}

proof fn lemma_run_bisect(s: MtuState, limit: u16)
    requires
        s.phase == MtuPhase::Bisect || s.phase == MtuPhase::Done,
        s.phase == MtuPhase::Done ==> s.low + 1 >= s.high,
        state_ok(s),
        s.low <= limit < s.high,
        s.result == s.low,
    ensures
        run_against(s, limit).phase == MtuPhase::Done,
        run_against(s, limit).result == limit,
    decreases s.high - s.low,
{
    if s.phase == MtuPhase::Bisect {
        let mid = ((s.low + s.high) / 2) as u16;
        let t = step(s, mid <= limit);
        assert(run_against(s, limit) == run_against(t, limit));
        lemma_run_bisect(t, limit);
    } else {
        assert(run_against(s, limit) == s);
    }
}

/// Against a path that passes exactly the sizes up to `limit`, the search
/// ends with the largest passing size in `[min_mtu, max_mtu]`: `max_mtu` when
/// the limit reaches it, `min_mtu` when the limit is below it, else `limit`.
pub proof fn law_mtu_search_finds_limit(min_mtu: u16, max_mtu: u16, limit: u16)
    ensures
        run_against(initial_state(min_mtu, max_mtu), limit).phase == MtuPhase::Done,
        run_against(initial_state(min_mtu, max_mtu), limit).result == if limit >= max_mtu {
            max_mtu
        } else if limit < min_mtu {
            min_mtu
        } else {
            limit
        },
{
    let s0 = initial_state(min_mtu, max_mtu);
    assert(state_ok(s0));
    if limit < max_mtu {
        let s1 = step(s0, false);
        assert(run_against(s0, limit) == run_against(s1, limit));
        assert(state_ok(s1));
        let s2 = step(s1, min_mtu <= limit);
        assert(state_ok(s2));
        assert(run_against(s1, limit) == run_against(s2, limit));
        if limit >= min_mtu {
            lemma_run_bisect(s2, limit);
        } else {
            assert(run_against(s2, limit) == s2);
        }
    } else {
        let s1 = step(s0, true);
        assert(run_against(s0, limit) == run_against(s1, limit));
        assert(run_against(s1, limit) == s1);
    }
}

/// A running path-MTU search and the probes sent so far.
#[derive(Debug, Clone)]
pub struct MtuSearch {
    state: MtuState,
    probes: Vec<MtuProbe>,
}

impl MtuSearch {
    pub closed spec fn state(&self) -> MtuState {
        self.state
    }

    pub closed spec fn probes_spec(&self) -> Seq<MtuProbe> {
        self.probes@
    }

    pub open spec fn wf(&self) -> bool {
        state_ok(self.state())
    }

    /// A search over `[min_mtu, max_mtu]` that has sent nothing yet.
    pub fn new(min_mtu: u16, max_mtu: u16) -> (r: Self)
        ensures
            r.wf(),
            r.state() == initial_state(min_mtu, max_mtu),
            r.probes_spec() == Seq::<MtuProbe>::empty(),
    {
        MtuSearch {
            state: MtuState {
                min_mtu,
                max_mtu,
                low: min_mtu,
                high: max_mtu,
                result: min_mtu,
                phase: MtuPhase::TryMax,
            },
            probes: Vec::new(),
        }
    }

    /// The size to probe next, or `None` when the search is over.
    pub fn next_probe(&self) -> (r: Option<u16>)
        requires
            self.wf(),
        ensures
            r == next_size(self.state()),
    {
        let s = self.state;
        match s.phase {
            MtuPhase::TryMax => Some(s.max_mtu),
            MtuPhase::TryMin => Some(s.min_mtu),
            MtuPhase::Bisect => Some(((s.low as u32 + s.high as u32) / 2) as u16),
            MtuPhase::Done => None,
        }
    }

    /// Records the outcome of the probe that `next_probe` asked for; the
    /// round trip is kept only for a probe that got through.
    pub fn record(&mut self, success: bool, rtt_us: u64)
        requires
            old(self).wf(),
            next_size(old(self).state()) is Some,
        ensures
            final(self).wf(),
            final(self).state() == step(old(self).state(), success),
            final(self).probes_spec() == old(self).probes_spec().push(
                MtuProbe {
                    mtu_size: next_size(old(self).state())->0,
                    success,
                    rtt_us: if success {
                        Some(rtt_us)
                    } else {
                        None
                    },
                },
            ),
    {
        let size = match self.next_probe() {
            Some(x) => x,
            None => 0,
        };
        self.probes.push(
            MtuProbe {
                mtu_size: size,
                success,
                rtt_us: if success {
                    Some(rtt_us)
                } else {
                    None
                },
            },
        );
        let s = self.state;
        let next = match s.phase {
            MtuPhase::TryMax => if success {
                MtuState { result: s.max_mtu, phase: MtuPhase::Done, ..s }
            } else {
                MtuState { phase: MtuPhase::TryMin, ..s }
            },
            MtuPhase::TryMin => if success {
                MtuState {
                    low: s.min_mtu,
                    high: s.max_mtu,
                    result: s.min_mtu,
                    phase: if (s.min_mtu as u32) + 1 < s.max_mtu as u32 {
                        MtuPhase::Bisect
                    } else {
                        MtuPhase::Done
                    },
                    ..s
                }
            } else {
                MtuState { result: s.min_mtu, phase: MtuPhase::Done, ..s }
            },
            MtuPhase::Bisect => {
                let mid = size;
                if success {
                    MtuState {
                        low: mid,
                        result: mid,
                        phase: if (mid as u32) + 1 < s.high as u32 {
                            MtuPhase::Bisect
                        } else {
                            MtuPhase::Done
                        },
                        ..s
                    }
                } else {
                    MtuState {
                        high: mid,
                        phase: if (s.low as u32) + 1 < mid as u32 {
                            MtuPhase::Bisect
                        } else {
                            MtuPhase::Done
                        },
                        ..s
                    }
                }
            },
            MtuPhase::Done => s,
        };
        self.state = next;
    }

    pub fn is_done(&self) -> (r: bool)
        ensures
            r == (self.state().phase == MtuPhase::Done),
    {
        self.state.phase == MtuPhase::Done
    }

    /// The path MTU found (the answer so far while the search runs).
    pub fn path_mtu(&self) -> (r: u16)
        ensures
            r == self.state().result,
    {
        self.state.result
    }

    pub fn min_tested(&self) -> (r: u16)
        ensures
            r == self.state().min_mtu,
    {
        self.state.min_mtu
    }

    pub fn max_tested(&self) -> (r: u16)
        ensures
            r == self.state().max_mtu,
    {
        self.state.max_mtu
    }

    /// The probes sent, in order.
    pub fn probes(&self) -> (r: &Vec<MtuProbe>)
        ensures
            r@ == self.probes_spec(),
    {
        &self.probes
    }
}

} // verus!
