//! Spread of a measurement series (population standard deviation, jitter)
//! and the summaries of the latency, ping and bandwidth benchmarks.

use vstd::prelude::*;
use crate::stats::{
    lemma_sorted_samples_props, percent_hundredths, percentile, percentile_of, rate_hundredths,
    seq_sum, sort_samples, sorted_samples,
};
use crate::bench::{lemma_min_max, seq_max, seq_min};
use crate::stats::lemma_percentile_index_monotone;

verus! {

/// Sum of the squares of the values.
pub open spec fn sum_sq(s: Seq<u64>) -> int
    decreases s.len(),
{
    if s.len() == 0 {
        0
    } else {
        sum_sq(s.drop_last()) + (s.last() as int) * (s.last() as int)
    }
}

/// `n * sum(x^2) - sum(x)^2`: `n^2` times the population variance.
pub open spec fn spread(s: Seq<u64>) -> int {
    (s.len() as int) * sum_sq(s) - seq_sum(s) * seq_sum(s)
}

/// Sum of the squared distances of the values from `x`.
pub open spec fn dev_sum(s: Seq<u64>, x: int) -> int
    decreases s.len(),
{
    if s.len() == 0 {
        0
    } else {
        dev_sum(s.drop_last(), x) + (s.last() - x) * (s.last() - x)
    }
}

/// `r` is the population standard deviation of `s`, rounded down: with `n`
/// values, `r^2 <= variance < (r + 1)^2`, i.e. `r^2 n^2 <= spread < (r+1)^2 n^2`.
/// For no values it is 0.
pub open spec fn is_stddev_floor(s: Seq<u64>, r: nat) -> bool {
    let n = s.len() as int;
    if n == 0 {
        r == 0
    } else {
        r * r * n * n <= spread(s) < (r + 1) * (r + 1) * n * n
    }
}

/// The series is small enough for its spread to be computed in 128 bits.
pub open spec fn spread_fits(s: Seq<u64>) -> bool {
    (s.len() as int) * sum_sq(s) <= u128::MAX
}

proof fn lemma_dev_sum_identity(s: Seq<u64>, x: int)
    ensures
        dev_sum(s, x) == sum_sq(s) - 2 * x * seq_sum(s) + (s.len() as int) * x * x,
        dev_sum(s, x) >= 0,
    decreases s.len(),
{
    if s.len() > 0 {
        let t = s.drop_last();
        let y = s.last() as int;
        lemma_dev_sum_identity(t, x);
        assert((y - x) * (y - x) == y * y - 2 * x * y + x * x) by (nonlinear_arith);
        assert(2 * x * seq_sum(s) == 2 * x * seq_sum(t) + 2 * x * y) by (nonlinear_arith)
            requires
                seq_sum(s) == seq_sum(t) + y,
        ;
        assert((s.len() as int) * x * x == (t.len() as int) * x * x + x * x) by (nonlinear_arith)
            requires
                s.len() == t.len() + 1,
        ;
        assert((y - x) * (y - x) >= 0) by (nonlinear_arith);
    }
}

proof fn lemma_spread_nonneg(s: Seq<u64>)
    ensures
        spread(s) >= 0,
        sum_sq(s) >= 0,
    decreases s.len(),
{
    if s.len() > 0 {
        let t = s.drop_last();
        let x = s.last() as int;
        lemma_spread_nonneg(t);
        lemma_dev_sum_identity(t, x);
        let n = t.len() as int;
        let a = sum_sq(t);
        let b = seq_sum(t);
        assert((n + 1) * (a + x * x) - (b + x) * (b + x) == (n * a - b * b) + (a - 2 * x * b + n
            * x * x)) by (nonlinear_arith);
        assert(x * x >= 0) by (nonlinear_arith);
    }
}

proof fn lemma_prefix_sums(s: Seq<u64>, i: int)
    requires
        0 <= i < s.len(),
    ensures
        seq_sum(s.take(i + 1)) == seq_sum(s.take(i)) + s[i],
        sum_sq(s.take(i + 1)) == sum_sq(s.take(i)) + (s[i] as int) * (s[i] as int),
{
    assert(s.take(i + 1).drop_last() =~= s.take(i));
}

proof fn lemma_sum_sq_monotone(s: Seq<u64>, i: int)
    requires
        0 <= i <= s.len(),
    ensures
        0 <= sum_sq(s.take(i)) <= sum_sq(s),
        0 <= seq_sum(s.take(i)) <= seq_sum(s),
    decreases s.len() - i,
{
    if i < s.len() {
        lemma_prefix_sums(s, i);
        lemma_sum_sq_monotone(s, i + 1);
        lemma_spread_nonneg(s.take(i));
        lemma_sum_nonneg(s.take(i));
        assert((s[i] as int) * (s[i] as int) >= 0) by (nonlinear_arith);
    } else {
        assert(s.take(i) =~= s);
        lemma_spread_nonneg(s);
        lemma_sum_nonneg(s);
    }
}

proof fn lemma_sum_nonneg(s: Seq<u64>)
    ensures
        seq_sum(s) >= 0,
    decreases s.len(),
{
    if s.len() > 0 {
        lemma_sum_nonneg(s.drop_last());
    }
}

/// Largest `r` with `r * r <= n`.
fn isqrt(n: u128) -> (r: u128)
    ensures
        r * r <= n < (r + 1) * (r + 1),
{
    let mut lo: u128 = 0;
    let mut hi: u128 = 0x1_0000_0000_0000_0000;
    assert(n < hi * hi) by (nonlinear_arith)
        requires
            hi == 0x1_0000_0000_0000_0000u128,
            n <= u128::MAX,
    ;
    while hi - lo > 1
        invariant
            lo < hi <= 0x1_0000_0000_0000_0000u128,
            lo * lo <= n < hi * hi,
        decreases hi - lo,
    {
        let mid = lo + (hi - lo) / 2;
        assert(mid * mid < 0x1_0000_0000_0000_0000_0000_0000_0000_0000int) by (nonlinear_arith)
            requires
                mid < 0x1_0000_0000_0000_0000u128,
        ;
        if mid * mid <= n {
            lo = mid;
        } else {
            hi = mid;
        }
    }
    lo
}

/// Population standard deviation of the values, rounded down; 0 for fewer
/// than two values.
pub fn population_stddev(values: &Vec<u64>) -> (r: u64)
    requires
        spread_fits(values@),
    ensures
        is_stddev_floor(values@, r as nat),
{
    let n = values.len();
    if n == 0 {
        return 0;
    }
    let mut s1: u128 = 0;
    let mut s2: u128 = 0;
    let mut i: usize = 0;
    proof {
        lemma_spread_nonneg(values@);
        lemma_sum_nonneg(values@);
        crate::stats::lemma_sum_within_bound(values@);
    }
    while i < n
        invariant
            n == values@.len(),
            i <= n,
            n > 0,
            s1 == seq_sum(values@.take(i as int)),
            s2 == sum_sq(values@.take(i as int)),
            spread_fits(values@),
            seq_sum(values@) <= n * 0xffff_ffff_ffff_ffffu128,
        decreases n - i,
    {
        proof {
            lemma_prefix_sums(values@, i as int);
            lemma_sum_sq_monotone(values@, i as int + 1);
            assert(sum_sq(values@) <= (n as int) * sum_sq(values@)) by (nonlinear_arith)
                requires
                    n >= 1,
                    sum_sq(values@) >= 0,
            ;
            crate::stats::lemma_sum_within_bound(values@);
            assert(n * 0xffff_ffff_ffff_ffffu128 <= u128::MAX) by (nonlinear_arith)
                requires
                    n <= 0xffff_ffff_ffff_ffffu128,
            ;
        }
        let x = values[i] as u128;
        s1 = s1 + x;
        s2 = s2 + x * x;
        i = i + 1;
    }
    assert(values@.take(n as int) =~= values@);
    let ghost sp = spread(values@);
    assert(s1 * s1 <= (n as int) * s2);
    let a = (n as u128) * s2;
    let b = s1 * s1;
    let total = a - b;
    let root = isqrt(total);
    let r = root / (n as u128);
    proof {
        let nn = n as int;
        let rr = r as int;
        let ss = root as int;
        assert(rr * nn <= ss) by (nonlinear_arith)
            requires
                rr == ss / nn,
                nn > 0,
                ss >= 0,
        ;
        assert(ss < (rr + 1) * nn) by (nonlinear_arith)
            requires
                rr == ss / nn,
                nn > 0,
                ss >= 0,
        ;
        assert(rr * rr * nn * nn <= ss * ss) by (nonlinear_arith)
            requires
                0 <= rr * nn <= ss,
                rr >= 0,
        ;
        assert((ss + 1) * (ss + 1) <= (rr + 1) * (rr + 1) * nn * nn) by (nonlinear_arith)
            requires
                ss + 1 <= (rr + 1) * nn,
                ss >= 0,
        ;
        assert(ss < 0x1_0000_0000_0000_0000u128) by (nonlinear_arith)
            requires
                ss * ss <= u128::MAX,
                ss >= 0,
        ;
        assert(rr <= 0xffff_ffff_ffff_ffffu128) by (nonlinear_arith)
            requires
                rr * nn <= ss,
                ss < 0x1_0000_0000_0000_0000u128,
                nn >= 1,
                rr >= 0,
        ;
    }
    r as u64
}

/// Summary of a latency benchmark: attempts, successes, failures, success
/// rate in hundredths of a percent, and statistics over the successful
/// round trips (microseconds), all 0 when none succeeded.
#[derive(Debug, Clone, Copy, PartialEq, Eq, Structural)]
pub struct LatencySummary {
    pub count: usize,
    pub success_count: usize,
    pub failure_count: usize,
    pub success_rate_hundredths: u64,
    pub min_us: u64,
    pub max_us: u64,
    pub avg_us: u64,
    pub stddev_us: u64,
    pub p50_us: u64,
    pub p95_us: u64,
    pub p99_us: u64,
}

impl LatencySummary {
    /// Counts add up and the rate is the share of successes.
    pub open spec fn wf(&self) -> bool {
        &&& self.success_count + self.failure_count == self.count
        &&& self.success_rate_hundredths == rate_hundredths(
            self.success_count as nat,
            self.count as nat,
        )
    }
}

/// Summarizes `attempts` latency probes whose successful round trips are
/// `samples` (microseconds): percentiles by the `ceil(len * p / 100) - 1`
/// rule, population standard deviation rounded down.
pub fn summarize_latency(samples: &Vec<u64>, attempts: usize) -> (r: LatencySummary)
    requires
        samples@.len() <= attempts,
        spread_fits(samples@),
    ensures
        r.wf(),
        r.count == attempts,
        r.success_count == samples@.len(),
        samples@.len() == 0 ==> r.min_us == 0 && r.max_us == 0 && r.avg_us == 0 && r.stddev_us
            == 0 && r.p50_us == 0 && r.p95_us == 0 && r.p99_us == 0,
        samples@.len() > 0 ==> {
            &&& r.min_us == seq_min(samples@)
            &&& r.max_us == seq_max(samples@)
            &&& r.avg_us == seq_sum(samples@) / (samples@.len() as int)
            &&& is_stddev_floor(samples@, r.stddev_us as nat)
            &&& r.p50_us == percentile_of(sorted_samples(samples@), 50)
            &&& r.p95_us == percentile_of(sorted_samples(samples@), 95)
            &&& r.p99_us == percentile_of(sorted_samples(samples@), 99)
        },
{
    let n = samples.len();
    let rate = percent_hundredths(n as u64, attempts as u64);
    if n == 0 {
        return LatencySummary {
            count: attempts,
            success_count: 0,
            failure_count: attempts,
            success_rate_hundredths: rate,
            min_us: 0,
            max_us: 0,
            avg_us: 0,
            stddev_us: 0,
            p50_us: 0,
            p95_us: 0,
            p99_us: 0,
        };
    }
    let mut min = samples[0];
    let mut max = samples[0];
    let mut sum: u128 = samples[0] as u128;
    let mut sorted: Vec<u64> = Vec::new();
    sorted.push(samples[0]);
    let mut i: usize = 1;
    assert(samples@.take(1).drop_last() =~= Seq::<u64>::empty());
    assert(samples@.take(1).last() == samples@[0]);
    assert(seq_sum(samples@.take(1).drop_last()) == 0);
    assert(seq_sum(samples@.take(1)) == samples@[0]);
    assert(sorted@ =~= samples@.take(1));
    while i < n
        invariant
            n == samples@.len(),
            1 <= i <= n,
            min == seq_min(samples@.take(i as int)),
            max == seq_max(samples@.take(i as int)),
            sum == seq_sum(samples@.take(i as int)),
            sum <= i * 0xffff_ffff_ffff_ffffu128,
            sorted@ == samples@.take(i as int),
        decreases n - i,
    {
        assert(samples@.take(i as int + 1).drop_last() =~= samples@.take(i as int));
        let x = samples[i];
        if x < min {
            min = x;
        }
        if x > max {
            max = x;
        }
        sum = sum + x as u128;
        sorted.push(x);
        i = i + 1;
        assert(sorted@ =~= samples@.take(i as int));
    }
    assert(samples@.take(n as int) =~= samples@);
    assert((sum as int) / (n as int) <= 0xffff_ffff_ffff_ffffu128) by (nonlinear_arith)
        requires
            sum <= n * 0xffff_ffff_ffff_ffffu128,
            n >= 1,
    ;
    let avg = (sum / (n as u128)) as u64;
    sort_samples(&mut sorted);
    let stddev = population_stddev(samples);
    LatencySummary {
        count: attempts,
        success_count: n,
        failure_count: attempts - n,
        success_rate_hundredths: rate,
        min_us: min,
        max_us: max,
        avg_us: avg,
        stddev_us: stddev,
        p50_us: percentile(&sorted, 50),
        p95_us: percentile(&sorted, 95),
        p99_us: percentile(&sorted, 99),
    }
}

/// For every latency summary: `success_count + failure_count = count`, and
/// the success rate is `100 * success_count / count` (0 when `count` is 0).
pub proof fn law_latency_counts(r: LatencySummary)
    requires
        r.wf(),
    ensures
        r.success_count + r.failure_count == r.count,
        r.count > 0 ==> r.success_rate_hundredths == r.success_count * 10000 / (r.count as int),
        r.count == 0 ==> r.success_rate_hundredths == 0,
{
}

proof fn lemma_sorted_element_bounded(s: Seq<u64>, k: int)
    requires
        s.len() > 0,
        0 <= k < s.len(),
    ensures
        s.contains(sorted_samples(s)[k]),
        seq_min(s) <= sorted_samples(s)[k] <= seq_max(s),
{
    broadcast use vstd::seq_lib::group_to_multiset_ensures;

    lemma_sorted_samples_props(s);
    let t = sorted_samples(s);
    assert(t.contains(t[k]));
    assert(t.to_multiset().count(t[k]) > 0);
    assert(s.contains(t[k]));
    let i = choose|i: int| 0 <= i < s.len() && s[i] == t[k];
    lemma_min_max(s);
    assert(seq_min(s) <= s[i] <= seq_max(s));
}

/// On any non-empty sample set the latency figures are ordered,
/// `min <= p50 <= p95 <= p99 <= max`, and each percentile is one of the
/// samples.
pub proof fn law_latency_percentiles_ordered(samples: Seq<u64>)
    requires
        samples.len() > 0,
    ensures
        seq_min(samples) <= percentile_of(sorted_samples(samples), 50),
        percentile_of(sorted_samples(samples), 50) <= percentile_of(sorted_samples(samples), 95),
        percentile_of(sorted_samples(samples), 95) <= percentile_of(sorted_samples(samples), 99),
        percentile_of(sorted_samples(samples), 99) <= seq_max(samples),
        samples.contains(percentile_of(sorted_samples(samples), 50)),
        samples.contains(percentile_of(sorted_samples(samples), 95)),
        samples.contains(percentile_of(sorted_samples(samples), 99)),
{
    lemma_sorted_samples_props(samples);
    let n = samples.len();
    lemma_percentile_index_monotone(n, 50, 95);
    lemma_percentile_index_monotone(n, 95, 99);
    lemma_percentile_index_monotone(n, 99, 100);
    lemma_sorted_element_bounded(samples, crate::stats::percentile_index(n, 50));
    lemma_sorted_element_bounded(samples, crate::stats::percentile_index(n, 95));
    lemma_sorted_element_bounded(samples, crate::stats::percentile_index(n, 99));
}

/// Summary of an ICMP or TCP ping run (round trips in microseconds).
#[derive(Debug, Clone, Copy, PartialEq, Eq, Structural)]
pub struct PingSummary {
    pub transmitted: u32,
    pub received: u32,
    pub packet_loss_hundredths: u64,
    pub min_us: u64,
    pub max_us: u64,
    pub avg_us: u64,
    pub stddev_us: u64,
}

/// Packet loss in hundredths of a percent: 100% when nothing came back,
/// else `(sent - received) / sent`.
pub open spec fn packet_loss_spec(sent: nat, received: nat) -> nat {
    if received == 0 {
        10000
    } else {
        rate_hundredths((sent - received) as nat, sent)
    }
}

/// Summarizes `transmitted` echo requests whose replies took `rtts`.
pub fn summarize_ping(transmitted: u32, rtts: &Vec<u64>) -> (r: PingSummary)
    requires
        rtts@.len() <= transmitted,
        spread_fits(rtts@),
    ensures
        r.transmitted == transmitted,
        r.received == rtts@.len(),
        r.packet_loss_hundredths == packet_loss_spec(transmitted as nat, rtts@.len()),
        rtts@.len() == 0 ==> r.min_us == 0 && r.max_us == 0 && r.avg_us == 0 && r.stddev_us == 0,
        rtts@.len() > 0 ==> {
            &&& r.min_us == seq_min(rtts@)
            &&& r.max_us == seq_max(rtts@)
            &&& r.avg_us == seq_sum(rtts@) / (rtts@.len() as int)
            &&& is_stddev_floor(rtts@, r.stddev_us as nat)
        },
{
    let received = rtts.len() as u32;
    let s = summarize_latency(rtts, rtts.len());
    let loss = if received == 0 {
        10000
    } else {
        percent_hundredths((transmitted - received) as u64, transmitted as u64)
    };
    PingSummary {
        transmitted,
        received,
        packet_loss_hundredths: loss,
        min_us: s.min_us,
        max_us: s.max_us,
        avg_us: s.avg_us,
        stddev_us: s.stddev_us,
    }
}

/// Throughput of one bandwidth-test direction, in bits per second.
#[derive(Debug, Clone)]
pub struct DirectionStats {
    pub bytes_transferred: u64,
    pub bandwidth_bps: u128,
    pub peak_bps: u64,
    pub jitter_bps: u64,
    pub per_second_bps: Vec<u64>,
}

/// Bits per second over a run: `8 * bytes / elapsed`, rounded down; 0 for
/// no elapsed time.
pub open spec fn bits_per_second(bytes: nat, elapsed_us: nat) -> nat {
    if elapsed_us == 0 {
        0
    } else {
        bytes * 8_000_000 / elapsed_us
    }
}

/// Per-second byte counts as bit counts.
pub open spec fn as_bits(s: Seq<u64>) -> Seq<u64> {
    Seq::new(s.len(), |i: int| (s[i] * 8) as u64)
}

/// Jitter of a per-second series: population standard deviation, 0 for
/// fewer than two seconds.
pub open spec fn is_jitter(s: Seq<u64>, r: nat) -> bool {
    if s.len() <= 1 {
        r == 0
    } else {
        is_stddev_floor(s, r)
    }
}

/// Throughput figures of one direction from the bytes moved, the elapsed
/// time in microseconds, and the bytes moved in each second: average rate,
/// peak per-second rate (0 with no seconds), and jitter.
pub fn direction_stats(total_bytes: u64, elapsed_us: u64, per_second_bytes: &Vec<u64>) -> (r:
    DirectionStats)
    requires
        forall|i: int|
            0 <= i < per_second_bytes@.len() ==> #[trigger] per_second_bytes@[i] * 8
                <= u64::MAX,
        spread_fits(as_bits(per_second_bytes@)),
    ensures
        r.bytes_transferred == total_bytes,
        r.bandwidth_bps == bits_per_second(total_bytes as nat, elapsed_us as nat),
        r.per_second_bps@ == as_bits(per_second_bytes@),
        r.peak_bps == seq_max(as_bits(per_second_bytes@)),
        is_jitter(as_bits(per_second_bytes@), r.jitter_bps as nat),
{
    let bandwidth: u128 = if elapsed_us == 0 {
        0
    } else {
        (total_bytes as u128) * 8_000_000 / (elapsed_us as u128)
    };
    let n = per_second_bytes.len();
    let mut bits: Vec<u64> = Vec::with_capacity(n);
    let mut peak: u64 = 0;
    let mut i: usize = 0;
    while i < n
        invariant
            n == per_second_bytes@.len(),
            i <= n,
            forall|j: int|
                0 <= j < per_second_bytes@.len() ==> #[trigger] per_second_bytes@[j] * 8
                    <= u64::MAX,
            bits@ == as_bits(per_second_bytes@).take(i as int),
            peak == seq_max(bits@),
        decreases n - i,
    {
        let x = per_second_bytes[i] * 8;
        let ghost before = bits@;
        bits.push(x);
        assert(bits@.drop_last() =~= before);
        if i == 0 || x > peak {
            peak = x;
        }
        i = i + 1;
        assert(bits@ =~= as_bits(per_second_bytes@).take(i as int));
    }
    assert(bits@ =~= as_bits(per_second_bytes@));
    let jitter = if n <= 1 {
        0
    } else {
        population_stddev(&bits)
    };
    DirectionStats {
        bytes_transferred: total_bytes,
        bandwidth_bps: bandwidth,
        peak_bps: peak,
        jitter_bps: jitter,
        per_second_bps: bits,
    }
}

/// Jitter of a constant series is 0, as it is for no value or one value.
pub proof fn law_jitter_constant(s: Seq<u64>, r: nat)
    requires
        forall|i: int, j: int| 0 <= i < s.len() && 0 <= j < s.len() ==> s[i] == s[j],
        is_jitter(s, r),
    ensures
        r == 0,
{
    if s.len() > 1 {
        lemma_constant_spread(s, s.len() as int);
        let n = s.len() as int;
        assert(spread(s.take(n)) == 0);
        assert(s.take(n) =~= s);
        if r > 0 {
            assert(r * r * n * n >= 1) by (nonlinear_arith)
                requires
                    r >= 1,
                    n >= 1,
            ;
        }
    }
}

proof fn lemma_constant_spread(s: Seq<u64>, k: int)
    requires
        0 <= k <= s.len(),
        forall|i: int, j: int| 0 <= i < s.len() && 0 <= j < s.len() ==> s[i] == s[j],
    ensures
        spread(s.take(k)) == 0,
        k > 0 ==> seq_sum(s.take(k)) == k * (s[0] as int),
        k > 0 ==> sum_sq(s.take(k)) == k * (s[0] as int) * (s[0] as int),
    decreases k,
{
    if k > 0 {
        lemma_constant_spread(s, k - 1);
        lemma_prefix_sums(s, k - 1);
        let c = s[0] as int;
        assert(s[k - 1] == s[0]);
        if k == 1 {
            assert(s.take(0) =~= Seq::<u64>::empty());
            assert(seq_sum(s.take(0)) == 0);
            assert(sum_sq(s.take(0)) == 0);
        }
        if k > 1 {
            let a = seq_sum(s.take(k - 1));
            let b = sum_sq(s.take(k - 1));
            assert(a + c == k * c) by (nonlinear_arith)
                requires
                    a == (k - 1) * c,
            ;
            assert(b + c * c == k * c * c) by (nonlinear_arith)
                requires
                    b == (k - 1) * c * c,
            ;
            assert(seq_sum(s.take(k)) == a + c);
            assert(sum_sq(s.take(k)) == b + c * c);
        } else {
            assert(seq_sum(s.take(k)) == c);
            assert(sum_sq(s.take(k)) == c * c);
            assert(k * c == c && k * c * c == c * c) by (nonlinear_arith)
                requires
                    k == 1,
            ;
        }
        assert(k * (k * c * c) - (k * c) * (k * c) == 0) by (nonlinear_arith);
        assert(s.take(k).len() == k);
        assert(spread(s.take(k)) == k * (k * c * c) - (k * c) * (k * c));
    } else {
        assert(s.take(0) =~= Seq::<u64>::empty());
        assert(seq_sum(s.take(0)) == 0);
        assert(sum_sq(s.take(0)) == 0);
    }
}

/// First byte of a bandwidth-test connection: what the client will do.
#[derive(Debug, Clone, Copy, PartialEq, Eq, Structural)]
pub enum BandwidthCommand {
    /// `U`: the client uploads, the server reads.
    Upload,
    /// `D`: the client downloads, the server writes.
    Download,
}

impl BandwidthCommand {
    pub fn to_byte(&self) -> (r: u8)
        ensures
            r == match *self {
                BandwidthCommand::Upload => 0x55u8,
                BandwidthCommand::Download => 0x44u8,
            },
    {
        match self {
            BandwidthCommand::Upload => 0x55,
            BandwidthCommand::Download => 0x44,
        }
    }

    /// The command a connection starts with; `None` for any other byte.
    pub fn from_byte(b: u8) -> (r: Option<Self>)
        ensures
            r == if b == 0x55 {
                Some(BandwidthCommand::Upload)
            } else if b == 0x44 {
                Some(BandwidthCommand::Download)
            } else {
                None::<BandwidthCommand>
            },
    {
        if b == 0x55 {
            Some(BandwidthCommand::Upload)
        } else if b == 0x44 {
            Some(BandwidthCommand::Download)
        } else {
            None
        }
    }
}

/// Splits a transfer into per-second byte counts as progress is reported.
#[derive(Debug, Clone)]
pub struct SecondTracker {
    per_second: Vec<u64>,
    last_second_bytes: u64,
    last_second: u64,
}

impl SecondTracker {
    pub closed spec fn per_second_spec(&self) -> Seq<u64> {
        self.per_second@
    }

    pub closed spec fn last_second_bytes_spec(&self) -> u64 {
        self.last_second_bytes
    }

    pub closed spec fn last_second_spec(&self) -> u64 {
        self.last_second
    }

    /// The counts recorded so far add up to the bytes at the last rollover.
    pub open spec fn wf(&self) -> bool {
        seq_sum(self.per_second_spec()) == self.last_second_bytes_spec()
    }

    pub fn new() -> (r: Self)
        ensures
            r.wf(),
            r.per_second_spec() == Seq::<u64>::empty(),
            r.last_second_bytes_spec() == 0,
            r.last_second_spec() == 0,
    {
        SecondTracker { per_second: Vec::new(), last_second_bytes: 0, last_second: 0 }
    }

    /// Reports `total_bytes` moved so far at whole second `current_second`
    /// of the run: when the second has advanced, the bytes since the last
    /// rollover become the next per-second count.
    pub fn progress(&mut self, total_bytes: u64, current_second: u64)
        requires
            old(self).wf(),
            total_bytes >= old(self).last_second_bytes_spec(),
        ensures
            final(self).wf(),
            current_second > old(self).last_second_spec() ==> {
                &&& final(self).per_second_spec() == old(self).per_second_spec().push(
                    (total_bytes - old(self).last_second_bytes_spec()) as u64,
                )
                &&& final(self).last_second_bytes_spec() == total_bytes
                &&& final(self).last_second_spec() == current_second
            },
            current_second <= old(self).last_second_spec() ==> *final(self) == *old(self),
    {
        if current_second > self.last_second {
            let ghost before = self.per_second@;
            self.per_second.push(total_bytes - self.last_second_bytes);
            assert(self.per_second@.drop_last() =~= before);
            self.last_second_bytes = total_bytes;
            self.last_second = current_second;
        }
    }

    /// Ends the run: bytes moved since the last rollover, if any, form the
    /// last count. The counts returned add up to `total_bytes`.
    pub fn finish(self, total_bytes: u64) -> (r: Vec<u64>)
        requires
            self.wf(),
            total_bytes >= self.last_second_bytes_spec(),
        ensures
            seq_sum(r@) == total_bytes,
            total_bytes > self.last_second_bytes_spec() ==> r@ == self.per_second_spec().push(
                (total_bytes - self.last_second_bytes_spec()) as u64,
            ),
            total_bytes == self.last_second_bytes_spec() ==> r@ == self.per_second_spec(),
    {
        let mut v = self.per_second;
        if total_bytes > self.last_second_bytes {
            let ghost before = v@;
            v.push(total_bytes - self.last_second_bytes);
            assert(v@.drop_last() =~= before);
        }
        v
    }
}

} // verus!
