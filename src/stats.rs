//! Statistics kernel: latency samples, percentiles and request counters.

use vstd::prelude::*;
use vstd::relations::{sorted_by, total_ordering};
use vstd::seq_lib::lemma_sorted_unique;
use crate::text::{decimal, digit_char, push_char, push_decimal};

verus! {

broadcast use vstd::seq_lib::group_to_multiset_ensures;

/// Ascending order on samples.
pub open spec fn sample_leq() -> spec_fn(u64, u64) -> bool {
    |a: u64, b: u64| a <= b
}

/// The samples in ascending order.
pub open spec fn sorted_samples(s: Seq<u64>) -> Seq<u64> {
    s.sort_by(sample_leq())
}

pub open spec fn is_ascending(s: Seq<u64>) -> bool {
    forall|i: int, j: int| 0 <= i < j < s.len() ==> s[i] <= s[j]
}

/// Sum of all samples.
pub open spec fn seq_sum(s: Seq<u64>) -> int
    decreases s.len(),
{
    if s.len() == 0 {
        0
    } else {
        seq_sum(s.drop_last()) + s.last()
    }
}

/// Index of the `p`-th percentile in a sorted sequence of `len` samples:
/// `ceil(len * p / 100) - 1`, clamped to `[0, len - 1]`.
pub open spec fn percentile_index(len: nat, p: nat) -> int {
    let c = (len * p + 99) / 100;
    let i = if c == 0 { 0 } else { c - 1 };
    if i > len - 1 { len - 1 } else { i }
}

/// The `p`-th percentile of an ascending sequence; 0 for no samples.
pub open spec fn percentile_of(sorted: Seq<u64>, p: nat) -> u64 {
    if sorted.len() == 0 {
        0
    } else {
        sorted[percentile_index(sorted.len(), p)]
    }
}

proof fn lemma_sample_leq_total()
    ensures
        total_ordering(sample_leq()),
{
}

/// An ascending permutation of `s` is the sorted sequence of `s`.
proof fn lemma_sorted_is_unique(s: Seq<u64>, t: Seq<u64>)
    requires
        is_ascending(t),
        t.to_multiset() == s.to_multiset(),
    ensures
        t == sorted_samples(s),
{
    lemma_sample_leq_total();
    s.lemma_sort_by_ensures(sample_leq());
    assert(sorted_by(t, sample_leq()));
    lemma_sorted_unique(t, sorted_samples(s), sample_leq());
}

pub proof fn lemma_sorted_samples_props(s: Seq<u64>)
    ensures
        is_ascending(sorted_samples(s)),
        sorted_samples(s).to_multiset() == s.to_multiset(),
        sorted_samples(s).len() == s.len(),
{
    s.lemma_sort_by_ensures(sample_leq());
    let t = sorted_samples(s);
    assert forall|i: int, j: int| 0 <= i < j < t.len() implies t[i] <= t[j] by {
        assert(sample_leq()(t[i], t[j]));
    }
    t.to_multiset_ensures();
    s.to_multiset_ensures();
}

/// Sorts the samples ascending, in place.
pub fn sort_samples(v: &mut Vec<u64>)
    ensures
        final(v)@ == sorted_samples(old(v)@),
{
    let n = v.len();
    let mut i: usize = 1;
    while i < n
        invariant
            n == v.len(),
            1 <= i,
            forall|a: int, b: int| 0 <= a < b < i && b < n ==> v@[a] <= v@[b],
            v@.to_multiset() == old(v)@.to_multiset(),
        decreases n - i,
    {
        let mut j: usize = i;
        while j > 0 && v[j - 1] > v[j]
            invariant
                n == v.len(),
                0 <= j <= i < n,
                forall|a: int, b: int|
                    0 <= a < b <= i && a != j && b != j ==> v@[a] <= v@[b],
                forall|b: int| j < b <= i ==> v@[j as int] <= v@[b],
                v@.to_multiset() == old(v)@.to_multiset(),
            decreases j,
        {
            let x = v[j];
            let y = v[j - 1];
            v.set(j - 1, x);
            v.set(j, y);
            j = j - 1;
        }
        i = i + 1;
    }
    proof {
        lemma_sorted_is_unique(old(v)@, v@);
    }
}

/// Percentile index for `len` samples, as computed at run time.
fn percentile_position(len: usize, p: u64) -> (r: usize)
    requires
        len > 0,
    ensures
        r == percentile_index(len as nat, p as nat),
        r < len,
{
    assert((len as int) * (p as int) + 99 < u128::MAX) by (nonlinear_arith)
        requires
            len <= 0xffff_ffff_ffff_ffffnat,
            p <= 0xffff_ffff_ffff_ffffnat,
    ;
    let prod: u128 = (len as u128) * (p as u128);
    let c: u128 = (prod + 99) / 100;
    let i: u128 = if c == 0 {
        0
    } else {
        c - 1
    };
    if i > (len - 1) as u128 {
        len - 1
    } else {
        i as usize
    }
}

/// The `p`-th percentile of ascending samples (`ceil(len * p / 100) - 1`,
/// clamped); 0 when there are no samples.
pub fn percentile(sorted: &Vec<u64>, p: u64) -> (r: u64)
    ensures
        r == percentile_of(sorted@, p as nat),
{
    if sorted.len() == 0 {
        0
    } else {
        sorted[percentile_position(sorted.len(), p)]
    }
}

pub proof fn lemma_percentile_index_monotone(len: nat, p: nat, q: nat)
    requires
        len > 0,
        p <= q,
    ensures
        percentile_index(len, p) <= percentile_index(len, q),
        0 <= percentile_index(len, p) < len,
{
    assert(len * p <= len * q) by (nonlinear_arith)
        requires
            p <= q,
    ;
    assert((len * p + 99) / 100 <= (len * q + 99) / 100) by (nonlinear_arith)
        requires
            len * p <= len * q,
    ;
}

/// Latency statistics in microseconds.
#[derive(Debug, Clone, Copy, PartialEq, Eq, Structural)]
pub struct LatencyStats {
    pub min_us: u64,
    pub max_us: u64,
    pub avg_us: u64,
    pub p50_us: u64,
    pub p95_us: u64,
    pub p99_us: u64,
}

/// Statistics of an ascending, non-empty sample sequence.
pub open spec fn stats_of_sorted(t: Seq<u64>) -> LatencyStats {
    LatencyStats {
        min_us: t[0],
        max_us: t.last(),
        avg_us: (seq_sum(t) / (t.len() as int)) as u64,
        p50_us: percentile_of(t, 50),
        p95_us: percentile_of(t, 95),
        p99_us: percentile_of(t, 99),
    }
}

/// Statistics of a sample set; absent when it is empty.
pub open spec fn stats_of(s: Seq<u64>) -> Option<LatencyStats> {
    if s.len() == 0 {
        None
    } else {
        Some(stats_of_sorted(sorted_samples(s)))
    }
}

proof fn lemma_sum_bound(s: Seq<u64>)
    ensures
        0 <= seq_sum(s) <= s.len() * (u64::MAX as int),
    decreases s.len(),
{
    if s.len() > 0 {
        lemma_sum_bound(s.drop_last());
    }
}

/// The sum of `s` is at most `|s|` times the largest 64-bit value.
pub proof fn lemma_sum_within_bound(s: Seq<u64>)
    ensures
        0 <= seq_sum(s) <= s.len() * (u64::MAX as int),
{
    lemma_sum_bound(s);
}

/// Percentiles are ordered: on any non-empty sample set,
/// `p50 <= p95 <= p99 <= max`, and `min` is at most each of them.
pub proof fn law_percentiles_ordered(samples: Seq<u64>)
    requires
        samples.len() > 0,
    ensures
        stats_of(samples) is Some,
        stats_of(samples)->0.min_us <= stats_of(samples)->0.p50_us,
        stats_of(samples)->0.p50_us <= stats_of(samples)->0.p95_us,
        stats_of(samples)->0.p95_us <= stats_of(samples)->0.p99_us,
        stats_of(samples)->0.p99_us <= stats_of(samples)->0.max_us,
{
    lemma_sorted_samples_props(samples);
    let t = sorted_samples(samples);
    let n = t.len();
    lemma_percentile_index_monotone(n, 0, 50);
    lemma_percentile_index_monotone(n, 50, 95);
    lemma_percentile_index_monotone(n, 95, 99);
    lemma_percentile_index_monotone(n, 99, 100);
}

/// Collects latency samples (microseconds) in insertion order.
#[derive(Debug)]
pub struct LatencyCollector {
    samples: Vec<u64>,
}

impl View for LatencyCollector {
    type V = Seq<u64>;

    closed spec fn view(&self) -> Seq<u64> {
        self.samples@
    }
}

/// Relies on `Duration::as_micros`: the whole duration in microseconds.
#[verifier::external_body]
fn duration_micros(d: std::time::Duration) -> (r: u128) {
    d.as_micros()
}

impl LatencyCollector {
    pub fn new() -> (r: Self)
        ensures
            r@ == Seq::<u64>::empty(),
    {
        LatencyCollector { samples: Vec::with_capacity(10000) }
    }

    pub fn with_capacity(capacity: usize) -> (r: Self)
        ensures
            r@ == Seq::<u64>::empty(),
    {
        LatencyCollector { samples: Vec::with_capacity(capacity) }
    }

    /// Appends one sample, in microseconds.
    pub fn add(&mut self, latency_us: u64)
        ensures
            final(self)@ == old(self)@.push(latency_us),
    {
        self.samples.push(latency_us);
    }

    /// Appends one sample given as a duration (whole microseconds, truncated
    /// to 64 bits).
    pub fn add_duration(&mut self, duration: std::time::Duration)
        ensures
            final(self)@.len() == old(self)@.len() + 1,
            final(self)@.drop_last() == old(self)@,
    {
        let us = duration_micros(duration);
        self.samples.push(us as u64);
        assert(self.samples@.drop_last() =~= old(self)@);
    }

    pub fn count(&self) -> (r: usize)
        ensures
            r == self@.len(),
    {
        self.samples.len()
    }

    /// Sorts the samples and computes min, max, average (integer division)
    /// and the 50th, 95th and 99th percentiles; `None` when there are no
    /// samples.
    pub fn compute(&mut self) -> (r: Option<LatencyStats>)
        ensures
            r == stats_of(old(self)@),
            final(self)@ == sorted_samples(old(self)@),
    {
        sort_samples(&mut self.samples);
        proof {
            lemma_sorted_samples_props(old(self)@);
        }
        let len = self.samples.len();
        if len == 0 {
            return None;
        }
        let mut sum: u128 = 0;
        let mut i: usize = 0;
        while i < len
            invariant
                len == self.samples@.len(),
                i <= len,
                sum == seq_sum(self.samples@.take(i as int)),
                sum <= i * (u64::MAX as int),
            decreases len - i,
        {
            assert(self.samples@.take(i as int + 1).drop_last() =~= self.samples@.take(i as int));
            sum = sum + self.samples[i] as u128;
            i = i + 1;
        }
        assert(self.samples@.take(len as int) =~= self.samples@);
        proof {
            lemma_sum_bound(self.samples@);
            assert((sum as int) / (len as int) <= u64::MAX) by (nonlinear_arith)
                requires
                    sum <= len * (u64::MAX as int),
                    len > 0,
            ;
        }
        let avg = (sum / (len as u128)) as u64;
        Some(
            LatencyStats {
                min_us: self.samples[0],
                max_us: self.samples[len - 1],
                avg_us: avg,
                p50_us: percentile(&self.samples, 50),
                p95_us: percentile(&self.samples, 95),
                p99_us: percentile(&self.samples, 99),
            },
        )
    }
}

/// Request counters of a load test.
#[derive(Debug, Clone, Copy, PartialEq, Eq, Structural)]
pub struct Counter {
    pub total: u64,
    pub success: u64,
    pub failed: u64,
    pub bytes_sent: u64,
    pub bytes_received: u64,
}

impl Counter {
    /// Every request is counted once, as a success or a failure.
    pub open spec fn wf(&self) -> bool {
        self.total == self.success + self.failed
    }

    pub fn new() -> (r: Self)
        ensures
            r.wf(),
            r == (Counter { total: 0, success: 0, failed: 0, bytes_sent: 0, bytes_received: 0 }),
    {
        Counter { total: 0, success: 0, failed: 0, bytes_sent: 0, bytes_received: 0 }
    }

    pub fn record_success(&mut self, sent: u64, received: u64)
        requires
            old(self).wf(),
            old(self).total < u64::MAX,
            old(self).bytes_sent + sent <= u64::MAX,
            old(self).bytes_received + received <= u64::MAX,
        ensures
            final(self).wf(),
            *final(self) == (Counter {
                total: (old(self).total + 1) as u64,
                success: (old(self).success + 1) as u64,
                failed: old(self).failed,
                bytes_sent: (old(self).bytes_sent + sent) as u64,
                bytes_received: (old(self).bytes_received + received) as u64,
            }),
    {
        self.total = self.total + 1;
        self.success = self.success + 1;
        self.bytes_sent = self.bytes_sent + sent;
        self.bytes_received = self.bytes_received + received;
    }

    /// Counts an HTTP response: a status of 500 or above is a failed
    /// request, any other status a success with its bytes.
    pub fn record_response(&mut self, status: u16, sent: u64, received: u64)
        requires
            old(self).wf(),
            old(self).total < u64::MAX,
            old(self).bytes_sent + sent <= u64::MAX,
            old(self).bytes_received + received <= u64::MAX,
        ensures
            final(self).wf(),
            status >= 500 ==> *final(self) == (Counter {
                total: (old(self).total + 1) as u64,
                failed: (old(self).failed + 1) as u64,
                ..*old(self)
            }),
            status < 500 ==> *final(self) == (Counter {
                total: (old(self).total + 1) as u64,
                success: (old(self).success + 1) as u64,
                failed: old(self).failed,
                bytes_sent: (old(self).bytes_sent + sent) as u64,
                bytes_received: (old(self).bytes_received + received) as u64,
            }),
    {
        if crate::http::is_failure_status(status) {
            self.record_failure();
        } else {
            self.record_success(sent, received);
        }
    }

    pub fn record_failure(&mut self)
        requires
            old(self).wf(),
            old(self).total < u64::MAX,
        ensures
            final(self).wf(),
            *final(self) == (Counter {
                total: (old(self).total + 1) as u64,
                failed: (old(self).failed + 1) as u64,
                ..*old(self)
            }),
    {
        self.total = self.total + 1;
        self.failed = self.failed + 1;
    }
}

/// Requests per second times 1000, rounded down; 0 for a zero duration.
pub open spec fn milli_rate(count: nat, duration_us: nat) -> nat {
    if duration_us == 0 {
        0
    } else {
        count * 1_000_000_000 / duration_us
    }
}

/// `count / duration` in thousandths of a request per second.
pub fn throughput_milli_rps(count: u64, duration_us: u64) -> (r: u128)
    ensures
        r == milli_rate(count as nat, duration_us as nat),
{
    if duration_us == 0 {
        0
    } else {
        assert((count as int) * 1_000_000_000 <= u128::MAX) by (nonlinear_arith)
            requires
                count <= u64::MAX,
        ;
        (count as u128) * 1_000_000_000 / (duration_us as u128)
    }
}

/// `100 * part / whole` in hundredths of a percent, rounded down; 0 when
/// `whole` is 0.
pub open spec fn rate_hundredths(part: nat, whole: nat) -> nat {
    if whole == 0 {
        0
    } else {
        part * 10000 / whole
    }
}

/// A percentage `100 * part / whole` with two decimals, as hundredths.
pub fn percent_hundredths(part: u64, whole: u64) -> (r: u64)
    requires
        part <= whole,
    ensures
        r == rate_hundredths(part as nat, whole as nat),
        r <= 10000,
{
    if whole == 0 {
        0
    } else {
        assert((part as int) * 10000 <= u128::MAX) by (nonlinear_arith)
            requires
                part <= u64::MAX,
        ;
        assert((part as int) * 10000 / (whole as int) <= 10000) by (nonlinear_arith)
            requires
                part <= whole,
                whole > 0,
        ;
        ((part as u128) * 10000 / (whole as u128)) as u64
    }
}

/// Outcome of a load test. `duration_us` is the wall time in microseconds;
/// `throughput_milli_rps` is requests per second times 1000.
#[derive(Debug, Clone)]
pub struct LoadTestResult {
    pub target: String,
    pub protocol: String,
    pub duration_us: u64,
    pub total_requests: u64,
    pub successful_requests: u64,
    pub failed_requests: u64,
    pub throughput_milli_rps: u128,
    pub bytes_sent: u64,
    pub bytes_received: u64,
    pub latency: Option<LatencyStats>,
}

impl LoadTestResult {
    /// Every request is a success or a failure, and the throughput is the
    /// request count over the duration.
    pub open spec fn wf(&self) -> bool {
        &&& self.total_requests == self.successful_requests + self.failed_requests
        &&& self.throughput_milli_rps == milli_rate(
            self.total_requests as nat,
            self.duration_us as nat,
        )
    }

    /// The result of a run from its final counters.
    pub fn from_counter(
        target: String,
        protocol: String,
        duration_us: u64,
        counter: &Counter,
        latency: Option<LatencyStats>,
    ) -> (r: Self)
        requires
            counter.wf(),
        ensures
            r.wf(),
            r.target == target,
            r.protocol == protocol,
            r.duration_us == duration_us,
            r.total_requests == counter.total,
            r.successful_requests == counter.success,
            r.failed_requests == counter.failed,
            r.bytes_sent == counter.bytes_sent,
            r.bytes_received == counter.bytes_received,
            r.latency == latency,
    {
        LoadTestResult {
            target,
            protocol,
            duration_us,
            total_requests: counter.total,
            successful_requests: counter.success,
            failed_requests: counter.failed,
            throughput_milli_rps: throughput_milli_rps(counter.total, duration_us),
            bytes_sent: counter.bytes_sent,
            bytes_received: counter.bytes_received,
            latency,
        }
    }

    /// Share of successful requests, in hundredths of a percent; 0 when no
    /// request was made.
    pub fn success_rate_hundredths(&self) -> (r: u64)
        requires
            self.wf(),
        ensures
            r == rate_hundredths(self.successful_requests as nat, self.total_requests as nat),
    {
        percent_hundredths(self.successful_requests, self.total_requests)
    }
}

/// Every well-formed load-test result satisfies
/// `total_requests = successful_requests + failed_requests`.
pub proof fn law_load_totals(r: LoadTestResult)
    requires
        r.wf(),
    ensures
        r.total_requests == r.successful_requests + r.failed_requests,
{
}

/// Declares `std::time::Instant` for use in signatures.
#[verifier::external_type_specification]
#[verifier::external_body]
pub struct ExInstant(std::time::Instant);

/// Relies on `Instant::now`: the current instant of the monotonic clock.
#[verifier::external_body]
fn instant_now() -> (r: std::time::Instant) {
    std::time::Instant::now()
}

/// Relies on `Instant::elapsed`: the time passed since the instant.
#[verifier::external_body]
fn instant_elapsed(i: &std::time::Instant) -> (r: std::time::Duration) {
    i.elapsed()
}

/// Relies on `chrono::Utc::now` and `DateTime::to_rfc3339`: the current
/// time as RFC 3339 text.
#[verifier::external_body]
pub(crate) fn now_rfc3339() -> (r: String) {
    chrono::Utc::now().to_rfc3339()
}

/// A microsecond count in 64 bits, saturating at `u64::MAX`.
pub fn clamp_micros(us: u128) -> (r: u64)
    ensures
        r == if us > u64::MAX as u128 {
            u64::MAX as u128
        } else {
            us
        },
{
    if us > u64::MAX as u128 {
        u64::MAX
    } else {
        us as u64
    }
}

/// Measures wall time from its creation.
#[derive(Debug)]
pub struct Timer {
    start: std::time::Instant,
}

impl Timer {
    pub fn new() -> Self {
        Timer { start: instant_now() }
    }

    pub fn elapsed(&self) -> std::time::Duration {
        instant_elapsed(&self.start)
    }

    /// Elapsed time in whole microseconds (saturating at `u64::MAX`).
    pub fn elapsed_us(&self) -> u64 {
        clamp_micros(duration_micros(self.elapsed()))
    }
}

/// `n / d` rounded to the nearest integer, ties to even.
pub open spec fn div_round_even(n: nat, d: nat) -> nat {
    let q = n / d;
    let r = n % d;
    if 2 * r > d || (2 * r == d && q % 2 == 1) {
        q + 1
    } else {
        q
    }
}

/// A value given in hundredths, written with two decimals.
pub open spec fn two_decimals(h: nat) -> Seq<char> {
    decimal(h / 100) + seq!['.', digit_char((h / 10) % 10), digit_char(h % 10)]
}

/// Human-readable byte count: below 1024 `"<n> B"`, else the value in KB,
/// MB or GB (powers of 1024) with two decimals, rounded to nearest.
pub open spec fn format_bytes_spec(bytes: nat) -> Seq<char> {
    let kb: nat = 1024;
    if bytes >= kb * kb * kb {
        two_decimals(div_round_even(bytes * 100, kb * kb * kb)) + " GB"@
    } else if bytes >= kb * kb {
        two_decimals(div_round_even(bytes * 100, kb * kb)) + " MB"@
    } else if bytes >= kb {
        two_decimals(div_round_even(bytes * 100, kb)) + " KB"@
    } else {
        decimal(bytes) + " B"@
    }
}

fn push_two_decimals(out: &mut String, h: u64)
    ensures
        final(out)@ == old(out)@ + two_decimals(h as nat),
{
    push_decimal(out, h / 100);
    push_char(out, '.');
    let tens = (h / 10) % 10;
    let ones = h % 10;
    let mut tail = String::new();
    push_decimal(&mut tail, tens);
    push_decimal(&mut tail, ones);
    out.append(tail.as_str());
    assert(decimal(tens as nat) == seq![digit_char(tens as nat)]);
    assert(decimal(ones as nat) == seq![digit_char(ones as nat)]);
    assert(final(out)@ =~= old(out)@ + two_decimals(h as nat));
}

fn scaled(bytes: u64, unit: u64) -> (r: u64)
    requires
        unit >= 1024,
    ensures
        r == div_round_even(bytes as nat * 100, unit as nat),
{
    let n: u128 = (bytes as u128) * 100;
    let d = unit as u128;
    let q = n / d;
    let rem = n % d;
    assert(q <= n) by (nonlinear_arith)
        requires
            q == n / d,
            d > 0,
    ;
    assert(n <= 100 * 0xffff_ffff_ffff_ffffu128);
    let r = if 2 * rem > d || (2 * rem == d && q % 2 == 1) {
        q + 1
    } else {
        q
    };
    assert(r <= (n / 1024) + 1) by (nonlinear_arith)
        requires
            r <= q + 1,
            q == n / d,
            d >= 1024,
    ;
    r as u64
}

/// Formats a byte count for people: `500 B`, `1.00 KB`, `1.50 MB`, `1.00 GB`.
pub fn format_bytes(bytes: u64) -> (r: String)
    ensures
        r@ == format_bytes_spec(bytes as nat),
{
    let kb: u64 = 1024;
    let mb: u64 = 1024 * 1024;
    let gb: u64 = 1024 * 1024 * 1024;
    let mut out = String::new();
    if bytes >= gb {
        push_two_decimals(&mut out, scaled(bytes, gb));
        out.append(" GB");
    } else if bytes >= mb {
        push_two_decimals(&mut out, scaled(bytes, mb));
        out.append(" MB");
    } else if bytes >= kb {
        push_two_decimals(&mut out, scaled(bytes, kb));
        out.append(" KB");
    } else {
        push_decimal(&mut out, bytes);
        out.append(" B");
    }
    assert(out@ =~= format_bytes_spec(bytes as nat));
    out
}

} // verus!
