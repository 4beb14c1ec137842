//! Benchmark statistics over latency samples (microseconds): IQR outliers
//! and histograms.

use vstd::prelude::*;
use crate::stats::{
    lemma_percentile_index_monotone, lemma_sorted_samples_props, percentile, percentile_of,
    sort_samples, sorted_samples,
};
use crate::stats::div_round_even;
use crate::text::{decimal, digit_char, push_char, push_decimal};

verus! {

/// `x` lies outside `[q1 - 1.5 * iqr, q3 + 1.5 * iqr]` with `iqr = q3 - q1`.
pub open spec fn is_outlier(x: u64, q1: u64, q3: u64) -> bool {
    let iqr = q3 - q1;
    2 * x + 3 * iqr < 2 * q1 || 2 * x > 2 * q3 + 3 * iqr
}

/// Indices below `k` whose sample is an outlier, in increasing order.
pub open spec fn outlier_indices(s: Seq<u64>, q1: u64, q3: u64, k: int) -> Seq<usize>
    decreases k,
{
    if k <= 0 {
        Seq::empty()
    } else if is_outlier(s[k - 1], q1, q3) {
        outlier_indices(s, q1, q3, k - 1).push((k - 1) as usize)
    } else {
        outlier_indices(s, q1, q3, k - 1)
    }
}

/// First and third quartile of a sample set (same percentile rule as the
/// latency statistics).
pub open spec fn quartiles(s: Seq<u64>) -> (u64, u64) {
    (percentile_of(sorted_samples(s), 25), percentile_of(sorted_samples(s), 75))
}

/// IQR outliers of a sample set, by index in input order; none for fewer
/// than 4 samples.
pub open spec fn outliers_of(s: Seq<u64>) -> Seq<usize> {
    if s.len() < 4 {
        Seq::empty()
    } else {
        outlier_indices(s, quartiles(s).0, quartiles(s).1, s.len() as int)
    }
}

/// Detects IQR outliers: indices of the samples outside
/// `[Q1 - 1.5 * IQR, Q3 + 1.5 * IQR]`, in input order; empty for fewer than
/// 4 samples.
pub fn detect_outliers(samples: &Vec<u64>) -> (r: Vec<usize>)
    ensures
        r@ == outliers_of(samples@),
{
    let n = samples.len();
    if n < 4 {
        return Vec::new();
    }
    let mut sorted: Vec<u64> = Vec::with_capacity(n);
    let mut i: usize = 0;
    while i < n
        invariant
            n == samples@.len(),
            i <= n,
            sorted@ == samples@.take(i as int),
        decreases n - i,
    {
        sorted.push(samples[i]);
        i = i + 1;
        assert(sorted@ =~= samples@.take(i as int));
    }
    assert(sorted@ =~= samples@);
    sort_samples(&mut sorted);
    let q1 = percentile(&sorted, 25);
    let q3 = percentile(&sorted, 75);
    proof {
        lemma_sorted_samples_props(samples@);
        lemma_percentile_index_monotone(n as nat, 25, 75);
    }
    let mut out: Vec<usize> = Vec::new();
    let mut k: usize = 0;
    while k < n
        invariant
            n == samples@.len(),
            k <= n,
            q1 <= q3,
            out@ == outlier_indices(samples@, q1, q3, k as int),
        decreases n - k,
    {
        let x = samples[k] as u128;
        let iqr = (q3 - q1) as u128;
        if 2 * x + 3 * iqr < 2 * (q1 as u128) || 2 * x > 2 * (q3 as u128) + 3 * iqr {
            out.push(k);
        }
        k = k + 1;
    }
    out
}

proof fn lemma_no_outliers_upto(s: Seq<u64>, q1: u64, q3: u64, k: int)
    requires
        k <= s.len(),
        forall|i: int| 0 <= i < s.len() ==> !is_outlier(#[trigger] s[i], q1, q3),
    ensures
        outlier_indices(s, q1, q3, k) == Seq::<usize>::empty(),
    decreases k,
{
    if k > 0 {
        lemma_no_outliers_upto(s, q1, q3, k - 1);
    }
}

/// Outlier stability: when every sample lies within the fences
/// `[Q1 - 1.5 * IQR, Q3 + 1.5 * IQR]`, or there are fewer than 4 samples, no
/// sample is an outlier.
pub proof fn law_outliers_stable(s: Seq<u64>)
    requires
        s.len() < 4 || forall|i: int|
            0 <= i < s.len() ==> !is_outlier(#[trigger] s[i], quartiles(s).0, quartiles(s).1),
    ensures
        outliers_of(s) == Seq::<usize>::empty(),
{
    if s.len() >= 4 {
        lemma_no_outliers_upto(s, quartiles(s).0, quartiles(s).1, s.len() as int);
    }
}

/// Number of histogram buckets for a value range (microseconds): one per
/// half millisecond, between 1 and 10.
pub open spec fn bucket_count(range: nat) -> nat {
    let c = (range + 499) / 500;
    if c > 10 {
        10
    } else if c < 1 {
        1
    } else {
        c
    }
}

/// Bucket of `x` when `count` equal buckets span `[min, min + range]`.
pub open spec fn bucket_of(x: nat, min: nat, range: nat, count: nat) -> nat {
    if range == 0 {
        0
    } else {
        let b = ((x - min) * count / (range as int)) as nat;
        if b >= count {
            (count - 1) as nat
        } else {
            b
        }
    }
}

pub open spec fn seq_min(s: Seq<u64>) -> u64
    decreases s.len(),
{
    if s.len() <= 1 {
        if s.len() == 1 {
            s[0]
        } else {
            0
        }
    } else if s.last() < seq_min(s.drop_last()) {
        s.last()
    } else {
        seq_min(s.drop_last())
    }
}

pub open spec fn seq_max(s: Seq<u64>) -> u64
    decreases s.len(),
{
    if s.len() <= 1 {
        if s.len() == 1 {
            s[0]
        } else {
            0
        }
    } else if s.last() > seq_max(s.drop_last()) {
        s.last()
    } else {
        seq_max(s.drop_last())
    }
}

pub proof fn lemma_min_max(s: Seq<u64>)
    requires
        s.len() > 0,
    ensures
        forall|i: int| 0 <= i < s.len() ==> seq_min(s) <= #[trigger] s[i] <= seq_max(s),
        seq_min(s) <= seq_max(s),
    decreases s.len(),
{
    if s.len() > 1 {
        lemma_min_max(s.drop_last());
        assert forall|i: int| 0 <= i < s.len() implies seq_min(s) <= #[trigger] s[i] <= seq_max(
            s,
        ) by {
            if i < s.len() - 1 {
                assert(s[i] == s.drop_last()[i]);
            }
        }
    }
}

/// Number of samples among the first `k` that fall in bucket `b`.
pub open spec fn bucket_tally(s: Seq<u64>, b: nat, k: int) -> nat
    decreases k,
{
    if k <= 0 {
        0
    } else {
        bucket_tally(s, b, k - 1) + if bucket_of(
            s[k - 1] as nat,
            seq_min(s) as nat,
            (seq_max(s) - seq_min(s)) as nat,
            bucket_count((seq_max(s) - seq_min(s)) as nat),
        ) == b {
            1nat
        } else {
            0nat
        }
    }
}

pub open spec fn seq_total(c: Seq<usize>) -> nat
    decreases c.len(),
{
    if c.len() == 0 {
        0
    } else {
        seq_total(c.drop_last()) + c.last() as nat
    }
}

proof fn lemma_total_update(c: Seq<usize>, b: int, v: usize)
    requires
        0 <= b < c.len(),
    ensures
        seq_total(c.update(b, v)) + c[b] == seq_total(c) + v,
    decreases c.len(),
{
    if b < c.len() - 1 {
        lemma_total_update(c.drop_last(), b, v);
        assert(c.update(b, v).drop_last() =~= c.drop_last().update(b, v));
    } else {
        assert(c.update(b, v).drop_last() =~= c.drop_last());
    }
}

proof fn lemma_total_zeros(n: nat)
    ensures
        seq_total(Seq::new(n, |i: int| 0usize)) == 0,
    decreases n,
{
    if n > 0 {
        assert(Seq::new(n, |i: int| 0usize).drop_last() =~= Seq::new((n - 1) as nat, |i: int| 0usize));
        lemma_total_zeros((n - 1) as nat);
    }
}

/// Counts the samples per bucket. Bucket `b` of `count` covers
/// `[min + b * range / count, min + (b + 1) * range / count)`, the last one
/// closed; a zero range puts every sample in bucket 0.
pub fn histogram_counts(samples: &Vec<u64>) -> (r: Vec<usize>)
    requires
        samples@.len() > 0,
    ensures
        r@.len() == bucket_count((seq_max(samples@) - seq_min(samples@)) as nat),
        forall|b: int| 0 <= b < r@.len() ==> #[trigger] r@[b] == bucket_tally(samples@, b as nat, samples@.len() as int),
        seq_total(r@) == samples@.len(),
{
    let n = samples.len();
    let mut min = samples[0];
    let mut max = samples[0];
    let mut i: usize = 1;
    while i < n
        invariant
            n == samples@.len(),
            1 <= i <= n,
            min == seq_min(samples@.take(i as int)),
            max == seq_max(samples@.take(i as int)),
        decreases n - i,
    {
        assert(samples@.take(i as int + 1).drop_last() =~= samples@.take(i as int));
        if samples[i] < min {
            min = samples[i];
        }
        if samples[i] > max {
            max = samples[i];
        }
        i = i + 1;
    }
    assert(samples@.take(n as int) =~= samples@);
    proof {
        lemma_min_max(samples@);
    }
    let range = max - min;
    let c0 = (range as u128 + 499) / 500;
    let count: usize = if c0 > 10 {
        10
    } else if c0 < 1 {
        1
    } else {
        c0 as usize
    };
    let mut counts: Vec<usize> = Vec::new();
    let mut b: usize = 0;
    while b < count
        invariant
            b <= count,
            counts@ == Seq::new(b as nat, |j: int| 0usize),
        decreases count - b,
    {
        counts.push(0);
        b = b + 1;
        assert(counts@ =~= Seq::new(b as nat, |j: int| 0usize));
    }
    proof {
        lemma_total_zeros(count as nat);
    }
    let mut k: usize = 0;
    while k < n
        invariant
            n == samples@.len(),
            k <= n,
            min == seq_min(samples@),
            max == seq_max(samples@),
            range == max - min,
            count == bucket_count(range as nat),
            1 <= count <= 10,
            forall|i: int| 0 <= i < n ==> min <= #[trigger] samples@[i] <= max,
            counts@.len() == count,
            forall|j: int| 0 <= j < count ==> #[trigger] counts@[j] == bucket_tally(samples@, j as nat, k as int),
            seq_total(counts@) == k,
        decreases n - k,
    {
        let x = samples[k];
        let idx: usize = if range == 0 {
            0
        } else {
            assert(((x - min) as int) * (count as int) <= (range as int) * 10) by (nonlinear_arith)
                requires
                    x - min <= range,
                    count <= 10,
            ;
            let q = ((x - min) as u128) * (count as u128) / (range as u128);
            if q >= count as u128 {
                count - 1
            } else {
                q as usize
            }
        };
        assert(idx == bucket_of(x as nat, min as nat, range as nat, count as nat));
        proof {
            assert(counts@[idx as int] == bucket_tally(samples@, idx as nat, k as int));
            assert(bucket_tally(samples@, idx as nat, k as int) <= k) by {
                lemma_tally_bound(samples@, idx as nat, k as int);
            }
            lemma_total_update(counts@, idx as int, (counts@[idx as int] + 1) as usize);
        }
        let v = counts[idx] + 1;
        counts.set(idx, v);
        k = k + 1;
    }
    counts
}

proof fn lemma_tally_bound(s: Seq<u64>, b: nat, k: int)
    ensures
        bucket_tally(s, b, k) <= if k > 0 { k } else { 0 },
    decreases k,
{
    if k > 0 {
        lemma_tally_bound(s, b, k - 1);
    }
}

/// Histogram completeness: the bucket counts add up to the number of samples.
pub proof fn law_histogram_complete(samples: Seq<u64>, counts: Seq<usize>)
    requires
        samples.len() > 0,
        counts.len() == bucket_count((seq_max(samples) - seq_min(samples)) as nat),
        forall|b: int| 0 <= b < counts.len() ==> #[trigger] counts[b] == bucket_tally(samples, b as nat, samples.len() as int),
    ensures
        seq_total(counts) == samples.len(),
{
    lemma_tally_sum(samples, counts, samples.len() as int);
}

/// Sum over the buckets of the tallies of the first `k` samples.
pub open spec fn tally_total(s: Seq<u64>, nb: nat, k: int) -> nat
    decreases nb,
{
    if nb == 0 {
        0
    } else {
        tally_total(s, (nb - 1) as nat, k) + bucket_tally(s, (nb - 1) as nat, k)
    }
}

proof fn lemma_tally_total_step(s: Seq<u64>, nb: nat, k: int)
    requires
        0 <= k < s.len(),
    ensures
        tally_total(s, nb, k + 1) == tally_total(s, nb, k) + if bucket_of(
            s[k] as nat,
            seq_min(s) as nat,
            (seq_max(s) - seq_min(s)) as nat,
            bucket_count((seq_max(s) - seq_min(s)) as nat),
        ) < nb {
            1nat
        } else {
            0nat
        },
    decreases nb,
{
    if nb > 0 {
        lemma_tally_total_step(s, (nb - 1) as nat, k);
    }
}

proof fn lemma_bucket_in_range(x: nat, min: nat, range: nat, count: nat)
    requires
        count >= 1,
        min <= x <= min + range,
    ensures
        bucket_of(x, min, range, count) < count,
{
    if range > 0 {
        assert((x - min) * count / (range as int) >= 0) by (nonlinear_arith)
            requires
                x >= min,
                range > 0,
        ;
    }
}

proof fn lemma_tally_total_zero(s: Seq<u64>, nb: nat)
    ensures
        tally_total(s, nb, 0) == 0,
    decreases nb,
{
    if nb > 0 {
        lemma_tally_total_zero(s, (nb - 1) as nat);
    }
}

proof fn lemma_tally_total_all(s: Seq<u64>, k: int)
    requires
        s.len() > 0,
        0 <= k <= s.len(),
    ensures
        tally_total(s, bucket_count((seq_max(s) - seq_min(s)) as nat), k) == k,
    decreases k,
{
    if k > 0 {
        lemma_tally_total_all(s, k - 1);
        lemma_tally_total_step(s, bucket_count((seq_max(s) - seq_min(s)) as nat), k - 1);
        lemma_min_max(s);
        assert(seq_min(s) <= s[k - 1] <= seq_max(s));
        lemma_bucket_in_range(
            s[k - 1] as nat,
            seq_min(s) as nat,
            (seq_max(s) - seq_min(s)) as nat,
            bucket_count((seq_max(s) - seq_min(s)) as nat),
        );
    } else {
        lemma_tally_total_zero(s, bucket_count((seq_max(s) - seq_min(s)) as nat));
    }
}

proof fn lemma_total_is_tally_total(s: Seq<u64>, counts: Seq<usize>, m: int)
    requires
        0 <= m <= counts.len(),
        forall|b: int| 0 <= b < counts.len() ==> #[trigger] counts[b] == bucket_tally(s, b as nat, s.len() as int),
    ensures
        seq_total(counts.take(m)) == tally_total(s, m as nat, s.len() as int),
    decreases m,
{
    if m > 0 {
        assert(counts.take(m).drop_last() =~= counts.take(m - 1));
        lemma_total_is_tally_total(s, counts, m - 1);
    }
}

proof fn lemma_tally_sum(s: Seq<u64>, counts: Seq<usize>, k: int)
    requires
        s.len() > 0,
        k == s.len(),
        counts.len() == bucket_count((seq_max(s) - seq_min(s)) as nat),
        forall|b: int| 0 <= b < counts.len() ==> #[trigger] counts[b] == bucket_tally(s, b as nat, s.len() as int),
    ensures
        seq_total(counts) == k,
{
    lemma_total_is_tally_total(s, counts, counts.len() as int);
    assert(counts.take(counts.len() as int) =~= counts);
    lemma_tally_total_all(s, k);
}

/// The bucket counts of a non-empty sample set.
pub open spec fn bucket_counts_spec(s: Seq<u64>) -> Seq<usize> {
    Seq::new(
        bucket_count((seq_max(s) - seq_min(s)) as nat),
        |b: int| bucket_tally(s, b as nat, s.len() as int) as usize,
    )
}

/// A millisecond value given in tenths, written with one decimal.
pub open spec fn tenths_text(t: nat) -> Seq<char> {
    decimal(t / 10) + seq!['.', digit_char(t % 10)]
}

/// Edge `b` of the buckets over `[min, min + range]` in tenths of a
/// millisecond (from microseconds), rounded to nearest.
pub open spec fn edge_tenths(min: nat, range: nat, count: nat, b: nat) -> nat {
    div_round_even(min * count + b * range, count * 100)
}

/// Label of bucket `b`: `"<start>-<end>ms"`, one decimal each.
pub open spec fn bucket_label(min: nat, range: nat, count: nat, b: nat) -> Seq<char> {
    tenths_text(edge_tenths(min, range, count, b)) + "-"@ + tenths_text(
        edge_tenths(min, range, count, b + 1),
    ) + "ms"@
}

/// Labelled non-empty buckets among the first `b`, in bucket order.
pub open spec fn labelled_upto(counts: Seq<usize>, min: nat, range: nat, b: int) -> Seq<(Seq<char>, usize)>
    decreases b,
{
    if b <= 0 {
        Seq::empty()
    } else if counts[b - 1] > 0 {
        labelled_upto(counts, min, range, b - 1).push(
            (bucket_label(min, range, counts.len(), (b - 1) as nat), counts[b - 1]),
        )
    } else {
        labelled_upto(counts, min, range, b - 1)
    }
}

/// The histogram of a sample set: its non-empty buckets with their labels.
pub open spec fn histogram_spec(s: Seq<u64>) -> Seq<(Seq<char>, usize)> {
    if s.len() == 0 {
        Seq::empty()
    } else {
        let c = bucket_counts_spec(s);
        labelled_upto(c, seq_min(s) as nat, (seq_max(s) - seq_min(s)) as nat, c.len() as int)
    }
}

/// Total of the counts of histogram buckets.
pub open spec fn bucket_sum(h: Seq<HistogramBucket>) -> nat
    decreases h.len(),
{
    if h.len() == 0 {
        0
    } else {
        bucket_sum(h.drop_last()) + h.last().count as nat
    }
}

/// One histogram bucket: its label and how many samples fell in it.
#[derive(Debug, Clone)]
pub struct HistogramBucket {
    pub label: String,
    pub count: usize,
}

fn push_tenths(out: &mut String, t: u64)
    ensures
        final(out)@ == old(out)@ + tenths_text(t as nat),
{
    push_decimal(out, t / 10);
    push_char(out, '.');
    push_char(out, digit_for(t % 10));
    assert(final(out)@ =~= old(out)@ + tenths_text(t as nat));
}

fn digit_for(d: u64) -> (r: char)
    requires
        d < 10,
    ensures
        r == digit_char(d as nat),
{
    let mut s = String::new();
    push_decimal(&mut s, d);
    assert(s@ =~= seq![digit_char(d as nat)]);
    s.as_str().get_char(0)
}

fn edge(min: u64, range: u64, count: u64, b: u64) -> (r: u64)
    requires
        1 <= count <= 10,
        b <= count,
    ensures
        r == edge_tenths(min as nat, range as nat, count as nat, b as nat),
{
    assert((min as int) * (count as int) <= 0xffff_ffff_ffff_ffffu128 * 10) by (nonlinear_arith)
        requires
            min <= 0xffff_ffff_ffff_ffffu128,
            count <= 10,
    ;
    assert((b as int) * (range as int) <= 0xffff_ffff_ffff_ffffu128 * 10) by (nonlinear_arith)
        requires
            range <= 0xffff_ffff_ffff_ffffu128,
            b <= 10,
    ;
    let n: u128 = (min as u128) * (count as u128) + (b as u128) * (range as u128);
    let d: u128 = (count as u128) * 100;
    let q = n / d;
    let rem = n % d;
    let r = if 2 * rem > d || (2 * rem == d && q % 2 == 1) {
        q + 1
    } else {
        q
    };
    assert(r <= n / 100 + 1) by (nonlinear_arith)
        requires
            r <= q + 1,
            q == n / d,
            d >= 100,
    ;
    assert(n <= 0xffff_ffff_ffff_ffffu128 * 20) by (nonlinear_arith)
        requires
            n == min * count + b * range,
            min <= 0xffff_ffff_ffff_ffffu128,
            range <= 0xffff_ffff_ffff_ffffu128,
            count <= 10,
            b <= 10,
    ;
    r as u64
}

/// Groups the samples (microseconds) into at most 10 equal buckets over
/// `[min, max]`, one per half millisecond of range, and returns the
/// non-empty buckets in order, labelled `"<start>-<end>ms"`.
pub fn calculate_histogram(samples: &Vec<u64>) -> (r: Vec<HistogramBucket>)
    ensures
        bucket_sum(r@) == samples@.len(),
        r@.len() <= 10,
        samples@.len() == 0 <==> r@.len() == 0,
        r@.len() == histogram_spec(samples@).len(),
        forall|i: int|
            0 <= i < r@.len() ==> (#[trigger] r@[i]).label@ == histogram_spec(samples@)[i].0
                && r@[i].count == histogram_spec(samples@)[i].1,
{
    if samples.len() == 0 {
        return Vec::new();
    }
    let counts = histogram_counts(samples);
    assert(counts@ =~= bucket_counts_spec(samples@));
    let mut min = samples[0];
    let mut max = samples[0];
    let mut i: usize = 1;
    while i < samples.len()
        invariant
            1 <= i <= samples@.len(),
            min == seq_min(samples@.take(i as int)),
            max == seq_max(samples@.take(i as int)),
        decreases samples@.len() - i,
    {
        assert(samples@.take(i as int + 1).drop_last() =~= samples@.take(i as int));
        if samples[i] < min {
            min = samples[i];
        }
        if samples[i] > max {
            max = samples[i];
        }
        i = i + 1;
    }
    assert(samples@.take(samples@.len() as int) =~= samples@);
    proof {
        lemma_min_max(samples@);
    }
    let range = max - min;
    let count = counts.len();
    let mut out: Vec<HistogramBucket> = Vec::new();
    let mut b: usize = 0;
    while b < count
        invariant
            count == counts@.len(),
            1 <= count <= 10,
            b <= count,
            counts@ == bucket_counts_spec(samples@),
            min == seq_min(samples@),
            range == seq_max(samples@) - seq_min(samples@),
            out@.len() == labelled_upto(counts@, min as nat, range as nat, b as int).len(),
            out@.len() <= b,
            seq_total(counts@) == samples@.len(),
            bucket_sum(out@) == seq_total(counts@.take(b as int)),
            forall|j: int|
                0 <= j < out@.len() ==> (#[trigger] out@[j]).label@ == labelled_upto(
                    counts@,
                    min as nat,
                    range as nat,
                    b as int,
                )[j].0 && out@[j].count == labelled_upto(
                    counts@,
                    min as nat,
                    range as nat,
                    b as int,
                )[j].1,
        decreases count - b,
    {
        assert(counts@.take(b as int + 1).drop_last() =~= counts@.take(b as int));
        let ghost before = out@;
        if counts[b] > 0 {
            let mut label = String::new();
            push_tenths(&mut label, edge(min, range, count as u64, b as u64));
            label.append("-");
            push_tenths(&mut label, edge(min, range, count as u64, b as u64 + 1));
            label.append("ms");
            out.push(HistogramBucket { label, count: counts[b] });
            assert(out@.drop_last() =~= before);
        }
        b = b + 1;
    }
    assert(counts@.take(count as int) =~= counts@);
    out
}

/// `s` right-aligned in a field of `width` characters.
pub open spec fn pad_left(s: Seq<char>, width: nat) -> Seq<char> {
    if s.len() >= width {
        s
    } else {
        Seq::new((width - s.len()) as nat, |i: int| ' ') + s
    }
}

/// Length of the bar of a bucket: `count / max_count * max_width`, rounded
/// down.
pub open spec fn bar_len(count: nat, max_count: nat, max_width: nat) -> nat {
    if max_count == 0 {
        0
    } else {
        count * max_width / max_count
    }
}

/// One display line: `"<label right-aligned to 15> | <bar> (<count>)"`.
pub open spec fn histogram_line(label: Seq<char>, count: nat, max_count: nat, max_width: nat) -> Seq<char> {
    pad_left(label, 15) + " | "@ + Seq::new(bar_len(count, max_count, max_width), |i: int| '█')
        + " ("@ + decimal(count) + ")"@
}

pub open spec fn max_count_upto(h: Seq<HistogramBucket>, k: int) -> nat
    decreases k,
{
    if k <= 0 {
        0
    } else if h[k - 1].count > max_count_upto(h, k - 1) {
        h[k - 1].count as nat
    } else {
        max_count_upto(h, k - 1)
    }
}

/// The largest bucket count, or 1 for an empty histogram.
pub open spec fn histogram_peak(h: Seq<HistogramBucket>) -> nat {
    if h.len() == 0 {
        1
    } else {
        max_count_upto(h, h.len() as int)
    }
}

fn push_repeat(out: &mut String, c: char, n: u64)
    ensures
        final(out)@ == old(out)@ + Seq::new(n as nat, |i: int| c),
{
    let mut k: u64 = 0;
    while k < n
        invariant
            k <= n,
            out@ == old(out)@ + Seq::new(k as nat, |i: int| c),
        decreases n - k,
    {
        push_char(out, c);
        k = k + 1;
        assert(out@ =~= old(out)@ + Seq::new(k as nat, |i: int| c));
    }
}

proof fn lemma_max_count_ge(h: Seq<HistogramBucket>, k: int, j: int)
    requires
        0 <= j < k <= h.len(),
    ensures
        h[j].count <= max_count_upto(h, k),
    decreases k,
{
    if j < k - 1 {
        lemma_max_count_ge(h, k - 1, j);
    }
}

/// Renders a histogram as text lines, one per bucket, each with a bar
/// scaled so that the fullest bucket spans `max_width` characters.
pub fn format_histogram(histogram: &Vec<HistogramBucket>, max_width: usize) -> (r: Vec<String>)
    ensures
        r@.len() == histogram@.len(),
        forall|i: int|
            0 <= i < r@.len() ==> (#[trigger] r@[i])@ == histogram_line(
                histogram@[i].label@,
                histogram@[i].count as nat,
                histogram_peak(histogram@),
                max_width as nat,
            ),
{
    let n = histogram.len();
    let mut peak: usize = 0;
    let mut k: usize = 0;
    while k < n
        invariant
            n == histogram@.len(),
            k <= n,
            peak == max_count_upto(histogram@, k as int),
        decreases n - k,
    {
        if histogram[k].count > peak {
            peak = histogram[k].count;
        }
        k = k + 1;
    }
    if n == 0 {
        peak = 1;
    }
    let mut lines: Vec<String> = Vec::new();
    let mut i: usize = 0;
    while i < n
        invariant
            n == histogram@.len(),
            i <= n,
            peak == histogram_peak(histogram@),
            lines@.len() == i,
            forall|j: int|
                0 <= j < i ==> (#[trigger] lines@[j])@ == histogram_line(
                    histogram@[j].label@,
                    histogram@[j].count as nat,
                    peak as nat,
                    max_width as nat,
                ),
        decreases n - i,
    {
        let b = &histogram[i];
        proof {
            lemma_max_count_ge(histogram@, n as int, i as int);
        }
        let label_len = b.label.as_str().unicode_len();
        let mut line = String::new();
        if label_len < 15 {
            push_repeat(&mut line, ' ', (15 - label_len) as u64);
        }
        line.append(b.label.as_str());
        line.append(" | ");
        let bar: u64 = if peak == 0 {
            0
        } else {
            assert((b.count as int) * (max_width as int) <= (peak as int) * (max_width as int))
                by (nonlinear_arith)
                requires
                    b.count <= peak,
            ;
            assert((b.count as int) * (max_width as int) / (peak as int) <= max_width)
                by (nonlinear_arith)
                requires
                    (b.count as int) * (max_width as int) <= (peak as int) * (max_width as int),
                    peak > 0,
            ;
            assert((b.count as int) * (max_width as int) <= u128::MAX) by (nonlinear_arith)
                requires
                    b.count <= 0xffff_ffff_ffff_ffffu128,
                    max_width <= 0xffff_ffff_ffff_ffffu128,
            ;
            ((b.count as u128) * (max_width as u128) / (peak as u128)) as u64
        };
        push_repeat(&mut line, '█', bar);
        line.append(" (");
        push_decimal(&mut line, b.count as u64);
        line.append(")");
        assert(line@ =~= histogram_line(
            histogram@[i as int].label@,
            histogram@[i as int].count as nat,
            peak as nat,
            max_width as nat,
        ));
        lines.push(line);
        i = i + 1;
    }
    lines
}

} // verus!
