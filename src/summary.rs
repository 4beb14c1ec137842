//! Terminal summaries of load-test and port-scan results: aligned columns,
//! rates with two decimals, milliseconds from microseconds.

use vstd::prelude::*;
use crate::bench::pad_left;
use crate::scan::{PortResult, PortState, ScanResult};
use crate::stats::{div_round_even, format_bytes, format_bytes_spec, two_decimals, LatencyStats, LoadTestResult};
use crate::text::{decimal, push_char, push_decimal, push_decimal_wide};

verus! {

/// `part / whole` as a percentage in hundredths, rounded to nearest.
pub open spec fn percent_rounded(part: nat, whole: nat) -> nat {
    div_round_even(part * 10000, whole)
}

/// Microseconds as milliseconds with two decimals.
pub open spec fn ms_text(us: nat) -> Seq<char> {
    two_decimals(div_round_even(us, 10))
}

fn push_padded_left(out: &mut String, s: &String, width: usize)
    ensures
        final(out)@ == old(out)@ + pad_left(s@, width as nat),
{
    let n = s.as_str().unicode_len();
    if n < width {
        let mut k: usize = 0;
        let ghost start = out@;
        while k < width - n
            invariant
                k <= width - n,
                out@ == start + Seq::new(k as nat, |i: int| ' '),
            decreases width - n - k,
        {
            push_char(out, ' ');
            k = k + 1;
            assert(out@ =~= start + Seq::new(k as nat, |i: int| ' '));
        }
    }
    out.append(s.as_str());
    assert(final(out)@ =~= old(out)@ + pad_left(s@, width as nat));
}

fn hundredths_text(h: u128) -> (r: String)
    ensures
        r@ == two_decimals(h as nat),
{
    let mut out = String::new();
    push_decimal_wide(&mut out, h / 100);
    push_char(&mut out, '.');
    let mut tail = String::new();
    push_decimal_wide(&mut tail, (h / 10) % 10);
    push_decimal_wide(&mut tail, h % 10);
    out.append(tail.as_str());
    assert(out@ =~= two_decimals(h as nat));
    out
}

fn round_div(n: u128, d: u128) -> (r: u128)
    requires
        d > 0,
    ensures
        r == div_round_even(n as nat, d as nat),
{
    let q = n / d;
    let rem = n % d;
    if (rem > d - rem) || (rem == d - rem && q % 2 == 1) {
        assert(q < u128::MAX) by (nonlinear_arith)
            requires
                q == n / d,
                rem == n % d,
                rem > 0 || d - rem == rem,
                d > 0,
                n <= u128::MAX,
        ;
        q + 1
    } else {
        q
    }
}

pub open spec fn count_line(label: Seq<char>, v: nat) -> Seq<char> {
    label + pad_left(decimal(v), 10) + "\n"@
}

pub open spec fn rate_line(label: Seq<char>, v: nat, pct: nat) -> Seq<char> {
    label + pad_left(decimal(v), 10) + " ("@ + two_decimals(pct) + "%)\n"@
}

/// Request counts with their shares, throughput and data volume.
pub open spec fn load_counts_text(r: LoadTestResult) -> Seq<char> {
    let t = r.total_requests as nat;
    count_line("  Total Requests:     "@, t) + rate_line(
        "  Successful:         "@,
        r.successful_requests as nat,
        if t == 0 {
            0
        } else {
            percent_rounded(r.successful_requests as nat, t)
        },
    ) + rate_line(
        "  Failed:             "@,
        r.failed_requests as nat,
        if t == 0 {
            10000
        } else {
            percent_rounded(r.failed_requests as nat, t)
        },
    ) + "\n"@ + throughput_line(r.throughput_milli_rps as nat) + bytes_line(
        r.bytes_sent as nat,
        r.bytes_received as nat,
    )
}

pub open spec fn ms_line(label: Seq<char>, us: nat) -> Seq<char> {
    label + pad_left(ms_text(us), 8) + " ms\n"@
}

pub open spec fn latency_text(l: LatencyStats) -> Seq<char> {
    "\n"@ + "  Latency:\n"@ + ms_line("    Min:    "@, l.min_us as nat) + ms_line(
        "    Max:    "@,
        l.max_us as nat,
    ) + ms_line("    Avg:    "@, l.avg_us as nat) + ms_line("    P50:    "@, l.p50_us as nat)
        + ms_line("    P95:    "@, l.p95_us as nat) + ms_line("    P99:    "@, l.p99_us as nat)
}

/// The terminal summary of a load test.
pub open spec fn load_text_spec(r: LoadTestResult) -> Seq<char> {
    load_counts_text(r) + match r.latency {
        Some(l) => latency_text(l),
        None => Seq::empty(),
    }
}

fn push_count_line(out: &mut String, label: &str, v: u64)
    ensures
        final(out)@ == old(out)@ + count_line(label@, v as nat),
{
    out.append(label);
    let mut d = String::new();
    push_decimal(&mut d, v);
    push_padded_left(out, &d, 10);
    out.append("\n");
    assert(final(out)@ =~= old(out)@ + count_line(label@, v as nat));
}

fn push_rate_line(out: &mut String, label: &str, v: u64, pct: u128)
    ensures
        final(out)@ == old(out)@ + rate_line(label@, v as nat, pct as nat),
{
    out.append(label);
    let mut d = String::new();
    push_decimal(&mut d, v);
    push_padded_left(out, &d, 10);
    out.append(" (");
    let p = hundredths_text(pct);
    out.append(p.as_str());
    out.append("%)\n");
    assert(final(out)@ =~= old(out)@ + rate_line(label@, v as nat, pct as nat));
}

fn percent_of(part: u64, whole: u64, when_empty: u128) -> (r: u128)
    ensures
        r == if whole == 0 {
            when_empty as nat
        } else {
            percent_rounded(part as nat, whole as nat)
        },
{
    if whole == 0 {
        when_empty
    } else {
        assert((part as int) * 10000 <= u128::MAX) by (nonlinear_arith)
            requires
                part <= u64::MAX,
        ;
        round_div((part as u128) * 10000, whole as u128)
    }
}

pub open spec fn throughput_line(milli: nat) -> Seq<char> {
    "  Throughput:         "@ + pad_left(two_decimals(div_round_even(milli, 10)), 10) + " req/s\n"@
}

pub open spec fn bytes_line(sent: nat, received: nat) -> Seq<char> {
    "  Data Transferred:   "@ + pad_left(
        format_bytes_spec(
            if sent + received > u64::MAX {
                u64::MAX as nat
            } else {
                sent + received
            },
        ),
        10,
    ) + "\n"@
}

fn push_throughput_line(out: &mut String, milli: u128)
    ensures
        final(out)@ == old(out)@ + throughput_line(milli as nat),
{
    out.append("  Throughput:         ");
    let tps = hundredths_text(round_div(milli, 10));
    push_padded_left(out, &tps, 10);
    out.append(" req/s\n");
    assert(final(out)@ =~= old(out)@ + throughput_line(milli as nat));
}

fn push_bytes_line(out: &mut String, sent: u64, received: u64)
    ensures
        final(out)@ == old(out)@ + bytes_line(sent as nat, received as nat),
{
    out.append("  Data Transferred:   ");
    let total: u64 = if sent as u128 + received as u128 > u64::MAX as u128 {
        u64::MAX
    } else {
        sent + received
    };
    let b = format_bytes(total);
    push_padded_left(out, &b, 10);
    out.append("\n");
    assert(final(out)@ =~= old(out)@ + bytes_line(sent as nat, received as nat));
}

fn push_load_counts(out: &mut String, r: &LoadTestResult)
    ensures
        final(out)@ == old(out)@ + load_counts_text(*r),
{
    push_count_line(out, "  Total Requests:     ", r.total_requests);
    push_rate_line(
        out,
        "  Successful:         ",
        r.successful_requests,
        percent_of(r.successful_requests, r.total_requests, 0),
    );
    push_rate_line(
        out,
        "  Failed:             ",
        r.failed_requests,
        percent_of(r.failed_requests, r.total_requests, 10000),
    );
    out.append("\n");
    push_throughput_line(out, r.throughput_milli_rps);
    push_bytes_line(out, r.bytes_sent, r.bytes_received);
    assert(final(out)@ =~= old(out)@ + load_counts_text(*r));
}

fn push_ms_line(out: &mut String, label: &str, us: u64)
    ensures
        final(out)@ == old(out)@ + ms_line(label@, us as nat),
{
    out.append(label);
    let t = hundredths_text(round_div(us as u128, 10));
    push_padded_left(out, &t, 8);
    out.append(" ms\n");
    assert(final(out)@ =~= old(out)@ + ms_line(label@, us as nat));
}

fn push_latency(out: &mut String, l: &LatencyStats)
    ensures
        final(out)@ == old(out)@ + latency_text(*l),
{
    out.append("\n");
    out.append("  Latency:\n");
    push_ms_line(out, "    Min:    ", l.min_us);
    push_ms_line(out, "    Max:    ", l.max_us);
    push_ms_line(out, "    Avg:    ", l.avg_us);
    push_ms_line(out, "    P50:    ", l.p50_us);
    push_ms_line(out, "    P95:    ", l.p95_us);
    push_ms_line(out, "    P99:    ", l.p99_us);
    assert(final(out)@ =~= old(out)@ + latency_text(*l));
}

/// Renders a load-test result for the terminal: counts right-aligned in
/// ten columns, shares and throughput with two decimals, data volume in
/// human units, latency in milliseconds.
pub fn load_summary_text(r: &LoadTestResult) -> (s: String)
    ensures
        s@ == load_text_spec(*r),
{
    let mut out = String::new();
    push_load_counts(&mut out, r);
    match &r.latency {
        Some(l) => push_latency(&mut out, l),
        None => {},
    }
    assert(out@ =~= load_text_spec(*r));
    out
}

/// One line per open port: number, state padded to eight columns, and the
/// service label or `-`.
pub open spec fn open_port_lines(ps: Seq<PortResult>) -> Seq<char>
    decreases ps.len(),
{
    if ps.len() == 0 {
        Seq::empty()
    } else if ps.last().state == PortState::Open {
        open_port_lines(ps.drop_last()) + "  "@ + decimal(ps.last().port as nat) + "/tcp    "@
            + "open    "@ + " "@ + match ps.last().service {
            Some(sv) => sv@,
            None => "-"@,
        } + "\n"@
    } else {
        open_port_lines(ps.drop_last())
    }
}

/// The terminal summary of a scan.
pub open spec fn scan_text_spec(r: ScanResult) -> Seq<char> {
    "  PORT      STATE    SERVICE\n"@ + open_port_lines(r.ports@) + "\n"@ + "Scan completed in "@
        + two_decimals(div_round_even(r.duration_us as nat, 10000)) + "s\n"@ + "Open: "@ + decimal(
        r.summary.open as nat,
    ) + ", Closed: "@ + decimal(r.summary.closed as nat) + ", Filtered: "@ + decimal(
        r.summary.filtered as nat,
    ) + "\n"@
}

fn push_open_ports(out: &mut String, ports: &Vec<PortResult>)
    ensures
        final(out)@ == old(out)@ + open_port_lines(ports@),
{
    let mut i: usize = 0;
    while i < ports.len()
        invariant
            i <= ports@.len(),
            out@ == old(out)@ + open_port_lines(ports@.take(i as int)),
        decreases ports@.len() - i,
    {
        assert(ports@.take(i as int + 1).drop_last() =~= ports@.take(i as int));
        let p = &ports[i];
        if p.state == PortState::Open {
            out.append("  ");
            push_decimal(out, p.port as u64);
            out.append("/tcp    ");
            out.append("open    ");
            out.append(" ");
            match &p.service {
                Some(sv) => out.append(sv.as_str()),
                None => out.append("-"),
            }
            out.append("\n");
            assert(out@ =~= old(out)@ + open_port_lines(ports@.take(i as int + 1)));
        }
        i = i + 1;
    }
    assert(ports@.take(ports@.len() as int) =~= ports@);
}

/// Renders a scan result for the terminal: the open ports with their
/// services, the scan time in seconds and the state counts.
pub fn scan_summary_text(r: &ScanResult) -> (s: String)
    ensures
        s@ == scan_text_spec(*r),
{
    let mut out = String::new();
    out.append("  PORT      STATE    SERVICE\n");
    push_open_ports(&mut out, &r.ports);
    out.append("\n");
    out.append("Scan completed in ");
    let secs = hundredths_text(round_div(r.duration_us as u128, 10000));
    out.append(secs.as_str());
    out.append("s\n");
    out.append("Open: ");
    push_decimal(&mut out, r.summary.open as u64);
    out.append(", Closed: ");
    push_decimal(&mut out, r.summary.closed as u64);
    out.append(", Filtered: ");
    push_decimal(&mut out, r.summary.filtered as u64);
    out.append("\n");
    assert(out@ =~= scan_text_spec(*r));
    out
}

} // verus!
