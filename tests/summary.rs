use nelst::scan::{build_scan_result, PortState, Transport};
use nelst::stats::{Counter, LatencyStats, LoadTestResult};
use nelst::summary::{load_summary_text, scan_summary_text};

#[test]
fn load_summary_layout() {
    let mut counter = Counter::new();
    for _ in 0..2 {
        counter.record_success(512, 512);
    }
    counter.record_failure();
    let stats = LatencyStats { min_us: 1234, max_us: 99_995, avg_us: 5000, p50_us: 4000, p95_us: 9000, p99_us: 10_000 };
    let r = LoadTestResult::from_counter("h".to_string(), "tcp".to_string(), 1_500_000, &counter, Some(stats));
    let text = load_summary_text(&r);
    let expected = "  Total Requests:              3\n  Successful:                  2 (66.67%)\n  Failed:                      1 (33.33%)\n\n  Throughput:               2.00 req/s\n  Data Transferred:      2.00 KB\n\n  Latency:\n    Min:        1.23 ms\n    Max:      100.00 ms\n    Avg:        5.00 ms\n    P50:        4.00 ms\n    P95:        9.00 ms\n    P99:       10.00 ms\n";
    assert_eq!(text, expected);
}

#[test]
fn load_summary_without_requests() {
    let r = LoadTestResult::from_counter("h".to_string(), "tcp".to_string(), 0, &Counter::new(), None);
    let text = load_summary_text(&r);
    assert!(text.contains("(0.00%)"));
    assert!(text.contains("(100.00%)"));
    assert!(text.contains("0 B"));
}

#[test]
fn scan_summary_lists_open_ports() {
    let r = build_scan_result(
        "t".to_string(),
        "TCP Connect".to_string(),
        "now".to_string(),
        1_234_567,
        &vec![22, 23, 8081],
        &vec![PortState::Open, PortState::Closed, PortState::Open],
        Transport::Tcp,
    );
    assert_eq!(
        scan_summary_text(&r),
        "  PORT      STATE    SERVICE\n  22/tcp    open     ssh\n  8081/tcp    open     -\n\nScan completed in 1.23s\nOpen: 2, Closed: 1, Filtered: 0\n"
    );
}
