use nelst::stats::{format_bytes, percentile, Counter, LatencyCollector, LoadTestResult};

fn micros(data: &[f64]) -> Vec<u64> {
    data.iter().map(|x| (x * 1000.0) as u64).collect()
}

fn ms(us: u64) -> f64 {
    us as f64 / 1000.0
}

#[test]
fn test_percentile() {
    let data = micros(&[1.0, 2.0, 3.0, 4.0, 5.0, 6.0, 7.0, 8.0, 9.0, 10.0]);
    assert!((ms(percentile(&data, 50)) - 5.5).abs() < 1.0);
    assert!((ms(percentile(&data, 90)) - 9.0).abs() < 1.0);
}

#[test]
fn test_percentile_p0_and_p100() {
    let data = micros(&[1.0, 2.0, 3.0, 4.0, 5.0]);
    assert!((ms(percentile(&data, 0)) - 1.0).abs() < 0.1);
    assert!((ms(percentile(&data, 100)) - 5.0).abs() < 0.1);
}

#[test]
fn test_percentile_single_value() {
    let data = micros(&[42.0]);
    assert_eq!(ms(percentile(&data, 50)), 42.0);
    assert_eq!(ms(percentile(&data, 99)), 42.0);
}

#[test]
fn test_percentile_empty() {
    let data: Vec<u64> = vec![];
    assert_eq!(ms(percentile(&data, 50)), 0.0);
}

#[test]
fn percentile_of_one_to_ten_is_the_fifth_sample() {
    let data: Vec<u64> = (1..=10).collect();
    assert_eq!(percentile(&data, 50), 5);
    assert_eq!(percentile(&data, 95), 10);
    assert_eq!(percentile(&data, 99), 10);
}

#[test]
fn test_latency_collector() {
    let mut collector = LatencyCollector::new();
    for i in 1..=100 {
        collector.add(i * 1000);
    }
    let stats = collector.compute().unwrap();
    assert_eq!(stats.min_us, 1000);
    assert_eq!(stats.max_us, 100000);
    assert_eq!(stats.p50_us, 50000);
}

#[test]
fn latency_stats_are_ordered_and_averaged() {
    let mut collector = LatencyCollector::with_capacity(4);
    for x in [40u64, 10, 30, 20] {
        collector.add(x);
    }
    collector.add_duration(std::time::Duration::from_micros(50));
    assert_eq!(collector.count(), 5);
    let s = collector.compute().unwrap();
    assert_eq!((s.min_us, s.max_us, s.avg_us), (10, 50, 30));
    assert_eq!((s.p50_us, s.p95_us, s.p99_us), (30, 50, 50));
    assert!(s.p50_us <= s.p95_us && s.p95_us <= s.p99_us && s.p99_us <= s.max_us);
}

#[test]
fn test_format_bytes() {
    assert_eq!(format_bytes(500), "500 B");
    assert_eq!(format_bytes(1024), "1.00 KB");
    assert_eq!(format_bytes(1024 * 1024), "1.00 MB");
    assert_eq!(format_bytes(1024 * 1024 * 1024), "1.00 GB");
}

#[test]
fn format_bytes_rounds_to_two_decimals() {
    assert_eq!(format_bytes(1536), "1.50 KB");
    assert_eq!(format_bytes(1023), "1023 B");
    assert_eq!(format_bytes(0), "0 B");
    assert_eq!(format_bytes(5 * 1024 * 1024 + 1024 * 1024 / 3), "5.33 MB");
}

#[test]
fn test_counter() {
    let mut counter = Counter::new();
    counter.record_success(100, 100);
    counter.record_success(100, 100);
    counter.record_failure();
    assert_eq!(counter.total, 3);
    assert_eq!(counter.success, 2);
    assert_eq!(counter.failed, 1);
    assert_eq!(counter.bytes_sent, 200);
}

#[test]
fn test_latency_collector_empty() {
    let mut collector = LatencyCollector::new();
    assert!(collector.compute().is_none());
}

#[test]
fn test_load_test_result_success_rate() {
    let mut counter = Counter::new();
    for _ in 0..80 {
        counter.record_success(10, 10);
    }
    for _ in 0..20 {
        counter.record_failure();
    }
    let result = LoadTestResult::from_counter(
        "localhost".to_string(),
        "tcp".to_string(),
        1_000_000,
        &counter,
        None,
    );
    let rate = result.success_rate_hundredths() as f64 / 100.0;
    assert!((rate - 80.0).abs() < 0.01);
}

#[test]
fn load_result_totals_and_throughput() {
    let mut counter = Counter::new();
    counter.record_failure();
    counter.record_failure();
    counter.record_failure();
    let r = LoadTestResult::from_counter("127.0.0.1:1".to_string(), "tcp".to_string(), 0, &counter, None);
    assert_eq!(r.total_requests, 3);
    assert_eq!(r.successful_requests, 0);
    assert_eq!(r.failed_requests, 3);
    assert_eq!(r.bytes_sent, 0);
    assert_eq!(r.bytes_received, 0);
    assert_eq!(r.throughput_milli_rps, 0);
    assert_eq!(r.success_rate_hundredths(), 0);
    let r2 = LoadTestResult::from_counter("h".to_string(), "tcp".to_string(), 2_000_000, &counter, None);
    assert_eq!(r2.throughput_milli_rps, 1500);
}

#[test]
fn http_responses_count_by_status() {
    let mut c = Counter::new();
    c.record_response(200, 10, 100);
    c.record_response(503, 10, 100);
    c.record_response(404, 5, 7);
    assert_eq!((c.total, c.success, c.failed), (3, 2, 1));
    assert_eq!((c.bytes_sent, c.bytes_received), (15, 107));
}

#[test]
fn microseconds_saturate() {
    assert_eq!(nelst::stats::clamp_micros(5), 5);
    assert_eq!(nelst::stats::clamp_micros(u128::MAX), u64::MAX);
}
