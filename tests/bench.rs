use nelst::bench::{calculate_histogram, detect_outliers, format_histogram, histogram_counts, HistogramBucket};
use nelst::measure::{direction_stats, population_stddev, summarize_latency, summarize_ping, BandwidthCommand, SecondTracker};

fn micros(data: &[f64]) -> Vec<u64> {
    data.iter().map(|x| (x * 1000.0).round() as u64).collect()
}

#[test]
fn test_detect_outliers() {
    let data = micros(&[1.0, 2.0, 2.5, 3.0, 3.5, 4.0, 100.0]);
    let outliers = detect_outliers(&data);
    assert!(!outliers.is_empty());
    assert!(outliers.contains(&6));
}

#[test]
fn test_detect_outliers_no_outliers() {
    let data = micros(&[10.0, 11.0, 10.5, 11.5, 10.2, 10.8]);
    assert!(detect_outliers(&data).is_empty());
}

#[test]
fn test_detect_outliers_small_dataset() {
    let data = micros(&[1.0, 2.0, 3.0]);
    assert!(detect_outliers(&data).is_empty());
}

#[test]
fn test_detect_outliers_multiple() {
    let data = micros(&[1.0, 2.0, 2.5, 3.0, 3.5, 4.0, 5.0, 150.0, 200.0]);
    let outliers = detect_outliers(&data);
    assert!(outliers.len() <= data.len());
    assert_eq!(outliers, vec![7, 8]);
}

#[test]
fn test_calculate_histogram() {
    let data = micros(&[1.0, 1.5, 2.0, 2.5, 3.0, 3.5, 4.0, 4.5, 5.0]);
    let histogram = calculate_histogram(&data);
    assert!(!histogram.is_empty());
    assert_eq!(histogram.iter().map(|b| b.count).sum::<usize>(), 9);
    assert_eq!(histogram[0].label, "1.0-1.5ms");
    assert_eq!(histogram[7].label, "4.5-5.0ms");
    assert_eq!(histogram[7].count, 2);
}

#[test]
fn test_calculate_histogram_empty() {
    let data: Vec<u64> = vec![];
    assert!(calculate_histogram(&data).is_empty());
}

#[test]
fn test_calculate_histogram_single_value() {
    let data = micros(&[5.0, 5.0, 5.0, 5.0]);
    let histogram = calculate_histogram(&data);
    assert!(!histogram.is_empty());
    assert_eq!(histogram.len(), 1);
    assert_eq!(histogram[0].label, "5.0-5.0ms");
    assert_eq!(histogram[0].count, 4);
}

#[test]
fn histogram_counts_cover_every_sample() {
    let data: Vec<u64> = vec![0, 100, 7000, 20000, 20000, 3];
    let counts = histogram_counts(&data);
    assert_eq!(counts.len(), 10);
    assert_eq!(counts.iter().sum::<usize>(), data.len());
    assert_eq!(counts[0], 3);
    assert_eq!(counts[9], 2);
}

#[test]
fn test_format_histogram() {
    let histogram = vec![
        HistogramBucket { label: "0.0-1.0ms".to_string(), count: 10 },
        HistogramBucket { label: "1.0-2.0ms".to_string(), count: 5 },
    ];
    let lines = format_histogram(&histogram, 20);
    assert_eq!(lines.len(), 2);
    assert_eq!(lines[1], format!("{:>15} | {} ({})", "1.0-2.0ms", "█".repeat(10), 5));
}

#[test]
fn test_format_histogram_empty() {
    let histogram: Vec<HistogramBucket> = vec![];
    assert!(format_histogram(&histogram, 20).is_empty());
}

#[test]
fn jitter_of_constant_or_short_series_is_zero() {
    let same = direction_stats(30, 3_000_000, &vec![10, 10, 10]);
    assert_eq!(same.jitter_bps, 0);
    assert_eq!(direction_stats(0, 0, &vec![]).jitter_bps, 0);
    assert_eq!(direction_stats(7, 1_000_000, &vec![7]).jitter_bps, 0);
}

#[test]
fn bandwidth_of_a_megabyte_in_a_second_is_eight_mbps() {
    let d = direction_stats(1_000_000, 1_000_000, &vec![1_000_000]);
    assert_eq!(d.bandwidth_bps, 8_000_000);
    assert!((d.bandwidth_bps as f64 / 1e6 - 8.0).abs() < 1e-9);
    assert_eq!(d.peak_bps, 8_000_000);
}

#[test]
fn bandwidth_jitter_is_population_stddev() {
    let per_second_mbps = [75.0, 80.0, 85.0, 90.0, 70.0];
    let bytes: Vec<u64> = per_second_mbps.iter().map(|m: &f64| (m * 1e6 / 8.0) as u64).collect();
    let total: u64 = bytes.iter().sum();
    let d = direction_stats(total, 5_000_000, &bytes);
    let jitter_mbps = d.jitter_bps as f64 / 1e6;
    assert!((jitter_mbps - 7.071).abs() < 0.01);
    assert_eq!(d.peak_bps, 90_000_000);
    assert_eq!(d.per_second_bps.len(), 5);
}

#[test]
fn stddev_rounds_down() {
    assert_eq!(population_stddev(&vec![2, 4, 4, 4, 5, 5, 7, 9]), 2);
    assert_eq!(population_stddev(&vec![0, 3]), 1);
    assert_eq!(population_stddev(&vec![]), 0);
}

#[test]
fn latency_summary_counts_and_rate() {
    let s = summarize_latency(&vec![3000, 1000, 2000], 4);
    assert_eq!((s.count, s.success_count, s.failure_count), (4, 3, 1));
    assert_eq!(s.success_rate_hundredths, 7500);
    assert_eq!((s.min_us, s.max_us, s.avg_us, s.p50_us, s.p99_us), (1000, 3000, 2000, 2000, 3000));
    let none = summarize_latency(&vec![], 0);
    assert_eq!((none.count, none.success_rate_hundredths), (0, 0));
    let fails = summarize_latency(&vec![], 100);
    assert_eq!((fails.failure_count, fails.success_rate_hundredths), (100, 0));
}

#[test]
fn ping_summary_loss() {
    let p = summarize_ping(4, &vec![1000, 3000]);
    assert_eq!(p.received, 2);
    assert_eq!(p.packet_loss_hundredths, 5000);
    assert_eq!(p.stddev_us, 1000);
    assert_eq!(summarize_ping(3, &vec![]).packet_loss_hundredths, 10000);
}

#[test]
fn per_second_tracker_rolls_over_each_second() {
    let mut t = SecondTracker::new();
    t.progress(100, 0);
    t.progress(250, 1);
    t.progress(300, 1);
    t.progress(600, 2);
    assert_eq!(t.finish(700), vec![250, 350, 100]);
    let mut u = SecondTracker::new();
    u.progress(10, 1);
    assert_eq!(u.finish(10), vec![10]);
}

#[test]
fn bandwidth_command_bytes() {
    assert_eq!(BandwidthCommand::Upload.to_byte(), b'U');
    assert_eq!(BandwidthCommand::Download.to_byte(), b'D');
    assert_eq!(BandwidthCommand::from_byte(b'U'), Some(BandwidthCommand::Upload));
    assert_eq!(BandwidthCommand::from_byte(b'D'), Some(BandwidthCommand::Download));
    assert_eq!(BandwidthCommand::from_byte(b'X'), None);
}

#[test]
fn histogram_buckets_cover_every_sample() {
    let data: Vec<u64> = vec![0, 100, 7000, 20000, 20000, 3];
    let h = calculate_histogram(&data);
    assert!(h.len() <= 10);
    assert_eq!(h.iter().map(|b| b.count).sum::<usize>(), data.len());
}
