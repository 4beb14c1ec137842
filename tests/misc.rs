use nelst::dns::DnsRecord;
use nelst::args::{
    BandwidthDirection, DeleteArgs, DnsRecordType, ExportArgs, ImportArgs, MtuArgs, PingArgs,
    Protocol, ShowArgs, TraceArgs, TraceMode, TrafficMode,
};
use nelst::config::{DefaultsConfig, LoadConfig, ScanConfig, ServerConfig};
use nelst::error::{format_error, ExitStatus, IoKind, NelstError};
use nelst::http::{is_failure_status, parse_body, parse_header, parse_headers, parse_method, pool_size, BodySource, HttpMethod};
use nelst::mtu::MtuSearch;
use nelst::output::{Output, OutputFormat};
use nelst::schedule::{batch_bounds, get_send_data, pacing_interval_us, BATCH_SIZE};

#[test]
fn test_exit_status_conversion() {
    assert_eq!(ExitStatus::Success.code(), 0);
    assert_eq!(ExitStatus::GeneralError.code(), 1);
    assert_eq!(ExitStatus::PermissionError.code(), 4);
}

#[test]
fn test_error_with_hint() {
    let err = NelstError::permission_with_hint(
        "SYN scan requires root privileges",
        "Run with 'sudo nelst scan port -m syn ...'",
    );
    assert!(err.hint().is_some());
    assert!(err.hint().unwrap().contains("sudo"));
}

#[test]
fn test_error_exit_status_mapping() {
    assert_eq!(NelstError::argument("bad arg").exit_status(), ExitStatus::ArgumentError);
    assert_eq!(NelstError::connection("failed").exit_status(), ExitStatus::ConnectionError);
    assert_eq!(NelstError::timeout("timed out").exit_status(), ExitStatus::TimeoutError);
    assert_eq!(NelstError::permission("denied").exit_status(), ExitStatus::PermissionError);
}

#[test]
fn io_errors_map_by_kind() {
    let io = |kind| NelstError::Io { kind, message: "x".to_string() };
    assert_eq!(io(IoKind::PermissionDenied).exit_status(), ExitStatus::PermissionError);
    assert_eq!(io(IoKind::TimedOut).exit_status(), ExitStatus::TimeoutError);
    assert_eq!(io(IoKind::Other).exit_status(), ExitStatus::GeneralError);
    assert_eq!(NelstError::config("c").exit_status(), ExitStatus::GeneralError);
    assert_eq!(NelstError::scan("s").exit_status(), ExitStatus::GeneralError);
}

#[test]
fn test_is_retryable() {
    assert!(NelstError::connection("failed").is_retryable());
    assert!(NelstError::timeout("timed out").is_retryable());
    assert!(!NelstError::argument("bad arg").is_retryable());
    assert!(!NelstError::permission("denied").is_retryable());
}

#[test]
fn test_format_error() {
    let err = NelstError::permission_with_hint("Root required", "Use sudo");
    let formatted = format_error(&err);
    assert!(formatted.contains("Error:"));
    assert!(formatted.contains("Hint:"));
    assert_eq!(formatted, "Error: Permission denied: Root required\nHint: Use sudo");
    assert_eq!(format_error(&NelstError::timeout("t")), "Error: Timeout: t");
    let e = NelstError::connection_with_source("c", "refused");
    assert!(matches!(e, NelstError::Connection { source: Some(_), .. }));
    assert!(matches!(NelstError::io_with_context("c", "io"), NelstError::Connection { .. }));
}

#[test]
fn test_output_format() {
    assert_eq!(Output::new(false, false).format(), OutputFormat::Text);
    assert_eq!(Output::new(true, false).format(), OutputFormat::Json);
    assert_eq!(Output::new(false, true).format(), OutputFormat::Quiet);
    assert_eq!(Output::new(true, true).format(), OutputFormat::Quiet);
    assert!(Output::new(true, false).is_json());
}

#[test]
fn test_defaults_config_default() {
    let defaults = DefaultsConfig::default();
    assert!(!defaults.verbose);
    assert_eq!(defaults.timeout, 5000);
}

#[test]
fn test_load_config_default() {
    let load = LoadConfig::default();
    assert_eq!(load.protocol, "tcp");
    assert_eq!(load.concurrency, 10);
    assert_eq!(load.duration, 60);
    assert_eq!(load.size, 1024);
}

#[test]
fn test_scan_config_default() {
    let scan = ScanConfig::default();
    assert_eq!(scan.method, "tcp");
    assert_eq!(scan.ports, "1-1024");
    assert_eq!(scan.concurrency, 100);
    assert_eq!(scan.timeout, 1000);
}

#[test]
fn test_server_config_default() {
    let server = ServerConfig::default();
    assert_eq!(server.bind, "0.0.0.0:8080");
    assert_eq!(server.protocol, "tcp");
}

#[test]
fn test_default_config() {
    let config = nelst::config::Config::default();
    assert_eq!(config.defaults.timeout, 5000);
    assert_eq!(config.load.protocol, "tcp");
    assert_eq!(config.scan.ports, "1-1024");
}

#[test]
fn test_bandwidth_direction_default() {
    assert!(matches!(BandwidthDirection::default(), BandwidthDirection::Both));
}

#[test]
fn test_bandwidth_direction_up() {
    let dir = BandwidthDirection::Up;
    assert!(matches!(dir, BandwidthDirection::Up));
    assert_eq!(dir.phases(), (true, false));
}

#[test]
fn test_bandwidth_direction_down() {
    let dir = BandwidthDirection::Down;
    assert!(matches!(dir, BandwidthDirection::Down));
    assert_eq!(dir.phases(), (false, true));
}

#[test]
fn test_ping_args_defaults() {
    let args = PingArgs {
        target: "127.0.0.1".to_string(),
        count: 4,
        interval: 1000,
        timeout: 5000,
        tcp: false,
        port: 80,
        size: 64,
        output: None,
    };
    assert_eq!(args.count, 4);
    assert_eq!(args.interval, 1000);
}

#[test]
fn test_ping_args_tcp_mode() {
    let args = PingArgs {
        target: "example.com".to_string(),
        count: 10,
        interval: 500,
        timeout: 3000,
        tcp: true,
        port: 443,
        size: 128,
        output: Some("output.json".to_string()),
    };
    assert!(args.tcp);
    assert_eq!(args.port, 443);
    assert!(args.output.is_some());
}

#[test]
fn test_trace_mode_default() {
    assert!(matches!(TraceMode::default(), TraceMode::Udp));
}

#[test]
fn test_trace_mode_tcp() {
    let mode = TraceMode::Tcp;
    assert!(matches!(mode, TraceMode::Tcp));
}

#[test]
fn test_trace_mode_icmp() {
    let mode = TraceMode::Icmp;
    assert!(matches!(mode, TraceMode::Icmp));
}

#[test]
fn test_trace_args() {
    let args = TraceArgs {
        target: "8.8.8.8".to_string(),
        max_hops: 15,
        mode: TraceMode::Tcp,
        queries: 5,
        timeout: 3000,
        port: 443,
        output: None,
    };
    assert_eq!(args.max_hops, 15);
    assert_eq!(args.queries, 5);
    assert!(matches!(args.mode, TraceMode::Tcp));
}

#[test]
fn test_dns_record_type_default() {
    assert!(matches!(DnsRecordType::default(), DnsRecordType::A));
}

#[test]
fn test_dns_record_types() {
    assert!(matches!(DnsRecordType::A, DnsRecordType::A));
    assert!(matches!(DnsRecordType::Aaaa, DnsRecordType::Aaaa));
    assert!(matches!(DnsRecordType::Mx, DnsRecordType::Mx));
    assert!(matches!(DnsRecordType::Txt, DnsRecordType::Txt));
    assert!(matches!(DnsRecordType::Ns, DnsRecordType::Ns));
    assert!(matches!(DnsRecordType::Cname, DnsRecordType::Cname));
    assert!(matches!(DnsRecordType::Soa, DnsRecordType::Soa));
    assert!(matches!(DnsRecordType::Ptr, DnsRecordType::Ptr));
    assert!(matches!(DnsRecordType::All, DnsRecordType::All));
}

#[test]
fn test_to_record_type_all() {
    let types = DnsRecordType::All.expand();
    assert_eq!(types.len(), 6);
    assert!(types.contains(&DnsRecordType::A));
    assert!(types.contains(&DnsRecordType::Cname));
    assert_eq!(DnsRecordType::Ptr.expand(), vec![DnsRecordType::Ptr]);
}

#[test]
fn test_mtu_args() {
    let args = MtuArgs {
        target: "192.168.1.1".to_string(),
        min_mtu: 100,
        max_mtu: 9000,
        timeout: 2000,
        output: Some("mtu.json".to_string()),
    };
    assert_eq!(args.min_mtu, 100);
    assert_eq!(args.max_mtu, 9000);
    assert!(args.output.is_some());
}

#[test]
fn test_mtu_args_defaults() {
    let args = MtuArgs { target: "10.0.0.1".to_string(), min_mtu: 68, max_mtu: 1500, timeout: 3000, output: None };
    assert_eq!(args.min_mtu, 68);
    assert_eq!(args.max_mtu, 1500);
}

#[test]
fn test_show_args() {
    let args = ShowArgs { name: "test-profile".to_string() };
    assert_eq!(args.name, "test-profile");
}

#[test]
fn test_delete_args() {
    let args = DeleteArgs { name: "old-profile".to_string(), force: true };
    assert!(args.force);
}

#[test]
fn test_export_args() {
    let args = ExportArgs { name: "my-profile".to_string(), output: Some("profile.toml".to_string()) };
    assert!(args.output.is_some());
}

#[test]
fn test_import_args() {
    let args = ImportArgs { file: "shared-profile.toml".to_string(), name: Some("imported-profile".to_string()) };
    assert!(args.name.is_some());
}

#[test]
fn test_dns_record() {
    let record = DnsRecord { record_type: "A".to_string(), value: "93.184.216.34".to_string(), ttl: 3600 };
    assert_eq!(record.record_type, "A");
    assert_eq!(record.ttl, 3600);
}

#[test]
fn test_dns_record_mx() {
    let record = DnsRecord { record_type: "MX".to_string(), value: "10 mail.example.com".to_string(), ttl: 7200 };
    assert_eq!(record.record_type, "MX");
    assert!(record.value.contains("mail"));
}

#[test]
fn test_traffic_mode_variants() {
    let modes = [TrafficMode::Send, TrafficMode::Echo, TrafficMode::Recv];
    assert_eq!(modes.len(), 3);
    assert_eq!(TrafficMode::default(), TrafficMode::Echo);
}

#[test]
fn test_protocol_variants() {
    let protocols = [Protocol::Tcp, Protocol::Udp];
    assert_eq!(protocols.len(), 2);
    assert_eq!(Protocol::default(), Protocol::Tcp);
}

#[test]
fn test_get_send_data_zero_size() {
    assert!(get_send_data(0).is_empty());
}

#[test]
fn test_get_send_data_normal_size() {
    let data = get_send_data(100);
    assert_eq!(data.len(), 100);
    assert!(data.iter().all(|&b| b == 0x41));
}

#[test]
fn test_get_send_data_max_size() {
    assert_eq!(get_send_data(65536).len(), 65536);
}

#[test]
fn test_get_send_data_over_max_size() {
    assert_eq!(get_send_data(100000).len(), 65536);
}

#[test]
fn test_batch_size_constant() {
    assert!(BATCH_SIZE > 0);
    assert!(BATCH_SIZE <= 1000);
    assert_eq!(BATCH_SIZE, 100);
}

#[test]
fn batches_cover_the_count() {
    assert_eq!(batch_bounds(0), vec![]);
    assert_eq!(batch_bounds(3), vec![(0, 3)]);
    assert_eq!(batch_bounds(250), vec![(0, 100), (100, 200), (200, 250)]);
    assert_eq!(pacing_interval_us(Some(100), 10), 100_000);
    assert_eq!(pacing_interval_us(None, 10), 0);
}

#[test]
fn test_http_test_new_invalid_method() {
    assert!(parse_method("INVALID").is_err());
    assert_eq!(parse_method("post").unwrap(), HttpMethod::Post);
    assert_eq!(parse_method("Options").unwrap(), HttpMethod::Options);
}

#[test]
fn test_http_test_new_header_whitespace_trimming() {
    let (k, v) = parse_header("  Content-Type  :   application/json  ").unwrap();
    assert_eq!(k, "Content-Type");
    assert_eq!(v, "application/json");
    let (k, v) = parse_header("X-Time: 12:30").unwrap();
    assert_eq!((k.as_str(), v.as_str()), ("X-Time", "12:30"));
}

#[test]
fn test_http_test_new_invalid_header_format() {
    let err = parse_header("InvalidHeader").unwrap_err();
    assert_eq!(err.description(), "Argument error: Invalid header format: InvalidHeader. Use 'Key: Value'");
    let hs = vec!["A: 1".to_string(), "bad".to_string()];
    assert!(parse_headers(&hs).is_err());
    assert_eq!(parse_headers(&vec!["A: 1".to_string()]).unwrap().len(), 1);
}

#[test]
fn http_body_and_status_rules() {
    assert!(matches!(parse_body("@/tmp/x"), BodySource::File(p) if p == "/tmp/x"));
    assert!(matches!(parse_body("{}"), BodySource::Literal(t) if t == "{}"));
    assert!(is_failure_status(500));
    assert!(!is_failure_status(404));
    assert_eq!(pool_size(3), 10);
    assert_eq!(pool_size(50), 50);
}

#[test]
fn mtu_search_stops_when_max_passes() {
    let mut s = MtuSearch::new(68, 1500);
    assert_eq!(s.next_probe(), Some(1500));
    s.record(true, 250);
    assert!(s.is_done());
    assert_eq!(s.path_mtu(), 1500);
    assert_eq!(s.probes().len(), 1);
    assert!(s.probes()[0].success);
    assert_eq!(s.next_probe(), None);
}

#[test]
fn mtu_search_bisects_to_the_path_limit() {
    let limit = 1400;
    let mut s = MtuSearch::new(68, 1500);
    while let Some(size) = s.next_probe() {
        s.record(size <= limit, 1);
    }
    assert_eq!(s.path_mtu(), limit);
    assert!(!s.probes()[0].success);
    assert!(s.probes()[1].success);
    let mut t = MtuSearch::new(68, 1500);
    t.record(false, 0);
    t.record(false, 0);
    assert!(t.is_done());
    assert_eq!(t.path_mtu(), 68);
    assert_eq!(t.probes().len(), 2);
}

#[test]
fn header_and_section_text() {
    let h = nelst::output::header_text("Port Scan");
    assert_eq!(h, format!("\nNeLST - Port Scan\n{}\n\n", "━".repeat(57)));
    let s = nelst::output::section_text("Results");
    assert_eq!(s, format!("{} Results {}\n\n", "━".repeat(19), "━".repeat(19)));
    let long = "x".repeat(50);
    assert_eq!(nelst::output::section_text(&long), format!("━━━ {} ━━━\n\n", long));
}
