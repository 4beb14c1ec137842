use nelst::dns::dns_error;
use nelst::profile::Profile;
use nelst::trace::{Hop, TraceRun};

#[test]
fn test_hop_new() {
    let hop = Hop {
        ttl: 1,
        address: Some("192.168.1.1".to_string()),
        hostname: None,
        rtts_us: vec![Some(1500), Some(1200), Some(1800)],
        is_destination: false,
    };
    assert_eq!(hop.ttl, 1);
    assert!(!hop.is_destination);
    assert_eq!(hop.rtts_us.len(), 3);
}

#[test]
fn test_hop_with_timeouts() {
    let mut hop = Hop::new(5);
    hop.record_timeout();
    hop.record_timeout();
    hop.record_timeout();
    assert!(hop.address.is_none());
    assert!(hop.rtts_us.iter().all(|r| r.is_none()));
}

#[test]
fn test_hop_destination() {
    let mut hop = Hop::new(10);
    hop.record_reply("93.184.216.34".to_string(), 25500, true);
    hop.hostname = Some("example.com".to_string());
    assert!(hop.is_destination);
    assert!(hop.hostname.is_some());
}

#[test]
fn trace_stops_at_destination() {
    let mut run = TraceRun::new(30);
    let mut ttl_seen = Vec::new();
    while let Some(ttl) = run.next_ttl() {
        ttl_seen.push(ttl);
        let mut hop = Hop::new(ttl);
        hop.record_reply(format!("10.0.0.{}", ttl), 1000, ttl == 3);
        run.push_hop(hop);
    }
    assert_eq!(ttl_seen, vec![1, 2, 3]);
    let summary = run.finish();
    assert!(summary.reached_destination);
    assert_eq!(summary.total_hops, 3);
}

#[test]
fn trace_not_reached_stops_at_max_hops() {
    let mut run = TraceRun::new(2);
    while let Some(ttl) = run.next_ttl() {
        let mut hop = Hop::new(ttl);
        hop.record_timeout();
        run.push_hop(hop);
    }
    let summary = run.finish();
    assert!(!summary.reached_destination);
    assert_eq!(summary.total_hops, 2);
    assert_eq!(summary.hops.len(), 2);
}

#[test]
fn test_dns_result_with_error() {
    let errors = vec!["timeout".to_string(), "NXDOMAIN".to_string()];
    assert_eq!(dns_error(0, &errors), Some("NXDOMAIN".to_string()));
    assert_eq!(dns_error(2, &errors), None);
    assert_eq!(dns_error(0, &vec![]), None);
}

#[test]
fn test_profile_new() {
    let profile = Profile::new("test", "load", "traffic", Some("Test profile"));
    assert_eq!(profile.name, "test");
    assert_eq!(profile.command_type, "load");
    assert_eq!(profile.subcommand_type, "traffic");
    assert_eq!(profile.description, "Test profile");
}

#[test]
fn test_profile_options() {
    let mut profile = Profile::new("test", "load", "traffic", None);
    profile.set_option("target", serde_json::Value::from("127.0.0.1:8080"));
    profile.set_option("duration", serde_json::Value::from(60u64));
    profile.set_option("concurrency", serde_json::Value::from(10usize));
    assert_eq!(
        profile.get_option("target").and_then(|v| v.as_str()).map(|s| s.to_string()),
        Some("127.0.0.1:8080".to_string())
    );
    assert_eq!(profile.get_option("duration").and_then(|v| v.as_u64()), Some(60));
    assert_eq!(profile.get_option("concurrency").and_then(|v| v.as_u64()), Some(10));
}

#[test]
fn profile_update_refreshes_stamp_and_replaces_value() {
    let mut profile = Profile::new_at("p", "scan", "port", None, "2024-01-01T00:00:00Z");
    profile.set_option_at("ports", serde_json::Value::from("1-100"), "2024-01-02T00:00:00Z");
    profile.set_option_at("ports", serde_json::Value::from("22"), "2024-01-03T00:00:00Z");
    assert_eq!(profile.updated_at, "2024-01-03T00:00:00Z");
    assert_eq!(profile.created_at, "2024-01-01T00:00:00Z");
    assert_eq!(profile.options.len(), 1);
    assert_eq!(profile.get_option("ports"), Some(&serde_json::Value::from("22")));
    assert_eq!(profile.get_option("missing"), None);
}
