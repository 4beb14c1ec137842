use nelst::packet::{
    build_echo_request, build_tcp_packet, calculate_icmp_checksum, determine_port_state, get_scan_flags,
    no_reply_state, random_seq, random_source_port, raw_scan_states, tcp_checksum, TcpResponse,
    TcpScanFlags, TCP_ACK, TCP_RST, TCP_SYN,
};
use nelst::ports::parse_ports;
use nelst::scan::{
    build_scan_result, connect_port_state, get_service_name, get_udp_service_name, udp_port_states,
    ConnectOutcome, PortState, ScanMethod, Transport,
};

#[test]
fn test_parse_ports_range() {
    let ports = parse_ports("1-100").unwrap();
    assert_eq!(ports.len(), 100);
    assert_eq!(ports[0], 1);
    assert_eq!(ports[99], 100);
}

#[test]
fn test_parse_ports_list() {
    let ports = parse_ports("22,80,443").unwrap();
    assert_eq!(ports, vec![22, 80, 443]);
}

#[test]
fn test_parse_ports_mixed() {
    let ports = parse_ports("22,80-82,443").unwrap();
    assert_eq!(ports, vec![22, 80, 81, 82, 443]);
}

#[test]
fn test_parse_ports_spaces() {
    let ports = parse_ports(" 22 , 80 , 443 ").unwrap();
    assert_eq!(ports, vec![22, 80, 443]);
}

#[test]
fn test_parse_ports_invalid() {
    assert!(parse_ports("invalid").is_err());
    assert!(parse_ports("100-50").is_err());
}

#[test]
fn parse_ports_full_range_and_errors() {
    let ports = parse_ports("1-1024").unwrap();
    assert_eq!(ports.len(), 1024);
    assert!(ports.iter().enumerate().all(|(i, p)| *p as usize == i + 1));
    assert_eq!(parse_ports("100-50").unwrap_err(), "Invalid port range: 100 > 50");
    assert_eq!(parse_ports("1-2-3").unwrap_err(), "Invalid port range: 1-2-3");
    assert_eq!(parse_ports("x-5").unwrap_err(), "Invalid port number: x");
    assert_eq!(parse_ports("70000").unwrap_err(), "Invalid port number: 70000");
    assert_eq!(parse_ports("22,").unwrap_err(), "Invalid port number: ");
    assert_eq!(parse_ports("+80, 65535 - 65535").unwrap(), vec![80, 65535]);
}

#[test]
fn test_tcp_scan_flags_name() {
    assert_eq!(TcpScanFlags::Syn.name(), "SYN");
    assert_eq!(TcpScanFlags::Fin.name(), "FIN");
    assert_eq!(TcpScanFlags::Xmas.name(), "Xmas");
    assert_eq!(TcpScanFlags::Null.name(), "NULL");
}

#[test]
fn test_tcp_scan_flags() {
    assert_eq!(TcpScanFlags::Syn.flags(), 0x02);
    assert_eq!(TcpScanFlags::Fin.flags(), 0x01);
    assert_eq!(TcpScanFlags::Xmas.flags(), 0x01 | 0x08 | 0x20);
    assert_eq!(TcpScanFlags::Null.flags(), 0);
}

#[test]
fn test_get_scan_flags() {
    assert!(matches!(get_scan_flags(&ScanMethod::Syn), TcpScanFlags::Syn));
    assert!(matches!(get_scan_flags(&ScanMethod::Fin), TcpScanFlags::Fin));
    assert!(matches!(get_scan_flags(&ScanMethod::Xmas), TcpScanFlags::Xmas));
    assert!(matches!(get_scan_flags(&ScanMethod::Null), TcpScanFlags::Null));
    assert!(matches!(get_scan_flags(&ScanMethod::Tcp), TcpScanFlags::Syn));
}

#[test]
fn test_random_source_port() {
    for _ in 0..100 {
        let port = random_source_port();
        assert!(port >= 49152);
    }
    let _ = random_seq();
}

#[test]
fn test_determine_port_state_syn_scan() {
    let syn_ack = TcpResponse::new(80, 12345, TCP_SYN | TCP_ACK);
    assert!(syn_ack.is_syn_ack);
    assert_eq!(determine_port_state(&syn_ack, TcpScanFlags::Syn), PortState::Open);
    let rst = TcpResponse::new(80, 12345, TCP_RST);
    assert!(rst.is_rst);
    assert_eq!(determine_port_state(&rst, TcpScanFlags::Syn), PortState::Closed);
    let other = TcpResponse::new(80, 12345, TCP_ACK);
    assert_eq!(determine_port_state(&other, TcpScanFlags::Syn), PortState::Filtered);
}

#[test]
fn test_determine_port_state_fin_xmas_null_scan() {
    let rst = TcpResponse::new(80, 12345, TCP_RST);
    assert_eq!(determine_port_state(&rst, TcpScanFlags::Fin), PortState::Closed);
    assert_eq!(determine_port_state(&rst, TcpScanFlags::Xmas), PortState::Closed);
    assert_eq!(determine_port_state(&rst, TcpScanFlags::Null), PortState::Closed);
    let other = TcpResponse::new(80, 12345, TCP_ACK);
    assert_eq!(determine_port_state(&other, TcpScanFlags::Fin), PortState::Open);
    assert_eq!(no_reply_state(TcpScanFlags::Syn), PortState::Filtered);
    assert_eq!(no_reply_state(TcpScanFlags::Null), PortState::Open);
}

#[test]
fn raw_scan_uses_last_reply_or_silence_rule() {
    let ports = vec![22, 80, 443];
    let replies = vec![(80, PortState::Closed), (22, PortState::Open), (80, PortState::Open)];
    assert_eq!(
        raw_scan_states(&ports, &replies, TcpScanFlags::Syn),
        vec![PortState::Open, PortState::Open, PortState::Filtered]
    );
    assert_eq!(
        raw_scan_states(&ports, &vec![], TcpScanFlags::Fin),
        vec![PortState::Open, PortState::Open, PortState::Open]
    );
}

#[test]
fn test_build_tcp_packet() {
    let packet = build_tcp_packet([192, 168, 1, 100], 12345, [192, 168, 1, 1], 80, TcpScanFlags::Syn, 1000);
    assert_eq!(packet.len(), 20);
    assert_eq!(u16::from_be_bytes([packet[0], packet[1]]), 12345);
    assert_eq!(u16::from_be_bytes([packet[2], packet[3]]), 80);
    assert_eq!(u32::from_be_bytes([packet[4], packet[5], packet[6], packet[7]]), 1000);
    assert_eq!(packet[12] >> 4, 5);
    assert_eq!(packet[13], 0x02);
    assert_eq!(u16::from_be_bytes([packet[14], packet[15]]), 65535);
    assert_ne!(u16::from_be_bytes([packet[16], packet[17]]), 0);
    let mut blank = packet.clone();
    blank[16] = 0;
    blank[17] = 0;
    assert_eq!(
        tcp_checksum([192, 168, 1, 100], [192, 168, 1, 1], &blank),
        u16::from_be_bytes([packet[16], packet[17]])
    );
    // a correct checksum makes the one's-complement sum over pseudo-header and segment 0xFFFF
    assert_eq!(tcp_checksum([192, 168, 1, 100], [192, 168, 1, 1], &packet), 0);
}

#[test]
fn test_icmp_checksum() {
    let packet = vec![0x08, 0x00, 0x00, 0x00, 0x00, 0x01, 0x00, 0x01];
    let checksum = calculate_icmp_checksum(&packet);
    assert!(checksum > 0);
    assert_eq!(checksum, 0xF7FD);
}

#[test]
fn test_icmp_checksum_zero_packet() {
    let packet = vec![0x00; 8];
    let checksum = calculate_icmp_checksum(&packet);
    assert_eq!(checksum, 0xFFFF);
}

#[test]
fn test_icmp_checksum_odd_length() {
    let packet = vec![0x08, 0x00, 0x00, 0x00, 0x00, 0x01, 0x00];
    let checksum = calculate_icmp_checksum(&packet);
    assert!(checksum > 0);
    assert_eq!(checksum, 0xF7FE);
}

#[test]
fn echo_request_for_mtu_probe() {
    assert!(build_echo_request(28, true).is_none());
    let p = build_echo_request(1500, true).unwrap();
    assert_eq!(p.len(), 1472);
    assert_eq!((p[0], p[4], p[5], p[7]), (8, 0x12, 0x34, 1));
    assert_eq!(calculate_icmp_checksum(&p), 0);
    let small = build_echo_request(50, false).unwrap();
    assert_eq!(small.len(), 8);
    assert_eq!(small[0], 128);
}

#[test]
fn test_get_udp_service_name() {
    assert_eq!(get_udp_service_name(53), Some("dns".to_string()));
    assert_eq!(get_udp_service_name(123), Some("ntp".to_string()));
    assert_eq!(get_udp_service_name(161), Some("snmp".to_string()));
    assert_eq!(get_udp_service_name(5353), Some("mdns".to_string()));
    assert_eq!(get_udp_service_name(12345), None);
}

#[test]
fn service_lookup_well_known_tcp_ports() {
    assert_eq!(get_service_name(22), Some("ssh".to_string()));
    assert_eq!(get_service_name(443), Some("https".to_string()));
    assert_eq!(get_service_name(3306), Some("mysql".to_string()));
    assert_eq!(get_service_name(1), None);
}

#[test]
fn scan_result_summary_counts_states() {
    let ports = vec![1, 22, 80];
    let states = vec![
        connect_port_state(ConnectOutcome::Refused),
        connect_port_state(ConnectOutcome::Connected),
        connect_port_state(ConnectOutcome::TimedOut),
    ];
    let r = build_scan_result(
        "127.0.0.1".to_string(),
        "TCP Connect".to_string(),
        "now".to_string(),
        5,
        &ports,
        &states,
        Transport::Tcp,
    );
    assert_eq!(r.summary.total_scanned, 3);
    assert_eq!((r.summary.open, r.summary.closed, r.summary.filtered), (1, 1, 1));
    assert_eq!(r.ports[1].service, Some("ssh".to_string()));
    assert_eq!(r.ports[0].service, None);
    assert_eq!(r.ports.len(), r.summary.open + r.summary.closed + r.summary.filtered);
}

#[test]
fn connect_scan_of_refused_port_is_closed() {
    let state = connect_port_state(ConnectOutcome::Refused);
    let r = build_scan_result(
        "127.0.0.1".to_string(),
        "TCP Connect".to_string(),
        String::new(),
        0,
        &vec![1],
        &vec![state],
        Transport::Tcp,
    );
    assert_eq!(
        (r.summary.total_scanned, r.summary.open, r.summary.closed, r.summary.filtered),
        (1, 0, 1, 0)
    );
}

#[test]
fn udp_states_and_labels() {
    let ports = vec![53, 54];
    let states = udp_port_states(&ports, &vec![54]);
    assert_eq!(states, vec![PortState::Open, PortState::Closed]);
    let r = build_scan_result(String::new(), "UDP".to_string(), String::new(), 0, &ports, &states, Transport::Udp);
    assert_eq!(r.ports[0].service, Some("dns".to_string()));
    assert_eq!(PortState::Filtered.name(), "filtered");
}

#[test]
fn raw_reply_is_read_from_ipv4_packet() {
    let mut p = vec![0u8; 40];
    p[0] = 0x45;
    p[9] = 6;
    p[12..16].copy_from_slice(&[10, 0, 0, 1]);
    p[20] = 0x00;
    p[21] = 80;
    p[22] = 0xC3;
    p[23] = 0x50;
    p[33] = TCP_SYN | TCP_ACK;
    let (ip, r) = nelst::packet::parse_ipv4_tcp_reply(&p).unwrap();
    assert_eq!(ip, [10, 0, 0, 1]);
    assert_eq!((r.source_port, r.dest_port), (80, 50000));
    assert!(r.is_syn_ack && !r.is_rst);
    p[9] = 17;
    assert!(nelst::packet::parse_ipv4_tcp_reply(&p).is_none());
    assert!(nelst::packet::parse_ipv4_tcp_reply(&vec![0x45; 10]).is_none());
}

#[test]
fn connect_scan_results_are_sorted_by_port() {
    let r = nelst::scan::build_sorted_scan_result(
        "127.0.0.1".to_string(),
        "TCP Connect".to_string(),
        String::new(),
        0,
        vec![(443, PortState::Open), (22, PortState::Closed), (80, PortState::Open)],
    );
    let ports: Vec<u16> = r.ports.iter().map(|p| p.port).collect();
    assert_eq!(ports, vec![22, 80, 443]);
    assert_eq!(r.ports[0].state, PortState::Closed);
    assert_eq!(r.ports[2].service, Some("https".to_string()));
    assert_eq!((r.summary.total_scanned, r.summary.open, r.summary.closed), (3, 2, 1));
}

#[test]
fn source_port_mapping() {
    assert_eq!(nelst::packet::source_port_from(0), 49152);
    assert_eq!(nelst::packet::source_port_from(16383), 65535);
    assert_eq!(nelst::packet::source_port_from(16384), 49152);
    assert_eq!(nelst::packet::source_port_from(65535), 65535);
}
