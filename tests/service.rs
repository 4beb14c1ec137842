use nelst::service::{
    extract_http_server, get_default_service, get_probe_data, identify_service, identify_service_folded,
    ServiceInfo,
};

#[test]
fn test_get_default_service() {
    assert_eq!(get_default_service(22), Some("ssh".to_string()));
    assert_eq!(get_default_service(80), Some("http".to_string()));
    assert_eq!(get_default_service(443), Some("https".to_string()));
    assert_eq!(get_default_service(3306), Some("mysql".to_string()));
    assert_eq!(get_default_service(65000), None);
}

#[test]
fn test_identify_service_from_banner() {
    let (name, version, _) = identify_service(22, Some("SSH-2.0-OpenSSH_8.9"));
    assert_eq!(name, Some("ssh".to_string()));
    assert!(version.is_some());

    let (name, _, server) = identify_service(80, Some("HTTP/1.1 200 OK\r\nServer: nginx/1.18.0"));
    assert_eq!(name, Some("http".to_string()));
    assert_eq!(server, Some("nginx/1.18.0".to_string()));

    let (name, _, product) = identify_service(6379, Some("+PONG"));
    assert_eq!(name, Some("redis".to_string()));
    assert_eq!(product, Some("Redis".to_string()));
}

#[test]
fn test_identify_service_from_port_only() {
    let (name, _, _) = identify_service(22, None);
    assert_eq!(name, Some("ssh".to_string()));
    let (name, _, _) = identify_service(443, None);
    assert_eq!(name, Some("https".to_string()));
}

#[test]
fn test_get_probe_data() {
    assert!(get_probe_data(80).is_some());
    assert!(get_probe_data(22).is_none());
    assert!(get_probe_data(6379).is_some());
}

#[test]
fn probe_bytes_are_exact() {
    assert_eq!(get_probe_data(8080).unwrap(), b"GET / HTTP/1.0\r\n\r\n".to_vec());
    assert_eq!(get_probe_data(587).unwrap(), b"EHLO test\r\n".to_vec());
    assert_eq!(get_probe_data(6379).unwrap(), b"PING\r\n".to_vec());
}

#[test]
fn test_identify_service_ftp_banner() {
    let (name, version, _) = identify_service(21, Some("220-FileZilla Server 1.0.0"));
    assert_eq!(name, Some("ftp".to_string()));
    assert!(version.is_some());
}

#[test]
fn test_identify_service_smtp_banner() {
    let (name, _, product) = identify_service(25, Some("220 mail.example.com ESMTP Postfix"));
    assert_eq!(name, Some("smtp".to_string()));
    assert!(product.is_some());
}

#[test]
fn test_identify_service_mysql_banner() {
    let (name, _, product) = identify_service(3306, Some("5.7.32-mysql"));
    assert_eq!(name, Some("mysql".to_string()));
    assert_eq!(product, Some("MySQL".to_string()));
}

#[test]
fn test_identify_service_unknown_port_no_banner() {
    let (name, version, product) = identify_service(54321, None);
    assert!(name.is_none());
    assert!(version.is_none());
    assert!(product.is_none());
}

#[test]
fn test_service_info_struct() {
    let info = ServiceInfo {
        port: 22,
        name: Some("ssh".to_string()),
        version: Some("OpenSSH_8.9".to_string()),
        banner: Some("SSH-2.0-OpenSSH_8.9".to_string()),
        product: Some("OpenSSH".to_string()),
    };
    assert_eq!(info.port, 22);
    assert_eq!(info.name, Some("ssh".to_string()));
}

#[test]
fn banner_details_are_extracted() {
    let (_, v, _) = identify_service(22, Some("SSH-2.0-OpenSSH_8.9-extra"));
    assert_eq!(v, Some("OpenSSH_8.9-extra".to_string()));
    let (_, v, p) = identify_service(21, Some("220-FileZilla Server 1.0.0"));
    assert_eq!(v, Some("Server 1.0.0".to_string()));
    assert_eq!(p, v);
    let (_, _, p) = identify_service(25, Some("220 mail.example.com ESMTP Postfix"));
    assert_eq!(p, Some("mail.example.com ESMTP Postfix".to_string()));
    let (_, v, _) = identify_service(3306, Some("5.7.32-mysql"));
    assert_eq!(v, Some("5.7.32".to_string()));
    let (n, _, _) = identify_service(9999, Some("J\0\0\0\n8.0.1"));
    assert_eq!(n, Some("mysql".to_string()));
    let (n, _, p) = identify_service(1, Some("It is PostgreSQL"));
    assert_eq!((n, p), (Some("postgresql".to_string()), Some("PostgreSQL".to_string())));
    let (n, _, _) = identify_service(1, Some("{ismaster: 1}"));
    assert_eq!(n, Some("mongodb".to_string()));
    let (n, v, p) = identify_service(443, Some("garbage"));
    assert_eq!((n, v, p), (Some("https".to_string()), None, None));
}

#[test]
fn folded_banner_decides_case_insensitive_rules() {
    let (n, _, _) = identify_service_folded(21, Some("220 FTP ready"), "220 ftp ready");
    assert_eq!(n, Some("ftp".to_string()));
    let (n, _, _) = identify_service_folded(7, Some("220 FTP ready"), "220 xyz ready");
    assert_eq!(n, None);
    let (n, _, _) = identify_service_folded(7, Some("hello"), "mongodb");
    assert_eq!(n, Some("mongodb".to_string()));
}

#[test]
fn http_server_header_any_case() {
    assert_eq!(
        extract_http_server("HTTP/1.0 200 OK\r\nDate: x\r\nSERVER:  Apache \r\n"),
        Some("Apache".to_string())
    );
    assert_eq!(extract_http_server("HTTP/1.0 200 OK\r\n"), None);
}
