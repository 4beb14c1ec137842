use nelst::ssl::{expiry, format_ssl_info, CertificateInfo, SslInfo};

fn sample_cert() -> CertificateInfo {
    CertificateInfo {
        subject: "CN=example.com".to_string(),
        issuer: "CN=Let's Encrypt".to_string(),
        serial_number: "12345".to_string(),
        not_before: "2024-01-01".to_string(),
        not_after: "2025-01-01".to_string(),
        is_expired: false,
        days_until_expiry: 365,
        san: vec!["example.com".to_string(), "www.example.com".to_string()],
        signature_algorithm: "sha256WithRSAEncryption".to_string(),
        public_key_algorithm: "rsaEncryption".to_string(),
        public_key_bits: Some(2048),
    }
}

#[test]
fn test_format_ssl_info() {
    let info = SslInfo {
        port: 443,
        tls_version: Some("TLSv1.3".to_string()),
        cipher_suite: Some("TLS_AES_256_GCM_SHA384".to_string()),
        certificate: Some(sample_cert()),
        chain_length: 2,
        is_valid: true,
        errors: vec![],
    };
    let output = format_ssl_info(&info);
    assert!(output.contains("Port: 443"));
    assert!(output.contains("TLSv1.3"));
    assert!(output.contains("example.com"));
    assert!(output.contains("  SAN: example.com, www.example.com\n"));
    assert!(output.contains("  Public Key Bits: 2048\n"));
    assert!(!output.contains("Errors:"));
}

#[test]
fn test_ssl_info_default_invalid() {
    let info = SslInfo::failed(443, "Connection refused".to_string());
    assert!(!info.is_valid);
    assert_eq!(info.errors.len(), 1);
    assert_eq!(info.chain_length, 0);
}

#[test]
fn test_certificate_info_expired() {
    let (is_expired, days) = expiry(1_609_459_200, 1_609_459_200 + 365 * 86400);
    let mut cert = sample_cert();
    cert.is_expired = is_expired;
    cert.days_until_expiry = days;
    assert!(cert.is_expired);
    assert!(cert.days_until_expiry < 0);
    assert_eq!(days, -365);
    let text = format_ssl_info(&SslInfo {
        port: 1,
        tls_version: None,
        cipher_suite: None,
        certificate: Some(cert),
        chain_length: 1,
        is_valid: false,
        errors: vec![],
    });
    assert!(text.contains("  Expired: true\n  Days Until Expiry: -365\n"));
}

#[test]
fn test_certificate_info_with_san() {
    let mut cert = sample_cert();
    cert.san.push("api.example.com".to_string());
    cert.public_key_bits = Some(4096);
    assert_eq!(cert.san.len(), 3);
    assert!(cert.san.contains(&"api.example.com".to_string()));
    assert_eq!(cert.public_key_bits, Some(4096));
}

#[test]
fn test_format_ssl_info_with_errors() {
    let info = SslInfo {
        port: 8443,
        tls_version: None,
        cipher_suite: None,
        certificate: None,
        chain_length: 0,
        is_valid: false,
        errors: vec!["Connection refused".to_string(), "Timeout".to_string()],
    };
    let output = format_ssl_info(&info);
    assert!(output.contains("Port: 8443"));
    assert!(output.contains("Valid: false"));
    assert!(output.contains("Connection refused"));
    assert!(output.contains("Timeout"));
    assert_eq!(
        output,
        "Port: 8443\nChain Length: 0\nValid: false\n\nErrors:\n  - Connection refused\n  - Timeout\n"
    );
}

#[test]
fn expiry_counts_whole_days_toward_zero() {
    assert_eq!(expiry(100 * 86400 + 5, 0), (false, 100));
    assert_eq!(expiry(0, 86400 + 1), (true, -1));
    assert_eq!(expiry(10, 10), (false, 0));
}

#[test]
fn tls_ports_are_recognised() {
    assert!(nelst::ssl::is_likely_ssl_port(443));
    assert!(nelst::ssl::is_likely_ssl_port(9443));
    assert!(!nelst::ssl::is_likely_ssl_port(80));
}
