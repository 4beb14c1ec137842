//! TLS inspection records: what a handshake revealed about a port and its
//! certificate, the expiry arithmetic, and the text rendering.

use vstd::prelude::*;
use crate::report::{join, push_joined, views};
use crate::text::{decimal, push_char, push_decimal};

verus! {

/// The leaf certificate of a TLS endpoint.
#[derive(Debug, Clone)]
pub struct CertificateInfo {
    pub subject: String,
    pub issuer: String,
    pub serial_number: String,
    pub not_before: String,
    pub not_after: String,
    pub is_expired: bool,
    pub days_until_expiry: i64,
    pub san: Vec<String>,
    pub signature_algorithm: String,
    pub public_key_algorithm: String,
    pub public_key_bits: Option<u32>,
}

/// What a TLS handshake with one port showed.
#[derive(Debug, Clone)]
pub struct SslInfo {
    pub port: u16,
    pub tls_version: Option<String>,
    pub cipher_suite: Option<String>,
    pub certificate: Option<CertificateInfo>,
    pub chain_length: usize,
    pub is_valid: bool,
    pub errors: Vec<String>,
}

impl SslInfo {
    /// The record of an inspection that failed with `error`.
    pub fn failed(port: u16, error: String) -> (r: Self)
        ensures
            r.port == port,
            r.tls_version is None,
            r.cipher_suite is None,
            r.certificate is None,
            r.chain_length == 0,
            !r.is_valid,
            r.errors@ == seq![error],
    {
        let mut errors: Vec<String> = Vec::new();
        errors.push(error);
        assert(errors@ =~= seq![error]);
        SslInfo {
            port,
            tls_version: None,
            cipher_suite: None,
            certificate: None,
            chain_length: 0,
            is_valid: false,
            errors,
        }
    }
}

/// Ports where TLS is usual (HTTPS, SMTPS, LDAPS, DNS over TLS, IMAPS,
/// POP3S and the alternative HTTPS ports).
pub open spec fn tls_port_spec(port: u16) -> bool {
    port == 443 || port == 465 || port == 636 || port == 853 || port == 993 || port == 995
        || port == 8443 || port == 9443
}

/// Whether an open port is worth a TLS handshake.
pub fn is_likely_ssl_port(port: u16) -> (r: bool)
    ensures
        r == tls_port_spec(port),
{
    port == 443 || port == 465 || port == 636 || port == 853 || port == 993 || port == 995
        || port == 8443 || port == 9443
}

/// `n / d` rounded toward zero.
pub open spec fn div_toward_zero(n: int, d: int) -> int {
    if n >= 0 {
        n / d
    } else {
        -((-n) / d)
    }
}

/// Whether a certificate valid until `not_after` (Unix seconds) has expired
/// at `now`, and the whole days left (negative once expired).
pub fn expiry(not_after: i64, now: i64) -> (r: (bool, i64))
    ensures
        r.0 == (not_after < now),
        r.1 == div_toward_zero(not_after - now, 86400),
{
    let diff: i128 = not_after as i128 - now as i128;
    if diff >= 0 {
        let q = (diff as u128) / 86400;
        assert(q <= 0x7fff_ffff_ffff_ffffu128);
        (not_after < now, q as i64)
    } else {
        let q = ((-diff) as u128) / 86400;
        assert(q <= 0x7fff_ffff_ffff_ffffu128);
        (not_after < now, -(q as i64))
    }
}

pub open spec fn bool_text(b: bool) -> Seq<char> {
    if b {
        "true"@
    } else {
        "false"@
    }
}

pub open spec fn signed_decimal(i: int) -> Seq<char> {
    if i < 0 {
        seq!['-'] + decimal((-i) as nat)
    } else {
        decimal(i as nat)
    }
}

/// `label` + `value` + newline.
pub open spec fn field(label: Seq<char>, value: Seq<char>) -> Seq<char> {
    label + value + "\n"@
}

pub open spec fn cert_names(c: CertificateInfo) -> Seq<char> {
    field("  Subject: "@, c.subject@) + field("  Issuer: "@, c.issuer@) + field(
        "  Serial: "@,
        c.serial_number@,
    )
}

pub open spec fn cert_validity(c: CertificateInfo) -> Seq<char> {
    field("  Not Before: "@, c.not_before@) + field("  Not After: "@, c.not_after@) + field(
        "  Expired: "@,
        bool_text(c.is_expired),
    ) + field("  Days Until Expiry: "@, signed_decimal(c.days_until_expiry as int))
}

pub open spec fn cert_keys(c: CertificateInfo) -> Seq<char> {
    (if c.san@.len() > 0 {
        field("  SAN: "@, join(views(c.san@), ", "@))
    } else {
        Seq::empty()
    }) + field("  Signature Algorithm: "@, c.signature_algorithm@) + field(
        "  Public Key Algorithm: "@,
        c.public_key_algorithm@,
    ) + match c.public_key_bits {
        Some(b) => field("  Public Key Bits: "@, decimal(b as nat)),
        None => Seq::empty(),
    }
}

pub open spec fn cert_text(c: CertificateInfo) -> Seq<char> {
    "\nCertificate:\n"@ + cert_names(c) + cert_validity(c) + cert_keys(c)
}

pub open spec fn error_lines(es: Seq<String>) -> Seq<char>
    decreases es.len(),
{
    if es.len() == 0 {
        Seq::empty()
    } else {
        error_lines(es.drop_last()) + "  - "@ + es.last()@ + "\n"@
    }
}

pub open spec fn ssl_head(i: SslInfo) -> Seq<char> {
    field("Port: "@, decimal(i.port as nat)) + match i.tls_version {
        Some(v) => field("TLS Version: "@, v@),
        None => Seq::empty(),
    } + match i.cipher_suite {
        Some(c) => field("Cipher Suite: "@, c@),
        None => Seq::empty(),
    } + field("Chain Length: "@, decimal(i.chain_length as nat)) + field(
        "Valid: "@,
        bool_text(i.is_valid),
    )
}

/// The text shown for an inspection.
pub open spec fn ssl_text(i: SslInfo) -> Seq<char> {
    ssl_head(i) + match i.certificate {
        Some(c) => cert_text(c),
        None => Seq::empty(),
    } + if i.errors@.len() > 0 {
        "\nErrors:\n"@ + error_lines(i.errors@)
    } else {
        Seq::empty()
    }
}

fn push_field(out: &mut String, label: &str, value: &str)
    ensures
        final(out)@ == old(out)@ + field(label@, value@),
{
    out.append(label);
    out.append(value);
    out.append("\n");
    assert(final(out)@ =~= old(out)@ + field(label@, value@));
}

fn push_bool(out: &mut String, b: bool)
    ensures
        final(out)@ == old(out)@ + bool_text(b),
{
    if b {
        out.append("true");
    } else {
        out.append("false");
    }
}

fn push_signed(out: &mut String, v: i64)
    ensures
        final(out)@ == old(out)@ + signed_decimal(v as int),
{
    if v < 0 {
        push_char(out, '-');
        let m: i128 = -(v as i128);
        push_decimal(out, m as u64);
        assert(final(out)@ =~= old(out)@ + signed_decimal(v as int));
    } else {
        push_decimal(out, v as u64);
    }
}

fn push_cert_names(out: &mut String, c: &CertificateInfo)
    ensures
        final(out)@ == old(out)@ + cert_names(*c),
{
    push_field(out, "  Subject: ", c.subject.as_str());
    push_field(out, "  Issuer: ", c.issuer.as_str());
    push_field(out, "  Serial: ", c.serial_number.as_str());
    assert(final(out)@ =~= old(out)@ + cert_names(*c));
}

fn push_cert_validity(out: &mut String, c: &CertificateInfo)
    ensures
        final(out)@ == old(out)@ + cert_validity(*c),
{
    push_field(out, "  Not Before: ", c.not_before.as_str());
    push_field(out, "  Not After: ", c.not_after.as_str());
    let ghost s1 = out@;
    out.append("  Expired: ");
    push_bool(out, c.is_expired);
    out.append("\n");
    assert(out@ =~= s1 + field("  Expired: "@, bool_text(c.is_expired)));
    let ghost s2 = out@;
    out.append("  Days Until Expiry: ");
    push_signed(out, c.days_until_expiry);
    out.append("\n");
    assert(out@ =~= s2 + field("  Days Until Expiry: "@, signed_decimal(c.days_until_expiry as int)));
    assert(final(out)@ =~= old(out)@ + cert_validity(*c));
}

fn push_cert_keys(out: &mut String, c: &CertificateInfo)
    ensures
        final(out)@ == old(out)@ + cert_keys(*c),
{
    if c.san.len() > 0 {
        let ghost s0 = out@;
        out.append("  SAN: ");
        push_joined(out, &c.san, ", ");
        out.append("\n");
        assert(out@ =~= s0 + field("  SAN: "@, join(views(c.san@), ", "@)));
    }
    let ghost s1 = out@;
    push_field(out, "  Signature Algorithm: ", c.signature_algorithm.as_str());
    push_field(out, "  Public Key Algorithm: ", c.public_key_algorithm.as_str());
    let ghost s2 = out@;
    match c.public_key_bits {
        Some(b) => {
            out.append("  Public Key Bits: ");
            push_decimal(out, b as u64);
            out.append("\n");
            assert(out@ =~= s2 + field("  Public Key Bits: "@, decimal(b as nat)));
        },
        None => {},
    }
    assert(final(out)@ =~= old(out)@ + cert_keys(*c));
}

fn push_cert(out: &mut String, c: &CertificateInfo)
    ensures
        final(out)@ == old(out)@ + cert_text(*c),
{
    out.append("\nCertificate:\n");
    push_cert_names(out, c);
    push_cert_validity(out, c);
    push_cert_keys(out, c);
    assert(final(out)@ =~= old(out)@ + cert_text(*c));
}

fn push_ssl_head(out: &mut String, info: &SslInfo)
    ensures
        final(out)@ == old(out)@ + ssl_head(*info),
{
    let ghost s0 = out@;
    out.append("Port: ");
    push_decimal(out, info.port as u64);
    out.append("\n");
    assert(out@ =~= s0 + field("Port: "@, decimal(info.port as nat)));
    match &info.tls_version {
        Some(v) => push_field(out, "TLS Version: ", v.as_str()),
        None => {},
    }
    match &info.cipher_suite {
        Some(c) => push_field(out, "Cipher Suite: ", c.as_str()),
        None => {},
    }
    let ghost s1 = out@;
    out.append("Chain Length: ");
    push_decimal(out, info.chain_length as u64);
    out.append("\n");
    assert(out@ =~= s1 + field("Chain Length: "@, decimal(info.chain_length as nat)));
    let ghost s2 = out@;
    out.append("Valid: ");
    push_bool(out, info.is_valid);
    out.append("\n");
    assert(out@ =~= s2 + field("Valid: "@, bool_text(info.is_valid)));
    assert(final(out)@ =~= old(out)@ + ssl_head(*info));
}

/// Renders an inspection as text: port, protocol, cipher, chain, validity,
/// the certificate's fields, and any errors.
pub fn format_ssl_info(info: &SslInfo) -> (r: String)
    ensures
        r@ == ssl_text(*info),
{
    let mut out = String::new();
    push_ssl_head(&mut out, info);
    match &info.certificate {
        Some(c) => push_cert(&mut out, c),
        None => {},
    }
    if info.errors.len() > 0 {
        out.append("\nErrors:\n");
        let ghost start = out@;
        let mut i: usize = 0;
        while i < info.errors.len()
            invariant
                i <= info.errors@.len(),
                out@ == start + error_lines(info.errors@.take(i as int)),
            decreases info.errors@.len() - i,
        {
            assert(info.errors@.take(i as int + 1).drop_last() =~= info.errors@.take(i as int));
            out.append("  - ");
            out.append(info.errors[i].as_str());
            out.append("\n");
            i = i + 1;
            assert(out@ =~= start + error_lines(info.errors@.take(i as int)));
        }
        assert(info.errors@.take(info.errors@.len() as int) =~= info.errors@);
    }
    assert(out@ =~= ssl_text(*info));
    out
}

} // verus!
