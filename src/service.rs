//! Service detection: probes to send, and the rules that name a service
//! from its banner or, failing that, from its port.

use vstd::prelude::*;
use crate::ports::{split_on, split_ranges};
use crate::scan::opt_str_is;
use crate::text::{chars_of, lower_of, lowercase, string_of, trim, trim_bounds};

verus! {

/// What was learned of the service behind a port.
#[derive(Debug, Clone)]
pub struct ServiceInfo {
    pub port: u16,
    pub name: Option<String>,
    pub version: Option<String>,
    pub banner: Option<String>,
    pub product: Option<String>,
}

pub open spec fn probe_spec(port: u16) -> Option<Seq<u8>> {
    if port == 80 || port == 8080 || port == 8000 || port == 8888 {
        Some("GET / HTTP/1.0\r\n\r\n"@.map_values(|c: char| c as u8))
    } else if port == 25 || port == 587 || port == 465 {
        Some("EHLO test\r\n"@.map_values(|c: char| c as u8))
    } else if port == 6379 {
        Some("PING\r\n"@.map_values(|c: char| c as u8))
    } else {
        None
    }
}

fn ascii_bytes(s: &str) -> (r: Vec<u8>)
    ensures
        r@ == s@.map_values(|c: char| c as u8),
{
    let cs = chars_of(s);
    let mut out: Vec<u8> = Vec::new();
    let mut i: usize = 0;
    while i < cs.len()
        invariant
            cs@ == s@,
            i <= cs@.len(),
            out@ == s@.take(i as int).map_values(|c: char| c as u8),
        decreases cs@.len() - i,
    {
        out.push(cs[i] as u8);
        i = i + 1;
        assert(out@ =~= s@.take(i as int).map_values(|c: char| c as u8));
    }
    assert(s@.take(cs@.len() as int) =~= s@);
    out
}

/// Bytes to send after connecting so that the service answers: an HTTP
/// request to web ports, `EHLO` to mail ports, `PING` to Redis; nothing
/// for services that greet first.
pub fn get_probe_data(port: u16) -> (r: Option<Vec<u8>>)
    ensures
        match (r, probe_spec(port)) {
            (Some(v), Some(w)) => v@ == w,
            (None, None) => true,
            _ => false,
        },
{
    if port == 80 || port == 8080 || port == 8000 || port == 8888 {
        Some(ascii_bytes("GET / HTTP/1.0\r\n\r\n"))
    } else if port == 25 || port == 587 || port == 465 {
        Some(ascii_bytes("EHLO test\r\n"))
    } else if port == 6379 {
        Some(ascii_bytes("PING\r\n"))
    } else {
        None
    }
}

/// Service names guessed from the port alone.
pub open spec fn default_service_spec(port: u16) -> Option<Seq<char>> {
    if port == 20 {
        Some("ftp-data"@)
    } else if port == 21 {
        Some("ftp"@)
    } else if port == 22 {
        Some("ssh"@)
    } else if port == 23 {
        Some("telnet"@)
    } else if port == 25 {
        Some("smtp"@)
    } else if port == 53 {
        Some("dns"@)
    } else if port == 80 {
        Some("http"@)
    } else if port == 110 {
        Some("pop3"@)
    } else if port == 111 {
        Some("rpcbind"@)
    } else if port == 135 {
        Some("msrpc"@)
    } else if port == 139 {
        Some("netbios-ssn"@)
    } else if port == 143 {
        Some("imap"@)
    } else if port == 443 {
        Some("https"@)
    } else if port == 445 {
        Some("microsoft-ds"@)
    } else if port == 465 {
        Some("smtps"@)
    } else if port == 587 {
        Some("submission"@)
    } else if port == 993 {
        Some("imaps"@)
    } else if port == 995 {
        Some("pop3s"@)
    } else if port == 1433 {
        Some("ms-sql-s"@)
    } else if port == 1521 {
        Some("oracle"@)
    } else if port == 3306 {
        Some("mysql"@)
    } else if port == 3389 {
        Some("ms-wbt-server"@)
    } else if port == 5432 {
        Some("postgresql"@)
    } else if port == 5900 {
        Some("vnc"@)
    } else if port == 6379 {
        Some("redis"@)
    } else if port == 8080 {
        Some("http-proxy"@)
    } else if port == 8443 {
        Some("https-alt"@)
    } else if port == 27017 {
        Some("mongodb"@)
    } else {
        None
    }
}

/// The service usually found on a port; `None` for ports not in the table.
pub fn get_default_service(port: u16) -> (r: Option<String>)
    ensures
        opt_str_is(r, default_service_spec(port)),
{
    let s: Option<&'static str> = match port {
        20 => Some("ftp-data"),
        21 => Some("ftp"),
        22 => Some("ssh"),
        23 => Some("telnet"),
        25 => Some("smtp"),
        53 => Some("dns"),
        80 => Some("http"),
        110 => Some("pop3"),
        111 => Some("rpcbind"),
        135 => Some("msrpc"),
        139 => Some("netbios-ssn"),
        143 => Some("imap"),
        443 => Some("https"),
        445 => Some("microsoft-ds"),
        465 => Some("smtps"),
        587 => Some("submission"),
        993 => Some("imaps"),
        995 => Some("pop3s"),
        1433 => Some("ms-sql-s"),
        1521 => Some("oracle"),
        3306 => Some("mysql"),
        3389 => Some("ms-wbt-server"),
        5432 => Some("postgresql"),
        5900 => Some("vnc"),
        6379 => Some("redis"),
        8080 => Some("http-proxy"),
        8443 => Some("https-alt"),
        27017 => Some("mongodb"),
        _ => None,
    };
    match s {
        Some(x) => Some(String::from_str(x)),
        None => None,
    }
}

pub open spec fn starts_with(s: Seq<char>, p: Seq<char>) -> bool {
    p.len() <= s.len() && s.take(p.len() as int) == p
}

pub open spec fn contains_seq(s: Seq<char>, p: Seq<char>) -> bool {
    exists|i: int| 0 <= i && i + p.len() <= s.len() && #[trigger] s.subrange(i, i + p.len()) == p
}

fn matches_at(hay: &Vec<char>, at: usize, needle: &Vec<char>) -> (r: bool)
    requires
        at <= hay@.len(),
    ensures
        r == (at + needle@.len() <= hay@.len() && hay@.subrange(
            at as int,
            at + needle@.len(),
        ) == needle@),
{
    if hay.len() - at < needle.len() {
        return false;
    }
    let hl = hay.len();
    let mut k: usize = 0;
    while k < needle.len()
        invariant
            hl == hay@.len(),
            at + needle@.len() <= hay@.len(),
            k <= needle@.len(),
            forall|j: int| 0 <= j < k ==> hay@[at + j] == needle@[j],
        decreases needle@.len() - k,
    {
        assert(at + k < hay@.len());
        if hay[at + k] != needle[k] {
            assert(hay@.subrange(at as int, at + needle@.len())[k as int] != needle@[k as int]);
            return false;
        }
        k = k + 1;
    }
    assert(hay@.subrange(at as int, at + needle@.len()) =~= needle@);
    true
}

/// Whether `hay` begins with `needle`.
pub fn has_prefix(hay: &Vec<char>, needle: &str) -> (r: bool)
    ensures
        r == starts_with(hay@, needle@),
{
    let n = chars_of(needle);
    let r = matches_at(hay, 0, &n);
    proof {
        if n@.len() <= hay@.len() {
            assert(hay@.subrange(0, n@.len() as int) =~= hay@.take(n@.len() as int));
        }
    }
    r
}

/// Whether `needle` occurs in `hay`.
pub fn has_infix(hay: &Vec<char>, needle: &str) -> (r: bool)
    ensures
        r == contains_seq(hay@, needle@),
{
    let n = chars_of(needle);
    if n.len() > hay.len() {
        return false;
    }
    if n.len() == 0 {
        assert(hay@.subrange(0, 0 + needle@.len() as int) =~= needle@);
        return true;
    }
    let hl = hay.len();
    let last = hay.len() - n.len();
    let mut i: usize = 0;
    while i <= last
        invariant
            n@ == needle@,
            last + n@.len() == hay@.len(),
            hl == hay@.len(),
            n@.len() >= 1,
            forall|j: int| 0 <= j < i && j <= last ==> #[trigger] hay@.subrange(j, j + n@.len()) != n@,
        decreases last + 1 - i,
    {
        if matches_at(hay, i, &n) {
            return true;
        }
        i = i + 1;
    }
    false
}

/// Index of occurrence `n` (counting from 0) of `c` at or after `from`.
pub open spec fn find_nth(s: Seq<char>, c: char, n: nat, from: int) -> Option<int>
    decreases s.len() - from,
{
    if from < 0 || from >= s.len() {
        None
    } else if s[from] == c {
        if n == 0 {
            Some(from)
        } else {
            find_nth(s, c, (n - 1) as nat, from + 1)
        }
    } else {
        find_nth(s, c, n, from + 1)
    }
}

fn find_nth_exec(s: &Vec<char>, c: char, n: u64) -> (r: Option<usize>)
    ensures
        match (r, find_nth(s@, c, n as nat, 0)) {
            (Some(a), Some(b)) => a == b && a < s@.len(),
            (None, None) => true,
            _ => false,
        },
{
    let mut left: u64 = n;
    let mut i: usize = 0;
    while i < s.len()
        invariant
            i <= s@.len(),
            find_nth(s@, c, n as nat, 0) == find_nth(s@, c, left as nat, i as int),
        decreases s@.len() - i,
    {
        if s[i] == c {
            if left == 0 {
                return Some(i);
            }
            left = left - 1;
        }
        i = i + 1;
    }
    None
}

/// SSH version: everything after the second `-` (`SSH-2.0-OpenSSH_8.9`
/// gives `OpenSSH_8.9`).
pub open spec fn ssh_version(b: Seq<char>) -> Option<Seq<char>> {
    match find_nth(b, '-', 1, 0) {
        Some(j) => Some(b.skip(j + 1)),
        None => None,
    }
}

/// FTP version: the text after the first space, trimmed.
pub open spec fn ftp_version(b: Seq<char>) -> Option<Seq<char>> {
    match find_nth(b, ' ', 0, 0) {
        Some(j) => Some(trim(b.skip(j + 1))),
        None => None,
    }
}

/// The FTP server version in a greeting: the text after its first space.
fn extract_ftp_version(b: &Vec<char>) -> (r: Option<String>)
    ensures
        opt_str_is(r, ftp_version(b@)),
{
    let n = b.len();
    match find_nth_exec(b, ' ', 0) {
        Some(j) => {
            assert(j < n);
            let (c, d) = trim_bounds(b, j + 1, n);
            assert(b@.subrange(j + 1, b@.len() as int) =~= b@.skip(j + 1));
            Some(string_of(b, c, d))
        },
        None => None,
    }
}

/// SMTP server: the text after the 4-character reply code and separator,
/// trimmed.
pub open spec fn smtp_server(b: Seq<char>) -> Option<Seq<char>> {
    if b.len() > 4 {
        Some(trim(b.skip(4)))
    } else {
        None
    }
}

/// A line of text without one trailing carriage return (`str::lines`).
pub open spec fn strip_cr(l: Seq<char>) -> Seq<char> {
    if l.len() > 0 && l.last() == '\r' {
        l.drop_last()
    } else {
        l
    }
}

/// Line `k` of text split at newlines, as `str::lines` gives it: a line
/// that a newline ends loses one carriage return before it.
pub open spec fn line_at(ls: Seq<Seq<char>>, k: int) -> Seq<char> {
    if k < ls.len() - 1 {
        strip_cr(ls[k])
    } else {
        ls[k]
    }
}

/// The value of the first `Server:` header line (name matched after
/// lower-casing the line), trimmed.
pub open spec fn server_in_lines(ls: Seq<Seq<char>>, k: int) -> Option<Seq<char>>
    decreases ls.len() - k,
{
    if k < 0 || k >= ls.len() {
        None
    } else if starts_with(lower_of(line_at(ls, k)), "server:"@) {
        if line_at(ls, k).len() >= 7 {
            Some(trim(line_at(ls, k).skip(7)))
        } else {
            Some(Seq::empty())
        }
    } else {
        server_in_lines(ls, k + 1)
    }
}

pub open spec fn http_server(b: Seq<char>) -> Option<Seq<char>> {
    server_in_lines(split_on(b, '\n'), 0)
}

/// Finds the `Server:` header of an HTTP response banner.
pub fn extract_http_server(banner: &str) -> (r: Option<String>)
    ensures
        opt_str_is(r, http_server(banner@)),
{
    let chars = chars_of(banner);
    let n = chars.len();
    let lines = split_ranges(&chars, 0, n, '\n');
    let ghost ls = split_on(chars@.subrange(0, n as int), '\n');
    assert(chars@.subrange(0, n as int) =~= banner@);
    let mut k: usize = 0;
    while k < lines.len()
        invariant
            k <= lines@.len(),
            lines@.len() == ls.len(),
            ls == split_on(banner@, '\n'),
            server_in_lines(ls, 0) == server_in_lines(ls, k as int),
            forall|j: int|
                0 <= j < lines@.len() ==> {
                    &&& 0 <= (#[trigger] lines@[j]).0 <= lines@[j].1 <= n
                    &&& chars@.subrange(lines@[j].0 as int, lines@[j].1 as int) == ls[j]
                },
            n == chars@.len(),
        decreases lines@.len() - k,
    {
        let (a, b0) = lines[k];
        let b = if k + 1 < lines.len() && b0 > a && chars[b0 - 1] == '\r' {
            b0 - 1
        } else {
            b0
        };
        assert(chars@.subrange(a as int, b as int) =~= line_at(ls, k as int));
        let line = string_of(&chars, a, b);
        let lower = lowercase(line.as_str());
        let lower_chars = chars_of(lower.as_str());
        if has_prefix(&lower_chars, "server:") {
            proof {
                assert(lower_chars@.len() >= 7) by {
                    reveal_strlit("server:");
                }
            }
            if b - a >= 7 {
                let (c, d) = trim_bounds(&chars, a + 7, b);
                assert(chars@.subrange(a + 7, b as int) =~= line_at(ls, k as int).skip(7));
                return Some(string_of(&chars, c, d));
            } else {
                return Some(String::new());
            }
        }
        k = k + 1;
    }
    None
}

/// UTF-8 length of a character.
pub open spec fn utf8_len(c: char) -> int {
    if (c as u32) < 0x80 {
        1
    } else if (c as u32) < 0x800 {
        2
    } else if (c as u32) < 0x10000 {
        3
    } else {
        4
    }
}

/// Whether the UTF-8 byte at offset `target` is a newline, scanning from
/// character `k` at byte offset `off`.
pub open spec fn newline_at_byte(s: Seq<char>, target: int, k: int, off: int) -> bool
    decreases s.len() - k,
{
    if k < 0 || k >= s.len() || off > target {
        false
    } else if off == target {
        s[k] == '\n'
    } else {
        newline_at_byte(s, target, k + 1, off + utf8_len(s[k]))
    }
}

fn char_utf8_len(c: char) -> (r: usize)
    ensures
        r == utf8_len(c),
{
    if (c as u32) < 0x80 {
        1
    } else if (c as u32) < 0x800 {
        2
    } else if (c as u32) < 0x10000 {
        3
    } else {
        4
    }
}

fn newline_at_byte_four(s: &Vec<char>) -> (r: bool)
    ensures
        r == newline_at_byte(s@, 4, 0, 0),
{
    let mut k: usize = 0;
    let mut off: usize = 0;
    while k < s.len() && off < 4
        invariant
            k <= s@.len(),
            off <= 4 + 4,
            newline_at_byte(s@, 4, 0, 0) == newline_at_byte(s@, 4, k as int, off as int),
        decreases s@.len() - k,
    {
        off = off + char_utf8_len(s[k]);
        k = k + 1;
    }
    k < s.len() && off == 4 && s[k] == '\n'
}

/// What `char::is_numeric` says of a character (Unicode number categories).
pub uninterp spec fn numeric(c: char) -> bool;

/// Relies on `char::is_numeric`: true for characters in the Unicode
/// number categories.
#[verifier::external_body]
fn is_numeric_char(c: char) -> (r: bool)
    ensures
        r == numeric(c),
{
    c.is_numeric()
}

/// Index of the first numeric character at or after `k`.
pub open spec fn first_numeric(s: Seq<char>, k: int) -> Option<int>
    decreases s.len() - k,
{
    if k < 0 || k >= s.len() {
        None
    } else if numeric(s[k]) {
        Some(k)
    } else {
        first_numeric(s, k + 1)
    }
}

/// End of the run of numeric characters and dots starting at `k`.
pub open spec fn version_end(s: Seq<char>, k: int) -> int
    decreases s.len() - k,
{
    if k < 0 || k >= s.len() {
        k
    } else if numeric(s[k]) || s[k] == '.' {
        version_end(s, k + 1)
    } else {
        k
    }
}

/// MySQL version: from the first numeric character, the run of numeric
/// characters and dots.
pub open spec fn mysql_version(b: Seq<char>) -> Option<Seq<char>> {
    match first_numeric(b, 0) {
        Some(i) => Some(b.subrange(i, version_end(b, i))),
        None => None,
    }
}

/// The SMTP server named in a greeting.
fn extract_smtp_server(b: &Vec<char>) -> (r: Option<String>)
    ensures
        opt_str_is(r, smtp_server(b@)),
{
    if b.len() > 4 {
        let (c, d) = trim_bounds(b, 4, b.len());
        assert(b@.subrange(4, b@.len() as int) =~= b@.skip(4));
        Some(string_of(b, c, d))
    } else {
        None
    }
}

fn extract_mysql_version(b: &Vec<char>) -> (r: Option<String>)
    ensures
        opt_str_is(r, mysql_version(b@)),
{
    let mut i: usize = 0;
    while i < b.len() && !is_numeric_char(b[i])
        invariant
            i <= b@.len(),
            first_numeric(b@, 0) == first_numeric(b@, i as int),
        decreases b@.len() - i,
    {
        i = i + 1;
    }
    if i == b.len() {
        return None;
    }
    let mut e: usize = i;
    while e < b.len() && (is_numeric_char(b[e]) || b[e] == '.')
        invariant
            i <= e <= b@.len(),
            version_end(b@, i as int) == version_end(b@, e as int),
        decreases b@.len() - e,
    {
        e = e + 1;
    }
    Some(string_of(b, i, e))
}

/// The `(name, version, product)` a banner reveals, in this order of rules:
/// `SSH-` is ssh (OpenSSH); `HTTP/` is http with its `Server:` header;
/// `220` mentioning ftp, filezilla or vsftpd is ftp; `220` mentioning smtp,
/// esmtp, postfix or sendmail is smtp; `mysql`, or a newline as its fifth
/// byte, is mysql; `+PONG` is redis; postgresql; mongodb or `ismaster`.
/// `lower` is the banner lower-cased. Without a match, the port decides.
pub open spec fn identify_spec(port: u16, banner: Option<Seq<char>>, lower: Seq<char>) -> (
    Option<Seq<char>>,
    Option<Seq<char>>,
    Option<Seq<char>>,
) {
    match banner {
        Some(b) => if starts_with(b, "SSH-"@) {
            (Some("ssh"@), ssh_version(b), Some("OpenSSH"@))
        } else if starts_with(b, "HTTP/"@) {
            (Some("http"@), None, http_server(b))
        } else if starts_with(b, "220"@) && (contains_seq(lower, "ftp"@) || contains_seq(
            lower,
            "filezilla"@,
        ) || contains_seq(lower, "vsftpd"@)) {
            (Some("ftp"@), ftp_version(b), ftp_version(b))
        } else if starts_with(b, "220"@) && (contains_seq(lower, "smtp"@) || contains_seq(
            lower,
            "esmtp"@,
        ) || contains_seq(lower, "postfix"@) || contains_seq(lower, "sendmail"@)) {
            (Some("smtp"@), None, smtp_server(b))
        } else if contains_seq(b, "mysql"@) || newline_at_byte(b, 4, 0, 0) {
            (Some("mysql"@), mysql_version(b), Some("MySQL"@))
        } else if starts_with(b, "+PONG"@) {
            (Some("redis"@), None, Some("Redis"@))
        } else if contains_seq(lower, "postgresql"@) {
            (Some("postgresql"@), None, Some("PostgreSQL"@))
        } else if contains_seq(lower, "mongodb"@) || contains_seq(b, "ismaster"@) {
            (Some("mongodb"@), None, Some("MongoDB"@))
        } else {
            (default_service_spec(port), None, None)
        },
        None => (default_service_spec(port), None, None),
    }
}

pub open spec fn triple_is(
    r: (Option<String>, Option<String>, Option<String>),
    s: (Option<Seq<char>>, Option<Seq<char>>, Option<Seq<char>>),
) -> bool {
    opt_str_is(r.0, s.0) && opt_str_is(r.1, s.1) && opt_str_is(r.2, s.2)
}

fn some_str(s: &str) -> (r: Option<String>)
    ensures
        r matches Some(x) && x@ == s@,
{
    Some(String::from_str(s))
}

/// Identifies a service from its banner, given the banner lower-cased.
pub fn identify_service_folded(port: u16, banner: Option<&str>, lower: &str) -> (r: (
    Option<String>,
    Option<String>,
    Option<String>,
))
    ensures
        triple_is(
            r,
            identify_spec(
                port,
                match banner {
                    Some(b) => Some(b@),
                    None => None,
                },
                lower@,
            ),
        ),
{
    match banner {
        Some(bs) => {
            let b = chars_of(bs);
            let l = chars_of(lower);
            if has_prefix(&b, "SSH-") {
                let v = match find_nth_exec(&b, '-', 1) {
                    Some(j) => {
                        assert(b@.subrange(j + 1, b@.len() as int) =~= b@.skip(j + 1));
                        Some(string_of(&b, j + 1, b.len()))
                    },
                    None => None,
                };
                return (some_str("ssh"), v, some_str("OpenSSH"));
            }
            if has_prefix(&b, "HTTP/") {
                return (some_str("http"), None, extract_http_server(bs));
            }
            let code220 = has_prefix(&b, "220");
            if code220 && (has_infix(&l, "ftp") || has_infix(&l, "filezilla") || has_infix(
                &l,
                "vsftpd",
            )) {
                let v = extract_ftp_version(&b);
                let v2 = match &v {
                    Some(x) => Some(x.clone()),
                    None => None,
                };
                return (some_str("ftp"), v, v2);
            }
            if code220 && (has_infix(&l, "smtp") || has_infix(&l, "esmtp") || has_infix(
                &l,
                "postfix",
            ) || has_infix(&l, "sendmail")) {
                let server = extract_smtp_server(&b);
                return (some_str("smtp"), None, server);
            }
            if has_infix(&b, "mysql") || newline_at_byte_four(&b) {
                return (some_str("mysql"), extract_mysql_version(&b), some_str("MySQL"));
            }
            if has_prefix(&b, "+PONG") {
                return (some_str("redis"), None, some_str("Redis"));
            }
            if has_infix(&l, "postgresql") {
                return (some_str("postgresql"), None, some_str("PostgreSQL"));
            }
            if has_infix(&l, "mongodb") || has_infix(&b, "ismaster") {
                return (some_str("mongodb"), None, some_str("MongoDB"));
            }
            (get_default_service(port), None, None)
        },
        None => (get_default_service(port), None, None),
    }
}

/// Identifies the service on `port` from the banner it sent, if any:
/// `(name, version, product)`.
pub fn identify_service(port: u16, banner: Option<&str>) -> (r: (
    Option<String>,
    Option<String>,
    Option<String>,
))
    ensures
        triple_is(
            r,
            identify_spec(
                port,
                match banner {
                    Some(b) => Some(b@),
                    None => None,
                },
                match banner {
                    Some(b) => lower_of(b@),
                    None => Seq::empty(),
                },
            ),
        ),
{
    match banner {
        Some(b) => {
            let lower = lowercase(b);
            identify_service_folded(port, banner, lower.as_str())
        },
        None => identify_service_folded(port, None, ""),
    }
}

} // verus!
