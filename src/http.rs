//! HTTP load-test rules: method names, `Name: Value` headers, the body
//! source, and which responses count as failures.

use vstd::prelude::*;
use crate::error::NelstError;
use crate::text::{chars_of, str_eq, string_of, trim, trim_bounds, upper_of, uppercase};

verus! {

#[derive(Debug, Clone, Copy, PartialEq, Eq, Structural)]
pub enum HttpMethod {
    Get,
    Post,
    Put,
    Delete,
    Patch,
    Head,
    Options,
}

/// The method an upper-cased name denotes.
pub open spec fn method_of(upper: Seq<char>) -> Option<HttpMethod> {
    if upper == "GET"@ {
        Some(HttpMethod::Get)
    } else if upper == "POST"@ {
        Some(HttpMethod::Post)
    } else if upper == "PUT"@ {
        Some(HttpMethod::Put)
    } else if upper == "DELETE"@ {
        Some(HttpMethod::Delete)
    } else if upper == "PATCH"@ {
        Some(HttpMethod::Patch)
    } else if upper == "HEAD"@ {
        Some(HttpMethod::Head)
    } else if upper == "OPTIONS"@ {
        Some(HttpMethod::Options)
    } else {
        None
    }
}

/// The method named by an already upper-cased name; an unknown name is an
/// argument error `Unknown HTTP method: <name>`.
pub fn method_from_upper(upper: &str) -> (r: Result<HttpMethod, NelstError>)
    ensures
        match method_of(upper@) {
            Some(m) => r == Ok::<HttpMethod, NelstError>(m),
            None => r matches Err(NelstError::Argument { message, source: None })
                && message@ == "Unknown HTTP method: "@ + upper@,
        },
{
    if str_eq(upper, "GET") {
        Ok(HttpMethod::Get)
    } else if str_eq(upper, "POST") {
        Ok(HttpMethod::Post)
    } else if str_eq(upper, "PUT") {
        Ok(HttpMethod::Put)
    } else if str_eq(upper, "DELETE") {
        Ok(HttpMethod::Delete)
    } else if str_eq(upper, "PATCH") {
        Ok(HttpMethod::Patch)
    } else if str_eq(upper, "HEAD") {
        Ok(HttpMethod::Head)
    } else if str_eq(upper, "OPTIONS") {
        Ok(HttpMethod::Options)
    } else {
        let mut m = String::from_str("Unknown HTTP method: ");
        m.append(upper);
        Err(NelstError::argument(m.as_str()))
    }
}

/// Parses a method name, ignoring case.
pub fn parse_method(method: &str) -> (r: Result<HttpMethod, NelstError>)
    ensures
        match method_of(upper_of(method@)) {
            Some(m) => r == Ok::<HttpMethod, NelstError>(m),
            None => r matches Err(NelstError::Argument { message, source: None })
                && message@ == "Unknown HTTP method: "@ + upper_of(method@),
        },
{
    let upper = uppercase(method);
    method_from_upper(upper.as_str())
}

/// Index of the first `c` in `s`.
pub open spec fn first_index(s: Seq<char>, c: char) -> Option<int> {
    if s.contains(c) {
        Some(choose|i: int| 0 <= i < s.len() && s[i] == c && forall|j: int| 0 <= j < i ==> s[j] != c)
    } else {
        None
    }
}

/// A header split at its first colon, name and value trimmed.
pub open spec fn header_spec(h: Seq<char>) -> Option<(Seq<char>, Seq<char>)> {
    match first_index(h, ':') {
        Some(i) => Some((trim(h.take(i)), trim(h.skip(i + 1)))),
        None => None,
    }
}

/// Parses a `Name: Value` header (split at the first colon, both sides
/// trimmed); without a colon it is an argument error.
pub fn parse_header(h: &str) -> (r: Result<(String, String), NelstError>)
    ensures
        match header_spec(h@) {
            Some((n, v)) => r matches Ok((a, b)) && a@ == n && b@ == v,
            None => r matches Err(NelstError::Argument { message, source: None })
                && message@ == "Invalid header format: "@ + h@ + ". Use 'Key: Value'"@,
        },
{
    let chars = chars_of(h);
    let n = chars.len();
    let mut i: usize = 0;
    while i < n && chars[i] != ':'
        invariant
            n == chars@.len(),
            i <= n,
            forall|j: int| 0 <= j < i ==> chars@[j] != ':',
        decreases n - i,
    {
        i = i + 1;
    }
    if i == n {
        proof {
            if h@.contains(':') {
                let k = choose|k: int| 0 <= k < h@.len() && h@[k] == ':';
                assert(chars@[k] == ':');
            }
        }
        let mut m = String::from_str("Invalid header format: ");
        m.append(h);
        m.append(". Use 'Key: Value'");
        return Err(NelstError::argument(m.as_str()));
    }
    proof {
        assert(h@.contains(':')) by {
            assert(h@[i as int] == ':');
        }
        let k = choose|k: int|
            0 <= k < h@.len() && h@[k] == ':' && forall|j: int| 0 <= j < k ==> h@[j] != ':';
        assert(k == i) by {
            if k < i {
                assert(chars@[k] != ':');
            }
            if k > i {
                assert(h@[i as int] != ':');
            }
        }
    }
    let (a, b) = trim_bounds(&chars, 0, i);
    let (c, d) = trim_bounds(&chars, i + 1, n);
    assert(chars@.subrange(0, i as int) =~= h@.take(i as int));
    assert(chars@.subrange(i + 1, n as int) =~= h@.skip(i + 1));
    Ok((string_of(&chars, a, b), string_of(&chars, c, d)))
}

/// Parses every header in order; the first malformed one is the error.
pub fn parse_headers(headers: &Vec<String>) -> (r: Result<Vec<(String, String)>, NelstError>)
    ensures
        (forall|k: int| 0 <= k < headers@.len() ==> header_spec(#[trigger] headers@[k]@) is Some)
            ==> (r matches Ok(v) && v@.len() == headers@.len() && forall|k: int|
            0 <= k < headers@.len() ==> (#[trigger] v@[k]).0@ == (header_spec(headers@[k]@)->0).0
                && v@[k].1@ == (header_spec(headers@[k]@)->0).1),
        (exists|k: int| 0 <= k < headers@.len() && header_spec(#[trigger] headers@[k]@) is None)
            ==> r is Err,
{
    let mut out: Vec<(String, String)> = Vec::new();
    let mut i: usize = 0;
    while i < headers.len()
        invariant
            i <= headers@.len(),
            out@.len() == i,
            forall|k: int| 0 <= k < i ==> header_spec(#[trigger] headers@[k]@) is Some,
            forall|k: int|
                0 <= k < i ==> (#[trigger] out@[k]).0@ == (header_spec(headers@[k]@)->0).0
                    && out@[k].1@ == (header_spec(headers@[k]@)->0).1,
        decreases headers@.len() - i,
    {
        match parse_header(headers[i].as_str()) {
            Ok(p) => {
                out.push(p);
            },
            Err(e) => {
                proof {
                    if exists|k: int| 0 <= k < headers@.len() && header_spec(#[trigger] headers@[k]@) is None {
                    }
                }
                return Err(e);
            },
        }
        i = i + 1;
    }
    Ok(out)
}

/// Where a request body comes from.
#[derive(Debug, Clone)]
pub enum BodySource {
    /// The body text itself.
    Literal(String),
    /// A file to read the body from, named after a leading `@`.
    File(String),
}

/// Reads a `--body` value: `@path` names a file, anything else is the
/// body itself.
pub fn parse_body(b: &str) -> (r: BodySource)
    ensures
        b@.len() > 0 && b@[0] == '@' ==> (r matches BodySource::File(p) && p@ == b@.drop_first()),
        !(b@.len() > 0 && b@[0] == '@') ==> (r matches BodySource::Literal(t) && t@ == b@),
{
    let chars = chars_of(b);
    if chars.len() > 0 && chars[0] == '@' {
        let p = string_of(&chars, 1, chars.len());
        assert(chars@.subrange(1, chars@.len() as int) =~= b@.drop_first());
        BodySource::File(p)
    } else {
        BodySource::Literal(String::from_str(b))
    }
}

/// A response with status 500 or above counts as a failed request.
pub fn is_failure_status(status: u16) -> (r: bool)
    ensures
        r == (status >= 500),
{
    status >= 500
}

/// Connections the shared client keeps per host: the concurrency, at
/// least 10.
pub fn pool_size(concurrency: usize) -> (r: usize)
    ensures
        r == if concurrency > 10 {
            concurrency
        } else {
            10
        },
{
    if concurrency > 10 {
        concurrency
    } else {
        10
    }
}

} // verus!
