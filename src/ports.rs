//! Port-list syntax: comma-separated tokens, each a port or an inclusive
//! `low-high` range.

use vstd::prelude::*;
use crate::text::{chars_of, decimal, is_space, push_char, push_decimal, string_of, trim, trim_bounds, trim_end, trim_start};

verus! {

/// `str::split(c)`: the pieces between occurrences of `c` (one more piece
/// than there are occurrences).
pub open spec fn split_on(s: Seq<char>, c: char) -> Seq<Seq<char>>
    decreases s.len(),
{
    if s.len() == 0 {
        seq![Seq::<char>::empty()]
    } else {
        let p = split_on(s.drop_last(), c);
        if s.last() == c {
            p.push(Seq::<char>::empty())
        } else {
            p.update(p.len() - 1, p.last().push(s.last()))
        }
    }
}

pub proof fn lemma_split_len(s: Seq<char>, c: char)
    ensures
        split_on(s, c).len() >= 1,
        split_on(s, c).len() == 1 <==> !s.contains(c),
    decreases s.len(),
{
    if s.len() > 0 {
        let t = s.drop_last();
        lemma_split_len(t, c);
        if s.last() == c {
            assert(s[s.len() - 1] == c);
        } else {
            if t.contains(c) {
                let k = choose|k: int| 0 <= k < t.len() && t[k] == c;
                assert(s[k] == c);
            }
            if s.contains(c) {
                let k = choose|k: int| 0 <= k < s.len() && s[k] == c;
                assert(t[k] == c);
            }
        }
    }
}

pub open spec fn is_digit(c: char) -> bool {
    '0' <= c && c <= '9'
}

/// Value of a string of decimal digits.
pub open spec fn digits_value(s: Seq<char>) -> nat
    decreases s.len(),
{
    if s.len() == 0 {
        0
    } else {
        digits_value(s.drop_last()) * 10 + ((s.last() as u32) - ('0' as u32)) as nat
    }
}

pub open spec fn all_digits(s: Seq<char>) -> bool {
    forall|i: int| 0 <= i < s.len() ==> is_digit(s[i])
}

/// `s` without one leading `+`.
pub open spec fn without_plus(s: Seq<char>) -> Seq<char> {
    if s.len() > 0 && s[0] == '+' {
        s.drop_first()
    } else {
        s
    }
}

/// `u16::from_str`: an optional `+`, then one or more ASCII digits whose
/// value fits in 16 bits.
pub open spec fn parse_u16_spec(s: Seq<char>) -> Option<u16> {
    let d = without_plus(s);
    if d.len() > 0 && all_digits(d) && digits_value(d) <= 65535 {
        Some(digits_value(d) as u16)
    } else {
        None
    }
}

/// The ports `a, a+1, ..., b`.
pub open spec fn port_range(a: u16, b: u16) -> Seq<u16> {
    Seq::new((b - a + 1) as nat, |i: int| (a + i) as u16)
}

/// One comma-separated token of a port list.
pub open spec fn parse_token(p: Seq<char>) -> Result<Seq<u16>, Seq<char>> {
    let t = trim(p);
    if t.contains('-') {
        let r = split_on(t, '-');
        if r.len() != 2 {
            Err("Invalid port range: "@ + t)
        } else {
            match (parse_u16_spec(trim(r[0])), parse_u16_spec(trim(r[1]))) {
                (None, _) => Err("Invalid port number: "@ + r[0]),
                (Some(_), None) => Err("Invalid port number: "@ + r[1]),
                (Some(a), Some(b)) => if a > b {
                    Err("Invalid port range: "@ + decimal(a as nat) + " > "@ + decimal(b as nat))
                } else {
                    Ok(port_range(a, b))
                },
            }
        }
    } else {
        match parse_u16_spec(t) {
            None => Err("Invalid port number: "@ + t),
            Some(v) => Ok(seq![v]),
        }
    }
}

pub open spec fn all_space(s: Seq<char>) -> bool {
    forall|i: int| 0 <= i < s.len() ==> is_space(s[i])
}

proof fn lemma_trim_start_skips(a: Seq<char>, x: Seq<char>)
    requires
        all_space(a),
    ensures
        trim_start(a + x) == trim_start(x),
    decreases a.len(),
{
    if a.len() > 0 {
        assert((a + x)[0] == a[0]);
        assert((a + x).drop_first() =~= a.drop_first() + x);
        lemma_trim_start_skips(a.drop_first(), x);
    } else {
        assert(a + x =~= x);
    }
}

proof fn lemma_trim_end_skips(x: Seq<char>, b: Seq<char>)
    requires
        all_space(b),
    ensures
        trim_end(x + b) == trim_end(x),
    decreases b.len(),
{
    if b.len() > 0 {
        assert((x + b).last() == b.last());
        assert((x + b).drop_last() =~= x + b.drop_last());
        lemma_trim_end_skips(x, b.drop_last());
    } else {
        assert(x + b =~= x);
    }
}

proof fn lemma_trim_start_append(t: Seq<char>, b: Seq<char>)
    ensures
        all_space(t) ==> trim_start(t + b) == trim_start(b),
        !all_space(t) ==> trim_start(t + b) == trim_start(t) + b,
    decreases t.len(),
{
    if t.len() == 0 {
        assert(t + b =~= b);
    } else {
        assert((t + b)[0] == t[0]);
        assert((t + b).drop_first() =~= t.drop_first() + b);
        lemma_trim_start_append(t.drop_first(), b);
        if is_space(t[0]) {
            if all_space(t.drop_first()) {
                assert(all_space(t)) by {
                    assert forall|i: int| 0 <= i < t.len() implies is_space(t[i]) by {
                        if i > 0 {
                            assert(t[i] == t.drop_first()[i - 1]);
                        }
                    }
                }
            } else {
                assert(!all_space(t)) by {
                    let j = choose|j: int| 0 <= j < t.drop_first().len() && !is_space(t.drop_first()[j]);
                    assert(!is_space(t[j + 1]));
                }
            }
        } else {
            assert(!all_space(t));
        }
    }
}

proof fn lemma_all_space_trims_empty(s: Seq<char>)
    requires
        all_space(s),
    ensures
        trim_start(s) == Seq::<char>::empty(),
    decreases s.len(),
{
    if s.len() > 0 {
        lemma_all_space_trims_empty(s.drop_first());
    }
}

/// Whitespace around a token of a port list does not change what it
/// denotes.
pub proof fn law_port_token_spacing(a: Seq<char>, t: Seq<char>, b: Seq<char>)
    requires
        all_space(a),
        all_space(b),
    ensures
        parse_token(a + t + b) == parse_token(t),
{
    assert(a + t + b =~= a + (t + b));
    lemma_trim_start_skips(a, t + b);
    lemma_trim_start_append(t, b);
    if all_space(t) {
        lemma_all_space_trims_empty(t);
        lemma_all_space_trims_empty(b);
        assert(trim(a + t + b) == trim(t));
    } else {
        lemma_trim_end_skips(trim_start(t), b);
        assert(trim(a + t + b) == trim(t));
    }
}

/// Ports of a sequence of tokens, concatenated in order; the error of the
/// first bad token.
pub open spec fn parse_tokens(ts: Seq<Seq<char>>) -> Result<Seq<u16>, Seq<char>>
    decreases ts.len(),
{
    if ts.len() == 0 {
        Ok(Seq::empty())
    } else {
        match parse_tokens(ts.drop_last()) {
            Err(e) => Err(e),
            Ok(v) => match parse_token(ts.last()) {
                Err(e) => Err(e),
                Ok(w) => Ok(v + w),
            },
        }
    }
}

/// Once a prefix of the tokens fails, the whole list fails with that error.
proof fn lemma_tokens_error_sticks(ts: Seq<Seq<char>>, j: int)
    requires
        0 <= j <= ts.len(),
        parse_tokens(ts.take(j)) is Err,
    ensures
        parse_tokens(ts) == parse_tokens(ts.take(j)),
    decreases ts.len() - j,
{
    if j == ts.len() {
        assert(ts.take(j) =~= ts);
    } else {
        assert(ts.take(j + 1).drop_last() =~= ts.take(j));
        lemma_tokens_error_sticks(ts, j + 1);
    }
}

/// The port list denoted by `s`.
pub open spec fn parse_ports_spec(s: Seq<char>) -> Result<Seq<u16>, Seq<char>> {
    parse_tokens(split_on(s, ','))
}

/// Ranges `[a, b)` of `chars[lo..hi]` split at every `c`.
pub(crate) fn split_ranges(chars: &Vec<char>, lo: usize, hi: usize, c: char) -> (r: Vec<(usize, usize)>)
    requires
        lo <= hi <= chars@.len(),
    ensures
        r@.len() == split_on(chars@.subrange(lo as int, hi as int), c).len(),
        forall|k: int|
            0 <= k < r@.len() ==> {
                &&& lo <= (#[trigger] r@[k]).0 <= r@[k].1 <= hi
                &&& chars@.subrange(r@[k].0 as int, r@[k].1 as int) == split_on(
                    chars@.subrange(lo as int, hi as int),
                    c,
                )[k]
            },
{
    let mut out: Vec<(usize, usize)> = Vec::new();
    let mut start: usize = lo;
    let mut i: usize = lo;
    while i < hi
        invariant
            lo <= start <= i <= hi <= chars@.len(),
            split_on(chars@.subrange(lo as int, i as int), c).len() == out@.len() + 1,
            split_on(chars@.subrange(lo as int, i as int), c).last() == chars@.subrange(
                start as int,
                i as int,
            ),
            forall|k: int|
                0 <= k < out@.len() ==> {
                    &&& lo <= (#[trigger] out@[k]).0 <= out@[k].1 <= hi
                    &&& chars@.subrange(out@[k].0 as int, out@[k].1 as int) == split_on(
                        chars@.subrange(lo as int, i as int),
                        c,
                    )[k]
                },
        decreases hi - i,
    {
        let ghost prev = chars@.subrange(lo as int, i as int);
        let ghost next = chars@.subrange(lo as int, i + 1);
        assert(next.drop_last() =~= prev);
        assert(next.last() == chars@[i as int]);
        if chars[i] == c {
            out.push((start, i));
            start = i + 1;
            assert(chars@.subrange(start as int, i + 1) =~= Seq::<char>::empty());
        } else {
            assert(chars@.subrange(start as int, i + 1) =~= chars@.subrange(
                start as int,
                i as int,
            ).push(chars@[i as int]));
        }
        i = i + 1;
    }
    out.push((start, hi));
    proof {
        let s = chars@.subrange(lo as int, hi as int);
        assert forall|k: int| 0 <= k < out@.len() implies {
            &&& lo <= (#[trigger] out@[k]).0 <= out@[k].1 <= hi
            &&& chars@.subrange(out@[k].0 as int, out@[k].1 as int) == split_on(s, c)[k]
        } by {
            if k == out@.len() - 1 {
                assert(split_on(s, c).last() == split_on(s, c)[k]);
            }
        }
    }
    out
}

/// Parses `chars[lo..hi]` as a 16-bit number (`u16::from_str`).
fn parse_u16_at(chars: &Vec<char>, lo: usize, hi: usize) -> (r: Option<u16>)
    requires
        lo <= hi <= chars@.len(),
    ensures
        r == parse_u16_spec(chars@.subrange(lo as int, hi as int)),
{
    let ghost s = chars@.subrange(lo as int, hi as int);
    let mut a = lo;
    if a < hi && chars[a] == '+' {
        a = a + 1;
    }
    let ghost d = chars@.subrange(a as int, hi as int);
    assert(d =~= without_plus(s));
    if a == hi {
        assert(d.len() == 0);
        return None;
    }
    let mut v: u64 = 0;
    let mut i: usize = a;
    while i < hi
        invariant
            lo <= a <= i <= hi <= chars@.len(),
            d == chars@.subrange(a as int, hi as int),
            s == chars@.subrange(lo as int, hi as int),
            d == without_plus(s),
            d.len() > 0,
            forall|k: int| a <= k < i ==> is_digit(chars@[k]),
            v == if digits_value(chars@.subrange(a as int, i as int)) > 65536 {
                65536
            } else {
                digits_value(chars@.subrange(a as int, i as int))
            },
        decreases hi - i,
    {
        let ch = chars[i];
        if !('0' <= ch && ch <= '9') {
            assert(!is_digit(d[i - a]));
            assert(!all_digits(d));
            return None;
        }
        let ghost pre = chars@.subrange(a as int, i as int);
        let ghost nxt = chars@.subrange(a as int, i + 1);
        assert(nxt.drop_last() =~= pre);
        let dv = (ch as u32 - '0' as u32) as u64;
        let w = v * 10 + dv;
        v = if w > 65536 {
            65536
        } else {
            w
        };
        i = i + 1;
    }
    assert(chars@.subrange(a as int, i as int) =~= d);
    if v > 65535 {
        None
    } else {
        Some(v as u16)
    }
}

fn message_with(prefix: &str, chars: &Vec<char>, lo: usize, hi: usize) -> (r: String)
    requires
        lo <= hi <= chars@.len(),
    ensures
        r@ == prefix@ + chars@.subrange(lo as int, hi as int),
{
    let mut m = String::from_str(prefix);
    let piece = string_of(chars, lo, hi);
    m.append(piece.as_str());
    m
}

fn parse_token_at(chars: &Vec<char>, lo: usize, hi: usize) -> (r: Result<Vec<u16>, String>)
    requires
        lo <= hi <= chars@.len(),
    ensures
        match (r, parse_token(chars@.subrange(lo as int, hi as int))) {
            (Ok(v), Ok(w)) => v@ == w,
            (Err(e), Err(f)) => e@ == f,
            _ => false,
        },
{
    let (a, b) = trim_bounds(chars, lo, hi);
    let ghost t = chars@.subrange(a as int, b as int);
    let pieces = split_ranges(chars, a, b, '-');
    proof {
        lemma_split_len(t, '-');
    }
    if pieces.len() > 1 {
        if pieces.len() != 2 {
            return Err(message_with("Invalid port range: ", chars, a, b));
        }
        let (a0, b0) = pieces[0];
        let (a1, b1) = pieces[1];
        let (c0, d0) = trim_bounds(chars, a0, b0);
        let (c1, d1) = trim_bounds(chars, a1, b1);
        let start = match parse_u16_at(chars, c0, d0) {
            None => {
                return Err(message_with("Invalid port number: ", chars, a0, b0));
            },
            Some(x) => x,
        };
        let end = match parse_u16_at(chars, c1, d1) {
            None => {
                return Err(message_with("Invalid port number: ", chars, a1, b1));
            },
            Some(x) => x,
        };
        if start > end {
            let mut m = String::from_str("Invalid port range: ");
            push_decimal(&mut m, start as u64);
            m.append(" > ");
            push_decimal(&mut m, end as u64);
            return Err(m);
        }
        let mut out: Vec<u16> = Vec::new();
        let mut p: u16 = start;
        loop
            invariant_except_break
                start <= p <= end,
                out@ == port_range(start, end).take(p - start),
            ensures
                out@ == port_range(start, end),
            decreases end - p,
        {
            out.push(p);
            assert(out@ =~= port_range(start, end).take(p - start + 1));
            if p == end {
                assert(out@ =~= port_range(start, end));
                break;
            }
            p = p + 1;
        }
        Ok(out)
    } else {
        match parse_u16_at(chars, a, b) {
            None => Err(message_with("Invalid port number: ", chars, a, b)),
            Some(x) => {
                let mut out: Vec<u16> = Vec::new();
                out.push(x);
                assert(out@ =~= seq![x]);
                Ok(out)
            },
        }
    }
}

/// Parses a port list such as `"22,80-82,443"`: comma-separated tokens,
/// whitespace around tokens ignored, each a port or an inclusive range.
/// A malformed number, a token with more than one `-`, or a reversed range
/// is an error naming it.
pub fn parse_ports(ports_str: &str) -> (r: Result<Vec<u16>, String>)
    ensures
        match (r, parse_ports_spec(ports_str@)) {
            (Ok(v), Ok(w)) => v@ == w,
            (Err(e), Err(f)) => e@ == f,
            _ => false,
        },
{
    let chars = chars_of(ports_str);
    let n = chars.len();
    let ghost s = chars@.subrange(0, n as int);
    assert(s =~= ports_str@);
    let tokens = split_ranges(&chars, 0, n, ',');
    let mut result: Vec<u16> = Vec::new();
    let mut k: usize = 0;
    while k < tokens.len()
        invariant
            k <= tokens@.len(),
            tokens@.len() == split_on(s, ',').len(),
            s == chars@.subrange(0, n as int),
            s == ports_str@,
            n == chars@.len(),
            forall|j: int|
                0 <= j < tokens@.len() ==> {
                    &&& 0 <= (#[trigger] tokens@[j]).0 <= tokens@[j].1 <= n
                    &&& chars@.subrange(tokens@[j].0 as int, tokens@[j].1 as int) == split_on(
                        s,
                        ',',
                    )[j]
                },
            parse_tokens(split_on(s, ',').take(k as int)) == Ok::<Seq<u16>, Seq<char>>(result@),
        decreases tokens@.len() - k,
    {
        let (a, b) = tokens[k];
        let ghost ts = split_on(s, ',').take(k as int + 1);
        assert(ts.drop_last() =~= split_on(s, ',').take(k as int));
        assert(ts.last() == split_on(s, ',')[k as int]);
        match parse_token_at(&chars, a, b) {
            Err(e) => {
                proof {
                    assert(parse_tokens(ts) == Err::<Seq<u16>, Seq<char>>(e@));
                    lemma_tokens_error_sticks(split_on(s, ','), k as int + 1);
                }
                return Err(e);
            },
            Ok(w) => {
                let mut i: usize = 0;
                let ghost before = result@;
                while i < w.len()
                    invariant
                        i <= w@.len(),
                        result@ == before + w@.take(i as int),
                    decreases w@.len() - i,
                {
                    result.push(w[i]);
                    i = i + 1;
                    assert(result@ =~= before + w@.take(i as int));
                }
                assert(w@.take(w@.len() as int) =~= w@);
            },
        }
        k = k + 1;
    }
    assert(split_on(s, ',').take(tokens@.len() as int) =~= split_on(s, ','));
    Ok(result)
}

} // verus!
